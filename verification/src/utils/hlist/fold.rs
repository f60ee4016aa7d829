use vstd::prelude::*;

verus! {

/// A list of functions that folds the list `L` element by element into an accumulator of type
/// `B`, stopping at the first function that fails with an error of type `E`.
pub trait FnFoldHList<L, B, E>: Sized {
    /// Every function that the fold reaches accepts its accumulator and element.
    spec fn invoke_requires(self, accum: B, list: L) -> bool;

    /// `output` is a result that the fold may give: the first error, or the last accumulator.
    spec fn invoke_ensures(self, accum: B, list: L, output: Result<B, E>) -> bool;

    fn invoke(self, accum: B, list: L) -> (r: Result<B, E>)
        requires
            self.invoke_requires(accum, list),
        ensures
            self.invoke_ensures(accum, list, r),
    ;
}

impl<Head, Tail, LHead, LTail, B, E> FnFoldHList<(LHead, LTail), B, E> for (Head, Tail) where
    Head: FnMut(B, LHead) -> Result<B, E>,
    Tail: FnFoldHList<LTail, B, E>,
 {
    open spec fn invoke_requires(self, accum: B, list: (LHead, LTail)) -> bool {
        &&& call_requires(self.0, (accum, list.0))
        &&& forall|step: Result<B, E>|
            #![trigger call_ensures(self.0, (accum, list.0), step)]
            call_ensures(self.0, (accum, list.0), step) && step is Ok ==> self.1.invoke_requires(
                step->Ok_0,
                list.1,
            )
    }

    open spec fn invoke_ensures(self, accum: B, list: (LHead, LTail), output: Result<B, E>) -> bool {
        exists|step: Result<B, E>|
            #![trigger call_ensures(self.0, (accum, list.0), step)]
            {
                &&& call_ensures(self.0, (accum, list.0), step)
                &&& match step {
                    Ok(next) => self.1.invoke_ensures(next, list.1, output),
                    Err(error) => output == Err::<B, E>(error),
                }
            }
    }

    fn invoke(self, accum: B, list: (LHead, LTail)) -> (r: Result<B, E>) {
        let (mut head, tail) = self;
        let step = head(accum, list.0);
        match step {
            Ok(next) => tail.invoke(next, list.1),
            Err(error) => Err(error),
        }
    }
}

impl<B, E> FnFoldHList<(), B, E> for () {
    open spec fn invoke_requires(self, accum: B, list: ()) -> bool {
        true
    }

    open spec fn invoke_ensures(self, accum: B, list: (), output: Result<B, E>) -> bool {
        output == Ok::<B, E>(accum)
    }

    fn invoke(self, accum: B, _list: ()) -> (r: Result<B, E>) {
        Ok(accum)
    }
}

/// Lists that can be folded by a list of functions, one for each element.
pub trait TryFold: Sized {
    fn try_fold<B, F, E>(self, initial: B, f: F) -> (r: Result<B, E>) where
        F: FnFoldHList<Self, B, E>,
        requires
            f.invoke_requires(initial, self),
        ensures
            f.invoke_ensures(initial, self, r),
    ;
}

impl<Head, Tail> TryFold for (Head, Tail) {
    fn try_fold<B, F, E>(self, initial: B, f: F) -> (r: Result<B, E>) where
        F: FnFoldHList<Self, B, E>,
     {
        f.invoke(initial, self)
    }
}

} // verus!
