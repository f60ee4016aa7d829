use vstd::prelude::*;

verus! {

/// A list of functions that maps the list `L` element by element into the list `R`.
pub trait FnMapHList<L, R>: Sized {
    /// Every function accepts the element of `list` at its position.
    spec fn invoke_requires(self, list: L) -> bool;

    /// Every element of `output` is a result that the function at its position may give for the
    /// element of `list` at that position.
    spec fn invoke_ensures(self, list: L, output: R) -> bool;

    fn invoke(self, list: L) -> (r: R)
        requires
            self.invoke_requires(list),
        ensures
            self.invoke_ensures(list, r),
    ;
}

impl<Head, Tail, LHead, LTail, RHead, RTail> FnMapHList<(LHead, LTail), (RHead, RTail)> for (
    Head,
    Tail,
) where Head: FnMut(LHead) -> RHead, Tail: FnMapHList<LTail, RTail> {
    open spec fn invoke_requires(self, list: (LHead, LTail)) -> bool {
        call_requires(self.0, (list.0,)) && self.1.invoke_requires(list.1)
    }

    open spec fn invoke_ensures(self, list: (LHead, LTail), output: (RHead, RTail)) -> bool {
        call_ensures(self.0, (list.0,), output.0) && self.1.invoke_ensures(list.1, output.1)
    }

    fn invoke(self, list: (LHead, LTail)) -> (r: (RHead, RTail)) {
        let (mut head, tail) = self;
        (head(list.0), tail.invoke(list.1))
    }
}

impl FnMapHList<(), ()> for () {
    open spec fn invoke_requires(self, list: ()) -> bool {
        true
    }

    open spec fn invoke_ensures(self, list: (), output: ()) -> bool {
        true
    }

    fn invoke(self, _list: ()) -> (r: ()) {
        ()
    }
}

/// Lists that can be mapped by a list of functions.
pub trait Mappable: Sized {
    fn map<F, R>(self, f: F) -> (r: R) where F: FnMapHList<Self, R>
        requires
            f.invoke_requires(self),
        ensures
            f.invoke_ensures(self, r),
    ;
}

impl<Head, Tail> Mappable for (Head, Tail) {
    fn map<F, R>(self, f: F) -> (r: R) where F: FnMapHList<Self, R> {
        f.invoke(self)
    }
}

} // verus!
