use vstd::prelude::*;

use crate::utils::hlist::Has;

verus! {

/// Lists from which the elements of the list type `Shape` can be picked, in that order, at the
/// positions that `Indices` encodes.
pub trait IntoShape<Shape, Indices>: Sized {
    type Remainder;

    /// The picked elements, as a list of type `Shape`.
    spec fn spec_shape(self) -> Shape;

    /// The elements that were not picked, in their original order.
    spec fn spec_shape_remainder(self) -> Self::Remainder;

    fn into_shape(self) -> (r: (Shape, Self::Remainder))
        ensures
            r.0 == self.spec_shape(),
            r.1 == self.spec_shape_remainder(),
    ;
}

impl<L> IntoShape<(), ()> for L {
    type Remainder = L;

    open spec fn spec_shape(self) -> () {
        ()
    }

    open spec fn spec_shape_remainder(self) -> L {
        self
    }

    fn into_shape(self) -> (r: ((), L)) {
        ((), self)
    }
}

impl<L, ShapeHead, ShapeTail, HeadIndex, TailIndex> IntoShape<
    (ShapeHead, ShapeTail),
    (HeadIndex, TailIndex),
> for L where
    L: Has<ShapeHead, HeadIndex>,
    <L as Has<ShapeHead, HeadIndex>>::Remainder: IntoShape<ShapeTail, TailIndex>,
 {
    type Remainder = <<L as Has<ShapeHead, HeadIndex>>::Remainder as IntoShape<
        ShapeTail,
        TailIndex,
    >>::Remainder;

    open spec fn spec_shape(self) -> (ShapeHead, ShapeTail) {
        (self.spec_get(), self.spec_remainder().spec_shape())
    }

    open spec fn spec_shape_remainder(self) -> Self::Remainder {
        self.spec_remainder().spec_shape_remainder()
    }

    fn into_shape(self) -> (r: ((ShapeHead, ShapeTail), Self::Remainder)) {
        let (picked, remainder) = self.pick();
        let (tail_shaped, tail_remainder) = remainder.into_shape();
        ((picked, tail_shaped), tail_remainder)
    }
}

} // verus!
