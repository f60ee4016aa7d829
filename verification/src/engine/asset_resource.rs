use vstd::prelude::*;

verus! {

/// A source of assets, held as a resource.
pub struct AssetSourceResource<A> {
    asset_source: A,
}

impl<A> AssetSourceResource<A> {
    pub closed spec fn spec_source(self) -> A {
        self.asset_source
    }

    pub fn new(asset_source: A) -> (r: Self)
        ensures
            r.spec_source() == asset_source,
    {
        AssetSourceResource { asset_source }
    }

    pub fn source(&self) -> (r: &A)
        ensures
            *r == self.spec_source(),
    {
        &self.asset_source
    }
}

} // verus!
