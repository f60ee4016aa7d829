use vstd::prelude::*;

use crate::utils::hlist::{Concat, IntoShape};

verus! {

/// Information about the running process.
pub struct ProcessInfo;

/// Builds the list of resources `R` of a process, one setup step at a time.
pub struct ProcessBuilder<R> {
    resources: R,
}

impl ProcessBuilder<()> {
    pub fn new() -> (r: Self)
        ensures
            r.resources() == (),
    {
        ProcessBuilder { resources: () }
    }
}

impl<R> ProcessBuilder<R> {
    /// The resources so far.
    pub closed spec fn resources(self) -> R {
        self.resources
    }

    /// Takes the resources of type `Input` out of the list, hands them to `setup`, and appends
    /// what it returns to the resources that remain.
    pub fn setup<F, Input, InputI, Output>(self, setup: F) -> (r: ProcessBuilder<
        <R::Remainder as Concat<Output>>::Concatenated,
    >) where R: IntoShape<Input, InputI>, R::Remainder: Concat<Output>, F: FnOnce(Input) -> Output
        requires
            call_requires(setup, (self.resources().spec_shape(),)),
        ensures
            exists|output: Output|
                call_ensures(setup, (self.resources().spec_shape(),), output) && r.resources()
                    == self.resources().spec_shape_remainder().spec_concat(output),
    {
        let (input, remainder) = self.resources.into_shape();
        let output = setup(input);
        let resources = remainder.concat(output);
        ProcessBuilder { resources }
    }

    /// Puts `resource` in front of the resources.
    pub fn with<T>(self, resource: T) -> (r: ProcessBuilder<(T, R)>)
        ensures
            r.resources() == (resource, self.resources()),
    {
        ProcessBuilder { resources: (resource, self.resources) }
    }

    /// The resources built.
    pub fn into_resources(self) -> (r: R)
        ensures
            r == self.resources(),
    {
        self.resources
    }
}

} // verus!
