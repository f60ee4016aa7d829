use vstd::prelude::*;

verus! {

/// A platform the engine runs on.
pub trait Platform {

}

/// The platform that is detected when no other is chosen.
pub struct DefaultPlatform {}

impl Platform for DefaultPlatform {

}

} // verus!
