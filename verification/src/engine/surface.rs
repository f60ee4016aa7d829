use vstd::prelude::*;

use crate::events::Event;

verus! {

/// A surface that the process draws on, held as a resource.
pub struct SurfaceResource<S> {
    surface: S,
}

impl<S> SurfaceResource<S> {
    pub closed spec fn spec_surface(self) -> S {
        self.surface
    }

    pub fn new(surface: S) -> (r: Self)
        ensures
            r.spec_surface() == surface,
    {
        SurfaceResource { surface }
    }

    pub fn surface(&self) -> (r: &S)
        ensures
            *r == self.spec_surface(),
    {
        &self.surface
    }

    pub fn surface_mut(&mut self) -> (r: &mut S)
        ensures
            *r == old(self).spec_surface(),
            final(self).spec_surface() == *final(r),
    {
        &mut self.surface
    }
}

/// What happens to a surface. `D` is the platform's description of input from a device.
pub enum SurfaceEvent<D> {
    Resize { width: u32, height: u32 },
    Draw,
    CloseRequested,
    DeviceEvent(D),
}

impl<D> Event for SurfaceEvent<D> {
    type Output = ();
}

/// How the process ends.
pub enum Exit {
    Exit,
    Status(i32),
    /// The process failed; the message describes why.
    Error(String),
}

impl Default for Exit {
    fn default() -> (r: Self)
        ensures
            r == Exit::Status(0),
    {
        Exit::Status(0)
    }
}

} // verus!
