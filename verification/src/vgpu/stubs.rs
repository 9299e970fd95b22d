//! Empty stand-ins for device-level types.

use vstd::prelude::*;
use winit::window::Window;

verus! {

/// A window of the windowing system. Nothing of it is read here.
#[verifier::external_type_specification]
#[verifier::external_body]
pub struct ExWindow(winit::window::Window);

/// Why no surface could be made.
#[derive(Clone, Copy, Debug, PartialEq, Eq)]
pub enum SurfaceError {
    /// The window cannot be drawn to.
    Unavailable,
}

/// Entry point to the GPU interface.
#[derive(Default)]
pub struct Instance {}

impl Instance {
    /// A surface to draw on for `window`. The stand-in always has one.
    pub fn create_surface(&self, _window: &Window) -> (r: Result<Surface, SurfaceError>)
        ensures
            r == Ok::<Surface, SurfaceError>(Surface {  }),
    {
        Ok(Surface {  })
    }
}

/// Something that can be drawn on.
pub struct Surface {}

/// Which adapter to prefer.
#[derive(Default)]
pub struct PowerPreference {}

/// Optional device features.
pub struct Features {}

impl Features {
    /// No optional feature.
    pub fn empty() -> (r: Self)
        ensures
            r == (Features {  }),
    {
        Self {  }
    }
}

/// Device limits.
pub struct Limits {}

impl Limits {
    /// The limits of the lowest supported device class.
    pub fn downlevel_webgl2_defaults() -> (r: Self)
        ensures
            r == (Limits {  }),
    {
        Self {  }
    }
}

/// How primitives are assembled.
#[derive(Default)]
pub struct PrimitiveState {}

/// How samples are taken.
#[derive(Default)]
pub struct MultisampleState {}

} // verus!
