//! Stand-ins for the types of a GPU interface that is not there yet. They
//! carry no state; what will one day consume allocated slot indices is built
//! against them.

pub mod stubs;
pub mod wgputypes;

pub use stubs::Features;
pub use stubs::Instance;
pub use stubs::Limits;
pub use stubs::MultisampleState;
pub use stubs::PowerPreference;
pub use stubs::PrimitiveState;
pub use wgputypes::LoadOp;
pub use wgputypes::MemoryHints;
pub use wgputypes::Operations;
pub use wgputypes::StoreOp;
