//! Reconstruction of a captured system trace: clock-domain
//! synchronization, track and process hierarchy resolution, stack-based
//! span reconstruction from structured events, and replay of legacy
//! kernel print events, turning a decoded packet stream into a flat list
//! of timed spans and instants per execution track.
use vstd::prelude::*;

pub mod clock;
pub mod engine;
pub mod events;
pub mod laws;
pub mod replay;
pub mod text;
pub mod tracks;

pub use engine::convert_trace;
pub use engine::Engine;
pub use engine::Outcome;
pub use events::Diag;
pub use events::Fatal;
pub use events::PacketRec;

verus! {

} // verus!
