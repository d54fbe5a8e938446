//! Verified core of the capture desktop client: the daemon API client's requests and
//! replies, the live event state fed by the daemon's event stream, the window's state and
//! messages, settings resolution, capture planning, the playback timeline, timestamps, update
//! checks, the texts the screens show and the small text rules they rest on.

pub mod assets;
pub mod capture;
pub mod daemon;
pub mod edit;
pub mod isotime;
pub mod keyed;
pub mod labels;
pub mod lang;
pub mod live;
pub mod panel;
pub mod playback;
pub mod screens;
pub mod state;
pub mod text;
pub mod tools;
pub mod update;

use vstd::prelude::*;

verus! {

/// The value a missing boolean capability flag of a session takes on the wire.
pub fn default_true() -> (b: bool)
    ensures
        b,
{
    true
}

} // verus!
