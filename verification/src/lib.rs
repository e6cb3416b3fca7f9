//! Verified control logic of a real-time microphone noise-reduction route.

use vstd::prelude::*;

pub mod backend;
pub mod buffers;
pub mod compute;
pub mod config;
pub mod devices;
pub mod error;
pub mod history;
pub mod inference;
pub mod metrics;
pub mod performance;
pub mod pulse;
pub mod pipeline;
pub mod processor;
pub mod session;
pub mod settings;
pub mod sort;
pub mod text;
pub mod vb_cable;

verus! {

} // verus!
