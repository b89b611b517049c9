//! Verified core of a window screen recorder: choosing what to record,
//! deciding when capture stops, and composing the encoder command line,
//! file names and messages.
use vstd::prelude::*;

pub mod capture;
pub mod cli;
pub mod encode;
pub mod error;
pub mod output;
pub mod text;

verus! {

} // verus!
