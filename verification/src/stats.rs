//! Why a generation stopped.
use vstd::prelude::*;

verus! {

/// The reason a generation ended.
#[derive(Debug, Clone, Copy, PartialEq, Eq, Structural)]
pub enum StopReason {
    Eos,
    MaxTokens,
    StopSequence,
}

} // verus!
