use vstd::prelude::*;

verus! {

/// The failure modes shared by the counting strategies. Every failure is
/// fatal to the call that raised it: the strategy aborts before producing a
/// result, and no partial count is observable.
#[derive(Clone, Copy, Debug, PartialEq, Eq, Structural)]
pub enum StrategyError {
    /// The foreign traversal raised an error mid-sequence.
    IterationFailure,
    /// An element could not be converted to a native signed 64-bit integer
    /// (wrong kind, or out of range).
    ConversionFailure,
    /// A required foreign hash, equality or comparison invocation itself
    /// failed.
    ForeignProtocolFailure,
    /// The input does not support the contiguous-view protocol, or its
    /// element layout is not that of native signed 64-bit integers.
    BufferIncompatible,
}

} // verus!
