//! BufferStrategy: the foreign object is asked once for a zero-copy,
//! contiguous, fixed-width view of its backing storage, and the counting
//! then runs over native integers with no per-element boundary calls.
//!
//! The unverified shell performs the single boundary call that acquires the
//! view; this module decides what the strategy returns for each outcome.
//! The view is only borrowed for the duration of the call: nothing here can
//! retain it, so it is released on every exit path before control returns.

use vstd::prelude::*;

use crate::counter::frequent_algorithm;
use crate::counter::mode_result;
use crate::errors::StrategyError;

verus! {

/// A clean view yields the most frequent integer of the view (0 when it is
/// empty); an object that does not support the view protocol, or whose
/// element layout is not that of native signed 64-bit integers, yields
/// `BufferIncompatible` rather than a best-effort reinterpretation.
pub fn buffer_strategy(view: Option<&[i64]>) -> (r: Result<i64, StrategyError>)
    ensures
        view is None ==> r == Err::<i64, StrategyError>(
            StrategyError::BufferIncompatible,
        ),
        view matches Some(s) ==> (r matches Ok(v) && mode_result(s@, v)),
{
    match view {
        None => Err(StrategyError::BufferIncompatible),
        Some(s) => Ok(frequent_algorithm(s)),
    }
}

} // verus!
