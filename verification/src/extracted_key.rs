//! ExtractedKeyStrategy: every element of the foreign sequence is converted
//! to a native signed 64-bit integer up front, and the converted stream is
//! delegated wholesale to the shared counter.
//!
//! The boundary calls themselves (fetching the next element, converting it)
//! are made by the unverified shell; each outcome is recorded here as an
//! [`IntFetch`], and this module decides, for every possible transcript of
//! outcomes, what the strategy returns.

use vstd::prelude::*;

use crate::counter::frequent_algorithm;
use crate::counter::mode_result;
use crate::errors::StrategyError;

verus! {

/// The outcome of fetching one element of the foreign traversal and
/// converting it to a native signed 64-bit integer.
#[derive(Clone, Copy, Debug, PartialEq, Eq, Structural)]
pub enum IntFetch {
    /// The element was fetched and converted.
    Value(i64),
    /// The element was fetched but could not be converted (wrong kind, or
    /// out of range).
    Unconvertible,
    /// The traversal itself raised an error at this position.
    TraversalFailed,
}

/// Every fetch of the transcript produced a converted value.
pub open spec fn fetches_clean(s: Seq<IntFetch>) -> bool {
    forall|i: int| 0 <= i < s.len() ==> s[i] is Value
}

/// The converted value of one fetch.
pub open spec fn fetch_value(f: IntFetch) -> i64 {
    match f {
        IntFetch::Value(v) => v,
        IntFetch::Unconvertible => 0,
        IntFetch::TraversalFailed => 0,
    }
}

/// The converted stream of a clean transcript.
pub open spec fn fetched_values(s: Seq<IntFetch>) -> Seq<i64> {
    s.map_values(|f: IntFetch| fetch_value(f))
}

/// The error a failed fetch aborts the strategy with.
pub open spec fn fetch_error(f: IntFetch) -> StrategyError {
    match f {
        IntFetch::TraversalFailed => StrategyError::IterationFailure,
        _ => StrategyError::ConversionFailure,
    }
}

/// The strategy is all-or-nothing: a clean transcript yields the most
/// frequent converted value (0 for an empty sequence), and the first failed
/// fetch aborts the call with its error before any result is produced.
pub fn extracted_key_strategy(fetches: &Vec<IntFetch>) -> (r: Result<
    i64,
    StrategyError,
>)
    ensures
        fetches_clean(fetches@) ==> (r matches Ok(v) && mode_result(
            fetched_values(fetches@),
            v,
        )),
        !fetches_clean(fetches@) ==> (exists|i: int|
            0 <= i < fetches@.len() && !(#[trigger] fetches@[i] is Value) && (
            forall|j: int| 0 <= j < i ==> fetches@[j] is Value) && r == Err::<
                i64,
                StrategyError,
            >(fetch_error(fetches@[i]))),
{
    let mut vals: Vec<i64> = Vec::new();
    let mut i: usize = 0;
    while i < fetches.len()
        invariant
            i <= fetches@.len(),
            forall|j: int| 0 <= j < i ==> fetches@[j] is Value,
            vals@ == fetched_values(fetches@.take(i as int)),
        decreases fetches@.len() - i,
    {
        let f = fetches[i];
        match f {
            IntFetch::Value(v) => {
                vals.push(v);
            },
            IntFetch::Unconvertible => {
                proof {
                    assert(!(fetches@[i as int] is Value));
                }
                return Err(StrategyError::ConversionFailure);
            },
            IntFetch::TraversalFailed => {
                proof {
                    assert(!(fetches@[i as int] is Value));
                }
                return Err(StrategyError::IterationFailure);
            },
        }
        proof {
            assert(fetched_values(fetches@.take(i + 1)) =~= fetched_values(
                fetches@.take(i as int),
            ).push(fetch_value(fetches@[i as int])));
        }
        i = i + 1;
    }
    proof {
        assert(fetches@.take(fetches@.len() as int) =~= fetches@);
    }
    Ok(frequent_algorithm(vals.as_slice()))
}

} // verus!
