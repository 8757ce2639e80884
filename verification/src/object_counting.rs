//! ObjectCountingStrategy: the elements stay foreign-owned values
//! throughout, and a foreign-provided associative container — keyed by the
//! host's own hash and equality — tells the elements apart; no element is
//! converted to a native representation.
//!
//! The unverified shell performs every boundary call: it fetches each
//! element and resolves it — through the foreign container's own lookup — to
//! the key of the first equal element seen. Each outcome is recorded here as
//! an [`ObjectEvent`], and this module decides, for every possible
//! transcript, what the strategy returns: the key of a most frequent
//! element, the host's zero value for an empty sequence, or the error of the
//! first failed event.

use vstd::prelude::*;

use crate::counter::is_mode;
use crate::counter::mode_of;
use crate::errors::StrategyError;

verus! {

/// The outcome of fetching one element and resolving it through the foreign
/// container.
#[derive(Clone, Copy, Debug, PartialEq, Eq, Structural)]
pub enum ObjectEvent {
    /// The element was fetched, and the foreign container's lookup resolved
    /// it to this key; equal elements carry equal keys, distinct elements
    /// distinct keys.
    Key(i64),
    /// A required foreign container, arithmetic or comparison operation
    /// failed on this element.
    OperationFailed,
    /// The traversal itself raised an error at this position.
    TraversalFailed,
}

/// What the strategy hands back to the host on success.
#[derive(Clone, Copy, Debug, PartialEq, Eq, Structural)]
pub enum ObjectOutcome {
    /// The key of a foreign value with the greatest count; the shell returns
    /// the value it stands for.
    Winner(i64),
    /// The host's zero value: the defined result for an empty sequence.
    Zero,
}

/// Every event of the transcript resolved to a key.
pub open spec fn object_events_clean(s: Seq<ObjectEvent>) -> bool {
    forall|i: int| 0 <= i < s.len() ==> s[i] is Key
}

/// The key of one event.
pub open spec fn object_event_key(e: ObjectEvent) -> i64 {
    match e {
        ObjectEvent::Key(k) => k,
        ObjectEvent::OperationFailed => 0,
        ObjectEvent::TraversalFailed => 0,
    }
}

/// The key stream of a clean transcript.
pub open spec fn object_event_keys(s: Seq<ObjectEvent>) -> Seq<i64> {
    s.map_values(|e: ObjectEvent| object_event_key(e))
}

/// The error a failed event aborts the strategy with.
pub open spec fn object_event_error(e: ObjectEvent) -> StrategyError {
    match e {
        ObjectEvent::TraversalFailed => StrategyError::IterationFailure,
        _ => StrategyError::ForeignProtocolFailure,
    }
}

/// The strategy is all-or-nothing: a clean transcript yields the key of a
/// most frequent element, an empty one the host's zero value, and the first
/// failed event aborts the call with its error before any result is
/// produced.
pub fn object_counting_strategy(events: &Vec<ObjectEvent>) -> (r: Result<
    ObjectOutcome,
    StrategyError,
>)
    ensures
        object_events_clean(events@) && events@.len() == 0 ==> r == Ok::<
            ObjectOutcome,
            StrategyError,
        >(ObjectOutcome::Zero),
        object_events_clean(events@) && events@.len() > 0 ==> (r matches Ok(o)
            && o matches ObjectOutcome::Winner(k) && is_mode(
            object_event_keys(events@),
            k,
        )),
        !object_events_clean(events@) ==> (exists|i: int|
            0 <= i < events@.len() && !(#[trigger] events@[i] is Key) && (
            forall|j: int| 0 <= j < i ==> events@[j] is Key) && r == Err::<
                ObjectOutcome,
                StrategyError,
            >(object_event_error(events@[i]))),
{
    let mut keys: Vec<i64> = Vec::new();
    let mut i: usize = 0;
    while i < events.len()
        invariant
            i <= events@.len(),
            forall|j: int| 0 <= j < i ==> events@[j] is Key,
            keys@ == object_event_keys(events@.take(i as int)),
        decreases events@.len() - i,
    {
        let e = events[i];
        match e {
            ObjectEvent::Key(k) => {
                keys.push(k);
            },
            ObjectEvent::OperationFailed => {
                proof {
                    assert(!(events@[i as int] is Key));
                }
                return Err(StrategyError::ForeignProtocolFailure);
            },
            ObjectEvent::TraversalFailed => {
                proof {
                    assert(!(events@[i as int] is Key));
                }
                return Err(StrategyError::IterationFailure);
            },
        }
        proof {
            assert(object_event_keys(events@.take(i + 1)) =~= object_event_keys(
                events@.take(i as int),
            ).push(object_event_key(events@[i as int])));
        }
        i = i + 1;
    }
    proof {
        assert(events@.take(events@.len() as int) =~= events@);
    }
    match mode_of(keys.as_slice()) {
        Some(k) => Ok(ObjectOutcome::Winner(k)),
        None => Ok(ObjectOutcome::Zero),
    }
}

} // verus!
