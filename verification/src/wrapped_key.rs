//! WrappedKeyStrategy: foreign values are iterated and counted in a native
//! table, under keys whose hashing and equality delegate to the foreign
//! value's own protocol.
//!
//! The unverified shell performs the boundary calls: it fetches each
//! element, and resolves it — through the host's own hash and equality — to
//! the key of the first equal element seen. Each outcome is recorded here as
//! a [`KeyEvent`], and this module decides, for every possible transcript,
//! what the strategy returns: the key of a most frequent element, a `None`
//! sentinel for an empty sequence, or the error of the first failed event.

use vstd::prelude::*;

use crate::counter::is_mode;
use crate::counter::mode_of;
use crate::errors::StrategyError;

verus! {

/// The outcome of fetching one element and resolving it to its key.
#[derive(Clone, Copy, Debug, PartialEq, Eq, Structural)]
pub enum KeyEvent {
    /// The element was fetched, and the host's hash and equality resolved it
    /// to this key; equal elements carry equal keys, distinct elements
    /// distinct keys.
    Key(i64),
    /// A required foreign hash or equality invocation failed on this
    /// element.
    ProtocolFailed,
    /// The traversal itself raised an error at this position.
    TraversalFailed,
}

/// Every event of the transcript resolved to a key.
pub open spec fn events_clean(s: Seq<KeyEvent>) -> bool {
    forall|i: int| 0 <= i < s.len() ==> s[i] is Key
}

/// The key of one event.
pub open spec fn event_key(e: KeyEvent) -> i64 {
    match e {
        KeyEvent::Key(k) => k,
        KeyEvent::ProtocolFailed => 0,
        KeyEvent::TraversalFailed => 0,
    }
}

/// The key stream of a clean transcript.
pub open spec fn event_keys(s: Seq<KeyEvent>) -> Seq<i64> {
    s.map_values(|e: KeyEvent| event_key(e))
}

/// The error a failed event aborts the strategy with.
pub open spec fn event_error(e: KeyEvent) -> StrategyError {
    match e {
        KeyEvent::TraversalFailed => StrategyError::IterationFailure,
        _ => StrategyError::ForeignProtocolFailure,
    }
}

/// The strategy is all-or-nothing: a clean transcript yields the key of a
/// most frequent element, an empty one the `None` sentinel, and the first
/// failed event aborts the call with its error before any result is
/// produced.
pub fn wrapped_key_strategy(events: &Vec<KeyEvent>) -> (r: Result<
    Option<i64>,
    StrategyError,
>)
    ensures
        events_clean(events@) && events@.len() == 0 ==> r == Ok::<
            Option<i64>,
            StrategyError,
        >(None),
        events_clean(events@) && events@.len() > 0 ==> (r matches Ok(o)
            && o matches Some(k) && is_mode(event_keys(events@), k)),
        !events_clean(events@) ==> (exists|i: int|
            0 <= i < events@.len() && !(#[trigger] events@[i] is Key) && (
            forall|j: int| 0 <= j < i ==> events@[j] is Key) && r == Err::<
                Option<i64>,
                StrategyError,
            >(event_error(events@[i]))),
{
    let mut keys: Vec<i64> = Vec::new();
    let mut i: usize = 0;
    while i < events.len()
        invariant
            i <= events@.len(),
            forall|j: int| 0 <= j < i ==> events@[j] is Key,
            keys@ == event_keys(events@.take(i as int)),
        decreases events@.len() - i,
    {
        let e = events[i];
        match e {
            KeyEvent::Key(k) => {
                keys.push(k);
            },
            KeyEvent::ProtocolFailed => {
                proof {
                    assert(!(events@[i as int] is Key));
                }
                return Err(StrategyError::ForeignProtocolFailure);
            },
            KeyEvent::TraversalFailed => {
                proof {
                    assert(!(events@[i as int] is Key));
                }
                return Err(StrategyError::IterationFailure);
            },
        }
        proof {
            assert(event_keys(events@.take(i + 1)) =~= event_keys(
                events@.take(i as int),
            ).push(event_key(events@[i as int])));
        }
        i = i + 1;
    }
    proof {
        assert(events@.take(events@.len() as int) =~= events@);
    }
    Ok(mode_of(keys.as_slice()))
}

} // verus!
