use frequent_rs::buffer::buffer_strategy;
use frequent_rs::counter::build_table;
use frequent_rs::counter::frequent_algorithm;
use frequent_rs::counter::max_entry;
use frequent_rs::counter::mode_of;
use frequent_rs::errors::StrategyError;
use frequent_rs::extracted_key::extracted_key_strategy;
use frequent_rs::extracted_key::IntFetch;
use frequent_rs::object_counting::object_counting_strategy;
use frequent_rs::object_counting::ObjectEvent;
use frequent_rs::object_counting::ObjectOutcome;
use frequent_rs::wrapped_key::wrapped_key_strategy;
use frequent_rs::wrapped_key::KeyEvent;

#[test]
fn frequent_unique_mode() {
    assert_eq!(frequent_algorithm(&[1i64, 1, 2, 3]), 1);
    assert_eq!(frequent_algorithm(&[5i64, 5, 5, 2, 2]), 5);
}

#[test]
fn frequent_empty_is_zero() {
    assert_eq!(frequent_algorithm(&[]), 0);
}

#[test]
fn frequent_singleton() {
    assert_eq!(frequent_algorithm(&[i64::MAX]), i64::MAX);
    assert_eq!(frequent_algorithm(&[i64::MIN]), i64::MIN);
}

#[test]
fn frequent_tie_is_one_of_the_tied() {
    let r = frequent_algorithm(&[1i64, 1, 2, 2]);
    assert!(r == 1 || r == 2);
}

#[test]
fn frequent_result_is_an_element() {
    let values = [9i64, -4, 9, 7, -4, 9];
    let r = frequent_algorithm(&values);
    assert!(values.contains(&r));
    assert_eq!(r, 9);
}

#[test]
fn mode_of_empty_is_none() {
    assert_eq!(mode_of(&[]), None);
}

#[test]
fn mode_of_nonempty_is_some() {
    assert_eq!(mode_of(&[3i64, 3, 1]), Some(3));
}

#[test]
fn table_keys_unique_counts_sum_to_length() {
    let entries = build_table(&[5i64, 5, 2]);
    assert_eq!(entries.len(), 2);
    assert!(entries.contains(&(5, 2)));
    assert!(entries.contains(&(2, 1)));
    let total: usize = entries.iter().map(|entry| entry.1).sum();
    assert_eq!(total, 3);
}

#[test]
fn max_entry_finds_greatest_count() {
    let entries = build_table(&[7i64, 8, 7]);
    assert_eq!(max_entry(&entries), Some((7, 2)));
}

#[test]
fn max_entry_of_empty_table_is_none() {
    let entries = build_table(&[]);
    assert_eq!(max_entry(&entries), None);
}

#[test]
fn extracted_clean_transcript() {
    let fetches = vec![
        IntFetch::Value(1),
        IntFetch::Value(1),
        IntFetch::Value(2),
        IntFetch::Value(3),
    ];
    assert_eq!(extracted_key_strategy(&fetches), Ok(1));
}

#[test]
fn extracted_empty_is_zero() {
    let fetches: Vec<IntFetch> = vec![];
    assert_eq!(extracted_key_strategy(&fetches), Ok(0));
}

#[test]
fn extracted_conversion_failure() {
    let fetches = vec![IntFetch::Value(1), IntFetch::Unconvertible, IntFetch::Value(1)];
    assert_eq!(
        extracted_key_strategy(&fetches),
        Err(StrategyError::ConversionFailure)
    );
}

#[test]
fn extracted_iteration_failure() {
    let fetches = vec![IntFetch::TraversalFailed];
    assert_eq!(
        extracted_key_strategy(&fetches),
        Err(StrategyError::IterationFailure)
    );
}

#[test]
fn extracted_first_flaw_decides() {
    let fetches = vec![
        IntFetch::Value(9),
        IntFetch::TraversalFailed,
        IntFetch::Unconvertible,
    ];
    assert_eq!(
        extracted_key_strategy(&fetches),
        Err(StrategyError::IterationFailure)
    );
}

#[test]
fn wrapped_empty_is_none_sentinel() {
    let events: Vec<KeyEvent> = vec![];
    assert_eq!(wrapped_key_strategy(&events), Ok(None));
}

#[test]
fn wrapped_unique_mode() {
    let events = vec![KeyEvent::Key(7), KeyEvent::Key(7), KeyEvent::Key(9)];
    assert_eq!(wrapped_key_strategy(&events), Ok(Some(7)));
}

#[test]
fn wrapped_tie_is_one_of_the_tied() {
    let events = vec![KeyEvent::Key(1), KeyEvent::Key(2)];
    let r = wrapped_key_strategy(&events);
    assert!(r == Ok(Some(1)) || r == Ok(Some(2)));
}

#[test]
fn wrapped_protocol_failure() {
    let events = vec![KeyEvent::Key(1), KeyEvent::ProtocolFailed];
    assert_eq!(
        wrapped_key_strategy(&events),
        Err(StrategyError::ForeignProtocolFailure)
    );
}

#[test]
fn wrapped_traversal_failure_comes_first() {
    let events = vec![KeyEvent::TraversalFailed, KeyEvent::ProtocolFailed];
    assert_eq!(
        wrapped_key_strategy(&events),
        Err(StrategyError::IterationFailure)
    );
}

#[test]
fn object_empty_is_zero_sentinel() {
    let events: Vec<ObjectEvent> = vec![];
    assert_eq!(object_counting_strategy(&events), Ok(ObjectOutcome::Zero));
}

#[test]
fn object_unique_mode() {
    let events = vec![ObjectEvent::Key(4), ObjectEvent::Key(4), ObjectEvent::Key(5)];
    assert_eq!(
        object_counting_strategy(&events),
        Ok(ObjectOutcome::Winner(4))
    );
}

#[test]
fn object_operation_failure() {
    let events = vec![ObjectEvent::OperationFailed];
    assert_eq!(
        object_counting_strategy(&events),
        Err(StrategyError::ForeignProtocolFailure)
    );
}

#[test]
fn object_traversal_failure() {
    let events = vec![ObjectEvent::Key(3), ObjectEvent::TraversalFailed];
    assert_eq!(
        object_counting_strategy(&events),
        Err(StrategyError::IterationFailure)
    );
}

#[test]
fn buffer_view_counts_natively() {
    assert_eq!(buffer_strategy(Some(&[1i64, 1, 2, 3])), Ok(1));
    assert_eq!(buffer_strategy(Some(&[5i64, 5, 5, 2, 2])), Ok(5));
}

#[test]
fn buffer_empty_view_is_zero() {
    assert_eq!(buffer_strategy(Some(&[])), Ok(0));
}

#[test]
fn buffer_incompatible_input() {
    assert_eq!(
        buffer_strategy(None),
        Err(StrategyError::BufferIncompatible)
    );
}

#[test]
fn strategies_agree_on_unique_mode() {
    // The same content [5, 5, 5, 2, 2] reaches each strategy in its own
    // representation; every strategy names the unique mode 5. The
    // object-preserving strategies see keys (10 stands for 5, 20 for 2) and
    // name the key of the mode.
    let fetches = vec![
        IntFetch::Value(5),
        IntFetch::Value(5),
        IntFetch::Value(5),
        IntFetch::Value(2),
        IntFetch::Value(2),
    ];
    assert_eq!(extracted_key_strategy(&fetches), Ok(5));
    assert_eq!(buffer_strategy(Some(&[5i64, 5, 5, 2, 2])), Ok(5));
    let keys = vec![
        KeyEvent::Key(10),
        KeyEvent::Key(10),
        KeyEvent::Key(10),
        KeyEvent::Key(20),
        KeyEvent::Key(20),
    ];
    assert_eq!(wrapped_key_strategy(&keys), Ok(Some(10)));
    let object_keys = vec![
        ObjectEvent::Key(10),
        ObjectEvent::Key(10),
        ObjectEvent::Key(10),
        ObjectEvent::Key(20),
        ObjectEvent::Key(20),
    ];
    assert_eq!(
        object_counting_strategy(&object_keys),
        Ok(ObjectOutcome::Winner(10))
    );
}
