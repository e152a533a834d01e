use spine::adapter::ChannelAdapter;
use spine::errors::BusError;

#[test]
fn mismatched_type_is_reported_and_nothing_is_sent() {
    let (tx, mut rx) = tokio::sync::mpsc::unbounded_channel::<u32>();
    let adapter = ChannelAdapter::bind(tx, "u32");

    let outcome = adapter.send_any(&String::from("not a number"));
    assert_eq!(
        outcome,
        Err(BusError::DowncastMismatch { expected_type_name: "u32" })
    );
    assert!(rx.try_recv().is_err(), "a mismatch must not enqueue anything");
}

#[test]
fn matching_type_is_forwarded_into_the_typed_channel() {
    let (tx, mut rx) = tokio::sync::mpsc::unbounded_channel::<u32>();
    let adapter = ChannelAdapter::bind(tx, "u32");

    assert_eq!(adapter.send_any(&7u32), Ok(()));
    assert_eq!(rx.try_recv().unwrap(), 7);
}

#[test]
fn recovery_outcome_decides_the_erased_send() {
    let (tx, mut rx) = tokio::sync::mpsc::unbounded_channel::<String>();
    let adapter = ChannelAdapter::bind(tx, "String");

    assert_eq!(adapter.deliver_recovered(Some(String::from("hi"))), Ok(()));
    assert_eq!(rx.try_recv().unwrap(), "hi");
    assert_eq!(
        adapter.deliver_recovered(None),
        Err(BusError::DowncastMismatch { expected_type_name: "String" })
    );
    assert!(rx.try_recv().is_err());
}

#[test]
fn send_to_a_closed_erased_channel_is_not_a_mismatch() {
    let (tx, rx) = tokio::sync::mpsc::unbounded_channel::<u32>();
    drop(rx);
    let adapter = ChannelAdapter::bind(tx, "u32");
    // The value was of the bound type, so the erased send reports success;
    // the drop at the closed channel stays an internal condition.
    assert_eq!(adapter.send_any(&1u32), Ok(()));
}
