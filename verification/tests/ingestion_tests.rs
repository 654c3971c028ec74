use hr_monitor::decoder::DecodeError;
use hr_monitor::ingestion::{ingest_step, DisconnectReason, IngestOutcome, StreamEvent};
use hr_monitor::store::{LatestReadingStore, Reading};

#[test]
fn good_payload_is_decoded_and_stored() {
    let mut store = LatestReadingStore::new();
    let outcome = ingest_step(&mut store, StreamEvent::Payload(vec![0x00, 0x48]), 1000);
    assert_eq!(outcome, IngestOutcome::Stored(72));
    assert_eq!(store.get(), Some(Reading { ts_millis: 1000, value: 72 }));
}

#[test]
fn readings_are_stored_in_stream_order() {
    let mut store = LatestReadingStore::new();
    ingest_step(&mut store, StreamEvent::Payload(vec![0x00, 0x48]), 1000);
    ingest_step(&mut store, StreamEvent::Payload(vec![0x01, 0xF4, 0x01]), 2000);
    assert_eq!(store.get(), Some(Reading { ts_millis: 2000, value: 500 }));
}

#[test]
fn malformed_payload_ends_the_connection_and_keeps_the_store() {
    let mut store = LatestReadingStore::new();
    ingest_step(&mut store, StreamEvent::Payload(vec![0x00, 0x48]), 1000);
    let outcome = ingest_step(&mut store, StreamEvent::Payload(vec![0x01, 0x48]), 2000);
    assert_eq!(
        outcome,
        IngestOutcome::Disconnected(DisconnectReason::DecodeFault(DecodeError::Truncated))
    );
    // The bad sample is not stored; the last good reading stands.
    assert_eq!(store.get(), Some(Reading { ts_millis: 1000, value: 72 }));
}

#[test]
fn transport_loss_ends_the_connection() {
    let mut store = LatestReadingStore::new();
    let outcome = ingest_step(&mut store, StreamEvent::TransportLost, 3000);
    assert_eq!(
        outcome,
        IngestOutcome::Disconnected(DisconnectReason::TransportError)
    );
    assert_eq!(store.get(), None);
}
