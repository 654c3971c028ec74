//! One step of the ingestion loop.
//!
//! The surrounding task drains the notification stream and hands each item
//! here together with the current wall-clock time; this step decodes the
//! payload, stores a fresh reading on success, and otherwise decides that
//! the current connection is over. A malformed payload is treated exactly
//! like a transport drop: the stream cannot be assumed to self-correct, so
//! the connection is torn down and rebuilt.

use vstd::prelude::*;

use crate::decoder;
use crate::decoder::DecodeError;
use crate::store::LatestReadingStore;
use crate::store::Reading;

verus! {

/// One item observed on the notification stream: a payload, or the end of
/// the stream (a per-item transport error counts as the end).
pub enum StreamEvent {
    Payload(Vec<u8>),
    TransportLost,
}

/// Why the ingestion loop stopped consuming the current stream.
#[derive(Clone, Copy, Debug, PartialEq, Eq, Structural)]
pub enum DisconnectReason {
    /// A payload failed to decode.
    DecodeFault(DecodeError),
    /// The stream ended or reported a transport error.
    TransportError,
}

/// What one ingestion step did.
#[derive(Clone, Copy, Debug, PartialEq, Eq, Structural)]
pub enum IngestOutcome {
    /// The payload decoded to this rate and the store now holds it.
    Stored(u16),
    /// The connection is over; the supervisor decides what happens next.
    Disconnected(DisconnectReason),
}

/// Consume one stream item: decode and store on success, stop otherwise.
///
/// The store changes exactly when a payload decodes, and then to a reading
/// stamped with `ts_millis`; readings are therefore stored in stream order.
pub fn ingest_step(store: &mut LatestReadingStore, event: StreamEvent, ts_millis: u128) -> (o:
    IngestOutcome)
    ensures
        match event {
            StreamEvent::Payload(bytes) => match decoder::spec_decode(bytes@) {
                Ok(v) => o == IngestOutcome::Stored(v) && final(store).latest == Some(
                    Reading { ts_millis, value: v },
                ),
                Err(e) => o == IngestOutcome::Disconnected(DisconnectReason::DecodeFault(e))
                    && *final(store) == *old(store),
            },
            StreamEvent::TransportLost => o == IngestOutcome::Disconnected(
                DisconnectReason::TransportError,
            ) && *final(store) == *old(store),
        },
{
    match event {
        StreamEvent::Payload(bytes) => match decoder::decode(bytes.as_slice()) {
            Ok(v) => {
                store.put(Reading { ts_millis, value: v });
                IngestOutcome::Stored(v)
            },
            Err(e) => IngestOutcome::Disconnected(DisconnectReason::DecodeFault(e)),
        },
        StreamEvent::TransportLost => IngestOutcome::Disconnected(
            DisconnectReason::TransportError,
        ),
    }
}

} // verus!
