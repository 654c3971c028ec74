//! Core logic of a heart-rate sensor relay: decoding of sensor notification
//! payloads, the single-slot store for the most recent reading, the
//! ingestion step that feeds the store, the connection supervisor's
//! bounded-retry state machine, and the minimal HTTP query surface.
//!
//! All I/O (the Bluetooth transport, sockets, timers) lives outside this
//! library; these modules hold the decisions and data transformations,
//! each with a proved contract.

pub mod decoder;
pub mod http;
pub mod ingestion;
pub mod store;
pub mod supervisor;
pub mod themes;

pub use decoder::DecodeError;
pub use decoder::decode;
pub use http::RequestKind;
pub use http::classify_request;
pub use http::respond;
pub use http::substitute_port;
pub use ingestion::DisconnectReason;
pub use ingestion::IngestOutcome;
pub use ingestion::StreamEvent;
pub use ingestion::ingest_step;
pub use store::LatestReadingStore;
pub use store::Reading;
pub use supervisor::ConnectionSupervisor;
pub use supervisor::SupervisorAction;
pub use supervisor::SupervisorEvent;
pub use supervisor::SupervisorState;
pub use themes::list_themes;
