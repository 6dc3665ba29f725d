//! Developer-activity telemetry: a debounced typing detector on the client
//! side, and idempotent dimension resolution with atomic event recording on
//! the server side.

pub mod emitter;
pub mod errors;
pub mod event;
pub mod ingest;
pub mod resolver;
pub mod typing;
