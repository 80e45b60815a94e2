//! Observability bootstrap for a real-time runtime: a shared append-only log
//! store, tagged and buffered log streams over it, a clock that stamps every
//! record, and a logger runtime that ties them together.
pub mod clock;
pub mod frame;
pub mod mirror;
pub mod runtime;
pub mod setup;
pub mod store;
pub mod stream;
