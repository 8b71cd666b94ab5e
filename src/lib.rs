//! Status-bar data producer: sensor text parsing, block formatting, the
//! bar-protocol line encoder and the volume watcher / snapshot scheduler
//! state machines.
pub mod text;
pub mod sensors;
pub mod format;
pub mod snapshot;
pub mod engine;
