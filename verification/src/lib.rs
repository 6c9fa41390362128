//! Core of a component-based message-passing runtime.
//!
//! Long-lived stateful units ("components") communicate through typed,
//! directional channels ("ports") and through addressable mailboxes.
//! A scheduler dispatches ready components; each dispatch pass drains all
//! pending control events and then up to a configured number of ordinary
//! events, round-robin across the component's queues.
//!
//! The crate models the component lifecycle, the container execution
//! discipline, port wiring and fan-out, the one-shot request/reply ("ask")
//! primitive, and the byte-level envelope used to hand messages to a
//! network transport.


pub mod ask;
pub mod buffer;
pub mod component;
pub mod definition;
pub mod lifecycle;
pub mod paths;
pub mod runtime;
pub mod ser_helpers;
pub mod serialisation;
pub mod work;



