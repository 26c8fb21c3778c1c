//! Presence tracking and input decoding for a three-switch USB foot pedal.
//!
//! `decoder` turns successive button masks into press/release events,
//! `device` recognises the pedal among attached HID devices, and `session`
//! is the connection state machine that a host loop drives with scan and
//! read outcomes.

pub mod decoder;
pub mod device;
pub mod session;

pub use decoder::{decode, PedalEvent, Switch};
pub use device::{find_pedal, is_pedal, PEDAL_PRODUCT_ID, PEDAL_VENDOR_ID};
pub use session::{
    ConnectionStatus, NextStep, PedalSession, Reaction, ReadOutcome, ScanOutcome, BACKOFF_MS,
    READ_TIMEOUT_MS,
};
