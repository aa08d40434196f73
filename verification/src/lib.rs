//! Decoding of on-screen window records.
//!
//! A window server describes each on-screen window as a property-list
//! document. This crate turns such documents into typed window descriptors
//! and assembles the descriptors of one snapshot into a dense, ordered list.
//! Every function is stated against a mathematical model. All are proved
//! but the two that call the `plist` crate, `read_value` and `node_of` in
//! `document`: their contracts are believed.

pub mod descriptor;
pub mod document;
pub mod guard;
pub mod listing;
pub mod number;

pub use crate::descriptor::{decode, CGWindow, DecodeError, Field, Number, WindowBounds};
pub use crate::listing::{
    enumerate, list_window_texts, list_windows, Enumeration, PlatformError, Skipped, Snapshot,
};
