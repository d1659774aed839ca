//! Discovery of audio capture and playback devices from sound-library hints.
//!
//! The native calls (loading the library, walking its hint list, freeing its
//! strings) are made by the caller; this crate decides, over plain values,
//! what each hint entry becomes: its display label, the directions it
//! serves, and which native string is kept or released.
pub mod device;
pub mod direction;
pub mod enumerate;
pub mod label;
pub mod laws;
