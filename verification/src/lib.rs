//! Display directory and connector resolution engine.
//!
//! Discovers controllable display devices from the captured output of a
//! hardware-detection tool, resolves kernel connector identifiers to
//! display-server output identifiers, selects a software-dimming backend
//! from session signals, and drives a single-shot background
//! initialization lifecycle.

pub mod app;
pub mod ddc;
pub mod display;
pub mod gamma;
pub mod strmap;
pub mod text;
