//! Adapter between a formatting host and the `shfmt` shell formatter:
//! dialect detection, configuration resolution and command-line assembly.

pub mod configuration;
pub mod format_text;
pub mod language;
pub mod plugin;
pub mod resolve;
pub mod text;
