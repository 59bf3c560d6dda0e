//! Verified core of the FIFA 19 fixes: byte-level address encodings, the masked
//! pattern search over process memory, code-patch planning, the pre-game event
//! parser, the settings model and the state of the blacklist.

pub mod words;
pub mod error;
pub mod memory;
pub mod search;
pub mod scan;
pub mod fifa19;
pub mod text;
pub mod state;
pub mod event;
pub mod settings;
pub mod cors;
pub mod ui;
