//! A small key-value store used to remember a UI preference (the theme name)
//! across application restarts.
//!
//! One interface, two backends: a single JSON object file under a fixed
//! application-data directory (desktop and mobile), and the browser's
//! persistent per-key storage (web).  The store is value-type-agnostic at the
//! interface: values travel as JSON texts, with typed read and write
//! operations for strings and integers on top.
//!
//! The store functions themselves touch no file or storage object: they take
//! the current backing content and return what to write back, and the
//! surrounding program performs the reads and writes.

pub mod browser;
pub mod codec;
pub mod store;
pub mod store_map;
pub mod theme;
