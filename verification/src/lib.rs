//! Aevum: a terminal calendar that keeps a list of events per day.
//!
//! The library holds the calendar's state and every rule that changes it:
//! date arithmetic (through `chrono`), the per-day event lists, search,
//! list selections, the menu, and the key handling of the main loop.
//! Terminal drawing and file I/O live in the application around it.

pub mod app;
pub mod date;
pub mod keys;
pub mod laws;
pub mod search;
pub mod store;
pub mod text;
pub mod transfer;
pub mod view;
pub mod persist;
