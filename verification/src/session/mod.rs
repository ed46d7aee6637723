//! Session bookkeeping: the tracks offered and subscribed, and their
//! subscription windows.
pub mod config;
pub mod local_track;
pub mod remote_track;
pub mod subscribe_window;
