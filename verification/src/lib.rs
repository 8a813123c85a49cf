//! Per-server playback-session coordination: a request queue, the
//! currently-playing record, a skip-vote state machine, and a
//! completion-scheduling index consumed by a driver that starts the next
//! queued item when a server's current item is done.

pub mod assoc;
pub mod completion;
pub mod error;
pub mod event_counter;
pub mod music;
pub mod random;
pub mod request;
pub mod youtube_dl;
