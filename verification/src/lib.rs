//! The decisions of a bridge between `slmodemd` and Asterisk.
//!
//! `slmodemd` hands the bridge a Unix socket that carries dial commands and
//! signed 16-bit audio; Asterisk is reached over ARI and a media WebSocket
//! that carries mu-law audio. Sockets, timers and HTTP belong to the program
//! in `app/`. What is done with the bytes that arrive, and what happens next
//! after every success and failure, is decided here.

pub mod ari_setup;
pub mod bridge;
pub mod codec;
pub mod dial_string;
pub mod dial_wait;
pub mod event_drain;
pub mod relay;
pub mod session;
pub mod setup_drain;
pub mod silence;
pub mod slmodem;
pub mod text;
