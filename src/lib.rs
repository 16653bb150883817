//! A bot for a turn-based game server: account-stream dispatch, framing of
//! the streamed records, the event queue between stream and session, the
//! reconciliation of reported move histories, and the per-game turn loop.
pub mod client;
pub mod frame;
pub mod moves;
pub mod queue;
pub mod session;
pub mod text;
pub mod uci;
