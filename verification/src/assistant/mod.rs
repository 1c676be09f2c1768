//! The assistant: who may look at the screen and when, the state a session
//! keeps between turns, and the text a turn is built from.

pub mod screen;
pub mod conversation;
pub mod session;
pub mod panel;
pub mod turn;
pub mod history;
pub mod request;
