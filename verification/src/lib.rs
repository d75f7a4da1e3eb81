//! Core of a terminal typing-practice session: a validated source document,
//! a per-character typing state machine with observer notification, and the
//! greedy line-reflow and style mapping used to lay the passage out on screen.

pub mod chars;
pub mod data;
pub mod data_capture;
pub mod observer;
pub mod reflow;
pub mod session;
pub mod text;
pub mod text_model;
pub mod widgets;
