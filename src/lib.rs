//! The core of a remote interactive shell served over a message stream.
//!
//! A session receives frames from a client, launches one child process from
//! the first text frame, forwards later text frames to the process's input,
//! and relays each line of the process's output back as a text frame.
//! The session itself is a pure state machine: it is handed events and
//! answers with actions, which the surrounding program performs.
pub mod line_pump;
pub mod session;
pub mod write_queue;

