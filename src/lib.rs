//! Coordination core of a two-process timer utility: the frame codec that
//! carries commands and statuses between the tray process and the GUI
//! process, and the state machines that decide what each process does.

pub mod client;
pub mod codec;
pub mod coordinator;
pub mod icon;
pub mod message;
pub mod stream;
pub mod timer;
pub mod wire;
