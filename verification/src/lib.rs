//! Input from a terminal widget that pushes raw bytes, offered as a stream of
//! events that the application pulls.

pub mod channel;
pub mod decoder;
pub mod event;
pub mod js_terminal;

pub use channel::Pulled;
pub use decoder::{decode, Decoded};
pub use event::{EventStream, Polled, StreamError};
pub use js_terminal::{
    cursor_position, poll_next_event, size, window_size, FlushError, HostState, Session,
    TerminalHandle, WindowSize, QUEUE_CAPACITY,
};
