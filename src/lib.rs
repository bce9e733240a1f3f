//! A terminal emulator core for systems without a hosted terminal.
//!
//! Bytes with ANSI/VT control sequences go in through [`Console::write_byte`];
//! a byte parser turns them into callbacks, the terminal state machine
//! performs them on a cached grid of styled cells, and the cache forwards
//! every cell it writes to a user-supplied [`TextBuffer`].
pub mod ansi;
pub mod cell;
pub mod color;
pub mod console;
pub mod escape_parser;
pub mod graphic;
pub mod laws;
pub mod model;
pub mod text_buffer;
pub mod text_buffer_cache;

pub use console::Console;
pub use text_buffer::TextBuffer;
pub use text_buffer_cache::TextBufferCache;
