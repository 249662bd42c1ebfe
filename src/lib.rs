//! A scrolling text console with ANSI color support, rendered onto an
//! in-memory RGB framebuffer and backed by a bounded history of written bytes
//! from which the screen can be redrawn.

pub mod buffer;
pub mod color;
pub mod config;
pub mod console;
pub mod font;
pub mod framebuffer;
pub mod lemmas;
pub mod picture;

pub use buffer::{LogBuffer, LogBufferIter};
pub use config::FramebufferConfig;
pub use console::SimpleFbConsole;
pub use framebuffer::Framebuffer;
