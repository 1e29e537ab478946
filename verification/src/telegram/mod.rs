//! Bot interaction: keyboards and captions, progress throttling, and the
//! decisions behind the message and callback handlers.
pub mod handlers;
pub mod keyboard;
pub mod pipeline;
pub mod progress;
