//! Terminal input multiplexing: a buffered, filtered reader of decoded
//! terminal events and the cursor-position query built on top of it.

pub mod cursor;
pub mod error;
pub mod event;
pub mod filter;
pub mod reader;
pub mod timeout;
