//! A small chat-bot core: a registry of meme templates, a captioning
//! client for the imgflip API, and a command dispatcher, all with
//! verified contracts.

pub mod dispatch;
pub mod imgflip;
pub mod registry;
pub mod text;
