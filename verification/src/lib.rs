//! A chat-driven spending tracker: categories, cost entries, the conversation
//! that collects them, and the statistics computed over them.

pub mod bot;
pub mod calendar;
pub mod db;
pub mod item;
pub mod money;
pub mod resolver;
pub mod stat;
pub mod text;
