//! Inline-query responder for the crates.io package registry.
//!
//! Given a user's search text (possibly empty), the library decides which
//! registry endpoint to query, renders each returned package record into a
//! display-ready result item (title, HTML body, ordered link buttons), and
//! assembles the ordered answer.  A thin unverified shell performs the HTTP
//! requests and the bot-platform calls; everything that decides or computes
//! lives here, with its behaviour stated in contracts.

pub mod about;
pub mod client;
pub mod dispatch;
pub mod escape;
pub mod lookup;
pub mod package;
pub mod render;
