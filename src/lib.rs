//! Polls a story index for fresh posts on a keyword, condenses each post's
//! page text and renders one chat notification per post.
//!
//! The network, the page scraper, the language model and the scheduler live
//! outside this crate; every decision taken between them lives here.

pub mod text;
pub mod window;
pub mod message;
pub mod story;
pub mod summary;
pub mod dispatch;
pub mod pipeline;
