//! Building blocks of a scheduled morning greeting: a weather summary, a
//! prompt for a text generator, the chat message with its mentions, and the
//! rules by which one run moves from launch to teardown.

pub mod greeting;
pub mod members;
pub mod message;
pub mod pipeline;
pub mod text;
pub mod weather;
