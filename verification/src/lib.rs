//! Tab, split-pane and detached-window state of the Waku chat client,
//! with the decisions its views make each frame.

pub mod session;
pub mod waku;
pub mod chat_tabs;
pub mod detached;
pub mod rows;
pub mod split;
pub mod render;
pub mod laws;
