//! A minimal terminal text viewer: a queued terminal surface, a view that
//! renders rows of content or a welcome banner, and a controller that keeps
//! the cursor location and the quit state.

pub mod terminal;
pub mod buffer;
pub mod view;
pub mod editor;
