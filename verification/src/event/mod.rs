//! Events: their routing to windows, and what they change there.

pub mod handle;
pub mod mouse;
pub mod paste;
pub mod processor;
pub mod quick;
pub mod search;
pub mod spawn;
pub mod tab_request;
pub mod terminal;
pub mod window;
pub mod word;
