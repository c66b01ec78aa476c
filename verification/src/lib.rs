//! Verified core of a popup-menu browser controller: profile resolution,
//! menu rendering, selection dispatch, bookmark filtering, history-line
//! formatting, search-URL construction, and the wire strings of the
//! remote-debugging protocol.

pub mod bookmarks;
pub mod cdp;
pub mod config;
pub mod dispatch;
pub mod history;
pub mod menu;
pub mod protocol;
pub mod search;
pub mod tabs;
pub mod text;
pub mod windows;
