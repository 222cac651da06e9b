//! A bookmark store for named endpoints, kept as one JSON document.

pub mod bookmark;
pub mod document;
pub mod json;
pub mod store;
pub mod text;

pub use bookmark::{Bookmark, BookmarkList};
pub use json::Json;
pub use store::{
    add_bookmark, delete_bookmark, get_bookmark, list_bookmark, update_bookmark, Config,
    FileContents, SaveRequest, StoreError, DEFAULT_LOCATION,
};
