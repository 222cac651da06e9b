//! The store: where the backing file lives, loading a list from what was
//! found there, and the edits that are each followed by a save.

use vstd::prelude::*;
use crate::bookmark::{Bookmark, BookmarkList, Record, records, upserted, without, matching};
use crate::document::{document_of, encodes_document, lemma_document_round_trip};
use crate::json::Json;

verus! {

/// The backing file used when none is named.
pub const DEFAULT_LOCATION: &'static str = "marktor.json";

/// Where the backing file lives. Fixed for the life of the process.
#[derive(Debug)]
pub struct Config {
    pub location: String,
}

impl Config {
    pub fn new(location: String) -> (r: Config)
        ensures
            r.location == location,
    {
        Config { location }
    }

    /// The configuration for a location that may have been left out; the
    /// default file stands in for a missing one.
    pub fn from_argument(location: Option<&str>) -> (r: Config)
        ensures
            r.location@ == match location {
                Some(l) => l@,
                None => DEFAULT_LOCATION@,
            },
    {
        match location {
            Some(l) => Config::new(String::from_str(l)),
            None => Config::new(String::from_str(DEFAULT_LOCATION)),
        }
    }
}

/// Why a load or a save failed.
#[derive(Debug, Clone, Copy, PartialEq, Eq, Structural)]
pub enum StoreError {
    /// The backing file could not be opened, read or written.
    Io,
    /// The backing file does not hold a bookmark document.
    Parse,
}

/// What was found at the configured location.
#[derive(Debug)]
pub enum FileContents {
    /// No file is there.
    Missing,
    /// A file is there but could not be opened or read.
    Unreadable,
    /// The file's text is not JSON.
    Malformed,
    /// The file's text is this JSON value.
    Parsed(Json),
}

/// What loading from `source` yields: the records, or the error.
pub open spec fn loaded(source: FileContents) -> Result<Seq<Record>, StoreError> {
    match source {
        FileContents::Missing => Ok(Seq::empty()),
        FileContents::Unreadable => Err(StoreError::Io),
        FileContents::Malformed => Err(StoreError::Parse),
        FileContents::Parsed(doc) => match document_of(doc) {
            Some(s) => Ok(s),
            None => Err(StoreError::Parse),
        },
    }
}

/// The whole-file write that persists a list: `document` replaces all that
/// the file at `location` held.
#[derive(Debug)]
pub struct SaveRequest {
    pub location: String,
    pub document: Json,
}

impl BookmarkList {
    /// The list held by the backing file, given what was found there. A
    /// missing file holds the empty list.
    pub fn load(source: FileContents) -> (r: Result<BookmarkList, StoreError>)
        ensures
            match r {
                Ok(l) => loaded(source) == Ok::<Seq<Record>, StoreError>(l@),
                Err(e) => loaded(source) == Err::<Seq<Record>, StoreError>(e),
            },
    {
        match source {
            FileContents::Missing => Ok(BookmarkList::new()),
            FileContents::Unreadable => Err(StoreError::Io),
            FileContents::Malformed => Err(StoreError::Parse),
            FileContents::Parsed(doc) => match BookmarkList::from_json(&doc) {
                Some(l) => Ok(l),
                None => Err(StoreError::Parse),
            },
        }
    }

    /// The write that persists this whole list at the configured location.
    pub fn save(&self, config: &Config) -> (r: SaveRequest)
        ensures
            r.location@ == config.location@,
            encodes_document(r.document, self@),
    {
        SaveRequest { location: config.location.clone(), document: self.to_json() }
    }
}

/// Loading what a save wrote gives back the same records in the same order.
pub proof fn lemma_save_then_load(s: Seq<Record>, req: SaveRequest)
    requires
        encodes_document(req.document, s),
    ensures
        loaded(FileContents::Parsed(req.document)) == Ok::<Seq<Record>, StoreError>(s),
{
    lemma_document_round_trip(req.document, s);
}

/// Appends the bookmark `name`/`url` and gives the save that persists the list.
pub fn add_bookmark(config: &Config, bookmark_list: &mut BookmarkList, name: &str, url: &str) -> (r: SaveRequest)
    ensures
        final(bookmark_list)@ == old(bookmark_list)@.push((name@, url@)),
        r.location@ == config.location@,
        encodes_document(r.document, final(bookmark_list)@),
{
    let bookmark = Bookmark::new(String::from_str(name), String::from_str(url));
    bookmark_list.add(bookmark);
    bookmark_list.save(config)
}

/// Upserts `name` with `url` and gives the save that persists the list.
pub fn update_bookmark(config: &Config, bookmark_list: &mut BookmarkList, name: &str, url: &str) -> (r: SaveRequest)
    ensures
        final(bookmark_list)@ == upserted(old(bookmark_list)@, name@, url@),
        r.location@ == config.location@,
        encodes_document(r.document, final(bookmark_list)@),
{
    bookmark_list.update(name, url);
    bookmark_list.save(config)
}

/// Removes every bookmark named `name` and gives the save that persists the list.
pub fn delete_bookmark(config: &Config, bookmark_list: &mut BookmarkList, name: &str) -> (r: SaveRequest)
    ensures
        final(bookmark_list)@ == without(old(bookmark_list)@, name@),
        r.location@ == config.location@,
        encodes_document(r.document, final(bookmark_list)@),
{
    bookmark_list.delete(name);
    bookmark_list.save(config)
}

/// The rows to show for the whole list.
pub fn list_bookmark(bookmark_list: &BookmarkList) -> (r: Vec<Bookmark>)
    ensures
        records(r@) == bookmark_list@,
{
    bookmark_list.list()
}

/// The rows to show for a search on `name`.
pub fn get_bookmark(bookmark_list: &BookmarkList, name: &str) -> (r: Vec<Bookmark>)
    ensures
        records(r@) == matching(bookmark_list@, name@),
{
    bookmark_list.get(name)
}

} // verus!
