//! The persisted document: `{ "bookmarks": [ { "name": ..., "url": ... }, ... ] }`.

use vstd::prelude::*;
use crate::bookmark::{Bookmark, BookmarkList, Record, records};
use crate::json::{Json, field, string_of, find_field, string_value};

verus! {

/// The record that the JSON value `v` describes: an object whose `name` and
/// `url` fields are strings. Other fields are ignored.
pub open spec fn record_of(v: Json) -> Option<Record> {
    match v {
        Json::Object(fields) => {
            match (field(fields@, "name"@), field(fields@, "url"@)) {
                (Some(n), Some(u)) => match (string_of(n), string_of(u)) {
                    (Some(name), Some(url)) => Some((name, url)),
                    _ => None,
                },
                _ => None,
            }
        },
        _ => None,
    }
}

/// The records that the array items `items` describe, when every item describes one.
pub open spec fn records_of(items: Seq<Json>) -> Option<Seq<Record>>
    decreases items.len(),
{
    if items.len() == 0 {
        Some(Seq::empty())
    } else {
        match (records_of(items.drop_last()), record_of(items.last())) {
            (Some(rs), Some(r)) => Some(rs.push(r)),
            _ => None,
        }
    }
}

/// The bookmark list that the document `v` holds: an object whose
/// `bookmarks` field is an array of records. Other fields are ignored;
/// any other shape holds no list.
pub open spec fn document_of(v: Json) -> Option<Seq<Record>> {
    match v {
        Json::Object(fields) => match field(fields@, "bookmarks"@) {
            Some(Json::Array(items)) => records_of(items@),
            _ => None,
        },
        _ => None,
    }
}

/// `v` is the object `{ "name": r.0, "url": r.1 }`, fields in that order.
pub open spec fn encodes_record(v: Json, r: Record) -> bool {
    match v {
        Json::Object(fields) => {
            &&& fields@.len() == 2
            &&& fields@[0].0@ == "name"@
            &&& string_of(fields@[0].1) == Some(r.0)
            &&& fields@[1].0@ == "url"@
            &&& string_of(fields@[1].1) == Some(r.1)
        },
        _ => false,
    }
}

/// `v` is the document `{ "bookmarks": [ ... ] }` with one record object per
/// element of `s`, in order.
pub open spec fn encodes_document(v: Json, s: Seq<Record>) -> bool {
    match v {
        Json::Object(fields) => {
            &&& fields@.len() == 1
            &&& fields@[0].0@ == "bookmarks"@
            &&& match fields@[0].1 {
                Json::Array(items) => {
                    &&& items@.len() == s.len()
                    &&& forall|i: int| 0 <= i < s.len() ==> encodes_record(#[trigger] items@[i], s[i])
                },
                _ => false,
            }
        },
        _ => false,
    }
}

/// The record object for `b`.
fn record_json(b: &Bookmark) -> (r: Json)
    ensures
        encodes_record(r, b@),
{
    let mut fields: Vec<(String, Json)> = Vec::new();
    fields.push((String::from_str("name"), Json::Str(b.name.clone())));
    fields.push((String::from_str("url"), Json::Str(b.url.clone())));
    Json::Object(fields)
}

/// The bookmark that the JSON value `v` describes, if any.
fn record_from(v: &Json) -> (r: Option<Bookmark>)
    ensures
        match r {
            Some(b) => record_of(*v) == Some(b@),
            None => record_of(*v) is None,
        },
{
    match v {
        Json::Object(fields) => {
            let name_key = String::from_str("name");
            let url_key = String::from_str("url");
            let name_at = find_field(fields, &name_key);
            let url_at = find_field(fields, &url_key);
            match (name_at, url_at) {
                (Some(i), Some(j)) => {
                    let name = string_value(&fields[i].1);
                    let url = string_value(&fields[j].1);
                    match (name, url) {
                        (Some(name), Some(url)) => Some(Bookmark::new(name, url)),
                        _ => None,
                    }
                },
                _ => None,
            }
        },
        _ => None,
    }
}

/// Once a prefix of `items` holds an item that describes no record, the
/// whole of `items` describes no list.
proof fn lemma_records_of_prefix(items: Seq<Json>, j: int)
    requires
        0 <= j <= items.len(),
        records_of(items.take(j)) is None,
    ensures
        records_of(items) is None,
    decreases items.len(),
{
    if j < items.len() {
        assert(items.drop_last().take(j) =~= items.take(j));
        lemma_records_of_prefix(items.drop_last(), j);
    } else {
        assert(items.take(j) =~= items);
    }
}

impl BookmarkList {
    /// The document that holds this list.
    pub fn to_json(&self) -> (r: Json)
        ensures
            encodes_document(r, self@),
    {
        let mut items: Vec<Json> = Vec::new();
        let n = self.bookmarks.len();
        let mut i: usize = 0;
        while i < n
            invariant
                n == self@.len(),
                i <= n,
                items@.len() == i,
                forall|k: int| 0 <= k < i ==> encodes_record(#[trigger] items@[k], self@[k]),
            decreases n - i,
        {
            items.push(record_json(&self.bookmarks[i]));
            i = i + 1;
        }
        let mut fields: Vec<(String, Json)> = Vec::new();
        fields.push((String::from_str("bookmarks"), Json::Array(items)));
        Json::Object(fields)
    }

    /// The list that the document `doc` holds; `None` when `doc` does not
    /// have the shape of a bookmark document.
    pub fn from_json(doc: &Json) -> (r: Option<BookmarkList>)
        ensures
            match r {
                Some(l) => document_of(*doc) == Some(l@),
                None => document_of(*doc) is None,
            },
    {
        let fields = match doc {
            Json::Object(fields) => fields,
            _ => return None,
        };
        let key = String::from_str("bookmarks");
        let at = match find_field(fields, &key) {
            Some(at) => at,
            None => return None,
        };
        let items = match &fields[at].1 {
            Json::Array(items) => items,
            _ => return None,
        };
        assert(document_of(*doc) == records_of(items@));
        let mut out: Vec<Bookmark> = Vec::new();
        let n = items.len();
        let mut i: usize = 0;
        while i < n
            invariant
                n == items@.len(),
                document_of(*doc) == records_of(items@),
                i <= n,
                records_of(items@.take(i as int)) == Some(records(out@)),
            decreases n - i,
        {
            let ghost before = out@;
            let ghost t = items@.take(i + 1);
            assert(t.drop_last() =~= items@.take(i as int));
            assert(t.last() == items@[i as int]);
            match record_from(&items[i]) {
                Some(b) => {
                    out.push(b);
                    assert(records(out@) =~= records(before).push(out@.last()@));
                },
                None => {
                    proof {
                        lemma_records_of_prefix(items@, i + 1);
                    }
                    return None;
                },
            }
            i = i + 1;
        }
        assert(items@.take(n as int) =~= items@);
        Some(BookmarkList { bookmarks: out })
    }
}

/// Reading back the document written for a list gives the same records in
/// the same order: the encoding loses nothing.
pub proof fn lemma_document_round_trip(v: Json, s: Seq<Record>)
    requires
        encodes_document(v, s),
    ensures
        document_of(v) == Some(s),
{
    let fields = v->Object_0;
    let items = fields@[0].1->Array_0@;
    assert(field(fields@, "bookmarks"@) == Some(fields@[0].1));
    lemma_records_of_encoded(items, s);
}

/// The items of an encoded array describe exactly the encoded records.
proof fn lemma_records_of_encoded(items: Seq<Json>, s: Seq<Record>)
    requires
        items.len() == s.len(),
        forall|i: int| 0 <= i < s.len() ==> encodes_record(#[trigger] items[i], s[i]),
    ensures
        records_of(items) == Some(s),
    decreases items.len(),
{
    reveal_strlit("name");
    reveal_strlit("url");
    assert("name"@.len() != "url"@.len());
    if items.len() > 0 {
        let k = items.len() - 1;
        lemma_records_of_encoded(items.drop_last(), s.drop_last());
        let fields = items[k]->Object_0;
        assert(encodes_record(items[k], s[k]));
        assert(fields@.drop_first()[0] == fields@[1]);
        assert(field(fields@, "url"@) == field(fields@.drop_first(), "url"@));
        assert(record_of(items.last()) == Some(s[k]));
        assert(s.drop_last().push(s[k]) =~= s);
    } else {
        assert(s =~= Seq::<Record>::empty());
    }
}

} // verus!
