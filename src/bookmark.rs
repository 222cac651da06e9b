//! Bookmark records, the ordered list that holds them, and the edits on it.

use vstd::prelude::*;
use crate::text::{lower, occurs_in, matches_query};

verus! {

/// A record as the contracts see it: its name, then its url.
pub type Record = (Seq<char>, Seq<char>);

/// A named endpoint.
#[derive(Debug)]
pub struct Bookmark {
    pub name: String,
    pub url: String,
}

impl View for Bookmark {
    type V = Record;

    open spec fn view(&self) -> Record {
        (self.name@, self.url@)
    }
}

impl Bookmark {
    pub fn new(name: String, url: String) -> (r: Bookmark)
        ensures
            r.name == name,
            r.url == url,
    {
        Bookmark { name, url }
    }
}

/// Some record of `s` is named `name`.
pub open spec fn has_name(s: Seq<Record>, name: Seq<char>) -> bool {
    exists|i: int| 0 <= i < s.len() && (#[trigger] s[i]).0 == name
}

/// `r` with its url replaced by `url` when it is named `name`.
pub open spec fn with_url(r: Record, name: Seq<char>, url: Seq<char>) -> Record {
    if r.0 == name {
        (r.0, url)
    } else {
        r
    }
}

/// Upsert: every record named `name` gets `url`; with none, one is appended.
pub open spec fn upserted(s: Seq<Record>, name: Seq<char>, url: Seq<char>) -> Seq<Record> {
    if has_name(s, name) {
        s.map_values(|r: Record| with_url(r, name, url))
    } else {
        s.push((name, url))
    }
}

/// The records of `s` not named `name`, in their order.
pub open spec fn without(s: Seq<Record>, name: Seq<char>) -> Seq<Record> {
    s.filter(|r: Record| r.0 != name)
}

/// The records of `s` whose name contains `query`, ignoring ASCII case, in their order.
pub open spec fn matching(s: Seq<Record>, query: Seq<char>) -> Seq<Record> {
    s.filter(|r: Record| occurs_in(lower(query), lower(r.0)))
}

/// The view of a vector of bookmarks.
pub open spec fn records(v: Seq<Bookmark>) -> Seq<Record> {
    v.map_values(|b: Bookmark| b@)
}

/// Appending a bookmark appends its record.
proof fn lemma_records_push(v: Seq<Bookmark>, b: Bookmark)
    ensures
        records(v.push(b)) == records(v).push(b@),
{
    assert(records(v.push(b)) =~= records(v).push(b@));
}

/// The ordered collection of bookmarks that mirrors the backing file.
#[derive(Debug)]
pub struct BookmarkList {
    pub bookmarks: Vec<Bookmark>,
}

impl View for BookmarkList {
    type V = Seq<Record>;

    open spec fn view(&self) -> Seq<Record> {
        records(self.bookmarks@)
    }
}

/// A copy of `b` that Verus knows to be equal in content.
fn copy_bookmark(b: &Bookmark) -> (r: Bookmark)
    ensures
        r@ == b@,
{
    Bookmark::new(b.name.clone(), b.url.clone())
}

impl BookmarkList {
    pub fn new() -> (r: BookmarkList)
        ensures
            r@ == Seq::<Record>::empty(),
    {
        let r = BookmarkList { bookmarks: Vec::new() };
        assert(r@ =~= Seq::<Record>::empty());
        r
    }

    /// Appends `bookmark`, also when a record of the same name is present.
    pub fn add(&mut self, bookmark: Bookmark)
        ensures
            final(self)@ == old(self)@.push(bookmark@),
    {
        let ghost b = bookmark@;
        self.bookmarks.push(bookmark);
        assert(self@ =~= old(self)@.push(b));
    }

    /// Gives every record named `name` the url `url`, in place; appends a new
    /// record when none is named so.
    pub fn update(&mut self, name: &str, url: &str)
        ensures
            final(self)@ == upserted(old(self)@, name@, url@),
    {
        let ghost orig = self@;
        let key = String::from_str(name);
        let mut found = false;
        let n = self.bookmarks.len();
        let mut i: usize = 0;
        while i < n
            invariant
                orig == old(self)@,
                key@ == name@,
                n == self.bookmarks@.len(),
                n == orig.len(),
                i <= n,
                forall|k: int| 0 <= k < i ==> #[trigger] self.bookmarks@[k]@ == with_url(orig[k], name@, url@),
                forall|k: int| i <= k < n ==> #[trigger] self.bookmarks@[k]@ == orig[k],
                found == (exists|k: int| 0 <= k < i && (#[trigger] orig[k]).0 == name@),
            decreases n - i,
        {
            assert(self.bookmarks@[i as int]@ == orig[i as int]);
            if self.bookmarks[i].name == key {
                found = true;
                self.bookmarks[i].url = String::from_str(url);
            }
            assert(self.bookmarks@[i as int]@ == with_url(orig[i as int], name@, url@));
            i = i + 1;
        }
        if !found {
            assert(!has_name(orig, name@));
            let ghost before = self.bookmarks@;
            assert(records(before) =~= orig);
            self.bookmarks.push(Bookmark::new(key, String::from_str(url)));
            proof {
                lemma_records_push(before, self.bookmarks@.last());
                assert(self.bookmarks@ =~= before.push(self.bookmarks@.last()));
            }
        } else {
            assert(has_name(orig, name@));
            assert(self@ =~= orig.map_values(|r: Record| with_url(r, name@, url@)));
        }
    }

    /// Removes every record named `name`; the others keep their order.
    pub fn delete(&mut self, name: &str)
        ensures
            final(self)@ == without(old(self)@, name@),
    {
        let ghost orig = self@;
        let key = String::from_str(name);
        let mut kept: Vec<Bookmark> = Vec::new();
        let n = self.bookmarks.len();
        let mut i: usize = 0;
        while i < n
            invariant
                orig == self@,
                key@ == name@,
                n == self.bookmarks@.len(),
                i <= n,
                records(kept@) == without(orig.take(i as int), name@),
            decreases n - i,
        {
            let ghost before = kept@;
            let b = &self.bookmarks[i];
            if b.name != key {
                kept.push(copy_bookmark(b));
                proof {
                    lemma_records_push(before, kept@.last());
                    assert(kept@ =~= before.push(kept@.last()));
                }
            }
            proof {
                let t = orig.take(i + 1);
                assert(t.drop_last() =~= orig.take(i as int));
                assert(t.last() == self.bookmarks@[i as int]@);
                reveal_with_fuel(Seq::filter, 1);
            }
            i = i + 1;
        }
        assert(orig.take(n as int) =~= orig);
        self.bookmarks = kept;
    }

    /// Every record, in list order.
    pub fn list(&self) -> (r: Vec<Bookmark>)
        ensures
            records(r@) == self@,
    {
        let mut out: Vec<Bookmark> = Vec::new();
        let n = self.bookmarks.len();
        let mut i: usize = 0;
        while i < n
            invariant
                n == self.bookmarks@.len(),
                i <= n,
                records(out@) == self@.take(i as int),
            decreases n - i,
        {
            let ghost before = out@;
            out.push(copy_bookmark(&self.bookmarks[i]));
            proof {
                lemma_records_push(before, out@.last());
                assert(out@ =~= before.push(out@.last()));
                assert(self@.take(i + 1) =~= self@.take(i as int).push(self@[i as int]));
            }
            i = i + 1;
        }
        assert(self@.take(n as int) =~= self@);
        out
    }

    /// The records whose name contains `query`, ignoring ASCII case, in list order.
    pub fn get(&self, query: &str) -> (r: Vec<Bookmark>)
        ensures
            records(r@) == matching(self@, query@),
    {
        let ghost orig = self@;
        let mut out: Vec<Bookmark> = Vec::new();
        let n = self.bookmarks.len();
        let mut i: usize = 0;
        while i < n
            invariant
                orig == self@,
                n == self.bookmarks@.len(),
                i <= n,
                records(out@) == matching(orig.take(i as int), query@),
            decreases n - i,
        {
            let ghost before = out@;
            let b = &self.bookmarks[i];
            if matches_query(b.name.as_str(), query) {
                out.push(copy_bookmark(b));
                proof {
                    lemma_records_push(before, out@.last());
                    assert(out@ =~= before.push(out@.last()));
                }
            }
            proof {
                let t = orig.take(i + 1);
                assert(t.drop_last() =~= orig.take(i as int));
                assert(t.last() == self.bookmarks@[i as int]@);
                reveal_with_fuel(Seq::filter, 1);
            }
            i = i + 1;
        }
        assert(orig.take(n as int) =~= orig);
        out
    }
}

} // verus!
