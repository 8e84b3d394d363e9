//! The bibliographic record of one book and its fingerprint.
use crate::text::{normalize_creator, unmangle_creator};
use std::collections::hash_map::DefaultHasher;
use std::collections::HashMap;
use std::hash::{Hash, Hasher};
use vstd::prelude::*;

verus! {

/// What std's `DefaultHasher` gives for the triple (title, publisher,
/// creator). An absent field is fed to the hasher otherwise than an empty one.
pub uninterp spec fn fingerprint_of(
    title: Option<Seq<char>>,
    publisher: Option<Seq<char>>,
    creator: Option<Seq<char>>,
) -> i64;

/// The text of an optional field.
pub open spec fn opt_view(o: Option<String>) -> Option<Seq<char>> {
    match o {
        Some(s) => Some(s@),
        None => None,
    }
}

/// How often `key` was counted in `m`.
pub open spec fn tally(m: Map<Seq<char>, u32>, key: Seq<char>) -> nat {
    if m.contains_key(key) {
        m[key] as nat
    } else {
        0
    }
}

/// Relies on std's `DefaultHasher`: a hasher from `DefaultHasher::new`, fed
/// the tuple through `Hash` and read by `finish`, depends on the fields alone.
#[verifier::external_body]
fn hash_triple(title: &Option<String>, publisher: &Option<String>, creator: &Option<String>) -> (r:
    i64)
    ensures
        r == fingerprint_of(opt_view(*title), opt_view(*publisher), opt_view(*creator)),
{
    let mut s = DefaultHasher::new();
    (title, publisher, creator).hash(&mut s);
    s.finish() as i64
}

/// Relies on `HashMap::get`: with `String` keys, the entry whose key has the
/// text of `key`.
#[verifier::external_body]
fn count_of(counts: &HashMap<String, u32>, key: &String) -> (r: Option<u32>)
    ensures
        r == (if counts.deep_view().contains_key(key@) {
            Some(counts.deep_view()[key@])
        } else {
            None::<u32>
        }),
{
    counts.get(key).copied()
}

/// Relies on `HashMap::insert`: with `String` keys, the entry for the text of
/// `key` holds `n` afterwards and the others are kept.
#[verifier::external_body]
fn set_count(counts: &mut HashMap<String, u32>, key: String, n: u32)
    ensures
        final(counts).deep_view() == old(counts).deep_view().insert(key@, n),
{
    counts.insert(key, n);
}

/// One scanned book: its four bibliographic fields, where it lies and how
/// large it is. `id` is the fingerprint of title, publisher and creator.
pub struct BookMetadata {
    pub id: i64,
    pub title: Option<String>,
    pub description: Option<String>,
    pub publisher: Option<String>,
    pub creator: Option<String>,
    pub file: String,
    pub filesize: i64,
}

impl BookMetadata {
    /// The fingerprint of this record's title, publisher and creator.
    pub open spec fn fingerprint(&self) -> i64 {
        fingerprint_of(opt_view(self.title), opt_view(self.publisher), opt_view(self.creator))
    }

    /// A record whose `id` matches its fields.
    pub open spec fn wf(&self) -> bool {
        self.id == self.fingerprint()
    }

    /// Builds the record of a book from its first metadata values; the
    /// creator is normalised and the fingerprint computed.
    pub fn new(
        title: Option<String>,
        description: Option<String>,
        publisher: Option<String>,
        creator: Option<String>,
        file: String,
        filesize: i64,
    ) -> (r: BookMetadata)
        ensures
            r.title == title,
            r.description == description,
            r.publisher == publisher,
            opt_view(r.creator) == (match creator {
                Some(c) => Some(normalize_creator(c@)),
                None => None,
            }),
            r.file == file,
            r.filesize == filesize,
            r.wf(),
    {
        let creator = match creator {
            Some(c) => Some(unmangle_creator(c)),
            None => None,
        };
        let mut bm = BookMetadata {
            id: 0,
            title,
            description,
            publisher,
            creator,
            file,
            filesize,
        };
        bm.id = bm.hash_md();
        bm
    }

    /// Counts one more occurrence of `val`, if it is present.
    pub fn add_counts(val: &Option<String>, counts: &mut HashMap<String, u32>)
        requires
            val matches Some(c) ==> tally(old(counts).deep_view(), c@) < u32::MAX,
        ensures
            match val {
                Some(c) => final(counts).deep_view() == old(counts).deep_view().insert(
                    c@,
                    (tally(old(counts).deep_view(), c@) + 1) as u32,
                ),
                None => final(counts).deep_view() == old(counts).deep_view(),
            },
    {
        if let Some(cat) = val {
            let n = match count_of(counts, cat) {
                Some(n) => n,
                None => 0,
            };
            set_count(counts, cat.clone(), n + 1);
        }
    }

    /// The fingerprint of title, publisher and creator.
    pub fn hash_md(&self) -> (r: i64)
        ensures
            r == self.fingerprint(),
    {
        hash_triple(&self.title, &self.publisher, &self.creator)
    }
}

/// Records that agree on title, publisher and creator have the same
/// fingerprint, whatever their other fields hold.
pub proof fn lemma_fingerprint_deterministic(a: BookMetadata, b: BookMetadata)
    requires
        opt_view(a.title) == opt_view(b.title),
        opt_view(a.publisher) == opt_view(b.publisher),
        opt_view(a.creator) == opt_view(b.creator),
    ensures
        a.fingerprint() == b.fingerprint(),
{
}

} // verus!
