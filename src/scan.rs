//! The scan's own decisions: which directory entries are skipped or taken,
//! how paths are gathered into batches, and which tag each file gets.
use crate::dedup::{step_dropped, step_map, DedupMap, Resolution};
use crate::metadata::BookMetadata;
use crate::text::{ends_with, has_suffix};
use vstd::prelude::*;

verus! {

/// A batch is handed on for processing once it holds this many paths.
pub const BATCH_CAPACITY: usize = 10000;

/// The file name suffix of the books the scan takes.
pub open spec fn book_suffix() -> Seq<char> {
    seq!['.', 'e', 'p', 'u', 'b']
}

/// An entry whose name starts with a dot is hidden, and so is everything
/// below a hidden directory.
pub fn is_hidden_name(name: &str) -> (r: bool)
    ensures
        r == (name@.len() > 0 && name@[0] == '.'),
{
    name.unicode_len() > 0 && name.get_char(0) == '.'
}

/// A path is taken when it names a regular file and ends with ".epub".
pub fn is_candidate(path: &str, is_file: bool) -> (r: bool)
    ensures
        r == (is_file && has_suffix(path@, book_suffix())),
{
    proof {
        reveal_strlit(".epub");
        assert(".epub"@ =~= book_suffix());
    }
    is_file && ends_with(path, ".epub")
}

/// Paths gathered for the next batch; never a full batch between calls.
pub struct BatchBuilder {
    paths: Vec<String>,
}

impl View for BatchBuilder {
    type V = Seq<String>;

    closed spec fn view(&self) -> Seq<String> {
        self.paths@
    }
}

impl BatchBuilder {
    /// Holds fewer paths than a full batch.
    pub open spec fn wf(&self) -> bool {
        self@.len() < BATCH_CAPACITY
    }

    /// An empty batch.
    pub fn new() -> (r: BatchBuilder)
        ensures
            r@.len() == 0,
            r.wf(),
    {
        BatchBuilder { paths: Vec::new() }
    }

    /// Adds `path`; when that fills the batch, the full batch is returned and
    /// a new one started.
    pub fn push(&mut self, path: String) -> (r: Option<Vec<String>>)
        requires
            old(self).wf(),
        ensures
            final(self).wf(),
            old(self)@.len() + 1 == BATCH_CAPACITY ==> (r matches Some(b) && b@ == old(
                self,
            )@.push(path)) && final(self)@.len() == 0,
            old(self)@.len() + 1 < BATCH_CAPACITY ==> r is None && final(self)@ == old(
                self,
            )@.push(path),
    {
        self.paths.push(path);
        if self.paths.len() == BATCH_CAPACITY {
            let mut full: Vec<String> = Vec::new();
            std::mem::swap(&mut full, &mut self.paths);
            Some(full)
        } else {
            None
        }
    }

    /// Hands on what is left, if anything, and starts a new batch.
    pub fn finish(&mut self) -> (r: Option<Vec<String>>)
        ensures
            final(self)@.len() == 0,
            old(self)@.len() > 0 ==> (r matches Some(b) && b@ == old(self)@),
            old(self)@.len() == 0 ==> r is None,
    {
        if self.paths.len() > 0 {
            let mut rest: Vec<String> = Vec::new();
            std::mem::swap(&mut rest, &mut self.paths);
            Some(rest)
        } else {
            None
        }
    }
}

/// What became of one scanned file.
pub enum FileOutcome {
    /// Retained, or accepted with nothing to report.
    Kept,
    /// The copy at this path is a duplicate to drop.
    Duplicate(String),
    /// The book at this path is in another language.
    Foreign(String),
    /// The book at this path could not be read.
    ExtractionError(String),
}

/// `tag`, a colon, and `path`.
pub open spec fn tag_line(tag: Seq<char>, path: Seq<char>) -> Seq<char> {
    tag + seq![':'] + path
}

fn tagged(tag: &str, path: &String) -> (r: String)
    ensures
        r@ == tag_line(tag@, path@),
{
    let mut line = String::from_str(tag);
    line.append(":");
    line.append(path.as_str());
    proof {
        reveal_strlit(":");
    }
    assert(line@ =~= tag_line(tag@, path@));
    line
}

impl FileOutcome {
    /// The line reported for this outcome: `DUP:`, `FRN:` or `ERROR:`
    /// followed by the path, and none for a kept file.
    pub fn report_line(&self) -> (r: Option<String>)
        ensures
            match self {
                FileOutcome::Kept => r is None,
                FileOutcome::Duplicate(p) => r matches Some(l) && l@ == tag_line("DUP"@, p@),
                FileOutcome::Foreign(p) => r matches Some(l) && l@ == tag_line("FRN"@, p@),
                FileOutcome::ExtractionError(p) => r matches Some(l) && l@ == tag_line(
                    "ERROR"@,
                    p@,
                ),
            },
    {
        match self {
            FileOutcome::Kept => None,
            FileOutcome::Duplicate(p) => Some(tagged("DUP", p)),
            FileOutcome::Foreign(p) => Some(tagged("FRN", p)),
            FileOutcome::ExtractionError(p) => Some(tagged("ERROR", p)),
        }
    }
}

/// Settles one book that was read: a book the language gate rejected is
/// foreign and leaves the map alone; an accepted one is submitted to the map
/// under its fingerprint, at `path`, with its size.
pub fn process_record(map: &mut DedupMap, bm: &BookMetadata, path: String, accepted: bool) -> (r:
    FileOutcome)
    ensures
        !accepted ==> final(map)@ == old(map)@ && (r matches FileOutcome::Foreign(p) && p@
            == path@),
        accepted ==> final(map)@ == step_map(old(map)@, bm.id, path@, bm.filesize),
        accepted ==> match step_dropped(old(map)@, bm.id, path@, bm.filesize) {
            None => r is Kept,
            Some(d) => r matches FileOutcome::Duplicate(p) && p@ == d,
        },
{
    if !accepted {
        return FileOutcome::Foreign(path);
    }
    match map.resolve(bm.id, path, bm.filesize) {
        Resolution::Kept => FileOutcome::Kept,
        Resolution::Duplicate(p) => FileOutcome::Duplicate(p),
    }
}

} // verus!
