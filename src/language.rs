//! The language gate: whether a book is in the wanted language, judged from
//! its description when that is long enough and from sampled pages otherwise.
use crate::metadata::{opt_view, BookMetadata};
use lingua::{Language, LanguageDetector};
use rand::Rng;
use scraper::node::Node;
use scraper::Html;
use vstd::prelude::*;

verus! {

#[verifier::external_type_specification]
#[verifier::external_body]
pub struct ExLanguageDetector(LanguageDetector);

#[verifier::external_type_specification]
#[verifier::external_body]
pub struct ExLanguage(Language);

/// Relies on the `PartialEq` that lingua derives for `Language`: two values
/// are equal exactly when they are the same language.
pub assume_specification[ <Language as PartialEq>::eq ](a: &Language, b: &Language) -> (r: bool)
    ensures
        r == (*a == *b),
;

/// The text that remains of an HTML fragment once its markup is taken out.
pub uninterp spec fn fragment_text_of(html: Seq<char>) -> Seq<char>;

/// Relies on scraper's `Html::parse_fragment`: the text nodes of the parsed
/// fragment, in the order of its tree, depend on the fragment alone.
#[verifier::external_body]
fn strip_markup(html: &str) -> (r: String)
    ensures
        r@ == fragment_text_of(html@),
{
    let doc = Html::parse_fragment(html);
    let mut out = String::new();
    for node in doc.tree {
        if let Node::Text(t) = node {
            out.push_str(&t.text);
        }
    }
    out
}

/// Relies on lingua's `LanguageDetector::detect_language_of`: `None` where no
/// language is detected confidently. Which language it names depends on how
/// the detector was built.
#[verifier::external_body]
fn detect_language(detector: &LanguageDetector, text: &str) -> (r: Option<Language>) {
    detector.detect_language_of(text)
}

/// Relies on rand's `thread_rng().gen_range(0..n)`: a number below `n`; it
/// panics on an empty range, which `requires` rules out.
#[verifier::external_body]
fn random_below(n: usize) -> (r: usize)
    requires
        n > 0,
    ensures
        r < n,
{
    rand::thread_rng().gen_range(0..n)
}

/// How many pages are sampled from a book whose metadata is too sparse.
pub const SAMPLE_PAGES: usize = 3;

/// A description longer than this many characters is enough to judge by.
pub const DESCRIPTION_THRESHOLD: usize = 50;

/// What the detector made of a text, against the wanted language.
pub enum Detection {
    Target,
    Other,
    Inconclusive,
}

/// The metadata tier's answer for a record.
pub enum Screening {
    Accept,
    Reject,
    /// The metadata is too sparse: pages of the book must be sampled.
    SampleContent,
}

/// A detection is accepted unless it confidently names another language.
pub open spec fn accepts(d: Detection) -> bool {
    !(d is Other)
}

/// Whether the record's description is long enough to judge by.
pub open spec fn uses_metadata(bm: BookMetadata) -> bool {
    bm.description matches Some(d) && d@.len() > DESCRIPTION_THRESHOLD
}

/// The title (or nothing), a space, and the description.
pub open spec fn metadata_text_of(bm: BookMetadata) -> Seq<char> {
    let title = match bm.title {
        Some(t) => t@,
        None => Seq::empty(),
    };
    let desc = match bm.description {
        Some(d) => d@,
        None => Seq::empty(),
    };
    title + seq![' '] + desc
}

/// The pages, each after a space, one after another.
pub open spec fn joined_pages(pages: Seq<String>) -> Seq<char>
    decreases pages.len(),
{
    if pages.len() == 0 {
        Seq::empty()
    } else {
        joined_pages(pages.drop_last()) + seq![' '] + pages.last()@
    }
}

/// Whether a detection is accepted.
pub fn verdict(d: Detection) -> (r: bool)
    ensures
        r == accepts(d),
{
    match d {
        Detection::Other => false,
        _ => true,
    }
}

/// Places a detected language against the wanted one.
pub fn classify_detection(detected: Option<Language>, target: &Language) -> (r: Detection)
    ensures
        detected is None ==> r is Inconclusive,
        detected matches Some(l) ==> (r is Target <==> l == *target) && (r is Other <==> l
            != *target),
{
    match detected {
        None => Detection::Inconclusive,
        Some(l) => if l.eq(target) {
            Detection::Target
        } else {
            Detection::Other
        },
    }
}

/// The text the metadata tier judges: present exactly when the description
/// has more than the threshold's number of characters.
pub fn metadata_text(bm: &BookMetadata) -> (r: Option<String>)
    ensures
        opt_view(r) == (if uses_metadata(*bm) {
            Some(metadata_text_of(*bm))
        } else {
            None::<Seq<char>>
        }),
{
    match &bm.description {
        Some(d) => {
            if d.as_str().unicode_len() > DESCRIPTION_THRESHOLD {
                let mut text = match &bm.title {
                    Some(t) => t.clone(),
                    None => String::new(),
                };
                text.append(" ");
                text.append(d.as_str());
                proof {
                    reveal_strlit(" ");
                }
                assert(text@ =~= metadata_text_of(*bm));
                Some(text)
            } else {
                None
            }
        },
        None => None,
    }
}

/// The sampled pages, each after a space, with their markup taken out.
pub fn sampled_text(pages: &Vec<String>) -> (r: String)
    ensures
        r@ == fragment_text_of(joined_pages(pages@)),
{
    let mut content = String::new();
    let mut i: usize = 0;
    while i < pages.len()
        invariant
            0 <= i <= pages.len(),
            content@ == joined_pages(pages@.subrange(0, i as int)),
        decreases pages.len() - i,
    {
        proof {
            reveal_strlit(" ");
            assert(pages@.subrange(0, i + 1).drop_last() =~= pages@.subrange(0, i as int));
        }
        content.append(" ");
        content.append(pages[i].as_str());
        assert(content@ =~= joined_pages(pages@.subrange(0, i + 1)));
        i = i + 1;
    }
    assert(pages@.subrange(0, i as int) =~= pages@);
    strip_markup(content.as_str())
}

/// Page numbers to sample from a book of `num_pages` pages: three draws
/// below `num_pages`, none for a book without pages.
pub fn pick_pages(num_pages: usize) -> (r: Vec<usize>)
    ensures
        r@.len() == (if num_pages > 0 {
            SAMPLE_PAGES
        } else {
            0
        }),
        forall|i: int| 0 <= i < r@.len() ==> #[trigger] r@[i] < num_pages,
{
    let mut r: Vec<usize> = Vec::new();
    if num_pages == 0 {
        return r;
    }
    while r.len() < SAMPLE_PAGES
        invariant
            r@.len() <= SAMPLE_PAGES,
            num_pages > 0,
            forall|i: int| 0 <= i < r@.len() ==> #[trigger] r@[i] < num_pages,
        decreases SAMPLE_PAGES - r@.len(),
    {
        r.push(random_below(num_pages));
    }
    r
}

/// The language gate: either accepts everything, or judges with a detector
/// against a wanted language.
pub struct LanguageGate {
    classifier: Option<(LanguageDetector, Language)>,
}

impl LanguageGate {
    /// Whether a detector is configured.
    pub closed spec fn is_configured(&self) -> bool {
        self.classifier is Some
    }

    /// A gate that accepts every record.
    pub fn pass_through() -> (r: LanguageGate)
        ensures
            !r.is_configured(),
    {
        LanguageGate { classifier: None }
    }

    /// A gate that judges with `detector`, accepting `target`.
    pub fn detecting(detector: LanguageDetector, target: Language) -> (r: LanguageGate)
        ensures
            r.is_configured(),
    {
        LanguageGate { classifier: Some((detector, target)) }
    }

    /// Judges `text`: accepted unless the detector confidently names a
    /// language other than the wanted one; always accepted without a
    /// detector.
    pub fn judge_text(&self, text: &str) -> (r: bool)
        ensures
            !self.is_configured() ==> r,
    {
        match &self.classifier {
            None => true,
            Some((detector, target)) => {
                let detected = detect_language(detector, text);
                verdict(classify_detection(detected, target))
            },
        }
    }

    /// The metadata tier. Without a detector every record is accepted. With
    /// one, a record whose description is long enough is judged on
    /// `metadata_text`; any other asks for its pages to be sampled.
    pub fn screen_metadata(&self, bm: &BookMetadata) -> (r: Screening)
        ensures
            !self.is_configured() ==> r is Accept,
            self.is_configured() && uses_metadata(*bm) ==> (r is Accept || r is Reject),
            self.is_configured() && !uses_metadata(*bm) ==> r is SampleContent,
    {
        if self.classifier.is_none() {
            return Screening::Accept;
        }
        match metadata_text(bm) {
            Some(text) => if self.judge_text(text.as_str()) {
                Screening::Accept
            } else {
                Screening::Reject
            },
            None => Screening::SampleContent,
        }
    }

    /// The content-sampling tier: judges the text of the sampled pages.
    pub fn screen_pages(&self, pages: &Vec<String>) -> (r: bool)
        ensures
            !self.is_configured() ==> r,
    {
        let text = sampled_text(pages);
        self.judge_text(text.as_str())
    }
}

} // verus!
