//! The map of retained copies, keyed by fingerprint, that settles which copy
//! of a work is kept and which is reported as a duplicate.
use std::collections::HashMap;
use vstd::prelude::*;

verus! {

broadcast use vstd::std_specs::hash::group_hash_axioms;

/// A retained copy: where it lies and how many bytes it has.
pub struct Book {
    pub location: String,
    pub size: i64,
}

/// What the resolver answers for one submitted copy.
pub enum Resolution {
    /// First copy of its fingerprint: it is retained.
    Kept,
    /// The copy at this location is a duplicate to drop: the one that was
    /// retained before (when the new copy is larger) or the new copy itself.
    Duplicate(String),
}

impl Resolution {
    /// The location to drop, if any.
    pub open spec fn dropped(&self) -> Option<Seq<char>> {
        match self {
            Resolution::Kept => None,
            Resolution::Duplicate(loc) => Some(loc@),
        }
    }
}

/// The retained copies by fingerprint, as (location, size).
pub type Retained = Map<i64, (Seq<char>, i64)>;

/// The map after submitting the copy `(loc, size)` with fingerprint `fp`: the
/// first copy of a fingerprint is stored, a strictly larger one replaces it.
pub open spec fn step_map(m: Retained, fp: i64, loc: Seq<char>, size: i64) -> Retained {
    if !m.contains_key(fp) || size > m[fp].1 {
        m.insert(fp, (loc, size))
    } else {
        m
    }
}

/// The location dropped when submitting `(loc, size)` with fingerprint `fp`.
pub open spec fn step_dropped(m: Retained, fp: i64, loc: Seq<char>, size: i64) -> Option<
    Seq<char>,
> {
    if !m.contains_key(fp) {
        None
    } else if size > m[fp].1 {
        Some(m[fp].0)
    } else {
        Some(loc)
    }
}

/// The map after submitting `subs`, in order, to an empty one; each
/// submission is (fingerprint, location, size).
pub open spec fn run(subs: Seq<(i64, Seq<char>, i64)>) -> Retained
    decreases subs.len(),
{
    if subs.len() == 0 {
        Map::empty()
    } else {
        let s = subs.last();
        step_map(run(subs.drop_last()), s.0, s.1, s.2)
    }
}

/// The answers to `subs`, one per submission, as dropped locations.
pub open spec fn outcomes(subs: Seq<(i64, Seq<char>, i64)>) -> Seq<Option<Seq<char>>>
    decreases subs.len(),
{
    if subs.len() == 0 {
        Seq::empty()
    } else {
        let s = subs.last();
        outcomes(subs.drop_last()).push(step_dropped(run(subs.drop_last()), s.0, s.1, s.2))
    }
}

/// How many submissions in `subs` carry fingerprint `fp`.
pub open spec fn submitted(subs: Seq<(i64, Seq<char>, i64)>, fp: i64) -> nat
    decreases subs.len(),
{
    if subs.len() == 0 {
        0
    } else {
        submitted(subs.drop_last(), fp) + if subs.last().0 == fp {
            1nat
        } else {
            0nat
        }
    }
}

/// How many submissions with fingerprint `fp` were answered as kept (when
/// `as_kept`) or as a duplicate (otherwise).
pub open spec fn answered(subs: Seq<(i64, Seq<char>, i64)>, fp: i64, as_kept: bool) -> nat
    decreases subs.len(),
{
    if subs.len() == 0 {
        0
    } else {
        answered(subs.drop_last(), fp, as_kept) + if subs.last().0 == fp && (outcomes(
            subs,
        ).last() is None) == as_kept {
            1nat
        } else {
            0nat
        }
    }
}

/// The map of retained copies of one scan.
pub struct DedupMap {
    books: HashMap<i64, Book>,
}

impl View for DedupMap {
    type V = Retained;

    closed spec fn view(&self) -> Retained {
        self.books@.map_values(|b: Book| (b.location@, b.size))
    }
}

impl DedupMap {
    /// A map with nothing retained.
    pub fn new() -> (r: DedupMap)
        ensures
            r@ == Map::<i64, (Seq<char>, i64)>::empty(),
    {
        let r = DedupMap { books: HashMap::new() };
        assert(r@ =~= Map::<i64, (Seq<char>, i64)>::empty());
        r
    }

    /// The size of the copy retained for `fingerprint`, if there is one.
    pub fn retained_size(&self, fingerprint: i64) -> (r: Option<i64>)
        ensures
            r == (if self@.contains_key(fingerprint) {
                Some(self@[fingerprint].1)
            } else {
                None::<i64>
            }),
    {
        match self.books.get(&fingerprint) {
            Some(b) => Some(b.size),
            None => None,
        }
    }

    /// Submits the copy at `location`, of `size` bytes, with `fingerprint`.
    /// The first copy of a fingerprint is kept; a later one replaces the
    /// retained copy only when strictly larger, and the copy that loses is
    /// reported as the duplicate. Equal sizes keep the earlier copy.
    pub fn resolve(&mut self, fingerprint: i64, location: String, size: i64) -> (r: Resolution)
        ensures
            final(self)@ == step_map(old(self)@, fingerprint, location@, size),
            r.dropped() == step_dropped(old(self)@, fingerprint, location@, size),
    {
        let found = match self.books.get(&fingerprint) {
            Some(b) => Some((b.size, b.location.clone())),
            None => None,
        };
        match found {
            None => {
                self.books.insert(fingerprint, Book { location, size });
                assert(self@ =~= step_map(old(self)@, fingerprint, location@, size));
                Resolution::Kept
            },
            Some((old_size, old_location)) => {
                if size > old_size {
                    self.books.insert(fingerprint, Book { location, size });
                    assert(self@ =~= step_map(old(self)@, fingerprint, location@, size));
                    Resolution::Duplicate(old_location)
                } else {
                    Resolution::Duplicate(location)
                }
            },
        }
    }
}

/// After any sequence of submissions, a fingerprint is retained exactly when
/// it was submitted; its retained size is at least every size submitted with
/// it and is one of them, so it is their maximum whatever the order; exactly
/// one submission with it was answered as kept and all the others as
/// duplicates.
pub proof fn lemma_retains_largest(subs: Seq<(i64, Seq<char>, i64)>, fp: i64)
    ensures
        run(subs).contains_key(fp) <==> submitted(subs, fp) > 0,
        forall|i: int|
            0 <= i < subs.len() && #[trigger] subs[i].0 == fp ==> run(subs).contains_key(fp)
                && run(subs)[fp].1 >= subs[i].2,
        run(subs).contains_key(fp) ==> exists|i: int|
            0 <= i < subs.len() && #[trigger] subs[i].0 == fp && run(subs)[fp].1 == subs[i].2,
        answered(subs, fp, true) == (if submitted(subs, fp) > 0 {
            1nat
        } else {
            0nat
        }),
        answered(subs, fp, false) == submitted(subs, fp) - answered(subs, fp, true),
    decreases subs.len(),
{
    if subs.len() > 0 {
        let p = subs.drop_last();
        let s = subs.last();
        lemma_retains_largest(p, fp);
        let m = run(p);
        assert forall|i: int|
            0 <= i < subs.len() && #[trigger] subs[i].0 == fp implies run(subs).contains_key(fp)
            && run(subs)[fp].1 >= subs[i].2 by {
            if i < p.len() {
                assert(subs[i] == p[i]);
            }
        }
        if run(subs).contains_key(fp) {
            if m.contains_key(fp) && run(subs)[fp] == m[fp] {
                let i = choose|i: int| 0 <= i < p.len() && #[trigger] p[i].0 == fp && m[fp].1 == p[i].2;
                assert(subs[i] == p[i]);
            } else {
                assert(subs[subs.len() - 1] == s);
            }
        }
    }
}

} // verus!
