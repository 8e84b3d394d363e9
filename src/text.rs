//! Whitespace handling and the normal form of creator names.
use itertools::Itertools;
use vstd::prelude::*;

verus! {

/// Unicode's `White_Space` property, the whitespace of `char::is_whitespace`.
pub open spec fn is_ws(c: char) -> bool {
    let u = c as u32;
    (0x09 <= u && u <= 0x0D) || u == 0x20 || u == 0x85 || u == 0xA0 || u == 0x1680 || (0x2000
        <= u && u <= 0x200A) || u == 0x2028 || u == 0x2029 || u == 0x202F || u == 0x205F || u
        == 0x3000
}

/// `s` without its leading whitespace.
pub open spec fn trim_start(s: Seq<char>) -> Seq<char>
    decreases s.len(),
{
    if s.len() > 0 && is_ws(s[0]) {
        trim_start(s.drop_first())
    } else {
        s
    }
}

/// `s` without its trailing whitespace.
pub open spec fn trim_end(s: Seq<char>) -> Seq<char>
    decreases s.len(),
{
    if s.len() > 0 && is_ws(s.last()) {
        trim_end(s.drop_last())
    } else {
        s
    }
}

/// `s` without whitespace at either end.
pub open spec fn trim(s: Seq<char>) -> Seq<char> {
    trim_end(trim_start(s))
}

/// `s` with each run of whitespace replaced by one space.
pub open spec fn squeeze(s: Seq<char>) -> Seq<char>
    decreases s.len(),
{
    if s.len() == 0 {
        s
    } else {
        let p = squeeze(s.drop_last());
        let c = s.last();
        if !is_ws(c) {
            p.push(c)
        } else if p.len() > 0 && is_ws(p.last()) {
            p
        } else {
            p.push(' ')
        }
    }
}

/// The words of `s`, separated by single spaces.
pub open spec fn collapse(s: Seq<char>) -> Seq<char> {
    trim(squeeze(s))
}

/// How many commas `s` holds.
pub open spec fn comma_count(s: Seq<char>) -> nat
    decreases s.len(),
{
    if s.len() == 0 {
        0
    } else {
        comma_count(s.drop_last()) + if s.last() == ',' {
            1nat
        } else {
            0nat
        }
    }
}

/// The position of the first comma in `s` (its length where there is none).
pub open spec fn first_comma(s: Seq<char>) -> int
    decreases s.len(),
{
    if s.len() == 0 {
        0
    } else if s[0] == ',' {
        0
    } else {
        1 + first_comma(s.drop_first())
    }
}

/// The family part of a collapsed "Family, Given" name.
pub open spec fn family_part(c: Seq<char>) -> Seq<char> {
    trim(c.subrange(0, first_comma(c)))
}

/// The given part of a collapsed "Family, Given" name.
pub open spec fn given_part(c: Seq<char>) -> Seq<char> {
    trim(c.subrange(first_comma(c) + 1, c.len() as int))
}

/// The normal form of a creator name: whitespace collapsed, and a name with
/// exactly one comma turned from "Family, Given" into "Given Family".
pub open spec fn normalize_creator(s: Seq<char>) -> Seq<char> {
    let c = collapse(s);
    if comma_count(c) == 1 {
        given_part(c) + seq![' '] + family_part(c)
    } else {
        c
    }
}

/// Whether `s` ends with `suffix`.
pub open spec fn has_suffix(s: Seq<char>, suffix: Seq<char>) -> bool {
    suffix.len() <= s.len() && s.subrange(s.len() - suffix.len(), s.len() as int) == suffix
}

/// Tells whether `c` is whitespace, as `char::is_whitespace` does.
pub fn is_whitespace_char(c: char) -> (r: bool)
    ensures
        r == is_ws(c),
{
    let u = c as u32;
    (0x09 <= u && u <= 0x0D) || u == 0x20 || u == 0x85 || u == 0xA0 || u == 0x1680 || (0x2000
        <= u && u <= 0x200A) || u == 0x2028 || u == 0x2029 || u == 0x202F || u == 0x205F || u
        == 0x3000
}

/// Relies on `str::split_whitespace` and itertools' `Itertools::join`: the
/// whitespace-separated words of `s`, joined by single spaces.
#[verifier::external_body]
fn collapse_whitespace(s: &str) -> (r: String)
    ensures
        r@ == collapse(s@),
{
    s.split_whitespace().join(" ")
}

proof fn lemma_trim_start(s: Seq<char>, a: int)
    requires
        0 <= a <= s.len(),
        forall|i: int| 0 <= i < a ==> is_ws(#[trigger] s[i]),
        a == s.len() || !is_ws(s[a]),
    ensures
        trim_start(s) == s.subrange(a, s.len() as int),
    decreases a,
{
    if a > 0 {
        let t = s.drop_first();
        assert forall|i: int| 0 <= i < a - 1 implies is_ws(#[trigger] t[i]) by {
            assert(t[i] == s[i + 1]);
        }
        lemma_trim_start(t, a - 1);
        assert(t.subrange(a - 1, t.len() as int) =~= s.subrange(a, s.len() as int));
    } else {
        assert(s.subrange(0, s.len() as int) =~= s);
    }
}

proof fn lemma_trim_end(s: Seq<char>, b: int)
    requires
        0 <= b <= s.len(),
        forall|i: int| b <= i < s.len() ==> is_ws(#[trigger] s[i]),
        b == 0 || !is_ws(s[b - 1]),
    ensures
        trim_end(s) == s.subrange(0, b),
    decreases s.len() - b,
{
    if b < s.len() {
        let t = s.drop_last();
        assert forall|i: int| b <= i < t.len() implies is_ws(#[trigger] t[i]) by {
            assert(t[i] == s[i]);
        }
        lemma_trim_end(t, b);
        assert(t.subrange(0, b) =~= s.subrange(0, b));
    } else {
        assert(s.subrange(0, b) =~= s);
    }
}

/// `trim(s)` is the part of `s` between its outer whitespace.
proof fn lemma_trim_bounds(s: Seq<char>) -> (ab: (int, int))
    ensures
        0 <= ab.0 <= ab.1 <= s.len(),
        trim(s) == s.subrange(ab.0, ab.1),
        ab.0 < ab.1 ==> !is_ws(s[ab.0]) && !is_ws(s[ab.1 - 1]),
{
    let a = choose_first_non_ws(s);
    lemma_trim_start(s, a);
    let t = s.subrange(a, s.len() as int);
    let b = choose_last_non_ws(t);
    lemma_trim_end(t, b);
    assert(t.subrange(0, b) =~= s.subrange(a, a + b));
    (a, a + b)
}

proof fn choose_first_non_ws(s: Seq<char>) -> (a: int)
    ensures
        0 <= a <= s.len(),
        forall|i: int| 0 <= i < a ==> is_ws(#[trigger] s[i]),
        a == s.len() || !is_ws(s[a]),
    decreases s.len(),
{
    if s.len() == 0 || !is_ws(s[0]) {
        0
    } else {
        let t = s.drop_first();
        let k = choose_first_non_ws(t);
        assert forall|i: int| 0 <= i < k + 1 implies is_ws(#[trigger] s[i]) by {
            if i > 0 {
                assert(s[i] == t[i - 1]);
            }
        }
        k + 1
    }
}

proof fn choose_last_non_ws(s: Seq<char>) -> (b: int)
    ensures
        0 <= b <= s.len(),
        forall|i: int| b <= i < s.len() ==> is_ws(#[trigger] s[i]),
        b == 0 || !is_ws(s[b - 1]),
    decreases s.len(),
{
    if s.len() == 0 || !is_ws(s.last()) {
        s.len() as int
    } else {
        let t = s.drop_last();
        let k = choose_last_non_ws(t);
        assert forall|i: int| k <= i < s.len() implies is_ws(#[trigger] s[i]) by {
            if i < t.len() {
                assert(s[i] == t[i]);
            }
        }
        k
    }
}

/// `s` without whitespace at either end, as `str::trim` gives it.
pub fn trim_str(s: &str) -> (r: &str)
    ensures
        r@ == trim(s@),
{
    let n = s.unicode_len();
    let mut a: usize = 0;
    while a < n && is_whitespace_char(s.get_char(a))
        invariant
            n == s@.len(),
            0 <= a <= n,
            forall|i: int| 0 <= i < a ==> is_ws(#[trigger] s@[i]),
        decreases n - a,
    {
        a = a + 1;
    }
    let mut b: usize = n;
    while b > a && is_whitespace_char(s.get_char(b - 1))
        invariant
            n == s@.len(),
            0 <= a <= b <= n,
            forall|i: int| b <= i < n ==> is_ws(#[trigger] s@[i]),
        decreases b,
    {
        b = b - 1;
    }
    proof {
        lemma_trim_start(s@, a as int);
        let t = s@.subrange(a as int, n as int);
        assert forall|i: int| b - a <= i < t.len() implies is_ws(#[trigger] t[i]) by {
            assert(t[i] == s@[a + i]);
        }
        lemma_trim_end(t, b - a);
        assert(t.subrange(0, b - a) =~= s@.subrange(a as int, b as int));
    }
    s.substring_char(a, b)
}

/// Whether `s` ends with `suffix`, as `str::ends_with` tells.
pub fn ends_with(s: &str, suffix: &str) -> (r: bool)
    ensures
        r == has_suffix(s@, suffix@),
{
    let n = s.unicode_len();
    let m = suffix.unicode_len();
    if m > n {
        return false;
    }
    let mut i: usize = 0;
    while i < m
        invariant
            n == s@.len(),
            m == suffix@.len(),
            m <= n,
            0 <= i <= m,
            forall|k: int| 0 <= k < i ==> s@[n - m + k] == suffix@[k],
        decreases m - i,
    {
        if s.get_char(n - m + i) != suffix.get_char(i) {
            proof {
                assert(s@.subrange(n - m, n as int)[i as int] != suffix@[i as int]);
            }
            return false;
        }
        i = i + 1;
    }
    assert(s@.subrange(n - m, n as int) =~= suffix@);
    true
}

proof fn lemma_first_comma(s: Seq<char>, p: int)
    requires
        0 <= p <= s.len(),
        forall|k: int| 0 <= k < p ==> #[trigger] s[k] != ',',
        p == s.len() || s[p] == ',',
    ensures
        first_comma(s) == p,
    decreases p,
{
    if p > 0 {
        let t = s.drop_first();
        assert forall|k: int| 0 <= k < p - 1 implies #[trigger] t[k] != ',' by {
            assert(t[k] == s[k + 1]);
        }
        lemma_first_comma(t, p - 1);
    }
}

proof fn lemma_comma_free(s: Seq<char>)
    requires
        forall|k: int| 0 <= k < s.len() ==> #[trigger] s[k] != ',',
    ensures
        comma_count(s) == 0,
    decreases s.len(),
{
    if s.len() > 0 {
        let t = s.drop_last();
        assert forall|k: int| 0 <= k < t.len() implies #[trigger] t[k] != ',' by {
            assert(t[k] == s[k]);
        }
        lemma_comma_free(t);
    }
}

/// With one comma in `s`, every other position holds none.
proof fn lemma_single_comma(s: Seq<char>)
    requires
        comma_count(s) == 1,
    ensures
        0 <= first_comma(s) < s.len(),
        s[first_comma(s)] == ',',
        forall|k: int| 0 <= k < s.len() && k != first_comma(s) ==> #[trigger] s[k] != ',',
    decreases s.len(),
{
    let t = s.drop_last();
    if s.last() == ',' {
        assert(comma_count(t) == 0);
        lemma_no_comma(t);
        assert forall|k: int| 0 <= k < s.len() - 1 implies #[trigger] s[k] != ',' by {
            assert(s[k] == t[k]);
        }
        lemma_first_comma(s, s.len() - 1);
        assert forall|k: int| 0 <= k < s.len() && k != first_comma(s) implies #[trigger] s[k]
            != ',' by {
            assert(s[k] == t[k]);
        }
    } else {
        lemma_single_comma(t);
        let p = first_comma(t);
        assert forall|k: int| 0 <= k < p implies #[trigger] s[k] != ',' by {
            assert(s[k] == t[k]);
        }
        lemma_first_comma(s, p);
        assert forall|k: int| 0 <= k < s.len() && k != first_comma(s) implies #[trigger] s[k]
            != ',' by {
            if k < t.len() {
                assert(s[k] == t[k]);
            }
        }
    }
}

/// A sequence with no commas holds no comma at any position.
proof fn lemma_no_comma(s: Seq<char>)
    requires
        comma_count(s) == 0,
    ensures
        forall|k: int| 0 <= k < s.len() ==> #[trigger] s[k] != ',',
    decreases s.len(),
{
    if s.len() > 0 {
        let t = s.drop_last();
        lemma_no_comma(t);
        assert forall|k: int| 0 <= k < s.len() implies #[trigger] s[k] != ',' by {
            if k < t.len() {
                assert(s[k] == t[k]);
            }
        }
    }
}

/// The normal form of a creator name: whitespace runs collapsed to single
/// spaces, and "Family, Given" (exactly one comma) rewritten as "Given Family".
/// Names with no comma or with several are left as collapsed.
pub fn unmangle_creator(creator: String) -> (r: String)
    ensures
        r@ == normalize_creator(creator@),
{
    let unspaced = collapse_whitespace(creator.as_str());
    let s = unspaced.as_str();
    let n = s.unicode_len();
    let mut count: usize = 0;
    let mut i: usize = 0;
    while i < n
        invariant
            n == s@.len(),
            0 <= i <= n,
            count <= i,
            count == comma_count(s@.subrange(0, i as int)),
        decreases n - i,
    {
        assert(s@.subrange(0, i + 1).drop_last() =~= s@.subrange(0, i as int));
        if s.get_char(i) == ',' {
            count = count + 1;
        }
        i = i + 1;
    }
    assert(s@.subrange(0, n as int) =~= s@);
    if count != 1 {
        return unspaced;
    }
    let mut p: usize = 0;
    while p < n && s.get_char(p) != ','
        invariant
            n == s@.len(),
            0 <= p <= n,
            forall|k: int| 0 <= k < p ==> #[trigger] s@[k] != ',',
        decreases n - p,
    {
        p = p + 1;
    }
    proof {
        if p == n {
            lemma_comma_free(s@);
        }
        lemma_first_comma(s@, p as int);
    }
    let family = trim_str(s.substring_char(0, p));
    let given = trim_str(s.substring_char(p + 1, n));
    let mut r = String::from_str(given);
    r.append(" ");
    r.append(family);
    proof {
        reveal_strlit(" ");
    }
    assert(r@ =~= given@ + seq![' '] + family@);
    r
}

/// Every whitespace character of `s` is a space followed by no whitespace.
pub open spec fn single_spaced(s: Seq<char>) -> bool {
    forall|i: int|
        0 <= i < s.len() && #[trigger] is_ws(s[i]) ==> s[i] == ' ' && (i + 1 < s.len() ==> !is_ws(
            s[i + 1],
        ))
}

/// `s` is already in collapsed form: single spaces between words, none at
/// the ends.
pub open spec fn is_collapsed(s: Seq<char>) -> bool {
    single_spaced(s) && (s.len() > 0 ==> !is_ws(s[0]) && !is_ws(s.last()))
}

proof fn lemma_squeeze_single_spaced(s: Seq<char>)
    ensures
        single_spaced(squeeze(s)),
        squeeze(s).len() <= s.len(),
    decreases s.len(),
{
    if s.len() > 0 {
        lemma_squeeze_single_spaced(s.drop_last());
        let p = squeeze(s.drop_last());
        let q = squeeze(s);
        assert forall|i: int| 0 <= i < q.len() && #[trigger] is_ws(q[i]) implies q[i] == ' ' && (i
            + 1 < q.len() ==> !is_ws(q[i + 1])) by {
            if i < p.len() {
                assert(q[i] == p[i]);
                if i + 1 < p.len() {
                    assert(q[i + 1] == p[i + 1]);
                }
            }
        }
    }
}

proof fn lemma_single_spaced_fixed(s: Seq<char>)
    requires
        single_spaced(s),
    ensures
        squeeze(s) == s,
    decreases s.len(),
{
    if s.len() > 0 {
        let t = s.drop_last();
        assert forall|i: int| 0 <= i < t.len() && #[trigger] is_ws(t[i]) implies t[i] == ' ' && (i
            + 1 < t.len() ==> !is_ws(t[i + 1])) by {
            assert(t[i] == s[i]);
            if i + 1 < t.len() {
                assert(t[i + 1] == s[i + 1]);
            }
        }
        lemma_single_spaced_fixed(t);
        if t.len() > 0 && is_ws(t.last()) {
            assert(is_ws(s[t.len() - 1]));
        }
        assert(t.push(s.last()) =~= s);
    }
}

proof fn lemma_trim_collapsed(s: Seq<char>)
    requires
        single_spaced(s),
    ensures
        is_collapsed(trim(s)),
{
    let (a, b) = lemma_trim_bounds(s);
    let t = s.subrange(a, b);
    assert forall|i: int| 0 <= i < t.len() && #[trigger] is_ws(t[i]) implies t[i] == ' ' && (i + 1
        < t.len() ==> !is_ws(t[i + 1])) by {
        assert(t[i] == s[a + i]);
        if i + 1 < t.len() {
            assert(t[i + 1] == s[a + i + 1]);
        }
    }
}

proof fn lemma_collapsed_fixed(s: Seq<char>)
    requires
        is_collapsed(s),
    ensures
        collapse(s) == s,
{
    lemma_single_spaced_fixed(s);
    lemma_trim_start(s, 0);
    assert(s.subrange(0, s.len() as int) =~= s);
    lemma_trim_end(s, s.len() as int);
}

/// Collapsing whitespace gives a collapsed name.
pub proof fn lemma_collapse_is_collapsed(s: Seq<char>)
    ensures
        is_collapsed(collapse(s)),
{
    lemma_squeeze_single_spaced(s);
    lemma_trim_collapsed(squeeze(s));
}

/// A trimmed part of a collapsed name is collapsed, and takes its characters
/// from positions `lo..hi` of the name.
proof fn lemma_trimmed_part(c: Seq<char>, lo: int, hi: int)
    requires
        single_spaced(c),
        0 <= lo <= hi <= c.len(),
    ensures
        is_collapsed(trim(c.subrange(lo, hi))),
        forall|j: int|
            0 <= j < trim(c.subrange(lo, hi)).len() ==> exists|k: int|
                lo <= k < hi && #[trigger] trim(c.subrange(lo, hi))[j] == c[k],
{
    let part = c.subrange(lo, hi);
    assert forall|i: int| 0 <= i < part.len() && #[trigger] is_ws(part[i]) implies part[i] == ' '
        && (i + 1 < part.len() ==> !is_ws(part[i + 1])) by {
        assert(part[i] == c[lo + i]);
        if i + 1 < part.len() {
            assert(part[i + 1] == c[lo + i + 1]);
        }
    }
    lemma_trim_collapsed(part);
    let (a, b) = lemma_trim_bounds(part);
    assert forall|j: int| 0 <= j < trim(part).len() implies exists|k: int|
        lo <= k < hi && #[trigger] trim(part)[j] == c[k] by {
        assert(trim(part)[j] == c[lo + a + j]);
    }
}

/// Normalising a creator name twice gives what normalising it once gives,
/// for every name whose "Family, Given" form, if it has one, leaves neither
/// part empty.
pub proof fn lemma_normalize_idempotent(x: Seq<char>)
    requires
        comma_count(collapse(x)) == 1 ==> given_part(collapse(x)).len() > 0 && family_part(
            collapse(x),
        ).len() > 0,
    ensures
        normalize_creator(normalize_creator(x)) == normalize_creator(x),
{
    let c = collapse(x);
    lemma_collapse_is_collapsed(x);
    if comma_count(c) != 1 {
        lemma_collapsed_fixed(c);
    } else {
        lemma_single_comma(c);
        let p = first_comma(c);
        let f = family_part(c);
        let g = given_part(c);
        lemma_trimmed_part(c, 0, p);
        lemma_trimmed_part(c, p + 1, c.len() as int);
        let r = g + seq![' '] + f;
        assert forall|i: int| 0 <= i < r.len() && #[trigger] is_ws(r[i]) implies r[i] == ' ' && (i
            + 1 < r.len() ==> !is_ws(r[i + 1])) by {
            if i < g.len() {
                assert(r[i] == g[i]);
                if i + 1 < g.len() {
                    assert(r[i + 1] == g[i + 1]);
                } else {
                    assert(r[i] == g.last());
                }
            } else if i == g.len() {
                assert(r[i + 1] == f[0]);
            } else {
                assert(r[i] == f[i - g.len() - 1]);
                if i + 1 < r.len() {
                    assert(r[i + 1] == f[i - g.len()]);
                }
            }
        }
        assert(r[0] == g[0]);
        assert(r.last() == f.last());
        lemma_collapsed_fixed(r);
        assert forall|k: int| 0 <= k < r.len() implies #[trigger] r[k] != ',' by {
            if k < g.len() {
                assert(r[k] == g[k]);
                let w = choose|w: int| p + 1 <= w < c.len() && #[trigger] g[k] == c[w];
            } else if k > g.len() {
                assert(r[k] == f[k - g.len() - 1]);
                let w = choose|w: int| 0 <= w < p && #[trigger] f[k - g.len() - 1] == c[w];
            }
        }
        lemma_comma_free(r);
    }
}

} // verus!
