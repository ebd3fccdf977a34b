//! Character-level helpers: whitespace, trimming, and splitting on a separator.
use vstd::prelude::*;

verus! {

/// The characters of an optional string.
pub open spec fn opt_view(s: Option<String>) -> Option<Seq<char>> {
    match s {
        Some(t) => Some(t@),
        None => None,
    }
}

/// A character with the Unicode `White_Space` property, the set that
/// `char::is_whitespace` and `str::trim` go by.
pub open spec fn is_ws(c: char) -> bool {
    let n = c as u32;
    (0x09 <= n && n <= 0x0d) || n == 0x20 || n == 0x85 || n == 0xa0 || n == 0x1680
        || (0x2000 <= n && n <= 0x200a) || n == 0x2028 || n == 0x2029 || n == 0x202f
        || n == 0x205f || n == 0x3000
}

/// Number of leading whitespace characters of `s`.
pub open spec fn lead_ws(s: Seq<char>) -> nat
    decreases s.len(),
{
    if s.len() > 0 && is_ws(s[0]) {
        1 + lead_ws(s.drop_first())
    } else {
        0
    }
}

/// Number of trailing whitespace characters of `s`.
pub open spec fn trail_ws(s: Seq<char>) -> nat
    decreases s.len(),
{
    if s.len() > 0 && is_ws(s.last()) {
        1 + trail_ws(s.drop_last())
    } else {
        0
    }
}

/// `s` without its leading and trailing whitespace.
pub open spec fn trim(s: Seq<char>) -> Seq<char> {
    let t = s.subrange(lead_ws(s) as int, s.len() as int);
    t.subrange(0, t.len() - trail_ws(t))
}

pub fn is_space(c: char) -> (r: bool)
    ensures
        r == is_ws(c),
{
    let n = c as u32;
    (0x09 <= n && n <= 0x0d) || n == 0x20 || n == 0x85 || n == 0xa0 || n == 0x1680
        || (0x2000 <= n && n <= 0x200a) || n == 0x2028 || n == 0x2029 || n == 0x202f
        || n == 0x205f || n == 0x3000
}

/// The characters of `s`, in order.
pub fn chars_of(s: &str) -> (r: Vec<char>)
    ensures
        r@ == s@,
{
    let mut r: Vec<char> = Vec::new();
    for c in it: s.chars()
        invariant
            r@ == it.seq().take(it.index() as int),
    {
        r.push(c);
    }
    r
}


proof fn lemma_lead_ws(s: Seq<char>, k: int)
    requires
        0 <= k <= s.len(),
        forall|i: int| 0 <= i < k ==> is_ws(#[trigger] s[i]),
        k == s.len() || !is_ws(s[k]),
    ensures
        lead_ws(s) == k,
    decreases k,
{
    if k > 0 {
        let t = s.drop_first();
        assert forall|i: int| 0 <= i < k - 1 implies is_ws(#[trigger] t[i]) by {
            assert(t[i] == s[i + 1]);
        }
        lemma_lead_ws(t, k - 1);
    }
}

proof fn lemma_trail_ws(s: Seq<char>, k: int)
    requires
        0 <= k <= s.len(),
        forall|i: int| s.len() - k <= i < s.len() ==> is_ws(#[trigger] s[i]),
        k == s.len() || !is_ws(s[s.len() - k - 1]),
    ensures
        trail_ws(s) == k,
    decreases k,
{
    if k > 0 {
        let t = s.drop_last();
        assert forall|i: int| t.len() - (k - 1) <= i < t.len() implies is_ws(#[trigger] t[i]) by {
            assert(t[i] == s[i]);
        }
        lemma_trail_ws(t, k - 1);
    }
}

/// The bounds of `v[lo..hi]` once leading and trailing whitespace is cut off.
pub fn trim_range(v: &Vec<char>, lo: usize, hi: usize) -> (r: (usize, usize))
    requires
        lo <= hi <= v.len(),
    ensures
        lo <= r.0 <= r.1 <= hi,
        v@.subrange(r.0 as int, r.1 as int) == trim(v@.subrange(lo as int, hi as int)),
{
    let ghost s = v@.subrange(lo as int, hi as int);
    let mut a: usize = lo;
    while a < hi && is_space(v[a])
        invariant
            lo <= a <= hi <= v.len(),
            s == v@.subrange(lo as int, hi as int),
            forall|i: int| lo <= i < a ==> is_ws(#[trigger] v@[i]),
        decreases hi - a,
    {
        a = a + 1;
    }
    proof {
        assert forall|i: int| 0 <= i < a - lo implies is_ws(#[trigger] s[i]) by {
            assert(s[i] == v@[lo + i]);
        }
        if a < hi {
            assert(s[a - lo] == v@[a as int]);
        }
        lemma_lead_ws(s, a - lo);
    }
    let ghost t = v@.subrange(a as int, hi as int);
    assert(t == s.subrange(lead_ws(s) as int, s.len() as int));
    let mut b: usize = hi;
    while b > a && is_space(v[b - 1])
        invariant
            lo <= a <= b <= hi <= v.len(),
            t == v@.subrange(a as int, hi as int),
            forall|i: int| b <= i < hi ==> is_ws(#[trigger] v@[i]),
        decreases b - a,
    {
        b = b - 1;
    }
    proof {
        assert forall|i: int| t.len() - (hi - b) <= i < t.len() implies is_ws(#[trigger] t[i]) by {
            assert(t[i] == v@[a + i]);
        }
        if b > a {
            assert(t[t.len() - (hi - b) - 1] == v@[b - 1]);
        }
        lemma_trail_ws(t, hi - b);
        assert(v@.subrange(a as int, b as int) =~= t.subrange(0, t.len() - trail_ws(t)));
    }
    (a, b)
}

/// The pieces of `s` between occurrences of `sep`, so that a text with `k`
/// separators has `k + 1` pieces.
pub open spec fn pieces(s: Seq<char>, sep: char) -> Seq<Seq<char>>
    decreases s.len(),
{
    if s.len() == 0 {
        seq![Seq::empty()]
    } else {
        let ps = pieces(s.drop_last(), sep);
        if s.last() == sep {
            ps.push(Seq::empty())
        } else {
            ps.update(ps.len() - 1, ps.last().push(s.last()))
        }
    }
}

/// The lines of `s`: the pieces between `'\n'` characters.
pub open spec fn lines(s: Seq<char>) -> Seq<Seq<char>> {
    pieces(s, '\n')
}

pub proof fn lemma_pieces_nonempty(s: Seq<char>, sep: char)
    ensures
        pieces(s, sep).len() >= 1,
    decreases s.len(),
{
    if s.len() > 0 {
        lemma_pieces_nonempty(s.drop_last(), sep);
    }
}

/// Lines of a text joined by a newline are the lines of each part, one after
/// the other.
pub proof fn lemma_lines_join(a: Seq<char>, b: Seq<char>)
    ensures
        lines(a + seq!['\n'] + b) == lines(a) + lines(b),
    decreases b.len(),
{
    lemma_pieces_nonempty(a, '\n');
    if b.len() == 0 {
        assert((a + seq!['\n'] + b).drop_last() =~= a);
        assert(lines(a).push(Seq::empty()) =~= lines(a) + lines(b));
    } else {
        let b0 = b.drop_last();
        lemma_lines_join(a, b0);
        lemma_pieces_nonempty(b0, '\n');
        assert((a + seq!['\n'] + b).drop_last() =~= a + seq!['\n'] + b0);
        let x = lines(a);
        let y = lines(b0);
        if b.last() == '\n' {
            assert((x + y).push(Seq::empty()) =~= x + y.push(Seq::empty()));
        } else {
            let c = b.last();
            assert((x + y).update((x + y).len() - 1, (x + y).last().push(c)) =~= x + y.update(
                y.len() - 1,
                y.last().push(c),
            ));
        }
    }
}

/// A text without newlines is one line.
pub proof fn lemma_lines_single(s: Seq<char>)
    requires
        forall|i: int| 0 <= i < s.len() ==> s[i] != '\n',
    ensures
        lines(s) == seq![s],
    decreases s.len(),
{
    if s.len() == 0 {
        assert(s =~= Seq::<char>::empty());
    } else {
        let s0 = s.drop_last();
        lemma_lines_single(s0);
        assert(s.last() == s[s.len() - 1]);
        assert(s0.push(s.last()) =~= s);
        assert(lines(s) =~= seq![s]);
    }
}

/// Splits `v` at each `sep`: the result holds, for each piece, the bounds of
/// its characters in `v`.
pub fn split_ranges(v: &Vec<char>, sep: char) -> (r: Vec<(usize, usize)>)
    ensures
        r@.len() == pieces(v@, sep).len(),
        forall|j: int| 0 <= j < r@.len() ==> #[trigger] r@[j].0 <= r@[j].1 <= v@.len(),
        forall|j: int|
            0 <= j < r@.len() ==> v@.subrange(r@[j].0 as int, r@[j].1 as int) == #[trigger] pieces(v@, sep)[j],
{
    let mut r: Vec<(usize, usize)> = Vec::new();
    let mut start: usize = 0;
    let mut k: usize = 0;
    while k < v.len()
        invariant
            start <= k <= v.len(),
            r@.len() + 1 == pieces(v@.take(k as int), sep).len(),
            pieces(v@.take(k as int), sep).last() == v@.subrange(start as int, k as int),
            forall|j: int| 0 <= j < r@.len() ==> #[trigger] r@[j].0 <= r@[j].1 <= start,
            forall|j: int|
                0 <= j < r@.len() ==> v@.subrange(r@[j].0 as int, r@[j].1 as int)
                    == #[trigger] pieces(v@.take(k as int), sep)[j],
        decreases v.len() - k,
    {
        let ghost old_ps = pieces(v@.take(k as int), sep);
        assert(v@.take(k + 1).drop_last() =~= v@.take(k as int));
        assert(v@.take(k + 1).last() == v@[k as int]);
        let ghost old_r = r@;
        let ghost old_start = start;
        let ghost new_ps = pieces(v@.take(k + 1), sep);
        assert(new_ps == if v@[k as int] == sep {
            old_ps.push(Seq::empty())
        } else {
            old_ps.update(old_ps.len() - 1, old_ps.last().push(v@[k as int]))
        });
        if v[k] == sep {
            r.push((start, k));
            start = k + 1;
            assert(v@.subrange(start as int, k + 1) =~= Seq::<char>::empty());
        } else {
            assert(v@.subrange(start as int, k + 1) =~= v@.subrange(start as int, k as int).push(
                v@[k as int],
            ));
        }
        k = k + 1;
        assert forall|j: int| 0 <= j < r@.len() implies v@.subrange(
            r@[j].0 as int,
            r@[j].1 as int,
        ) == #[trigger] pieces(v@.take(k as int), sep)[j] by {
            assert(pieces(v@.take(k as int), sep) == new_ps);
            if j < old_r.len() {
                assert(r@[j] == old_r[j]);
                assert(new_ps[j] == old_ps[j]);
            } else {
                assert(r@[j] == (old_start, (k - 1) as usize));
                assert(new_ps[j] == old_ps.last());
            }
        }
    }
    let ghost last_r = r@;
    r.push((start, k));
    assert(v@.take(k as int) =~= v@);
    let ghost all_ps = pieces(v@, sep);
    assert(all_ps == pieces(v@.take(k as int), sep));
    assert forall|j: int| 0 <= j < r@.len() implies {
        &&& r@[j].0 <= r@[j].1 <= v@.len()
        &&& v@.subrange(r@[j].0 as int, r@[j].1 as int) == #[trigger] pieces(v@, sep)[j]
    } by {
        assert(pieces(v@, sep) == all_ps);
        if j < last_r.len() {
            assert(r@[j] == last_r[j]);
            assert(all_ps[j] == pieces(v@.take(k as int), sep)[j]);
        } else {
            assert(r@[j] == (start, k));
            assert(all_ps[j] == all_ps.last());
        }
    }
    r
}

/// Splits `v` into lines.
pub fn line_ranges(v: &Vec<char>) -> (r: Vec<(usize, usize)>)
    ensures
        r@.len() == lines(v@).len(),
        forall|j: int| 0 <= j < r@.len() ==> #[trigger] r@[j].0 <= r@[j].1 <= v@.len(),
        forall|j: int|
            0 <= j < r@.len() ==> v@.subrange(r@[j].0 as int, r@[j].1 as int) == #[trigger] lines(
                v@,
            )[j],
{
    split_ranges(v, '\n')
}

/// Relies on `String: FromIterator<char>`: the string holds the characters
/// `v[lo..hi]`, in order.
#[verifier::external_body]
pub(crate) fn string_from(v: &Vec<char>, lo: usize, hi: usize) -> (r: String)
    requires
        lo <= hi <= v.len(),
    ensures
        r@ == v@.subrange(lo as int, hi as int),
{
    v[lo..hi].iter().collect()
}

/// Whether `v` holds the characters of `pat` from position `at` on.
pub fn matches_at(v: &Vec<char>, at: usize, pat: &[char]) -> (r: bool)
    ensures
        r == (at + pat@.len() <= v@.len() && v@.subrange(at as int, at + pat@.len()) == pat@),
{
    if at > v.len() || pat.len() > v.len() - at {
        return false;
    }
    let mut i: usize = 0;
    while i < pat.len()
        invariant
            at + pat@.len() <= v.len(),
            i <= pat@.len(),
            forall|j: int| 0 <= j < i ==> v@[at + j] == pat@[j],
        decreases pat.len() - i,
    {
        if v[at + i] != pat[i] {
            assert(v@.subrange(at as int, at + pat@.len())[i as int] != pat@[i as int]);
            return false;
        }
        i = i + 1;
    }
    assert(v@.subrange(at as int, at + pat@.len()) =~= pat@);
    true
}

} // verus!
