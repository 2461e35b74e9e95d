//! Character-level helpers on strings: whitespace trimming, prefix and
//! suffix tests, substring search.
use vstd::prelude::*;
use vstd::std_specs::iter::IteratorSpec;

verus! {

/// Whether `c` is whitespace in the sense of Unicode's `White_Space`
/// property, the set that `char::is_whitespace` and `str::trim` use.
pub open spec fn is_white(c: char) -> bool {
    ('\u{9}' <= c && c <= '\u{d}') || c == ' ' || c == '\u{85}' || c == '\u{a0}' || c == '\u{1680}'
        || ('\u{2000}' <= c && c <= '\u{200a}') || c == '\u{2028}' || c == '\u{2029}' || c == '\u{202f}'
        || c == '\u{205f}' || c == '\u{3000}'
}

/// Whether `c` is whitespace.
fn white(c: char) -> (r: bool)
    ensures
        r == is_white(c),
{
    ('\u{9}' <= c && c <= '\u{d}') || c == ' ' || c == '\u{85}' || c == '\u{a0}' || c == '\u{1680}'
        || ('\u{2000}' <= c && c <= '\u{200a}') || c == '\u{2028}' || c == '\u{2029}' || c == '\u{202f}'
        || c == '\u{205f}' || c == '\u{3000}'
}

/// Relies on `String::push`: appends one character.
#[verifier::external_body]
pub(crate) fn push_char(s: &mut String, c: char)
    ensures
        final(s)@ == old(s)@.push(c),
{
    s.push(c)
}

/// The characters of `s`, in order.
pub fn chars_of(s: &str) -> (r: Vec<char>)
    ensures
        r@ == s@,
{
    broadcast use vstd::string::group_string_axioms;
    let mut it = s.chars();
    let mut out: Vec<char> = Vec::new();
    loop
        invariant
            out@ + IteratorSpec::remaining(&it) == s@,
            IteratorSpec::obeys_prophetic_iter_laws(&it),
        IteratorSpec::decrease(&it) is Some,
        decreases IteratorSpec::decrease(&it)->0,
    {
        match it.next() {
            Some(c) => {
                out.push(c);
                assert(out@ + IteratorSpec::remaining(&it) == s@);
            },
            None => {
                return out;
            },
        }
    }
}


/// `s` without its leading whitespace.
pub open spec fn trim_start(s: Seq<char>) -> Seq<char>
    decreases s.len(),
{
    if s.len() > 0 && is_white(s[0]) {
        trim_start(s.drop_first())
    } else {
        s
    }
}

/// `s` without its trailing whitespace.
pub open spec fn trim_end(s: Seq<char>) -> Seq<char>
    decreases s.len(),
{
    if s.len() > 0 && is_white(s.last()) {
        trim_end(s.drop_last())
    } else {
        s
    }
}

/// `s` without leading and trailing whitespace.
pub open spec fn trim(s: Seq<char>) -> Seq<char> {
    trim_end(trim_start(s))
}

/// Whether `s` begins with `p`.
pub open spec fn starts_with(s: Seq<char>, p: Seq<char>) -> bool {
    p.len() <= s.len() && s.subrange(0, p.len() as int) == p
}

/// Whether `s` ends with `p`.
pub open spec fn ends_with(s: Seq<char>, p: Seq<char>) -> bool {
    p.len() <= s.len() && s.subrange(s.len() - p.len(), s.len() as int) == p
}

/// `s` with every leading repetition of the non-empty `p` removed.
pub open spec fn strip_all_prefixes(s: Seq<char>, p: Seq<char>) -> Seq<char>
    decreases s.len(),
{
    if p.len() > 0 && starts_with(s, p) {
        strip_all_prefixes(s.subrange(p.len() as int, s.len() as int), p)
    } else {
        s
    }
}

/// Whether `p` occurs in `s` at position `i`.
pub open spec fn occurs_at(s: Seq<char>, p: Seq<char>, i: int) -> bool {
    0 <= i && i + p.len() <= s.len() && s.subrange(i, i + p.len()) == p
}

/// Where `p` first occurs in `s`, if it does.
#[verifier::opaque]
pub open spec fn first_occurrence(s: Seq<char>, p: Seq<char>) -> Option<int> {
    if exists|i: int| occurs_at(s, p, i) {
        Some(choose|i: int| occurs_at(s, p, i) && forall|j: int| 0 <= j < i ==> !occurs_at(s, p, j))
    } else {
        None
    }
}

proof fn lemma_trim_start_skip(s: Seq<char>, i: int)
    requires
        0 <= i <= s.len(),
        forall|k: int| 0 <= k < i ==> is_white(s[k]),
    ensures
        trim_start(s) == trim_start(s.subrange(i, s.len() as int)),
    decreases i,
{
    if i > 0 {
        assert(s.drop_first() == s.subrange(1, s.len() as int));
        lemma_trim_start_skip(s.drop_first(), i - 1);
        assert(s.drop_first().subrange(i - 1, s.drop_first().len() as int) == s.subrange(i, s.len() as int));
    } else {
        assert(s.subrange(0, s.len() as int) == s);
    }
}

proof fn lemma_trim_end_skip(s: Seq<char>, j: int)
    requires
        0 <= j <= s.len(),
        forall|k: int| j <= k < s.len() ==> is_white(s[k]),
    ensures
        trim_end(s) == trim_end(s.subrange(0, j)),
    decreases s.len() - j,
{
    if j < s.len() {
        lemma_trim_end_skip(s.drop_last(), j);
        assert(s.drop_last().subrange(0, j) == s.subrange(0, j));
    } else {
        assert(s.subrange(0, j) == s);
    }
}

/// The characters `s[from..to]` as a new vector.
pub fn slice_chars(s: &Vec<char>, from: usize, to: usize) -> (r: Vec<char>)
    requires
        from <= to <= s.len(),
    ensures
        r@ == s@.subrange(from as int, to as int),
{
    let mut out: Vec<char> = Vec::new();
    let mut i: usize = from;
    while i < to
        invariant
            from <= i <= to <= s.len(),
            out@ == s@.subrange(from as int, i as int),
        decreases to - i,
    {
        out.push(s[i]);
        i += 1;
    }
    out
}

/// `s` without leading and trailing whitespace.
pub fn trim_chars(s: &Vec<char>) -> (r: Vec<char>)
    ensures
        r@ == trim(s@),
{
    let mut i: usize = 0;
    while i < s.len() && white(s[i])
        invariant
            i <= s.len(),
            forall|k: int| 0 <= k < i ==> is_white(s@[k]),
        decreases s.len() - i,
    {
        i += 1;
    }
    let mut j: usize = s.len();
    while j > i && white(s[j - 1])
        invariant
            i <= j <= s.len(),
            forall|k: int| j <= k < s.len() ==> is_white(s@[k]),
        decreases j,
    {
        j -= 1;
    }
    let ghost rest = s@.subrange(i as int, s.len() as int);
    proof {
        lemma_trim_start_skip(s@, i as int);
        if i < s.len() {
            assert(!is_white(rest[0]));
        }
        assert(trim_start(rest) == rest);
        lemma_trim_end_skip(rest, j - i);
        assert(rest.subrange(0, j - i) == s@.subrange(i as int, j as int));
        if j > i {
            assert(!is_white(s@[j - 1]));
            assert(trim_end(s@.subrange(i as int, j as int)) == s@.subrange(i as int, j as int));
        } else {
            assert(s@.subrange(i as int, j as int).len() == 0);
        }
    }
    slice_chars(s, i, j)
}

/// `s` without its leading whitespace.
pub fn trim_start_chars(s: &Vec<char>) -> (r: Vec<char>)
    ensures
        r@ == trim_start(s@),
{
    let mut i: usize = 0;
    while i < s.len() && white(s[i])
        invariant
            i <= s.len(),
            forall|k: int| 0 <= k < i ==> is_white(s@[k]),
        decreases s.len() - i,
    {
        i += 1;
    }
    proof {
        lemma_trim_start_skip(s@, i as int);
        let rest = s@.subrange(i as int, s.len() as int);
        if i < s.len() {
            assert(!is_white(rest[0]));
        }
    }
    slice_chars(s, i, s.len())
}

/// Whether `s` begins with `p`.
pub fn has_prefix(s: &Vec<char>, p: &Vec<char>) -> (r: bool)
    ensures
        r == starts_with(s@, p@),
{
    if p.len() > s.len() {
        return false;
    }
    let mut i: usize = 0;
    while i < p.len()
        invariant
            p.len() <= s.len(),
            i <= p.len(),
            forall|k: int| 0 <= k < i ==> s@[k] == p@[k],
        decreases p.len() - i,
    {
        if s[i] != p[i] {
            assert(s@.subrange(0, p.len() as int)[i as int] != p@[i as int]);
            return false;
        }
        i += 1;
    }
    assert(s@.subrange(0, p.len() as int) == p@);
    true
}

/// Whether `p` occurs in `s` at position `at`.
pub fn occurs_at_pos(s: &Vec<char>, p: &Vec<char>, at: usize) -> (r: bool)
    ensures
        r == occurs_at(s@, p@, at as int),
{
    if at > s.len() || p.len() > s.len() - at {
        return false;
    }
    let mut i: usize = 0;
    while i < p.len()
        invariant
            at + p.len() <= s.len(),
            i <= p.len(),
            forall|k: int| 0 <= k < i ==> s@[at + k] == p@[k],
        decreases p.len() - i,
    {
        if s[at + i] != p[i] {
            assert(s@.subrange(at as int, at + p.len())[i as int] != p@[i as int]);
            return false;
        }
        i += 1;
    }
    assert(s@.subrange(at as int, at + p.len()) == p@);
    true
}

/// Whether `s` ends with `p`.
pub fn has_suffix(s: &Vec<char>, p: &Vec<char>) -> (r: bool)
    ensures
        r == ends_with(s@, p@),
{
    if p.len() > s.len() {
        return false;
    }
    occurs_at_pos(s, p, s.len() - p.len())
}

/// Where `p` first occurs in `s`, if it does.
pub fn find_chars(s: &Vec<char>, p: &Vec<char>) -> (r: Option<usize>)
    ensures
        r matches Some(i) ==> first_occurrence(s@, p@) == Some(i as int) && occurs_at(s@, p@, i as int),
        r is None ==> first_occurrence(s@, p@) is None,
{
    reveal(first_occurrence);
    if p.len() > s.len() {
        assert forall|k: int| !occurs_at(s@, p@, k) by {}
        return None;
    }
    let last: usize = s.len() - p.len();
    let mut i: usize = 0;
    loop
        invariant
            i <= last,
            last == s.len() - p.len(),
            forall|j: int| 0 <= j < i ==> !occurs_at(s@, p@, j),
        decreases last - i,
    {
        if occurs_at_pos(s, p, i) {
            proof {
                reveal(first_occurrence);
                let w = choose|k: int| occurs_at(s@, p@, k) && forall|j: int| 0 <= j < k ==> !occurs_at(s@, p@, j);
                assert(occurs_at(s@, p@, w) && forall|j: int| 0 <= j < w ==> !occurs_at(s@, p@, j));
                if w > i {
                    assert(!occurs_at(s@, p@, i as int));
                }
            }
            return Some(i);
        }
        if i == last {
            reveal(first_occurrence);
            assert forall|k: int| !occurs_at(s@, p@, k) by {
                if 0 <= k < i {
                }
            }
            return None;
        }
        i += 1;
    }
}

/// `s` with every leading repetition of the non-empty `p` removed.
pub fn strip_prefixes(s: &Vec<char>, p: &Vec<char>) -> (r: Vec<char>)
    requires
        p.len() > 0,
    ensures
        r@ == strip_all_prefixes(s@, p@),
{
    let mut cur: Vec<char> = slice_chars(s, 0, s.len());
    assert(s@.subrange(0, s.len() as int) == s@);
    while has_prefix(&cur, p)
        invariant
            p.len() > 0,
            strip_all_prefixes(cur@, p@) == strip_all_prefixes(s@, p@),
        decreases cur.len(),
    {
        cur = slice_chars(&cur, p.len(), cur.len());
    }
    cur
}

/// Whether `a` and `b` hold the same characters.
pub fn same_chars(a: &Vec<char>, b: &Vec<char>) -> (r: bool)
    ensures
        r == (a@ == b@),
{
    if a.len() != b.len() {
        return false;
    }
    let r = has_prefix(a, b);
    assert(a@.subrange(0, b.len() as int) == a@);
    r
}

/// A string holding the characters `cs`.
pub fn string_of(cs: &Vec<char>) -> (r: String)
    ensures
        r@ == cs@,
{
    let mut out = String::new();
    let mut i: usize = 0;
    while i < cs.len()
        invariant
            i <= cs.len(),
            out@ == cs@.subrange(0, i as int),
        decreases cs.len() - i,
    {
        push_char(&mut out, cs[i]);
        assert(cs@.subrange(0, i + 1) == cs@.subrange(0, i as int).push(cs@[i as int]));
        i += 1;
    }
    assert(cs@.subrange(0, cs.len() as int) == cs@);
    out
}

} // verus!
