//! The small HTML subset that Markdown documents may embed: `<aside>`
//! callouts and `<details>`/`<summary>` toggles, recognised by literal
//! matching on the fragment's text.
use vstd::prelude::*;
use crate::text::{
    chars_of, ends_with, find_chars, occurs_at, first_occurrence, has_prefix, has_suffix, slice_chars,
    starts_with, strip_all_prefixes, strip_prefixes, string_of, trim, trim_chars, trim_start, trim_start_chars,
};

verus! {

/// `s` without the suffix `p` where it ends with `p`; `s` itself otherwise.
pub open spec fn without_suffix(s: Seq<char>, p: Seq<char>) -> Seq<char> {
    if ends_with(s, p) {
        s.subrange(0, s.len() - p.len())
    } else {
        s
    }
}

/// Whether `c` is alphanumeric in Unicode's sense: alphabetic or numeric.
pub uninterp spec fn alnum_of(c: char) -> bool;

/// Relies on `char::is_alphanumeric`: whether `c` is alphabetic or numeric
/// in Unicode's sense.
#[verifier::external_body]
fn alphanumeric(c: char) -> (r: bool)
    ensures
        r == alnum_of(c),
{
    c.is_alphanumeric()
}

/// The opening tag `<tag>`.
pub open spec fn open_tag(tag: Seq<char>) -> Seq<char> {
    seq!['<'] + tag + seq!['>']
}

/// The closing tag `</tag>`.
pub open spec fn close_tag(tag: Seq<char>) -> Seq<char> {
    seq!['<', '/'] + tag + seq!['>']
}

/// The text between the first `<tag>` of `s` and the first `</tag>` after
/// it, and what follows that closing tag.
pub open spec fn tag_content(s: Seq<char>, tag: Seq<char>) -> Option<(Seq<char>, Seq<char>)> {
    let open = open_tag(tag);
    let close = close_tag(tag);
    match first_occurrence(s, open) {
        None => None,
        Some(start) => {
            let after_open = s.subrange(start + open.len(), s.len() as int);
            match first_occurrence(after_open, close) {
                None => None,
                Some(end) => Some(
                    (
                        after_open.subrange(0, end),
                        after_open.subrange(end + close.len(), after_open.len() as int),
                    ),
                ),
            }
        },
    }
}

/// The icon and the content of an `<aside>` fragment `h`: the text after the
/// opening tag, trimmed, without a closing tag, and with its first character
/// lifted out as the icon where that character is not alphanumeric.
pub open spec fn aside_parts(h: Seq<char>) -> Option<(Seq<char>, Seq<char>)> {
    let h = trim(h);
    if !starts_with(h, "<aside>"@) {
        None
    } else {
        let c0 = trim(strip_all_prefixes(h, "<aside>"@));
        let c = if ends_with(c0, "</aside>"@) {
            trim(without_suffix(c0, "</aside>"@))
        } else {
            c0
        };
        if c.len() == 0 || alnum_of(c[0]) {
            Some((Seq::empty(), c))
        } else {
            Some((seq![c[0]], trim_start(c.drop_first())))
        }
    }
}

/// The summary and the body of a `<details>` fragment `h` that holds its
/// `<summary>` element.
pub open spec fn details_parts(h: Seq<char>) -> Option<(Seq<char>, Seq<char>)> {
    let h = trim(h);
    if !starts_with(h, "<details>"@) {
        None
    } else {
        match tag_content(strip_all_prefixes(h, "<details>"@), "summary"@) {
            None => None,
            Some((summary, rest)) => Some(
                (trim(summary), trim(without_suffix(trim(rest), "</details>"@))),
            ),
        }
    }
}

/// An `<aside>` fragment, taken apart.
pub struct ParsedAside {
    pub icon: String,
    pub content: String,
}

/// A `<details>` fragment, taken apart.
pub struct ParsedDetails {
    pub summary: String,
    pub body: String,
}

/// `s` without the suffix `p` where it ends with `p`.
fn strip_suffix_chars(s: &Vec<char>, p: &Vec<char>) -> (r: Vec<char>)
    ensures
        r@ == without_suffix(s@, p@),
{
    if has_suffix(s, p) {
        slice_chars(s, 0, s.len() - p.len())
    } else {
        slice_chars(s, 0, s.len())
    }
}

fn tag_chars(tag: &str, closing: bool) -> (r: (Vec<char>, usize))
    ensures
        closing ==> r.0@ == close_tag(tag@),
        !closing ==> r.0@ == open_tag(tag@),
        r.1 == r.0.len(),
{
    let mut out: Vec<char> = Vec::new();
    out.push('<');
    if closing {
        out.push('/');
    }
    let t = chars_of(tag);
    let mut i: usize = 0;
    while i < t.len()
        invariant
            i <= t.len(),
            t@ == tag@,
            closing ==> out@ == seq!['<', '/'] + t@.subrange(0, i as int),
            !closing ==> out@ == seq!['<'] + t@.subrange(0, i as int),
        decreases t.len() - i,
    {
        out.push(t[i]);
        proof {
            assert(t@.subrange(0, i + 1) == t@.subrange(0, i as int).push(t@[i as int]));
        }
        i += 1;
    }
    out.push('>');
    proof {
        assert(t@.subrange(0, t.len() as int) == t@);
    }
    let n = out.len();
    (out, n)
}

/// The text between the first `<tag>` of `input` and the first `</tag>` after
/// it, and what follows that closing tag; `None` where either is missing.
pub fn extract_tag_content(input: &str, tag: &str) -> (r: Option<(String, String)>)
    ensures
        r is None <==> tag_content(input@, tag@) is None,
        r matches Some((c, rest)) ==> tag_content(input@, tag@) == Some((c@, rest@)),
{
    let s = chars_of(input);
    let (open, open_len) = tag_chars(tag, false);
    let (close, close_len) = tag_chars(tag, true);
    match find_chars(&s, &open) {
        None => None,
        Some(start) => {
            assert(occurs_at(s@, open@, start as int));
            assert(open_len == open@.len());
            let n = s.len();
            assert(start + open_len <= n);
            let after_open = slice_chars(&s, start + open_len, n);
            match find_chars(&after_open, &close) {
                None => None,
                Some(end) => {
                    let m = after_open.len();
                    assert(occurs_at(after_open@, close@, end as int));
                    assert(end + close_len <= m);
                    let content = slice_chars(&after_open, 0, end);
                    let rest = slice_chars(&after_open, end + close_len, m);
                    Some((string_of(&content), string_of(&rest)))
                },
            }
        },
    }
}

/// Takes apart an `<aside>` fragment: `None` unless its trimmed text begins
/// with `<aside>`.
pub fn parse_aside_html(html: &str) -> (r: Option<ParsedAside>)
    ensures
        r is None <==> aside_parts(html@) is None,
        r matches Some(p) ==> aside_parts(html@) == Some((p.icon@, p.content@)),
{
    let h = trim_chars(&chars_of(html));
    let open = chars_of("<aside>");
    if !has_prefix(&h, &open) {
        return None;
    }
    proof {
        reveal_strlit("<aside>");
    }
    let c0 = trim_chars(&strip_prefixes(&h, &open));
    let close = chars_of("</aside>");
    let c = if has_suffix(&c0, &close) {
        trim_chars(&strip_suffix_chars(&c0, &close))
    } else {
        c0
    };
    if c.len() == 0 {
        return Some(ParsedAside { icon: String::new(), content: string_of(&c) });
    }
    let first = c[0];
    let alnum = alphanumeric(first);
    if alnum {
        Some(ParsedAside { icon: String::new(), content: string_of(&c) })
    } else {
        let mut icon: Vec<char> = Vec::new();
        icon.push(first);
        let tail = slice_chars(&c, 1, c.len());
        assert(tail@ == c@.drop_first());
        let content = trim_start_chars(&tail);
        assert(icon@ == seq![c@[0]]);
        Some(ParsedAside { icon: string_of(&icon), content: string_of(&content) })
    }
}

/// Takes apart a `<details>` fragment that holds its `<summary>` element:
/// `None` unless its trimmed text begins with `<details>` and holds a whole
/// `<summary>…</summary>`.
pub fn parse_details_html(html: &str) -> (r: Option<ParsedDetails>)
    ensures
        r is None <==> details_parts(html@) is None,
        r matches Some(p) ==> details_parts(html@) == Some((p.summary@, p.body@)),
{
    let h = trim_chars(&chars_of(html));
    let open = chars_of("<details>");
    if !has_prefix(&h, &open) {
        return None;
    }
    proof {
        reveal_strlit("<details>");
    }
    let rest = string_of(&strip_prefixes(&h, &open));
    match extract_tag_content(rest.as_str(), "summary") {
        None => None,
        Some((summary, after)) => {
            let close = chars_of("</details>");
            let body = trim_chars(&strip_suffix_chars(&trim_chars(&chars_of(after.as_str())), &close));
            let summary = trim_chars(&chars_of(summary.as_str()));
            Some(ParsedDetails { summary: string_of(&summary), body: string_of(&body) })
        },
    }
}

} // verus!
