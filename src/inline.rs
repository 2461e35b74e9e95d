//! Inline content: which nodes are inline, and how an inline subtree folds
//! into runs of rich text.
use vstd::prelude::*;
use crate::document::{plain, plain_spec, text_view, Attributes, TextRun};
use crate::syntax::{MdNode, NodeKind};

verus! {

/// Whether a node of kind `k` is inline content.
pub open spec fn is_inline_kind(k: NodeKind) -> bool {
    match k {
        NodeKind::Text { .. } | NodeKind::InlineCode { .. } | NodeKind::InlineMath { .. }
        | NodeKind::Strong | NodeKind::Emphasis | NodeKind::Delete | NodeKind::Link { .. }
        | NodeKind::Break => true,
        _ => false,
    }
}

/// Whether `n` is inline content.
pub fn is_inline_node(n: &MdNode) -> (r: bool)
    ensures
        r == is_inline_kind(n.kind),
{
    match &n.kind {
        NodeKind::Text { .. } | NodeKind::InlineCode { .. } | NodeKind::InlineMath { .. }
        | NodeKind::Strong | NodeKind::Emphasis | NodeKind::Delete | NodeKind::Link { .. }
        | NodeKind::Break => true,
        _ => false,
    }
}

/// A run as its characters and their formatting.
pub open spec fn run_view(r: TextRun) -> (Seq<char>, Attributes) {
    (r.insert@, r.attributes)
}

/// The runs of a sequence of runs, as characters and formatting.
pub open spec fn runs_view(rs: Seq<TextRun>) -> Seq<(Seq<char>, Attributes)> {
    text_view(rs)
}

/// The runs that the inline node `n` folds into under the formatting `a`:
/// a literal gives one run, a wrapper adds its attribute to the runs of its
/// children, a line break gives an unformatted newline, and a node that is
/// not inline gives its plain text, unformatted.
pub open spec fn inline_runs(n: MdNode, a: Attributes) -> Seq<(Seq<char>, Attributes)>
    decreases n, 1nat,
{
    match n.kind {
        NodeKind::Text { value } => seq![(value@, a)],
        NodeKind::InlineCode { value } => seq![(value@, Attributes { code: true, ..a })],
        NodeKind::InlineMath { value } => seq![(value@, Attributes { math_inline: true, ..a })],
        NodeKind::Strong => children_runs(n.children@, Attributes { bold: true, ..a }),
        NodeKind::Emphasis => children_runs(n.children@, Attributes { italic: true, ..a }),
        NodeKind::Delete => children_runs(n.children@, Attributes { strikethrough: true, ..a }),
        NodeKind::Link { url } => children_runs(n.children@, Attributes { href: Some(url), ..a }),
        NodeKind::Break => seq![(seq!['\n'], plain_spec())],
        _ => seq![(n.rendered@, plain_spec())],
    }
}

/// The runs of the nodes `ns`, one after the other, under the formatting `a`.
pub open spec fn children_runs(ns: Seq<MdNode>, a: Attributes) -> Seq<(Seq<char>, Attributes)>
    decreases ns, 0nat,
{
    if ns.len() == 0 {
        Seq::empty()
    } else {
        children_runs(ns.drop_last(), a) + inline_runs(ns.last(), a)
    }
}

/// Whether `n` is formatted text: a text, code or math literal, or a
/// strong, emphasis, strikethrough or link wrapper around formatted text.
pub open spec fn formatted_text(n: MdNode) -> bool
    decreases n, 1nat,
{
    match n.kind {
        NodeKind::Text { .. } | NodeKind::InlineCode { .. } | NodeKind::InlineMath { .. } => true,
        NodeKind::Strong | NodeKind::Emphasis | NodeKind::Delete | NodeKind::Link { .. } => all_formatted(
            n.children@,
        ),
        _ => false,
    }
}

/// Whether every node of `ns` is formatted text.
pub open spec fn all_formatted(ns: Seq<MdNode>) -> bool
    decreases ns, 0nat,
{
    if ns.len() == 0 {
        true
    } else {
        all_formatted(ns.drop_last()) && formatted_text(ns.last())
    }
}

/// Whether the formatting `b` has every attribute that `a` has.
pub open spec fn includes(a: Attributes, b: Attributes) -> bool {
    &&& a.bold ==> b.bold
    &&& a.italic ==> b.italic
    &&& a.strikethrough ==> b.strikethrough
    &&& a.code ==> b.code
    &&& a.math_inline ==> b.math_inline
    &&& a.href is Some ==> b.href is Some
}

/// Formatting composes by union along the path from a block to its text:
/// every run folded from formatted text carries all the formatting that it
/// was folded under, and the attribute of each wrapper around it.
pub proof fn lemma_formatting_composes(n: MdNode, a: Attributes)
    requires
        formatted_text(n),
    ensures
        forall|i: int| 0 <= i < inline_runs(n, a).len() ==> includes(a, #[trigger] inline_runs(n, a)[i].1),
        n.kind is Strong ==> forall|i: int| 0 <= i < inline_runs(n, a).len() ==> (#[trigger] inline_runs(n, a)[i]).1.bold,
        n.kind is Emphasis ==> forall|i: int| 0 <= i < inline_runs(n, a).len() ==> (#[trigger] inline_runs(n, a)[i]).1.italic,
        n.kind is Delete ==> forall|i: int| 0 <= i < inline_runs(n, a).len() ==> (#[trigger] inline_runs(n, a)[i]).1.strikethrough,
    decreases n, 1nat,
{
    let b = match n.kind {
        NodeKind::Strong => Attributes { bold: true, ..a },
        NodeKind::Emphasis => Attributes { italic: true, ..a },
        NodeKind::Delete => Attributes { strikethrough: true, ..a },
        NodeKind::Link { url } => Attributes { href: Some(url), ..a },
        _ => a,
    };
    match n.kind {
        NodeKind::Strong | NodeKind::Emphasis | NodeKind::Delete | NodeKind::Link { .. } => {
            lemma_children_compose(n.children@, b);
            assert(inline_runs(n, a) == children_runs(n.children@, b));
            assert forall|i: int| 0 <= i < inline_runs(n, a).len() implies includes(a, #[trigger] inline_runs(n, a)[i].1) by {
                assert(includes(b, children_runs(n.children@, b)[i].1));
            }
        },
        _ => {},
    }
}

proof fn lemma_children_compose(ns: Seq<MdNode>, a: Attributes)
    requires
        all_formatted(ns),
    ensures
        forall|i: int| 0 <= i < children_runs(ns, a).len() ==> includes(a, #[trigger] children_runs(ns, a)[i].1),
    decreases ns, 0nat,
{
    if ns.len() > 0 {
        lemma_children_compose(ns.drop_last(), a);
        lemma_formatting_composes(ns.last(), a);
        let front = children_runs(ns.drop_last(), a);
        let back = inline_runs(ns.last(), a);
        assert forall|i: int| 0 <= i < children_runs(ns, a).len() implies includes(a, #[trigger] children_runs(ns, a)[i].1) by {
            if i < front.len() {
                assert(children_runs(ns, a)[i] == front[i]);
            } else {
                assert(children_runs(ns, a)[i] == back[i - front.len()]);
            }
        }
    }
}

fn copy_attributes(a: &Attributes) -> (r: Attributes)
    ensures
        r == *a,
{
    let href = match &a.href {
        Some(h) => Some(h.clone()),
        None => None,
    };
    Attributes {
        bold: a.bold,
        italic: a.italic,
        strikethrough: a.strikethrough,
        code: a.code,
        math_inline: a.math_inline,
        href,
    }
}

fn one_run(insert: String, attributes: Attributes) -> (r: Vec<TextRun>)
    ensures
        runs_view(r@) == seq![(insert@, attributes)],
{
    let mut v: Vec<TextRun> = Vec::new();
    v.push(TextRun { insert, attributes });
    assert(runs_view(v@) =~= seq![(insert@, attributes)]);
    v
}

/// A single unformatted run holding `text`.
pub fn plain_run(text: String) -> (r: Vec<TextRun>)
    ensures
        runs_view(r@) == seq![(text@, plain_spec())],
{
    one_run(text, plain())
}

/// The runs that the inline node `n` folds into under the formatting `a`.
pub fn inline_delta(n: &MdNode, a: &Attributes) -> (r: Vec<TextRun>)
    ensures
        runs_view(r@) == inline_runs(*n, *a),
    decreases n, 1nat,
{
    match &n.kind {
        NodeKind::Text { value } => one_run(value.clone(), copy_attributes(a)),
        NodeKind::InlineCode { value } => {
            let mut b = copy_attributes(a);
            b.code = true;
            one_run(value.clone(), b)
        },
        NodeKind::InlineMath { value } => {
            let mut b = copy_attributes(a);
            b.math_inline = true;
            one_run(value.clone(), b)
        },
        NodeKind::Strong => {
            let mut b = copy_attributes(a);
            b.bold = true;
            children_delta(&n.children, &b)
        },
        NodeKind::Emphasis => {
            let mut b = copy_attributes(a);
            b.italic = true;
            children_delta(&n.children, &b)
        },
        NodeKind::Delete => {
            let mut b = copy_attributes(a);
            b.strikethrough = true;
            children_delta(&n.children, &b)
        },
        NodeKind::Link { url } => {
            let mut b = copy_attributes(a);
            b.href = Some(url.clone());
            children_delta(&n.children, &b)
        },
        NodeKind::Break => {
            let mut s = String::new();
            crate::text::push_char(&mut s, '\n');
            assert(s@ == seq!['\n']);
            one_run(s, plain())
        },
        _ => one_run(n.rendered.clone(), plain()),
    }
}

/// The runs of the nodes `ns`, one after the other, under the formatting `a`.
pub fn children_delta(ns: &Vec<MdNode>, a: &Attributes) -> (r: Vec<TextRun>)
    ensures
        runs_view(r@) == children_runs(ns@, *a),
    decreases ns, 0nat,
{
    let mut out: Vec<TextRun> = Vec::new();
    let mut i: usize = 0;
    while i < ns.len()
        invariant
            i <= ns.len(),
            runs_view(out@) == children_runs(ns@.subrange(0, i as int), *a),
        decreases ns.len() - i,
    {
        let mut more = inline_delta(&ns[i], a);
        let ghost before = out@;
        let ghost added = more@;
        out.append(&mut more);
        proof {
            let sub = ns@.subrange(0, i + 1);
            assert(sub.drop_last() == ns@.subrange(0, i as int));
            assert(sub.last() == ns@[i as int]);
            assert(runs_view(out@) =~= runs_view(before) + runs_view(added));
        }
        i += 1;
    }
    assert(ns@.subrange(0, ns.len() as int) == ns@);
    out
}

} // verus!
