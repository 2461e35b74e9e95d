//! The Markdown syntax tree that the translator reads, as plain values, and
//! the parser that produces it.
use vstd::prelude::*;
use markdown::mdast::{AlignKind, Node};

verus! {

#[verifier::external_type_specification]
#[verifier::external_body]
pub struct ExNode(Node);

#[verifier::external_type_specification]
#[verifier::external_body]
pub struct ExAlignKind(AlignKind);

#[verifier::external_type_specification]
#[verifier::external_body]
pub struct ExParseOptions(markdown::ParseOptions);

#[verifier::external_type_specification]
#[verifier::external_body]
pub struct ExMessage(markdown::message::Message);

/// The alignment of a table column.
#[derive(Clone, Copy, Debug, PartialEq, Eq, Structural)]
pub enum Align {
    Left,
    Right,
    Center,
    Unset,
}

/// What a syntax-tree node is, with the values of it that the translator reads.
#[derive(Clone, Debug)]
pub enum NodeKind {
    Root,
    Paragraph,
    Heading { depth: u8 },
    Blockquote,
    List { ordered: bool, start: Option<u32> },
    ListItem { checked: Option<bool> },
    Code { value: String, lang: Option<String> },
    ThematicBreak,
    Table { align: Vec<Align> },
    TableRow,
    TableCell,
    Image { url: String },
    Html { value: String },
    Text { value: String },
    InlineCode { value: String },
    InlineMath { value: String },
    Strong,
    Emphasis,
    Delete,
    Link { url: String },
    Break,
    /// Any construct that the translator has no rule for.
    Other,
}

/// A node of a Markdown syntax tree.
#[derive(Debug)]
pub struct MdNode {
    pub kind: NodeKind,
    pub children: Vec<MdNode>,
    /// The node's plain text: the literal text of its descendants, in order.
    pub rendered: String,
}

/// The Markdown dialect to parse.
#[derive(Clone, Copy, Debug, PartialEq, Eq, Structural)]
pub struct ParseConfig {
    /// GitHub-flavoured constructs: tables, task lists, strikethrough,
    /// footnotes, literal autolinks.
    pub gfm: bool,
    pub strikethrough_single_tilde: bool,
    pub math_text: bool,
    pub math_flow: bool,
    pub autolink: bool,
}

/// The syntax tree that the Markdown parser gives for `md` in the dialect
/// `config`, or `None` where it rejects `md`.
pub uninterp spec fn markdown_tree(config: ParseConfig, md: Seq<char>) -> Option<MdNode>;

/// Relies on `markdown::ParseOptions` and `markdown::Constructs`: the options
/// that turn on the constructs `config` names, over CommonMark's defaults.
#[verifier::external_body]
fn parser_options(config: &ParseConfig) -> markdown::ParseOptions {
    let g = config.gfm;
    markdown::ParseOptions {
        gfm_strikethrough_single_tilde: config.strikethrough_single_tilde,
        constructs: markdown::Constructs {
            gfm_autolink_literal: g, gfm_footnote_definition: g, gfm_label_start_footnote: g,
            gfm_strikethrough: g, gfm_table: g, gfm_task_list_item: g,
            math_text: config.math_text, math_flow: config.math_flow, autolink: config.autolink,
            ..markdown::Constructs::default()
        },
        ..markdown::ParseOptions::default()
    }
}

/// Relies on `AlignKind`'s variants, one for one.
#[verifier::external_body]
fn align_from(a: &AlignKind) -> Align {
    match a {
        AlignKind::Left => Align::Left,
        AlignKind::Right => Align::Right,
        AlignKind::Center => Align::Center,
        AlignKind::None => Align::Unset,
    }
}

/// Relies on the variants of `mdast::Node` and their fields, one for one.
#[verifier::external_body]
fn kind_from(n: &Node) -> NodeKind {
    match n {
        Node::Root(_) => NodeKind::Root,
        Node::Paragraph(_) => NodeKind::Paragraph,
        Node::Heading(x) => NodeKind::Heading { depth: x.depth },
        Node::Blockquote(_) => NodeKind::Blockquote,
        Node::List(x) => NodeKind::List { ordered: x.ordered, start: x.start },
        Node::ListItem(x) => NodeKind::ListItem { checked: x.checked },
        Node::Code(x) => NodeKind::Code { value: x.value.clone(), lang: x.lang.clone() },
        Node::ThematicBreak(_) => NodeKind::ThematicBreak,
        _ => table_kind_from(n),
    }
}

/// Relies on the variants of `mdast::Node` and their fields, one for one.
#[verifier::external_body]
fn table_kind_from(n: &Node) -> NodeKind {
    match n {
        Node::Table(x) => NodeKind::Table { align: x.align.iter().map(align_from).collect() },
        Node::TableRow(_) => NodeKind::TableRow,
        Node::TableCell(_) => NodeKind::TableCell,
        Node::Image(x) => NodeKind::Image { url: x.url.clone() },
        Node::Html(x) => NodeKind::Html { value: x.value.clone() },
        Node::Text(x) => NodeKind::Text { value: x.value.clone() },
        _ => inline_kind_from(n),
    }
}

/// Relies on the variants of `mdast::Node` and their fields, one for one.
#[verifier::external_body]
fn inline_kind_from(n: &Node) -> NodeKind {
    match n {
        Node::InlineCode(x) => NodeKind::InlineCode { value: x.value.clone() },
        Node::InlineMath(x) => NodeKind::InlineMath { value: x.value.clone() },
        Node::Strong(_) => NodeKind::Strong,
        Node::Emphasis(_) => NodeKind::Emphasis,
        Node::Delete(_) => NodeKind::Delete,
        Node::Link(x) => NodeKind::Link { url: x.url.clone() },
        Node::Break(_) => NodeKind::Break,
        _ => NodeKind::Other,
    }
}

/// Relies on `mdast::Node::children` for the children and on the parser's
/// `ToString for Node` for the plain text.
#[verifier::external_body]
fn node_from(n: &Node) -> MdNode {
    let children = match n.children() {
        Some(c) => c.iter().map(node_from).collect(),
        None => Vec::new(),
    };
    MdNode { kind: kind_from(n), children, rendered: n.to_string() }
}

/// Relies on `markdown::to_mdast`: parses `md` in the dialect `config`. Its
/// documentation states that it never fails unless MDX is turned on, which
/// `parser_options` never does.
#[verifier::external_body]
pub(crate) fn parse_markdown(md: &str, config: &ParseConfig) -> (r: Result<
    MdNode,
    markdown::message::Message,
>)
    ensures
        r is Ok,
        r is Ok <==> markdown_tree(*config, md@) is Some,
        r matches Ok(t) ==> markdown_tree(*config, md@) == Some(t),
{
    markdown::to_mdast(md, &parser_options(config)).map(|n| node_from(&n))
}

} // verus!
