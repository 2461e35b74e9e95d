//! The translator from a Markdown syntax tree to a block document.
use vstd::prelude::*;
use crate::document::{
    create_image_block, m_add, m_append, m_page, kind_of, plain, plain_spec, Attributes, BlockType, DocumentData, Kind,
    Model, TextRun,
};
use crate::html::{aside_parts, details_parts, extract_tag_content, parse_aside_html, parse_details_html, tag_content};
use crate::ids::make_block_id;
use crate::inline::{
    all_formatted, children_delta, children_runs, formatted_text, inline_delta, inline_runs, is_inline_kind,
    is_inline_node, lemma_formatting_composes, plain_run, runs_view,
};
use crate::syntax::{markdown_tree, parse_markdown, Align, MdNode, NodeKind, ParseConfig};
use crate::text::{chars_of, has_prefix, same_chars, starts_with, string_of, trim, trim_chars};

verus! {

/// How many times fragments nested in one another may be parsed again.
pub const NESTED_PARSE_LIMIT: usize = 64;

/// The kind of list that list items belong to.
#[derive(Clone, Copy, Debug, PartialEq, Eq, Structural)]
pub enum ListKind {
    Bulleted,
    Numbered,
    Todo,
}

/// The plain text of the inline nodes `ns` for telling whether a table cell
/// is empty: the literal text of text, code and math, through emphasis and
/// links.
pub open spec fn cell_text(ns: Seq<MdNode>) -> Seq<char>
    decreases ns, 0nat,
{
    if ns.len() == 0 {
        Seq::empty()
    } else {
        cell_text(ns.drop_last()) + node_cell_text(ns.last())
    }
}

/// The plain text of one node of a table cell.
pub open spec fn node_cell_text(n: MdNode) -> Seq<char>
    decreases n, 1nat,
{
    match n.kind {
        NodeKind::Text { value } => value@,
        NodeKind::InlineCode { value } => value@,
        NodeKind::InlineMath { value } => value@,
        NodeKind::Strong | NodeKind::Emphasis | NodeKind::Delete | NodeKind::Link { .. } => cell_text(
            n.children@,
        ),
        _ => Seq::empty(),
    }
}

/// Whether the table cell `cell` holds no text but whitespace.
pub open spec fn cell_is_empty(cell: MdNode) -> bool {
    cell.children@.len() == 0 || trim(cell_text(cell.children@)).len() == 0
}

/// Whether `n` is a table cell that holds no text but whitespace.
pub open spec fn is_empty_cell(n: MdNode) -> bool {
    n.kind is TableCell && cell_is_empty(n)
}

/// Whether `n` is a table row of `cols` cells.
pub open spec fn is_row_of(n: MdNode, cols: nat) -> bool {
    n.kind is TableRow && n.children@.len() == cols
}

/// The number of columns of `table` where it lays out columns rather than
/// tabular data: its header row has two cells or more, all empty; it has body
/// rows, each as wide as the header; and either every body cell is empty and
/// there are six columns or more, or some body cell holds text and there are
/// at most five columns and three body rows.
pub open spec fn notion_columns(table: MdNode) -> Option<nat> {
    let rows = table.children@;
    if rows.len() < 2 || !(rows[0].kind is TableRow) {
        None
    } else {
        let cols = rows[0].children@.len();
        let body = rows.subrange(1, rows.len() as int);
        let header_empty = forall|j: int| 0 <= j < cols ==> #[trigger] is_empty_cell(rows[0].children@[j]);
        let rows_fit = forall|i: int| 0 <= i < body.len() ==> #[trigger] is_row_of(body[i], cols);
        let all_empty = forall|i: int, j: int|
            0 <= i < body.len() && 0 <= j < cols ==> #[trigger] is_empty_cell(body[i].children@[j]);
        if cols >= 2 && header_empty && rows_fit && ((all_empty && cols >= 6) || (!all_empty && cols
            <= 5 && body.len() <= 3)) {
            Some(cols)
        } else {
            None
        }
    }
}

/// Whether `n` is an ordered list.
pub open spec fn is_ordered_list(n: MdNode) -> bool {
    match n.kind {
        NodeKind::List { ordered, .. } => ordered,
        _ => false,
    }
}

/// Whether `n` is a list item with a checkbox.
pub open spec fn has_checkbox(n: MdNode) -> bool {
    match n.kind {
        NodeKind::ListItem { checked } => checked is Some,
        _ => false,
    }
}

/// The kind of the list node `list`: numbered where ordered, to-do where an
/// item has a checkbox, bulleted otherwise.
pub open spec fn list_kind_spec(list: MdNode) -> ListKind {
    if is_ordered_list(list) {
        ListKind::Numbered
    } else if exists|i: int| 0 <= i < list.children@.len() && has_checkbox(#[trigger] list.children@[i]) {
        ListKind::Todo
    } else {
        ListKind::Bulleted
    }
}

/// The block type made for `node`, given the kind and start number of the
/// list it stands in.
pub open spec fn block_type_spec(node: MdNode, list: Option<ListKind>, start: Option<u32>) -> BlockType {
    match node.kind {
        NodeKind::Root => BlockType::Page,
        NodeKind::Paragraph => BlockType::Paragraph,
        NodeKind::Heading { depth } => BlockType::Heading { level: depth },
        NodeKind::ListItem { checked } => match list {
            Some(ListKind::Numbered) => BlockType::NumberedList { start },
            Some(ListKind::Todo) => BlockType::TodoList { checked },
            _ => BlockType::BulletedList,
        },
        NodeKind::Blockquote => BlockType::Quote,
        NodeKind::Code { lang, .. } => BlockType::Code { language: lang },
        NodeKind::ThematicBreak => BlockType::Divider,
        NodeKind::Table { .. } => BlockType::SimpleTable,
        _ => BlockType::Text,
    }
}

/// Appends to `out` the plain text of the inline nodes `ns`.
pub fn collect_cell_text(ns: &Vec<MdNode>, out: &mut Vec<char>)
    ensures
        final(out)@ == old(out)@ + cell_text(ns@),
    decreases ns, 0nat,
{
    let mut i: usize = 0;
    while i < ns.len()
        invariant
            i <= ns.len(),
            out@ == old(out)@ + cell_text(ns@.subrange(0, i as int)),
        decreases ns.len() - i,
    {
        let ghost before = out@;
        collect_node_text(&ns[i], out);
        proof {
            let sub = ns@.subrange(0, i + 1);
            assert(sub.drop_last() == ns@.subrange(0, i as int));
            assert(sub.last() == ns@[i as int]);
        }
        i += 1;
    }
    assert(ns@.subrange(0, ns.len() as int) == ns@);
}

fn collect_node_text(n: &MdNode, out: &mut Vec<char>)
    ensures
        final(out)@ == old(out)@ + node_cell_text(*n),
    decreases n, 1nat,
{
    match &n.kind {
        NodeKind::Text { value } | NodeKind::InlineCode { value } | NodeKind::InlineMath { value } => {
            let mut cs = chars_of(value.as_str());
            out.append(&mut cs);
        },
        NodeKind::Strong | NodeKind::Emphasis | NodeKind::Delete | NodeKind::Link { .. } => {
            collect_cell_text(&n.children, out);
        },
        _ => {
            assert(old(out)@ + Seq::<char>::empty() == old(out)@);
        },
    }
}

/// Whether the table cell `cell` holds no text but whitespace.
pub fn is_table_cell_empty(cell: &MdNode) -> (r: bool)
    ensures
        r == cell_is_empty(*cell),
{
    if cell.children.len() == 0 {
        return true;
    }
    let mut text: Vec<char> = Vec::new();
    collect_cell_text(&cell.children, &mut text);
    assert(text@ == cell_text(cell.children@));
    trim_chars(&text).len() == 0
}

fn is_empty_cell_node(n: &MdNode) -> (r: bool)
    ensures
        r == is_empty_cell(*n),
{
    match n.kind {
        NodeKind::TableCell => is_table_cell_empty(n),
        _ => false,
    }
}

/// The number of columns of `table` where it lays out columns rather than
/// tabular data; `None` otherwise.
pub fn parse_notion_columns_table(table: &MdNode) -> (r: Option<usize>)
    ensures
        r matches Some(c) ==> notion_columns(*table) == Some(c as nat),
        r is None ==> notion_columns(*table) is None,
{
    let rows = &table.children;
    if rows.len() < 2 {
        return None;
    }
    if !matches!(rows[0].kind, NodeKind::TableRow) {
        return None;
    }
    let header = &rows[0];
    let cols = header.children.len();
    if cols < 2 {
        return None;
    }
    let ghost body = rows@.subrange(1, rows@.len() as int);
    let mut j: usize = 0;
    while j < cols
        invariant
            j <= cols,
            cols == header.children@.len(),
            rows@ == table.children@,
            rows@.len() >= 2,
            *header == rows@[0],
            forall|k: int| 0 <= k < j ==> #[trigger] is_empty_cell(header.children@[k]),
        decreases cols - j,
    {
        if !is_empty_cell_node(&header.children[j]) {
            assert(!is_empty_cell(rows@[0].children@[j as int]));
            return None;
        }
        j += 1;
    }
    let mut all_empty = true;
    let mut i: usize = 1;
    while i < rows.len()
        invariant
            1 <= i <= rows.len(),
            body == rows@.subrange(1, rows@.len() as int),
            rows@ == table.children@,
            rows@.len() >= 2,
            rows@[0].kind is TableRow,
            cols == rows@[0].children@.len(),
            cols >= 2,
            forall|k: int| 0 <= k < cols ==> #[trigger] is_empty_cell(rows@[0].children@[k]),
            forall|k: int| 0 <= k < i - 1 ==> #[trigger] is_row_of(body[k], cols as nat),
            all_empty <==> forall|k: int, c: int|
                0 <= k < i - 1 && 0 <= c < cols ==> #[trigger] is_empty_cell(body[k].children@[c]),
        decreases rows.len() - i,
    {
        let row = &rows[i];
        if !matches!(row.kind, NodeKind::TableRow) || row.children.len() != cols {
            assert(body[i - 1] == rows@[i as int]);
            assert(!is_row_of(body[i - 1], cols as nat));
            return None;
        }
        let mut c: usize = 0;
        while c < cols
            invariant
                c <= cols,
                row.children@.len() == cols,
                1 <= i < rows.len(),
                body == rows@.subrange(1, rows@.len() as int),
                body.len() == rows@.len() - 1,
                *row == body[i - 1],
                all_empty <==> (forall|k: int, d: int|
                    0 <= k < i - 1 && 0 <= d < cols ==> #[trigger] is_empty_cell(body[k].children@[d]))
                    && (forall|d: int| 0 <= d < c ==> #[trigger] is_empty_cell(row.children@[d])),
            decreases cols - c,
        {
            if !is_empty_cell_node(&row.children[c]) {
                all_empty = false;
            }
            c += 1;
        }
        proof {
            assert(is_row_of(body[i - 1], cols as nat));
            if all_empty {
                assert forall|k: int, d: int| 0 <= k < i && 0 <= d < cols implies #[trigger] is_empty_cell(
                    body[k].children@[d],
                ) by {
                    if k == i - 1 {
                        assert(is_empty_cell(row.children@[d]));
                    }
                }
            } else {
                if forall|d: int| 0 <= d < cols ==> #[trigger] is_empty_cell(row.children@[d]) {
                    let (k, d) = choose|k: int, d: int|
                        0 <= k < i - 1 && 0 <= d < cols && !#[trigger] is_empty_cell(body[k].children@[d]);
                    assert(!is_empty_cell(body[k].children@[d]));
                } else {
                    let d = choose|d: int| 0 <= d < cols && !#[trigger] is_empty_cell(row.children@[d]);
                    assert(!is_empty_cell(body[i - 1].children@[d]));
                }
            }
        }
        i += 1;
    }
    let body_len = rows.len() - 1;
    if all_empty {
        if cols < 6 {
            return None;
        }
    } else if cols > 5 || body_len > 3 {
        return None;
    }
    Some(cols)
}

/// The kind of the list node `list`.
pub fn list_kind(list: &MdNode) -> (r: ListKind)
    ensures
        r == list_kind_spec(*list),
{
    if let NodeKind::List { ordered, .. } = &list.kind {
        if *ordered {
            return ListKind::Numbered;
        }
    }
    let mut i: usize = 0;
    while i < list.children.len()
        invariant
            i <= list.children.len(),
            !is_ordered_list(*list),
            forall|k: int| 0 <= k < i ==> !has_checkbox(#[trigger] list.children@[k]),
        decreases list.children.len() - i,
    {
        if let NodeKind::ListItem { checked: Some(_) } = &list.children[i].kind {
            return ListKind::Todo;
        }
        i += 1;
    }
    ListKind::Bulleted
}

/// The block type made for `node`, given the kind and start number of the
/// list it stands in.
pub fn block_type_for(node: &MdNode, list: Option<ListKind>, start: Option<u32>) -> (r: BlockType)
    ensures
        r == block_type_spec(*node, list, start),
{
    match &node.kind {
        NodeKind::Root => BlockType::Page,
        NodeKind::Paragraph => BlockType::Paragraph,
        NodeKind::Heading { depth } => BlockType::Heading { level: *depth },
        NodeKind::ListItem { checked } => match list {
            Some(ListKind::Numbered) => BlockType::NumberedList { start },
            Some(ListKind::Todo) => BlockType::TodoList { checked: *checked },
            _ => BlockType::BulletedList,
        },
        NodeKind::Blockquote => BlockType::Quote,
        NodeKind::Code { lang, .. } => BlockType::Code {
            language: match lang {
                Some(l) => Some(l.clone()),
                None => None,
            },
        },
        NodeKind::ThematicBreak => BlockType::Divider,
        NodeKind::Table { .. } => BlockType::SimpleTable,
        _ => BlockType::Text,
    }
}

/// Whether `doc` grew from `before` without losing its shape.
pub open spec fn grows(before: DocumentData, doc: DocumentData) -> bool {
    &&& doc.wf()
    &&& doc.page_id == before.page_id
    &&& doc.size() >= before.size()
    &&& forall|i: int| 0 <= i < before.size() ==> #[trigger] doc.blocks@[i] == before.blocks@[i]
}

/// The URL of the image that `node` is, or that the paragraph `node` holds
/// alone.
pub open spec fn single_image(node: MdNode) -> Option<String> {
    match node.kind {
        NodeKind::Image { url } => Some(url),
        NodeKind::Paragraph => if node.children@.len() == 1 {
            match node.children@[0].kind {
                NodeKind::Image { url } => Some(url),
                _ => None,
            }
        } else {
            None
        },
        _ => None,
    }
}

/// The URL of the image that the table cell `cell` holds alone.
pub open spec fn cell_image(cell: MdNode) -> Option<String> {
    if cell.children@.len() == 1 {
        match cell.children@[0].kind {
            NodeKind::Image { url } => Some(url),
            _ => None,
        }
    } else {
        None
    }
}

/// The trimmed text of `n` where it is an HTML fragment.
pub open spec fn html_value(n: MdNode) -> Option<Seq<char>> {
    match n.kind {
        NodeKind::Html { value } => Some(trim(value@)),
        _ => None,
    }
}

/// Whether the trimmed fragment `v` is a closing tag that the translator
/// swallows.
pub open spec fn is_closing(v: Seq<char>) -> bool {
    v == "</aside>"@ || v == "</details>"@
}

/// Whether `n` is an HTML fragment that closes a callout or a toggle.
pub open spec fn is_closing_node(n: MdNode) -> bool {
    match html_value(n) {
        Some(v) => is_closing(v),
        None => false,
    }
}

/// The start number of the list node `n`.
pub open spec fn list_start(n: MdNode) -> Option<u32> {
    match n.kind {
        NodeKind::List { start, .. } => start,
        _ => None,
    }
}

/// The alignment of column `col`: left where `align` gives none.
pub open spec fn align_at(align: Seq<Align>, col: int) -> Align {
    if 0 <= col < align.len() && align[col] != Align::Unset {
        align[col]
    } else {
        Align::Left
    }
}

/// The syntax tree of the body text `body` of a `<details>` fragment:
/// `None` where the trimmed body is blank, the parser rejects it, or it does
/// not give a document root.
pub open spec fn fragment_tree(config: ParseConfig, body: Seq<char>) -> Option<MdNode> {
    let t = trim(body);
    if t.len() == 0 {
        None
    } else {
        match markdown_tree(config, t) {
            Some(root) => if root.kind is Root {
                Some(root)
            } else {
                None
            },
            None => None,
        }
    }
}

/// `m` with the inline content of the fragment `md` appended to the text of
/// block `b`; unchanged where the fragment is blank.
pub open spec fn m_fragment(m: Model, b: int, config: ParseConfig, md: Seq<char>) -> Model {
    if trim(md).len() == 0 {
        m
    } else {
        m_append(m, b, fragment_runs(config, md))
    }
}

/// Where a walk over sibling nodes stands: at the top, or inside the
/// callout or toggle at block `id` that an opening tag began.
pub enum Frame {
    Top,
    Callout { id: int },
    Toggle { id: int, summary_written: bool },
}

/// The translation of the document root `root` for a page: the page block,
/// then the blocks for the root's children under it.
pub open spec fn translation(root: MdNode, config: ParseConfig) -> Model {
    walk_children(m_page(), 0, root.children@, 0, Frame::Top, None, None, config, NESTED_PARSE_LIMIT as nat)
}

/// The blocks that `node` adds to `m` under block `parent`, given the kind
/// and start number of the list it stands in: inline content joins the
/// parent's text; a closing tag adds nothing; a list adds its items; an
/// image, or a paragraph holding only an image, adds an image block; a
/// columns table adds its column layout; anything else adds one block of
/// its type, whose text and children come from the node's content. A
/// quote or list item takes its first paragraph as its own text and the
/// rest as children; a table holds rows of cells.
pub open spec fn walk_node(
    m: Model,
    node: MdNode,
    parent: int,
    list: Option<ListKind>,
    start: Option<u32>,
    config: ParseConfig,
    budget: nat,
) -> Model
    decreases budget, node, 0nat,
{
    if is_inline_kind(node.kind) {
        m_append(m, parent, inline_runs(node, plain_spec()))
    } else if is_closing_node(node) {
        m
    } else if node.kind is List {
        walk_children(m, parent, node.children@, 0, Frame::Top, Some(list_kind_spec(node)), list_start(node), config, budget)
    } else if single_image(node) is Some {
        m_add(m, parent, Kind::Image { url: single_image(node)->0@ })
    } else if node.kind is Table && notion_columns(node) is Some {
        walk_columns(
            m_add(m, parent, Kind::SimpleColumns),
            m.kinds.len() as int,
            node.children@,
            notion_columns(node)->0 as int,
            0,
            config,
            budget,
        )
    } else {
        let id = m.kinds.len() as int;
        let m1 = m_add(m, parent, kind_of(block_type_spec(node, list, start)));
        match node.kind {
            NodeKind::Root | NodeKind::Paragraph | NodeKind::Heading { .. } => walk_children(
                m1,
                id,
                node.children@,
                0,
                Frame::Top,
                None,
                start,
                config,
                budget,
            ),
            NodeKind::Blockquote | NodeKind::ListItem { .. } => if node.children@.len() == 0 {
                m1
            } else {
                let m2 = if node.children@[0].kind is Paragraph {
                    walk_children(m1, id, node.children@[0].children@, 0, Frame::Top, None, start, config, budget)
                } else {
                    m1
                };
                walk_children(m2, id, node.children@, 1, Frame::Top, list, start, config, budget)
            },
            NodeKind::Code { value, .. } => m_append(m1, id, seq![(value@, plain_spec())]),
            NodeKind::Table { align } => walk_rows(m1, id, node.children@, 0, align@, config, budget),
            _ => m_append(m1, id, seq![(node.rendered@, plain_spec())]),
        }
    }
}

/// The columns layout: for columns `c..cols` of the table rows `rows`, a
/// column block under `columns` holding a paragraph for each non-empty cell
/// of that column below the header, in row order.
pub open spec fn walk_columns(
    m: Model,
    columns: int,
    rows: Seq<MdNode>,
    cols: int,
    c: int,
    config: ParseConfig,
    budget: nat,
) -> Model
    decreases budget, rows, (if c < cols { cols - c } else { 0 }) as nat,
{
    if c < 0 || c >= cols || rows.len() == 0 {
        m
    } else {
        let column = m.kinds.len() as int;
        let m1 = m_add(m, columns, Kind::SimpleColumn);
        let m2 = walk_column(m1, column, rows.subrange(1, rows.len() as int), c, config, budget);
        walk_columns(m2, columns, rows, cols, c + 1, config, budget)
    }
}

/// The paragraphs that the cells of column `c` of `rows` add under the
/// column block `column`: one for each non-empty cell, in row order.
pub open spec fn walk_column(m: Model, column: int, rows: Seq<MdNode>, c: int, config: ParseConfig, budget: nat) -> Model
    decreases budget, rows, 0nat,
{
    if rows.len() == 0 {
        m
    } else {
        let row = rows[0];
        let m1 = if row.kind is TableRow && 0 <= c < row.children@.len() && row.children@[c].kind is TableCell
            && !cell_is_empty(row.children@[c]) {
            walk_children(
                m_add(m, column, Kind::Paragraph),
                m.kinds.len() as int,
                row.children@[c].children@,
                0,
                Frame::Top,
                None,
                None,
                config,
                budget,
            )
        } else {
            m
        };
        walk_column(m1, column, rows.subrange(1, rows.len() as int), c, config, budget)
    }
}

/// The rows `rows[r..]` of a table under the table block `table`.
pub open spec fn walk_rows(
    m: Model,
    table: int,
    rows: Seq<MdNode>,
    r: int,
    align: Seq<Align>,
    config: ParseConfig,
    budget: nat,
) -> Model
    decreases budget, rows, (if r < rows.len() { rows.len() - r } else { 0 }) as nat,
{
    if r < 0 || r >= rows.len() {
        m
    } else {
        let m1 = if rows[r].kind is TableRow {
            walk_row(m, table, rows[r], r, align, config, budget)
        } else {
            m
        };
        walk_rows(m1, table, rows, r + 1, align, config, budget)
    }
}

/// The table row `row`, the `row_index`-th of its table: a row block under
/// `table` holding a cell block per cell.
pub open spec fn walk_row(
    m: Model,
    table: int,
    row: MdNode,
    row_index: int,
    align: Seq<Align>,
    config: ParseConfig,
    budget: nat,
) -> Model
    decreases budget, row, 0nat,
{
    walk_cells(m_add(m, table, Kind::SimpleTableRow), m.kinds.len() as int, row.children@, 0, row_index, align, config, budget)
}

/// The cells `cells[c..]` of row `row_index` under the row block `row`: a
/// cell block for each, holding the cell's image where the cell holds an
/// image alone, and a paragraph with the cell's content otherwise.
pub open spec fn walk_cells(
    m: Model,
    row: int,
    cells: Seq<MdNode>,
    c: int,
    row_index: int,
    align: Seq<Align>,
    config: ParseConfig,
    budget: nat,
) -> Model
    decreases budget, cells, (if c < cells.len() { cells.len() - c } else { 0 }) as nat,
{
    if c < 0 || c >= cells.len() {
        m
    } else {
        let cell = cells[c];
        let m1 = if cell.kind is TableCell {
            let cell_id = m.kinds.len() as int;
            let m2 = m_add(m, row, Kind::SimpleTableCell { row: row_index, col: c, align: align_at(align, c) });
            match cell_image(cell) {
                Some(url) => m_add(m2, cell_id, Kind::Image { url: url@ }),
                None => walk_children(
                    m_add(m2, cell_id, Kind::Paragraph),
                    cell_id + 1,
                    cell.children@,
                    0,
                    Frame::Top,
                    None,
                    None,
                    config,
                    budget,
                ),
            }
        } else {
            m
        };
        walk_cells(m1, row, cells, c + 1, row_index, align, config, budget)
    }
}

/// The blocks that the sibling nodes `nodes[idx..]` add under block
/// `parent`, from the frame `frame`. At the top, a closing tag is
/// swallowed; an `<aside>` fragment opens a callout with its icon and text;
/// a `<details>` fragment opens a toggle with its summary and body; any
/// other node is walked. Inside a callout or toggle the siblings become its
/// children up to the closing tag; a toggle takes its first `<summary>`
/// fragment as its summary and the rest of that fragment as body.
pub open spec fn walk_children(
    m: Model,
    parent: int,
    nodes: Seq<MdNode>,
    idx: int,
    frame: Frame,
    list: Option<ListKind>,
    start: Option<u32>,
    config: ParseConfig,
    budget: nat,
) -> Model
    decreases budget, nodes, (if idx < nodes.len() { nodes.len() - idx } else { 0 }) as nat,
{
    if idx < 0 || idx >= nodes.len() {
        m
    } else {
        let n = nodes[idx];
        let next = idx + 1;
        match frame {
            Frame::Top => match html_value(n) {
                Some(v) => if is_closing(v) {
                    walk_children(m, parent, nodes, next, Frame::Top, list, start, config, budget)
                } else if aside_parts(v) is Some {
                    let id = m.kinds.len() as int;
                    let (icon, content) = aside_parts(v)->0;
                    let m1 = m_fragment(m_add(m, parent, Kind::Callout { icon }), id, config, content);
                    walk_children(m1, parent, nodes, next, Frame::Callout { id }, list, start, config, budget)
                } else if starts_with(v, "<details>"@) {
                    let id = m.kinds.len() as int;
                    let m1 = m_add(m, parent, Kind::ToggleList);
                    match details_parts(v) {
                        Some((summary, body)) => {
                            let m2 = m_fragment(m1, id, config, summary);
                            let m3 = match fragment_tree(config, body) {
                                Some(root) => if budget == 0 {
                                    m_append(m2, id, seq![(root.rendered@, plain_spec())])
                                } else {
                                    walk_children(m2, id, root.children@, 0, Frame::Top, None, None, config, (budget - 1) as nat)
                                },
                                None => m2,
                            };
                            walk_children(m3, parent, nodes, next, Frame::Toggle { id, summary_written: true }, list, start, config, budget)
                        },
                        None => walk_children(m1, parent, nodes, next, Frame::Toggle { id, summary_written: false }, list, start, config, budget),
                    }
                } else {
                    walk_children(walk_node(m, n, parent, list, start, config, budget), parent, nodes, next, Frame::Top, list, start, config, budget)
                },
                None => walk_children(walk_node(m, n, parent, list, start, config, budget), parent, nodes, next, Frame::Top, list, start, config, budget),
            },
            Frame::Callout { id } => if html_value(n) == Some("</aside>"@) {
                walk_children(m, parent, nodes, next, Frame::Top, list, start, config, budget)
            } else {
                walk_children(walk_node(m, n, id, list, start, config, budget), parent, nodes, next, frame, list, start, config, budget)
            },
            Frame::Toggle { id, summary_written } => if html_value(n) == Some("</details>"@) {
                walk_children(m, parent, nodes, next, Frame::Top, list, start, config, budget)
            } else if html_value(n) is Some && !summary_written && starts_with(html_value(n)->0, "<summary>"@) {
                match tag_content(html_value(n)->0, "summary"@) {
                    Some((summary, rest)) => {
                        let m2 = m_fragment(m, id, config, summary);
                        let m3 = match fragment_tree(config, rest) {
                            Some(root) => if budget == 0 {
                                m_append(m2, id, seq![(root.rendered@, plain_spec())])
                            } else {
                                walk_children(m2, id, root.children@, 0, Frame::Top, None, None, config, (budget - 1) as nat)
                            },
                            None => m2,
                        };
                        walk_children(m3, parent, nodes, next, Frame::Toggle { id, summary_written: true }, list, start, config, budget)
                    },
                    None => walk_children(m, parent, nodes, next, frame, list, start, config, budget),
                }
            } else {
                walk_children(walk_node(m, n, id, list, start, config, budget), parent, nodes, next, frame, list, start, config, budget)
            },
        }
    }
}

/// The runs of a parsed fragment's top-level nodes `ns`: the inline content
/// of paragraphs and headings, and the plain text of anything else.
pub open spec fn top_runs(ns: Seq<MdNode>) -> Seq<(Seq<char>, Attributes)>
    decreases ns.len(),
{
    if ns.len() == 0 {
        Seq::empty()
    } else {
        top_runs(ns.drop_last()) + top_node_runs(ns.last())
    }
}

/// The runs of one top-level node of a parsed fragment.
pub open spec fn top_node_runs(n: MdNode) -> Seq<(Seq<char>, Attributes)> {
    match n.kind {
        NodeKind::Paragraph | NodeKind::Heading { .. } => children_runs(n.children@, plain_spec()),
        _ => seq![(n.rendered@, plain_spec())],
    }
}

/// The runs of a parsed fragment `tree`.
pub open spec fn tree_runs(tree: MdNode) -> Seq<(Seq<char>, Attributes)> {
    if tree.kind is Root {
        top_runs(tree.children@)
    } else {
        seq![(tree.rendered@, plain_spec())]
    }
}

/// The runs that the Markdown fragment `md` gives as inline content: none
/// where it is blank; its trimmed text where the parser rejects it.
pub open spec fn fragment_runs(config: ParseConfig, md: Seq<char>) -> Seq<(Seq<char>, Attributes)> {
    let t = trim(md);
    if t.len() == 0 {
        Seq::empty()
    } else {
        match markdown_tree(config, t) {
            None => seq![(t, plain_spec())],
            Some(tree) => tree_runs(tree),
        }
    }
}

/// The runs of the parsed fragment `tree`, as inline content: the inline
/// nodes of its paragraphs and headings, the plain text of anything else.
pub fn fragment_delta(tree: &MdNode) -> (r: Vec<TextRun>)
    ensures
        runs_view(r@) == tree_runs(*tree),
{
    match tree.kind {
        NodeKind::Root => {},
        _ => {
            return plain_run(tree.rendered.clone());
        },
    }
    let ns = &tree.children;
    let mut out: Vec<TextRun> = Vec::new();
    let mut i: usize = 0;
    while i < ns.len()
        invariant
            i <= ns.len(),
            *ns == tree.children,
            runs_view(out@) == top_runs(ns@.subrange(0, i as int)),
        decreases ns.len() - i,
    {
        let child = &ns[i];
        let mut more = match child.kind {
            NodeKind::Paragraph | NodeKind::Heading { .. } => children_delta(&child.children, &plain()),
            _ => plain_run(child.rendered.clone()),
        };
        let ghost before = out@;
        let ghost added = more@;
        out.append(&mut more);
        proof {
            let sub = ns@.subrange(0, i + 1);
            assert(sub.drop_last() == ns@.subrange(0, i as int));
            assert(sub.last() == ns@[i as int]);
            assert(runs_view(out@) =~= runs_view(before) + runs_view(added));
        }
        i += 1;
    }
    assert(ns@.subrange(0, ns.len() as int) == ns@);
    out
}

/// Adds an image block for `url` as the last child of the block at `parent`.
fn process_image(doc: &mut DocumentData, url: &String, parent: usize)
    requires
        old(doc).wf(),
        parent < old(doc).size(),
    ensures
        grows(*old(doc), *final(doc)),
        final(doc).model() == m_add(old(doc).model(), parent as int, Kind::Image { url: url@ }),
{
    let id = make_block_id(&doc.page_id, doc.blocks.len());
    let parent_id = doc.blocks[parent].id.clone();
    let block = create_image_block(id.as_str(), url.clone(), parent_id.as_str());
    doc.insert_block(parent, block);
}

/// Adds an empty paragraph as the last child of the block at `parent`;
/// returns its position.
fn create_paragraph_block(doc: &mut DocumentData, parent: usize) -> (r: usize)
    requires
        old(doc).wf(),
        parent < old(doc).size(),
    ensures
        grows(*old(doc), *final(doc)),
        r == old(doc).size(),
        r < final(doc).size(),
        final(doc).model() == m_add(old(doc).model(), parent as int, Kind::Paragraph),
{
    doc.add_block(parent, BlockType::Paragraph)
}

/// Parses `markdown` again and appends its inline content to the text of the
/// block at `block`.
fn insert_markdown_as_inline_delta(doc: &mut DocumentData, block: usize, markdown: &str, config: &ParseConfig)
    requires
        old(doc).wf(),
        block < old(doc).size(),
    ensures
        grows(*old(doc), *final(doc)),
        final(doc).model() == m_fragment(old(doc).model(), block as int, *config, markdown@),
{
    let t = trim_chars(&chars_of(markdown));
    if t.len() == 0 {
        return;
    }
    let md = string_of(&t);
    let runs = match parse_markdown(md.as_str(), config) {
        Err(_) => plain_run(md),
        Ok(tree) => fragment_delta(&tree),
    };
    doc.append_runs(block, runs);
}

/// Whether the trimmed text `v` is `</aside>` or `</details>`.
fn is_closing_sentinel(v: &Vec<char>) -> (r: bool)
    ensures
        r == is_closing(v@),
{
    same_chars(v, &chars_of("</aside>")) || same_chars(v, &chars_of("</details>"))
}

/// The trimmed text of `n` where it is an HTML fragment.
fn html_text(n: &MdNode) -> (r: Option<Vec<char>>)
    ensures
        r matches Some(v) ==> html_value(*n) == Some(v@),
        r is None ==> html_value(*n) is None,
{
    match &n.kind {
        NodeKind::Html { value } => Some(trim_chars(&chars_of(value.as_str()))),
        _ => None,
    }
}

/// Translates `node` into blocks under the block at `parent`, given the kind
/// and start number of the list it stands in; `budget` bounds how deeply
/// embedded fragments are parsed again.
fn process_mdast_node(
    doc: &mut DocumentData,
    node: &MdNode,
    parent: usize,
    list: Option<ListKind>,
    start: Option<u32>,
    config: &ParseConfig,
    budget: usize,
)
    requires
        old(doc).wf(),
        parent < old(doc).size(),
    ensures
        grows(*old(doc), *final(doc)),
        final(doc).model() == walk_node(old(doc).model(), *node, parent as int, list, start, *config, budget as nat),
    decreases budget, node, 1nat,
{
    if is_inline_node(node) {
        doc.append_runs(parent, inline_delta(node, &plain()));
        return;
    }
    if let Some(v) = html_text(node) {
        if is_closing_sentinel(&v) {
            return;
        }
    }
    if let NodeKind::List { start: list_start, .. } = &node.kind {
        let kind = list_kind(node);
        process_mdast_node_children(doc, parent, &node.children, 0, Some(kind), *list_start, config, budget);
        return;
    }
    if let NodeKind::Paragraph = &node.kind {
        if node.children.len() == 1 {
            if let NodeKind::Image { url } = &node.children[0].kind {
                process_image(doc, url, parent);
                return;
            }
        }
    }
    if let NodeKind::Image { url } = &node.kind {
        process_image(doc, url, parent);
        return;
    }
    if let NodeKind::Table { .. } = &node.kind {
        if let Some(cols) = parse_notion_columns_table(node) {
            let columns = doc.add_block(parent, BlockType::SimpleColumns);
            process_columns(doc, node, cols, columns, config, budget);
            return;
        }
    }
    let ty = block_type_for(node, list, start);
    let id = doc.add_block(parent, ty);
    match &node.kind {
        NodeKind::Root | NodeKind::Paragraph | NodeKind::Heading { .. } => {
            process_mdast_node_children(doc, id, &node.children, 0, None, start, config, budget);
        },
        NodeKind::Blockquote | NodeKind::ListItem { .. } => {
            if node.children.len() == 0 {
                return;
            }
            if let NodeKind::Paragraph = &node.children[0].kind {
                process_mdast_node_children(doc, id, &node.children[0].children, 0, None, start, config, budget);
            }
            process_mdast_node_children(doc, id, &node.children, 1, list, start, config, budget);
        },
        NodeKind::Code { value, .. } => {
            doc.append_runs(id, plain_run(value.clone()));
        },
        NodeKind::Table { align } => {
            let ghost m1 = doc.model();
            let mut r: usize = 0;
            while r < node.children.len()
                invariant
                    grows(*old(doc), *doc),
                    id < doc.size(),
                    r <= node.children.len(),
                    walk_rows(doc.model(), id as int, node.children@, r as int, align@, *config, budget as nat)
                        == walk_rows(m1, id as int, node.children@, 0, align@, *config, budget as nat),
                decreases node.children.len() - r,
            {
                if let NodeKind::TableRow = &node.children[r].kind {
                    process_table_row(doc, &node.children[r], r, id, align, config, budget);
                }
                r += 1;
            }
        },
        _ => {
            doc.append_runs(id, plain_run(node.rendered.clone()));
        },
    }
}

/// Lays out the columns table `table` of `cols` columns under the columns
/// block at `columns`: one column block per column, holding a paragraph for
/// each non-empty cell of that column.
fn process_columns(
    doc: &mut DocumentData,
    table: &MdNode,
    cols: usize,
    columns: usize,
    config: &ParseConfig,
    budget: usize,
)
    requires
        old(doc).wf(),
        columns < old(doc).size(),
        table.children@.len() >= 1,
    ensures
        grows(*old(doc), *final(doc)),
        final(doc).model() == walk_columns(old(doc).model(), columns as int, table.children@, cols as int, 0, *config, budget as nat),
    decreases budget, table, 0nat,
{
    let ghost rows = table.children@;
    let mut c: usize = 0;
    while c < cols
        invariant
            grows(*old(doc), *doc),
            columns < doc.size(),
            c <= cols,
            rows == table.children@,
            rows.len() >= 1,
            walk_columns(doc.model(), columns as int, rows, cols as int, c as int, *config, budget as nat)
                == walk_columns(old(doc).model(), columns as int, rows, cols as int, 0, *config, budget as nat),
        decreases cols - c,
    {
        let column = doc.add_block(columns, BlockType::SimpleColumn);
        let ghost after_column = doc.model();
        let mut r: usize = 1;
        while r < table.children.len()
            invariant
                grows(*old(doc), *doc),
                columns < doc.size(),
                column < doc.size(),
                1 <= r <= table.children.len(),
                c < cols,
                rows == table.children@,
                walk_column(doc.model(), column as int, rows.subrange(r as int, rows.len() as int), c as int, *config, budget as nat)
                    == walk_column(after_column, column as int, rows.subrange(1, rows.len() as int), c as int, *config, budget as nat),
            decreases table.children.len() - r,
        {
            let row = &table.children[r];
            let ghost rest = rows.subrange(r as int, rows.len() as int);
            assert(rest[0] == rows[r as int]);
            assert(rest.subrange(1, rest.len() as int) == rows.subrange(r + 1, rows.len() as int));
            if let NodeKind::TableRow = &row.kind {
                if c < row.children.len() {
                    let cell = &row.children[c];
                    if let NodeKind::TableCell = &cell.kind {
                        if !is_table_cell_empty(cell) {
                            let paragraph = create_paragraph_block(doc, column);
                            process_mdast_node_children(doc, paragraph, &cell.children, 0, None, None, config, budget);
                        }
                    }
                }
            }
            r += 1;
        }
        assert(rows.subrange(rows.len() as int, rows.len() as int).len() == 0);
        c += 1;
    }
}

/// The alignment of column `col` in the alignments `align`: left where the
/// table gives none.
fn cell_align(align: &Vec<Align>, col: usize) -> (r: Align)
    ensures
        r == align_at(align@, col as int),
{
    if col < align.len() {
        match align[col] {
            Align::Unset => Align::Left,
            a => a,
        }
    } else {
        Align::Left
    }
}

/// Adds the table row `row`, the `row_index`-th of its table, under the table
/// block at `table`: a row block, and for each cell a cell block holding the
/// cell's image where it holds an image alone, or a paragraph with the
/// cell's content.
fn process_table_row(
    doc: &mut DocumentData,
    row: &MdNode,
    row_index: usize,
    table: usize,
    align: &Vec<Align>,
    config: &ParseConfig,
    budget: usize,
)
    requires
        old(doc).wf(),
        table < old(doc).size(),
    ensures
        grows(*old(doc), *final(doc)),
        final(doc).model() == walk_row(old(doc).model(), table as int, *row, row_index as int, align@, *config, budget as nat),
    decreases budget, row, 0nat,
{
    let row_id = doc.add_block(table, BlockType::SimpleTableRow);
    let ghost m1 = doc.model();
    let mut c: usize = 0;
    while c < row.children.len()
        invariant
            grows(*old(doc), *doc),
            row_id < doc.size(),
            row_id == old(doc).size(),
            c <= row.children.len(),
            walk_cells(doc.model(), row_id as int, row.children@, c as int, row_index as int, align@, *config, budget as nat)
                == walk_cells(m1, row_id as int, row.children@, 0, row_index as int, align@, *config, budget as nat),
        decreases row.children.len() - c,
    {
        let cell = &row.children[c];
        if let NodeKind::TableCell = &cell.kind {
            let ty = BlockType::SimpleTableCell { row: row_index, col: c, align: cell_align(align, c) };
            let cell_id = doc.add_block(row_id, ty);
            let mut image = false;
            if cell.children.len() == 1 {
                if let NodeKind::Image { url } = &cell.children[0].kind {
                    process_image(doc, url, cell_id);
                    image = true;
                }
            }
            if !image {
                let paragraph = create_paragraph_block(doc, cell_id);
                process_mdast_node_children(doc, paragraph, &cell.children, 0, None, None, config, budget);
            }
        }
        c += 1;
    }
}

/// Translates the nodes `nodes[from..]` into blocks under the block at
/// `parent`, turning `<aside>` fragments into callouts and `<details>`
/// fragments into toggles that hold the siblings up to their closing tags.
fn process_mdast_node_children(
    doc: &mut DocumentData,
    parent: usize,
    nodes: &Vec<MdNode>,
    from: usize,
    list: Option<ListKind>,
    start: Option<u32>,
    config: &ParseConfig,
    budget: usize,
)
    requires
        old(doc).wf(),
        parent < old(doc).size(),
    ensures
        grows(*old(doc), *final(doc)),
        final(doc).model() == walk_children(old(doc).model(), parent as int, nodes@, from as int, Frame::Top, list, start, *config, budget as nat),
    decreases budget, nodes, 0nat,
{
    let ghost target = walk_children(old(doc).model(), parent as int, nodes@, from as int, Frame::Top, list, start, *config, budget as nat);
    let mut idx: usize = from;
    if idx > nodes.len() {
        return;
    }
    while idx < nodes.len()
        invariant
            idx <= nodes.len(),
            grows(*old(doc), *doc),
            parent < doc.size(),
            walk_children(doc.model(), parent as int, nodes@, idx as int, Frame::Top, list, start, *config, budget as nat) == target,
        decreases nodes.len() - idx,
    {
        let ghost m = doc.model();
        let ghost n = nodes@[idx as int];
        if let Some(v) = html_text(&nodes[idx]) {
            if is_closing_sentinel(&v) {
                assert(walk_children(m, parent as int, nodes@, idx as int, Frame::Top, list, start, *config, budget as nat)
                    == walk_children(m, parent as int, nodes@, idx + 1, Frame::Top, list, start, *config, budget as nat));
                idx += 1;
                continue;
            }
            let value = string_of(&v);
            if let Some(callout) = parse_aside_html(value.as_str()) {
                let id = doc.add_block(parent, BlockType::Callout { icon: callout.icon });
                insert_markdown_as_inline_delta(doc, id, callout.content.as_str(), config);
                let entry = idx;
                idx += 1;
                let mut done = false;
                while idx < nodes.len() && !done
                    invariant
                        entry < idx <= nodes.len(),
                        grows(*old(doc), *doc),
                        parent < doc.size(),
                        id < doc.size(),
                        !done ==> walk_children(doc.model(), parent as int, nodes@, idx as int, Frame::Callout { id: id as int }, list, start, *config, budget as nat) == target,
                        done ==> walk_children(doc.model(), parent as int, nodes@, idx as int, Frame::Top, list, start, *config, budget as nat) == target,
                    decreases nodes.len() - idx,
                {
                    let ghost mm = doc.model();
                    let mut closing = false;
                    if let Some(w) = html_text(&nodes[idx]) {
                        closing = same_chars(&w, &chars_of("</aside>"));
                    }
                    if closing {
                        assert(walk_children(mm, parent as int, nodes@, idx as int, Frame::Callout { id: id as int }, list, start, *config, budget as nat)
                            == walk_children(mm, parent as int, nodes@, idx + 1, Frame::Top, list, start, *config, budget as nat));
                        done = true;
                    } else {
                        process_mdast_node(doc, &nodes[idx], id, list, start, config, budget);
                    }
                    idx += 1;
                }
                continue;
            }
            if has_prefix(&v, &chars_of("<details>")) {
                let id = doc.add_block(parent, BlockType::ToggleList);
                let mut summary_written = false;
                if let Some(details) = parse_details_html(value.as_str()) {
                    insert_markdown_as_inline_delta(doc, id, details.summary.as_str(), config);
                    summary_written = true;
                    if let Some(root) = parse_fragment(details.body.as_str(), config) {
                        if budget == 0 {
                            doc.append_runs(id, plain_run(root.rendered.clone()));
                        } else {
                            process_mdast_node_children(doc, id, &root.children, 0, None, None, config, budget - 1);
                        }
                    }
                }
                let entry = idx;
                idx += 1;
                let mut done = false;
                while idx < nodes.len() && !done
                    invariant
                        entry < idx <= nodes.len(),
                        grows(*old(doc), *doc),
                        parent < doc.size(),
                        id < doc.size(),
                        !done ==> walk_children(doc.model(), parent as int, nodes@, idx as int, Frame::Toggle { id: id as int, summary_written }, list, start, *config, budget as nat) == target,
                        done ==> walk_children(doc.model(), parent as int, nodes@, idx as int, Frame::Top, list, start, *config, budget as nat) == target,
                    decreases nodes.len() - idx,
                {
                    if let Some(w) = html_text(&nodes[idx]) {
                        if same_chars(&w, &chars_of("</details>")) {
                            idx += 1;
                            done = true;
                            continue;
                        }
                        if !summary_written && has_prefix(&w, &chars_of("<summary>")) {
                            let text = string_of(&w);
                            if let Some((summary, rest)) = extract_tag_content(text.as_str(), "summary") {
                                insert_markdown_as_inline_delta(doc, id, summary.as_str(), config);
                                summary_written = true;
                                if let Some(root) = parse_fragment(rest.as_str(), config) {
                                    if budget == 0 {
                                        doc.append_runs(id, plain_run(root.rendered.clone()));
                                    } else {
                                        process_mdast_node_children(doc, id, &root.children, 0, None, None, config, budget - 1);
                                    }
                                }
                            }
                            idx += 1;
                            continue;
                        }
                    }
                    process_mdast_node(doc, &nodes[idx], id, list, start, config, budget);
                    idx += 1;
                }
                continue;
            }
        }
        process_mdast_node(doc, &nodes[idx], parent, list, start, config, budget);
        idx += 1;
    }
}

/// The syntax tree of the body text of a `<details>` fragment, parsed
/// again; `None` where the body is blank or the parser rejects it.
fn parse_fragment(body: &str, config: &ParseConfig) -> (r: Option<MdNode>)
    ensures
        r == fragment_tree(*config, body@),
{
    let text = trim_chars(&chars_of(body));
    if text.len() == 0 {
        return None;
    }
    let md = string_of(&text);
    match parse_markdown(md.as_str(), config) {
        Ok(root) => match root.kind {
            NodeKind::Root => Some(root),
            _ => None,
        },
        Err(_) => None,
    }
}

/// Translates the syntax tree `root` of a document into a block document
/// whose page is named `document_id`; fragments embedded in it are parsed in
/// the dialect `config`. The page comes first, has no parent, carries the
/// identifier given, and holds the blocks made for the nodes under `root`.
pub fn translate_tree(document_id: &str, root: &MdNode, config: &ParseConfig) -> (r: DocumentData)
    ensures
        r.wf(),
        r.page_id@ == document_id@,
        r.blocks@[0].ty == BlockType::Page,
        r.blocks@[0].id@ == document_id@,
        r.blocks@[0].parent@ == Seq::<char>::empty(),
        r.model() == translation(*root, *config),
{
    let mut doc = DocumentData::new_page(document_id.to_string());
    process_mdast_node_children(&mut doc, 0, &root.children, 0, None, None, config, NESTED_PARSE_LIMIT);
    doc
}

/// Formatting composes along the walk: an inline node of formatted text adds
/// exactly its folded runs to its parent's text, every run keeps each
/// wrapper's attribute on its path, and text under emphasis under strong is
/// both bold and italic.
pub proof fn lemma_walk_formatting(
    m: Model,
    node: MdNode,
    parent: int,
    list: Option<ListKind>,
    start: Option<u32>,
    config: ParseConfig,
    budget: nat,
)
    requires
        formatted_text(node),
    ensures
        walk_node(m, node, parent, list, start, config, budget) == m_append(m, parent, inline_runs(node, plain_spec())),
        node.kind is Strong ==> forall|i: int|
            0 <= i < inline_runs(node, plain_spec()).len() ==> (#[trigger] inline_runs(node, plain_spec())[i]).1.bold,
        node.kind is Emphasis ==> forall|i: int|
            0 <= i < inline_runs(node, plain_spec()).len() ==> (#[trigger] inline_runs(node, plain_spec())[i]).1.italic,
        node.kind is Strong && node.children@.len() == 1 && node.children@[0].kind is Emphasis ==> forall|i: int|
            0 <= i < inline_runs(node, plain_spec()).len() ==> (#[trigger] inline_runs(node, plain_spec())[i]).1.bold
                && inline_runs(node, plain_spec())[i].1.italic,
{
    lemma_formatting_composes(node, plain_spec());
    if node.kind is Strong && node.children@.len() == 1 && node.children@[0].kind is Emphasis {
        let b = Attributes { bold: true, ..plain_spec() };
        let em = node.children@[0];
        assert(all_formatted(node.children@));
        assert(node.children@.drop_last().len() == 0);
        assert(formatted_text(em));
        lemma_formatting_composes(em, b);
        assert(inline_runs(node, plain_spec()) == children_runs(node.children@, b));
        assert(node.children@.last() == em);
        assert(children_runs(node.children@.drop_last(), b) == Seq::<(Seq<char>, Attributes)>::empty());
        assert(children_runs(node.children@, b) == children_runs(node.children@.drop_last(), b) + inline_runs(em, b));
        assert(children_runs(node.children@, b) =~= inline_runs(em, b));
    }
}

/// Image promotion: an image, or a paragraph that holds an image alone,
/// adds one image block under its parent and no paragraph.
pub proof fn lemma_image_promotion(
    m: Model,
    node: MdNode,
    parent: int,
    list: Option<ListKind>,
    start: Option<u32>,
    config: ParseConfig,
    budget: nat,
)
    requires
        single_image(node) is Some,
    ensures
        walk_node(m, node, parent, list, start, config, budget) == m_add(
            m,
            parent,
            Kind::Image { url: single_image(node)->0@ },
        ),
{
}

/// Image promotion in tables: a table cell that holds an image alone holds
/// that image block directly, with no paragraph around it.
pub proof fn lemma_cell_image_promotion(
    m: Model,
    row: int,
    cells: Seq<MdNode>,
    c: int,
    row_index: int,
    align: Seq<Align>,
    config: ParseConfig,
    budget: nat,
)
    requires
        0 <= c < cells.len(),
        cells[c].kind is TableCell,
        cell_image(cells[c]) is Some,
    ensures
        walk_cells(m, row, cells, c, row_index, align, config, budget) == walk_cells(
            m_add(
                m_add(m, row, Kind::SimpleTableCell { row: row_index, col: c, align: align_at(align, c) }),
                m.kinds.len() as int,
                Kind::Image { url: cell_image(cells[c])->0@ },
            ),
            row,
            cells,
            c + 1,
            row_index,
            align,
            config,
            budget,
        ),
{
}

/// The error of a translation.
#[derive(Clone, Copy, Debug, PartialEq, Eq, Structural)]
pub enum DocumentError {
    /// The Markdown parser rejected the document.
    ParseMarkdownError,
}

/// The dialect parsed where the caller names none: GitHub-flavoured
/// Markdown with single-tilde strikethrough, math and autolinks.
pub open spec fn default_config() -> ParseConfig {
    ParseConfig { gfm: true, strikethrough_single_tilde: true, math_text: true, math_flow: true, autolink: true }
}

/// Translates Markdown documents into block documents.
pub struct MDImporter {
    /// The dialect in which documents, and the fragments embedded in them,
    /// are parsed.
    pub parse_options: ParseConfig,
}

impl MDImporter {
    /// An importer for the dialect `parse_options`, or for the default one.
    pub fn new(parse_options: Option<ParseConfig>) -> (r: Self)
        ensures
            r.parse_options == match parse_options {
                Some(c) => c,
                None => default_config(),
            },
    {
        match parse_options {
            Some(c) => MDImporter { parse_options: c },
            None => MDImporter {
                parse_options: ParseConfig {
                    gfm: true,
                    strikethrough_single_tilde: true,
                    math_text: true,
                    math_flow: true,
                    autolink: true,
                },
            },
        }
    }

    /// Translates the Markdown document `md` into a block document whose page
    /// is named `document_id`: the translation of its syntax tree. It would
    /// fail only where the parser rejected `md`, which Markdown without MDX
    /// never makes it do.
    pub fn import(&self, document_id: &str, md: String) -> (r: Result<DocumentData, DocumentError>)
        ensures
            r is Ok,
            r is Err <==> markdown_tree(self.parse_options, md@) is None,
            r matches Err(e) ==> e == DocumentError::ParseMarkdownError,
            r matches Ok(doc) ==> {
                &&& doc.wf()
                &&& doc.page_id@ == document_id@
                &&& doc.blocks@[0].ty == BlockType::Page
                &&& doc.blocks@[0].id@ == document_id@
                &&& doc.blocks@[0].parent@ == Seq::<char>::empty()
                &&& markdown_tree(self.parse_options, md@) matches Some(t) && doc.model() == translation(t, self.parse_options)
            },
    {
        let root = match parse_markdown(md.as_str(), &self.parse_options) {
            Ok(t) => t,
            Err(_) => {
                return Err(DocumentError::ParseMarkdownError);
            },
        };
        let doc = translate_tree(document_id, &root, &self.parse_options);
        Ok(doc)
    }
}

} // verus!
