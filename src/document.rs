//! The block document: blocks keyed by identifier, the ordered children of
//! each block, and the rich-text runs of the blocks that carry text.
use vstd::prelude::*;
use crate::ids::{block_id, lemma_block_ids_distinct, make_block_id};
use crate::syntax::Align;

verus! {

/// The type of a block, with the values that its type carries.
#[derive(Clone, Debug)]
pub enum BlockType {
    Page,
    Paragraph,
    Heading { level: u8 },
    BulletedList,
    NumberedList { start: Option<u32> },
    TodoList { checked: Option<bool> },
    Quote,
    /// The code's language; an empty one where the fence names none.
    Code { language: Option<String> },
    Divider,
    Image { url: String },
    SimpleColumns,
    SimpleColumn,
    SimpleTable,
    SimpleTableRow,
    SimpleTableCell { row: usize, col: usize, align: Align },
    Callout { icon: String },
    ToggleList,
    Text,
}

/// A block of the document.
#[derive(Clone, Debug)]
pub struct Block {
    pub id: String,
    pub ty: BlockType,
    /// The identifier of the containing block; empty for the page.
    pub parent: String,
    /// The key of this block's own children.
    pub children: String,
    pub external_id: Option<String>,
    pub external_type: Option<String>,
}

/// The formatting of a run of text.
#[derive(Clone, Debug)]
pub struct Attributes {
    pub bold: bool,
    pub italic: bool,
    pub strikethrough: bool,
    pub code: bool,
    pub math_inline: bool,
    /// The target of the link that the run belongs to.
    pub href: Option<String>,
}

/// One run of rich text: its characters and their formatting.
#[derive(Clone, Debug)]
pub struct TextRun {
    pub insert: String,
    pub attributes: Attributes,
}

/// A document snapshot. The block at position `i` of `blocks` has its
/// children at `children_map[i]`, as positions in reading order, and its text
/// runs, if it carries any, at `text_map[i]`.
#[derive(Debug)]
pub struct DocumentData {
    pub page_id: String,
    pub blocks: Vec<Block>,
    pub children_map: Vec<Vec<usize>>,
    pub text_map: Vec<Option<Vec<TextRun>>>,
}

/// A value of a block's attribute bag.
#[derive(Clone, Debug)]
pub enum DataValue {
    Text(String),
    Number(u64),
    Flag(bool),
}

/// A value of a block's attribute bag, as a mathematical value.
pub enum DataView {
    Text(Seq<char>),
    Number(int),
    Flag(bool),
}

/// The mathematical value of `v`.
pub open spec fn data_view(v: DataValue) -> DataView {
    match v {
        DataValue::Text(s) => DataView::Text(s@),
        DataValue::Number(n) => DataView::Number(n as int),
        DataValue::Flag(b) => DataView::Flag(b),
    }
}

/// The name of an alignment.
pub open spec fn align_name(a: Align) -> Seq<char> {
    match a {
        Align::Right => "right"@,
        Align::Center => "center"@,
        _ => "left"@,
    }
}

/// The type tag of `t`, as downstream consumers know it.
pub open spec fn type_tag(t: BlockType) -> Seq<char> {
    match t {
        BlockType::Page => "page"@,
        BlockType::Paragraph => "paragraph"@,
        BlockType::Heading { .. } => "heading"@,
        BlockType::BulletedList => "bulleted_list"@,
        BlockType::NumberedList { .. } => "numbered_list"@,
        BlockType::TodoList { .. } => "todo_list"@,
        BlockType::Quote => "quote"@,
        BlockType::Code { .. } => "code"@,
        BlockType::Divider => "divider"@,
        BlockType::Image { .. } => "image"@,
        BlockType::SimpleColumns => "simple_columns"@,
        BlockType::SimpleColumn => "simple_column"@,
        BlockType::SimpleTable => "simple_table"@,
        BlockType::SimpleTableRow => "simple_table_row"@,
        BlockType::SimpleTableCell { .. } => "simple_table_cell"@,
        BlockType::Callout { .. } => "callout"@,
        BlockType::ToggleList => "toggle_list"@,
        BlockType::Text => "text"@,
    }
}

/// The attribute bag of a block of type `t`, as names and values.
pub open spec fn data_spec(t: BlockType) -> Seq<(Seq<char>, DataView)> {
    match t {
        BlockType::Heading { level } => seq![("level"@, DataView::Number(level as int))],
        BlockType::NumberedList { start: Some(n) } => seq![("start"@, DataView::Number(n as int))],
        BlockType::TodoList { checked: Some(c) } => seq![("checked"@, DataView::Flag(c))],
        BlockType::Code { language } => seq![
            ("language"@, DataView::Text(
                match language {
                    Some(l) => l@,
                    None => Seq::empty(),
                },
            )),
        ],
        BlockType::Image { url } => seq![
            ("url"@, DataView::Text(url@)),
            ("image_type"@, DataView::Text("external"@)),
        ],
        BlockType::SimpleTableCell { row, col, align } => seq![
            ("row"@, DataView::Number(row as int)),
            ("col"@, DataView::Number(col as int)),
            ("align"@, DataView::Text(align_name(align))),
        ],
        BlockType::Callout { icon } => if icon@.len() > 0 {
            seq![("icon"@, DataView::Text(icon@))]
        } else {
            Seq::empty()
        },
        _ => Seq::empty(),
    }
}

/// The names and values of an attribute bag.
pub open spec fn bag_view(d: Seq<(String, DataValue)>) -> Seq<(Seq<char>, DataView)> {
    d.map_values(|e: (String, DataValue)| (e.0@, data_view(e.1)))
}

fn entry(name: &str, value: DataValue) -> (r: (String, DataValue))
    ensures
        r.0@ == name@,
        r.1 == value,
{
    (name.to_string(), value)
}

fn text_value(s: &str) -> (r: DataValue)
    ensures
        data_view(r) == DataView::Text(s@),
{
    DataValue::Text(s.to_string())
}

impl BlockType {
    /// The type tag, as downstream consumers know it.
    pub fn tag(&self) -> (r: &'static str)
        ensures
            r@ == type_tag(*self),
    {
        match self {
            BlockType::Page => "page",
            BlockType::Paragraph => "paragraph",
            BlockType::Heading { .. } => "heading",
            BlockType::BulletedList => "bulleted_list",
            BlockType::NumberedList { .. } => "numbered_list",
            BlockType::TodoList { .. } => "todo_list",
            BlockType::Quote => "quote",
            BlockType::Code { .. } => "code",
            BlockType::Divider => "divider",
            BlockType::Image { .. } => "image",
            BlockType::SimpleColumns => "simple_columns",
            BlockType::SimpleColumn => "simple_column",
            BlockType::SimpleTable => "simple_table",
            BlockType::SimpleTableRow => "simple_table_row",
            BlockType::SimpleTableCell { .. } => "simple_table_cell",
            BlockType::Callout { .. } => "callout",
            BlockType::ToggleList => "toggle_list",
            BlockType::Text => "text",
        }
    }

    /// The attribute bag of a block of this type: its values by name.
    pub fn data(&self) -> (r: Vec<(String, DataValue)>)
        ensures
            bag_view(r@) == data_spec(*self),
    {
        let mut d: Vec<(String, DataValue)> = Vec::new();
        match self {
            BlockType::Heading { level } => {
                d.push(entry("level", DataValue::Number(*level as u64)));
            },
            BlockType::NumberedList { start: Some(n) } => {
                d.push(entry("start", DataValue::Number(*n as u64)));
            },
            BlockType::TodoList { checked: Some(c) } => {
                d.push(entry("checked", DataValue::Flag(*c)));
            },
            BlockType::Code { language } => {
                let l = match language {
                    Some(l) => DataValue::Text(l.clone()),
                    None => DataValue::Text(String::new()),
                };
                d.push(entry("language", l));
            },
            BlockType::Image { url } => {
                d.push(entry("url", DataValue::Text(url.clone())));
                d.push(entry("image_type", text_value("external")));
            },
            BlockType::SimpleTableCell { row, col, align } => {
                d.push(entry("row", DataValue::Number(*row as u64)));
                d.push(entry("col", DataValue::Number(*col as u64)));
                let a = match align {
                    Align::Right => text_value("right"),
                    Align::Center => text_value("center"),
                    _ => text_value("left"),
                };
                d.push(entry("align", a));
            },
            BlockType::Callout { icon } => {
                if icon.as_str().unicode_len() > 0 {
                    d.push(entry("icon", DataValue::Text(icon.clone())));
                }
            },
            _ => {},
        }
        assert(bag_view(d@) =~= data_spec(*self));
        d
    }
}

/// Whether a block of type `t` carries text of its own; tables, rows,
/// cells and images are pure containers.
pub open spec fn carries_text(t: BlockType) -> bool {
    !(t is SimpleTable || t is SimpleTableRow || t is SimpleTableCell || t is Image)
}

/// The fields of `b` that follow from its identifier and type: its
/// children key is its identifier (empty for an image), and a block that
/// carries text links to an external text payload under its identifier.
pub open spec fn block_fields_ok(b: Block) -> bool {
    &&& b.children@ == (if b.ty is Image { Seq::<char>::empty() } else { b.id@ })
    &&& carries_text(b.ty) ==> b.external_id == Some(b.id) && (b.external_type is Some
        && b.external_type->0@ == "text"@)
    &&& !carries_text(b.ty) ==> b.external_id is None && b.external_type is None
}

/// The type of a block with the values it carries, as mathematical values.
pub enum Kind {
    Page,
    Paragraph,
    Heading { level: int },
    BulletedList,
    NumberedList { start: Option<int> },
    TodoList { checked: Option<bool> },
    Quote,
    Code { language: Option<Seq<char>> },
    Divider,
    Image { url: Seq<char> },
    SimpleColumns,
    SimpleColumn,
    SimpleTable,
    SimpleTableRow,
    SimpleTableCell { row: int, col: int, align: Align },
    Callout { icon: Seq<char> },
    ToggleList,
    Text,
}

/// The mathematical value of the block type `t`.
pub open spec fn kind_of(t: BlockType) -> Kind {
    match t {
        BlockType::Page => Kind::Page,
        BlockType::Paragraph => Kind::Paragraph,
        BlockType::Heading { level } => Kind::Heading { level: level as int },
        BlockType::BulletedList => Kind::BulletedList,
        BlockType::NumberedList { start } => Kind::NumberedList {
            start: match start {
                Some(n) => Some(n as int),
                None => None,
            },
        },
        BlockType::TodoList { checked } => Kind::TodoList { checked },
        BlockType::Quote => Kind::Quote,
        BlockType::Code { language } => Kind::Code {
            language: match language {
                Some(l) => Some(l@),
                None => None,
            },
        },
        BlockType::Divider => Kind::Divider,
        BlockType::Image { url } => Kind::Image { url: url@ },
        BlockType::SimpleColumns => Kind::SimpleColumns,
        BlockType::SimpleColumn => Kind::SimpleColumn,
        BlockType::SimpleTable => Kind::SimpleTable,
        BlockType::SimpleTableRow => Kind::SimpleTableRow,
        BlockType::SimpleTableCell { row, col, align } => Kind::SimpleTableCell {
            row: row as int,
            col: col as int,
            align,
        },
        BlockType::Callout { icon } => Kind::Callout { icon: icon@ },
        BlockType::ToggleList => Kind::ToggleList,
        BlockType::Text => Kind::Text,
    }
}

/// A snapshot as mathematical values: the type of each block, the
/// positions of its children in reading order, and its text runs, if any.
/// With the shape that `DocumentData::wf` fixes, this determines the whole
/// snapshot: identifiers, parents, children keys and external links.
pub struct Model {
    pub kinds: Seq<Kind>,
    pub kids: Seq<Seq<usize>>,
    pub texts: Seq<Option<Seq<(Seq<char>, Attributes)>>>,
}

/// `m` with a block of type `k` added as the last child of `parent`.
pub open spec fn m_add(m: Model, parent: int, k: Kind) -> Model {
    Model {
        kinds: m.kinds.push(k),
        kids: m.kids.update(parent, m.kids[parent].push(m.kinds.len() as usize)).push(Seq::empty()),
        texts: m.texts.push(None),
    }
}

/// `m` with the runs `rs` appended to the text of block `b`.
pub open spec fn m_append(m: Model, b: int, rs: Seq<(Seq<char>, Attributes)>) -> Model {
    Model {
        texts: m.texts.update(
            b,
            Some(
                match m.texts[b] {
                    Some(x) => x,
                    None => Seq::empty(),
                } + rs,
            ),
        ),
        ..m
    }
}

/// The snapshot that holds the page block alone.
pub open spec fn m_page() -> Model {
    Model { kinds: seq![Kind::Page], kids: seq![Seq::empty()], texts: seq![None] }
}

/// A snapshot whose blocks and children are those of a well-formed one is
/// well-formed, whatever its text.
proof fn lemma_wf_same_tree(a: DocumentData, b: DocumentData)
    requires
        a.wf(),
        b.page_id == a.page_id,
        b.blocks == a.blocks,
        b.children_map == a.children_map,
        b.text_map@.len() == a.text_map@.len(),
    ensures
        b.wf(),
{
    assert forall|p: int, k: int|
        0 <= p < b.size() && 0 <= k < b.kids(p).len() implies p < #[trigger] b.kids(p)[k] < b.size()
            && b.blocks@[b.kids(p)[k] as int].parent@ == b.blocks@[p].id@ by {
        assert(b.kids(p) == a.kids(p));
        assert(a.kids(p)[k] == b.kids(p)[k]);
    }
    assert forall|p: int, k1: int, k2: int|
        0 <= p < b.size() && 0 <= k1 < k2 < b.kids(p).len() implies #[trigger] b.kids(p)[k1]
            < #[trigger] b.kids(p)[k2] by {
        assert(b.kids(p) == a.kids(p));
        assert(a.kids(p)[k1] < a.kids(p)[k2]);
    }
    assert forall|c: int| 1 <= c < b.size() implies #[trigger] b.is_listed(c) by {
        assert(a.is_listed(c));
        let (p, k) = choose|p: int, k: int|
            0 <= p < a.size() && 0 <= k < a.kids(p).len() && #[trigger] a.kids(p)[k] == c;
        assert(b.kids(p) == a.kids(p));
        assert(b.kids(p)[k] == c);
    }
}

/// Formatting with no attribute set.
pub open spec fn plain_spec() -> Attributes {
    Attributes { bold: false, italic: false, strikethrough: false, code: false, math_inline: false, href: None }
}

/// Formatting with no attribute set.
pub fn plain() -> (r: Attributes)
    ensures
        r == plain_spec(),
{
    Attributes { bold: false, italic: false, strikethrough: false, code: false, math_inline: false, href: None }
}

/// The block made for an image at `url`: no children key and no text.
pub open spec fn image_block_spec(block_id: Seq<char>, url: String, parent_id: Seq<char>, b: Block) -> bool {
    &&& b.id@ == block_id
    &&& b.ty == BlockType::Image { url }
    &&& b.parent@ == parent_id
    &&& b.children@ == Seq::<char>::empty()
    &&& b.external_id is None
    &&& b.external_type is None
}

/// The block for an image at `url`, with the identifier `block_id`, under
/// `parent_id`.
pub fn create_image_block(block_id: &str, url: String, parent_id: &str) -> (r: Block)
    ensures
        image_block_spec(block_id@, url, parent_id@, r),
{
    Block {
        id: block_id.to_string(),
        ty: BlockType::Image { url },
        parent: parent_id.to_string(),
        children: String::new(),
        external_id: None,
        external_type: None,
    }
}

/// The text runs `rs` as characters and formatting.
pub open spec fn text_view(rs: Seq<TextRun>) -> Seq<(Seq<char>, Attributes)> {
    rs.map_values(|r: TextRun| (r.insert@, r.attributes))
}

impl DocumentData {
    /// The snapshot as mathematical values.
    pub open spec fn model(&self) -> Model {
        Model {
            kinds: self.blocks@.map_values(|b: Block| kind_of(b.ty)),
            kids: self.children_map@.map_values(|v: Vec<usize>| v@),
            texts: self.text_map@.map_values(
                |o: Option<Vec<TextRun>>|
                    match o {
                        Some(v) => Some(text_view(v@)),
                        None => None,
                    },
            ),
        }
    }

    /// The positions of the children of the block at position `p`.
    pub open spec fn kids(&self, p: int) -> Seq<usize> {
        self.children_map@[p]@
    }

    /// The text runs of the block at position `b`; none where it has no text.
    pub open spec fn runs(&self, b: int) -> Seq<TextRun> {
        match self.text_map@[b] {
            Some(d) => d@,
            None => Seq::empty(),
        }
    }

    /// The number of blocks.
    pub open spec fn size(&self) -> int {
        self.blocks@.len() as int
    }

    /// The shape that every snapshot keeps: the page comes first and has no
    /// parent; each block is named after its position; each child comes after
    /// its parent, names it as its parent, and stands once in its list; and
    /// every block but the page is some block's child.
    pub open spec fn wf(&self) -> bool {
        &&& self.size() >= 1
        &&& self.children_map@.len() == self.size()
        &&& self.text_map@.len() == self.size()
        &&& self.blocks@[0].parent@ == Seq::<char>::empty()
        &&& forall|i: int|
            0 <= i < self.size() ==> (#[trigger] self.blocks@[i]).id@ == block_id(
                self.page_id@,
                i as nat,
            ) && block_fields_ok(self.blocks@[i])
        &&& forall|p: int, k: int|
            0 <= p < self.size() && 0 <= k < self.kids(p).len() ==> p < #[trigger] self.kids(p)[k]
                < self.size() && self.blocks@[self.kids(p)[k] as int].parent@
                == self.blocks@[p].id@
        &&& forall|p: int, k1: int, k2: int|
            0 <= p < self.size() && 0 <= k1 < k2 < self.kids(p).len() ==> #[trigger] self.kids(
                p,
            )[k1] < #[trigger] self.kids(p)[k2]
        &&& forall|c: int| 1 <= c < self.size() ==> #[trigger] self.is_listed(c)
    }

    /// Whether position `c` stands in some block's list of children.
    pub open spec fn is_listed(&self, c: int) -> bool {
        exists|p: int, k: int|
            0 <= p < self.size() && 0 <= k < self.kids(p).len() && #[trigger] self.kids(p)[k] == c
    }

    /// A snapshot that holds the page block alone.
    pub fn new_page(page_id: String) -> (r: DocumentData)
        ensures
            r.wf(),
            r.page_id == page_id,
            r.size() == 1,
            r.blocks@[0].ty == BlockType::Page,
            r.blocks@[0].id@ == page_id@,
            r.text_map@[0] is None,
            r.kids(0).len() == 0,
            r.model() == m_page(),
    {
        let id = make_block_id(&page_id, 0);
        let page = Block {
            id: id.clone(),
            ty: BlockType::Page,
            parent: String::new(),
            children: id.clone(),
            external_id: Some(id),
            external_type: Some(String::from_str("text")),
        };
        proof {
            reveal_strlit("text");
        }
        let mut blocks: Vec<Block> = Vec::new();
        blocks.push(page);
        let mut children_map: Vec<Vec<usize>> = Vec::new();
        children_map.push(Vec::new());
        let mut text_map: Vec<Option<Vec<TextRun>>> = Vec::new();
        text_map.push(None);
        let r = DocumentData { page_id, blocks, children_map, text_map };
        assert(r.kids(0).len() == 0);
        assert(r.model().kinds =~= m_page().kinds);
        assert(r.model().kids =~= m_page().kids);
        assert(r.model().texts =~= m_page().texts);
        r
    }

    /// Adds `block` as the last child of the block at position `parent`;
    /// returns its position. The block must carry the identifier of that
    /// position and name `parent`'s block as its parent.
    pub fn insert_block(&mut self, parent: usize, block: Block) -> (r: usize)
        requires
            old(self).wf(),
            parent < old(self).size(),
            block.id@ == block_id(old(self).page_id@, old(self).size() as nat),
            block.parent@ == old(self).blocks@[parent as int].id@,
            block_fields_ok(block),
        ensures
            final(self).wf(),
            final(self).model() == m_add(old(self).model(), parent as int, kind_of(block.ty)),
            r == old(self).size(),
            final(self).page_id == old(self).page_id,
            final(self).blocks@ == old(self).blocks@.push(block),
            final(self).text_map@ == old(self).text_map@.push(None),
            final(self).kids(parent as int) == old(self).kids(parent as int).push(r),
            final(self).kids(r as int).len() == 0,
            forall|p: int| 0 <= p < old(self).size() && p != parent ==> #[trigger] final(self).kids(p)
                == old(self).kids(p),
    {
        let r = self.blocks.len();
        let ghost before = *self;
        self.blocks.push(block);
        self.children_map.push(Vec::new());
        self.text_map.push(None);
        self.children_map[parent].push(r);
        proof {
            let m = m_add(before.model(), parent as int, kind_of(block.ty));
            assert(self.model().kinds =~= m.kinds);
            assert(self.model().texts =~= m.texts);
            assert(self.model().kids =~= m.kids);
            assert(self.kids(r as int).len() == 0);
            assert forall|p: int| 0 <= p < before.size() && p != parent implies #[trigger] self.kids(p)
                == before.kids(p) by {}
            assert forall|c: int| 1 <= c < self.size() implies #[trigger] self.is_listed(c) by {
                if c == r {
                    assert(self.kids(parent as int)[before.kids(parent as int).len() as int] == c);
                } else {
                    assert(before.is_listed(c));
                    let (p, k) = choose|p: int, k: int|
                        0 <= p < before.size() && 0 <= k < before.kids(p).len() && #[trigger] before.kids(p)[k]
                            == c;
                    if p == parent {
                        assert(self.kids(p)[k] == c);
                    } else {
                        assert(self.kids(p) == before.kids(p));
                        assert(self.kids(p)[k] == c);
                    }
                }
            }
            assert forall|p: int, k: int|
                0 <= p < self.size() && 0 <= k < self.kids(p).len() implies p < #[trigger] self.kids(p)[k]
                    < self.size() && self.blocks@[self.kids(p)[k] as int].parent@
                    == self.blocks@[p].id@ by {
                if p == parent {
                    if k < before.kids(p).len() {
                        assert(self.kids(p)[k] == before.kids(p)[k]);
                    }
                } else if p < before.size() {
                    assert(self.kids(p) == before.kids(p));
                }
            }
            assert forall|p: int, k1: int, k2: int|
                0 <= p < self.size() && 0 <= k1 < k2 < self.kids(p).len() implies #[trigger] self.kids(
                    p,
                )[k1] < #[trigger] self.kids(p)[k2] by {
                if p == parent {
                    assert(self.kids(p)[k1] == before.kids(p)[k1]);
                    if k2 < before.kids(p).len() {
                        assert(self.kids(p)[k2] == before.kids(p)[k2]);
                    }
                } else if p < before.size() {
                    assert(self.kids(p) == before.kids(p));
                }
            }
        }
        r
    }

    /// Adds a block of type `ty` as the last child of the block at position
    /// `parent`, keyed and named by its own identifier, and linked to its text
    /// payload where `text_bearing`; returns its position.
    pub fn add_block(&mut self, parent: usize, ty: BlockType) -> (r: usize)
        requires
            old(self).wf(),
            parent < old(self).size(),
            !(ty is Image),
        ensures
            final(self).wf(),
            final(self).model() == m_add(old(self).model(), parent as int, kind_of(ty)),
            r == old(self).size(),
            final(self).page_id == old(self).page_id,
            final(self).size() == old(self).size() + 1,
            forall|i: int| 0 <= i < old(self).size() ==> #[trigger] final(self).blocks@[i] == old(self).blocks@[i],
            final(self).blocks@[r as int].ty == ty,
            final(self).text_map@ == old(self).text_map@.push(None),
            final(self).kids(parent as int) == old(self).kids(parent as int).push(r),
            final(self).kids(r as int).len() == 0,
            forall|p: int| 0 <= p < old(self).size() && p != parent ==> #[trigger] final(self).kids(p)
                == old(self).kids(p),
    {
        let n = self.blocks.len();
        let id = make_block_id(&self.page_id, n);
        let parent_id = self.blocks[parent].id.clone();
        let text_bearing = match ty {
            BlockType::SimpleTable | BlockType::SimpleTableRow | BlockType::SimpleTableCell { .. } => false,
            _ => true,
        };
        let (external_id, external_type) = if text_bearing {
            (Some(id.clone()), Some(String::from_str("text")))
        } else {
            (None, None)
        };
        proof {
            reveal_strlit("text");
        }
        let block = Block { id: id.clone(), ty, parent: parent_id, children: id.clone(), external_id, external_type };
        self.insert_block(parent, block)
    }

    /// Appends `runs` to the text of the block at position `block`.
    pub fn append_runs(&mut self, block: usize, runs: Vec<TextRun>)
        requires
            old(self).wf(),
            block < old(self).size(),
        ensures
            final(self).wf(),
            final(self).page_id == old(self).page_id,
            final(self).blocks == old(self).blocks,
            final(self).children_map == old(self).children_map,
            final(self).text_map@.len() == old(self).text_map@.len(),
            final(self).text_map@[block as int] is Some,
            final(self).runs(block as int) == old(self).runs(block as int) + runs@,
            final(self).model() == m_append(old(self).model(), block as int, text_view(runs@)),
            forall|i: int| 0 <= i < old(self).size() && i != block ==> #[trigger] final(self).text_map@[i]
                == old(self).text_map@[i],
    {
        let current = self.text_map[block].take();
        let mut delta = match current {
            Some(d) => d,
            None => Vec::new(),
        };
        let mut more = runs;
        delta.append(&mut more);
        self.text_map.set(block, Some(delta));
        proof {
            lemma_wf_same_tree(*old(self), *self);
            let m = m_append(old(self).model(), block as int, text_view(runs@));
            assert(self.model().kids =~= m.kids);
            assert(self.model().kinds =~= m.kinds);
            assert(text_view(old(self).runs(block as int) + runs@) =~= text_view(old(self).runs(block as int)) + text_view(runs@));
            assert(self.model().texts =~= m.texts);
        }
    }
}

/// Every block that the children map names, as a key or as a child, is a
/// block of the snapshot.
pub proof fn lemma_children_exist(doc: DocumentData)
    requires
        doc.wf(),
    ensures
        doc.children_map@.len() == doc.blocks@.len(),
        forall|p: int, k: int|
            0 <= p < doc.size() && 0 <= k < doc.kids(p).len() ==> #[trigger] doc.kids(p)[k] < doc.size(),
{
}

/// Each block names as its parent the block under which the children map
/// lists it, and the page names none.
pub proof fn lemma_parent_matches(doc: DocumentData)
    requires
        doc.wf(),
    ensures
        doc.blocks@[0].parent@ == Seq::<char>::empty(),
        forall|p: int, k: int|
            0 <= p < doc.size() && 0 <= k < doc.kids(p).len() ==> doc.blocks@[#[trigger] doc.kids(p)[k] as int].parent@
                == doc.blocks@[p].id@,
{
}

/// Identifiers are pairwise distinct, and every block but the page stands
/// exactly once over all lists of children, the page nowhere.
pub proof fn lemma_ids_unique(doc: DocumentData)
    requires
        doc.wf(),
    ensures
        forall|i: int, j: int|
            0 <= i < doc.size() && 0 <= j < doc.size() && i != j ==> #[trigger] doc.blocks@[i].id@
                != #[trigger] doc.blocks@[j].id@,
        forall|c: int| 1 <= c < doc.size() ==> #[trigger] doc.is_listed(c),
        !doc.is_listed(0),
        forall|p1: int, k1: int, p2: int, k2: int|
            0 <= p1 < doc.size() && 0 <= k1 < doc.kids(p1).len() && 0 <= p2 < doc.size() && 0 <= k2
                < doc.kids(p2).len() && #[trigger] doc.kids(p1)[k1] == #[trigger] doc.kids(p2)[k2] ==> p1
                == p2 && k1 == k2,
{
    assert forall|i: int, j: int|
        0 <= i < doc.size() && 0 <= j < doc.size() && i != j implies #[trigger] doc.blocks@[i].id@
            != #[trigger] doc.blocks@[j].id@ by {
        lemma_block_ids_distinct(doc.page_id@, i as nat, j as nat);
    }
    assert forall|p1: int, k1: int, p2: int, k2: int|
        0 <= p1 < doc.size() && 0 <= k1 < doc.kids(p1).len() && 0 <= p2 < doc.size() && 0 <= k2
            < doc.kids(p2).len() && #[trigger] doc.kids(p1)[k1] == #[trigger] doc.kids(p2)[k2] implies p1
            == p2 && k1 == k2 by {
        let c = doc.kids(p1)[k1] as int;
        assert(doc.blocks@[c].parent@ == doc.blocks@[p1].id@);
        assert(doc.blocks@[c].parent@ == doc.blocks@[p2].id@);
        if p1 != p2 {
            lemma_block_ids_distinct(doc.page_id@, p1 as nat, p2 as nat);
            assert(doc.blocks@[p1].id@ == block_id(doc.page_id@, p1 as nat));
            assert(doc.blocks@[p2].id@ == block_id(doc.page_id@, p2 as nat));
        } else if k1 < k2 {
            assert(doc.kids(p1)[k1] < doc.kids(p1)[k2]);
        } else if k2 < k1 {
            assert(doc.kids(p1)[k2] < doc.kids(p1)[k1]);
        }
    }
    if doc.is_listed(0) {
        let (p, k) = choose|p: int, k: int|
            0 <= p < doc.size() && 0 <= k < doc.kids(p).len() && #[trigger] doc.kids(p)[k] == 0;
        assert(p < doc.kids(p)[k]);
    }
}

/// Only blocks of the snapshot have text: the text map has one slot per block.
pub proof fn lemma_text_keys_are_blocks(doc: DocumentData)
    requires
        doc.wf(),
    ensures
        forall|i: int| 0 <= i < doc.text_map@.len() && (#[trigger] doc.text_map@[i]) is Some ==> 0 <= i
            < doc.blocks@.len(),
{
}

proof fn lemma_kind_variant(t: BlockType)
    ensures
        kind_of(t) is Image <==> t is Image,
        carries_text(t) <==> !(kind_of(t) is SimpleTable || kind_of(t) is SimpleTableRow
            || kind_of(t) is SimpleTableCell || kind_of(t) is Image),
{
}

/// A well-formed snapshot is determined by its page identifier and its
/// model: two snapshots that agree on both agree, block by block, on
/// identifiers, parents, types, children keys, external links, children
/// and text. With `MDImporter::import` giving the model of the parsed tree,
/// importing one input twice gives equal snapshots.
pub proof fn lemma_model_determines_snapshot(a: DocumentData, b: DocumentData)
    requires
        a.wf(),
        b.wf(),
        a.page_id@ == b.page_id@,
        a.model() == b.model(),
    ensures
        a.size() == b.size(),
        forall|i: int|
            0 <= i < a.size() ==> {
                &&& (#[trigger] a.blocks@[i]).id@ == b.blocks@[i].id@
                &&& a.blocks@[i].parent@ == b.blocks@[i].parent@
                &&& kind_of(a.blocks@[i].ty) == kind_of(b.blocks@[i].ty)
                &&& a.blocks@[i].children@ == b.blocks@[i].children@
                &&& (a.blocks@[i].external_id is Some <==> b.blocks@[i].external_id is Some)
                &&& a.kids(i) == b.kids(i)
                &&& a.model().texts[i] == b.model().texts[i]
            },
{
    assert(a.model().kinds.len() == a.blocks@.len());
    assert(b.model().kinds.len() == b.blocks@.len());
    assert(a.model().kinds.len() == b.model().kinds.len());
    assert forall|i: int| 0 <= i < a.size() implies {
        &&& (#[trigger] a.blocks@[i]).id@ == b.blocks@[i].id@
        &&& a.blocks@[i].parent@ == b.blocks@[i].parent@
        &&& kind_of(a.blocks@[i].ty) == kind_of(b.blocks@[i].ty)
        &&& a.blocks@[i].children@ == b.blocks@[i].children@
        &&& (a.blocks@[i].external_id is Some <==> b.blocks@[i].external_id is Some)
        &&& a.kids(i) == b.kids(i)
        &&& a.model().texts[i] == b.model().texts[i]
    } by {
        assert(a.model().kinds[i] == b.model().kinds[i]);
        assert(a.model().kids[i] == b.model().kids[i]);
        assert(a.model().kids[i] == a.kids(i));
        assert(b.model().kids[i] == b.kids(i));
        let (ta, tb) = (a.blocks@[i].ty, b.blocks@[i].ty);
        assert(a.model().kinds[i] == kind_of(ta));
        assert(b.model().kinds[i] == kind_of(tb));
        lemma_kind_variant(ta);
        lemma_kind_variant(tb);
        assert(ta is Image <==> tb is Image);
        assert(carries_text(ta) <==> carries_text(tb));
        if i > 0 {
            assert(a.is_listed(i));
            let (p, k) = choose|p: int, k: int|
                0 <= p < a.size() && 0 <= k < a.kids(p).len() && #[trigger] a.kids(p)[k] == i;
            assert(a.model().kids[p] == b.model().kids[p]);
            assert(a.model().kids[p] == a.kids(p));
            assert(b.model().kids[p] == b.kids(p));
            assert(b.kids(p)[k] == i);
            assert(a.blocks@[p].id@ == b.blocks@[p].id@);
        }
    }
}

} // verus!
