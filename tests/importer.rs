use md_blocks::html::{extract_tag_content, parse_aside_html, parse_details_html};
use md_blocks::importer::is_table_cell_empty;
use md_blocks::{
    create_image_block, Align, BlockType, DataValue, DocumentData, MDImporter, MdNode, NodeKind,
    ParseConfig, TextRun,
};

fn import(md: &str) -> DocumentData {
    MDImporter::new(None).import("P", md.to_string()).expect("the document parses")
}

fn kids(doc: &DocumentData, i: usize) -> Vec<usize> {
    doc.children_map[i].clone()
}

fn runs(doc: &DocumentData, i: usize) -> Vec<TextRun> {
    doc.text_map[i].clone().unwrap_or_default()
}

fn text(doc: &DocumentData, i: usize) -> String {
    runs(doc, i).iter().map(|r| r.insert.clone()).collect()
}

fn tag(doc: &DocumentData, i: usize) -> &'static str {
    doc.blocks[i].ty.tag()
}

fn check_shape(doc: &DocumentData) {
    let n = doc.blocks.len();
    assert_eq!(doc.children_map.len(), n);
    assert_eq!(doc.text_map.len(), n);
    assert_eq!(doc.blocks[0].id, doc.page_id);
    assert_eq!(doc.blocks[0].parent, "");
    let mut seen = vec![0usize; n];
    for p in 0..n {
        for &c in &doc.children_map[p] {
            assert!(c < n);
            assert_eq!(doc.blocks[c].parent, doc.blocks[p].id);
            seen[c] += 1;
        }
    }
    assert_eq!(seen[0], 0);
    for c in 1..n {
        assert_eq!(seen[c], 1);
    }
    for i in 0..n {
        for j in 0..n {
            if i != j {
                assert_ne!(doc.blocks[i].id, doc.blocks[j].id);
            }
        }
    }
}

#[test]
fn heading_and_bold_paragraph() {
    let doc = import("# Title\n\nHello **world**");
    check_shape(&doc);
    assert_eq!(tag(&doc, 0), "page");
    assert_eq!(doc.blocks[0].id, "P");
    let top = kids(&doc, 0);
    assert_eq!(top.len(), 2);
    let (h, pg) = (top[0], top[1]);
    assert!(matches!(doc.blocks[h].ty, BlockType::Heading { level: 1 }));
    let hr = runs(&doc, h);
    assert_eq!(hr.len(), 1);
    assert_eq!(hr[0].insert, "Title");
    assert!(!hr[0].attributes.bold);
    assert_eq!(tag(&doc, pg), "paragraph");
    let pr = runs(&doc, pg);
    assert_eq!(pr.len(), 2);
    assert_eq!(pr[0].insert, "Hello ");
    assert!(!pr[0].attributes.bold);
    assert_eq!(pr[1].insert, "world");
    assert!(pr[1].attributes.bold);
}

#[test]
fn image_is_promoted() {
    let doc = import("![](http://x/y.png)");
    check_shape(&doc);
    let top = kids(&doc, 0);
    assert_eq!(top.len(), 1);
    let img = top[0];
    assert_eq!(tag(&doc, img), "image");
    assert_eq!(doc.blocks[img].children, "");
    assert_eq!(doc.blocks[img].external_id, None);
    let data = doc.blocks[img].ty.data();
    assert_eq!(data.len(), 2);
    assert_eq!(data[0].0, "url");
    assert!(matches!(&data[0].1, DataValue::Text(u) if u == "http://x/y.png"));
    assert_eq!(data[1].0, "image_type");
    assert!(matches!(&data[1].1, DataValue::Text(t) if t == "external"));
}

#[test]
fn table_becomes_simple_table() {
    let doc = import("| h1 | h2 |\n| --- | --- |\n| a | b |");
    check_shape(&doc);
    let top = kids(&doc, 0);
    assert_eq!(top.len(), 1);
    let table = top[0];
    assert_eq!(tag(&doc, table), "simple_table");
    assert_eq!(doc.blocks[table].external_id, None);
    let rows = kids(&doc, table);
    assert_eq!(rows.len(), 2);
    for (ri, &row) in rows.iter().enumerate() {
        assert_eq!(tag(&doc, row), "simple_table_row");
        let cells = kids(&doc, row);
        assert_eq!(cells.len(), 2);
        for (ci, &cell) in cells.iter().enumerate() {
            match &doc.blocks[cell].ty {
                BlockType::SimpleTableCell { row, col, align } => {
                    assert_eq!(*row, ri);
                    assert_eq!(*col, ci);
                    assert_eq!(*align, Align::Left);
                }
                _ => panic!("a table cell is expected"),
            }
            let data = doc.blocks[cell].ty.data();
            assert!(matches!(&data[2].1, DataValue::Text(a) if a == "left"));
            let paras = kids(&doc, cell);
            assert_eq!(paras.len(), 1);
            assert_eq!(tag(&doc, paras[0]), "paragraph");
        }
    }
    let body = kids(&doc, rows[1]);
    assert_eq!(text(&doc, kids(&doc, body[0])[0]), "a");
    assert_eq!(text(&doc, kids(&doc, body[1])[0]), "b");
    assert_eq!(text(&doc, kids(&doc, kids(&doc, rows[0])[0])[0]), "h1");
}

#[test]
fn empty_six_column_table_becomes_columns() {
    let doc = import("|  |  |  |  |  |  |\n|---|---|---|---|---|---|\n|  |  |  |  |  |  |");
    check_shape(&doc);
    let top = kids(&doc, 0);
    assert_eq!(top.len(), 1);
    let cols = top[0];
    assert_eq!(tag(&doc, cols), "simple_columns");
    let columns = kids(&doc, cols);
    assert_eq!(columns.len(), 6);
    for &c in &columns {
        assert_eq!(tag(&doc, c), "simple_column");
        assert!(kids(&doc, c).is_empty());
    }
}

#[test]
fn two_column_layout_table() {
    let doc = import("|  |  |\n|---|---|\n| left | right |");
    check_shape(&doc);
    let cols = kids(&doc, 0)[0];
    assert_eq!(tag(&doc, cols), "simple_columns");
    let columns = kids(&doc, cols);
    assert_eq!(columns.len(), 2);
    let p0 = kids(&doc, columns[0]);
    assert_eq!(p0.len(), 1);
    assert_eq!(text(&doc, p0[0]), "left");
    assert_eq!(text(&doc, kids(&doc, columns[1])[0]), "right");
}

#[test]
fn empty_narrow_table_stays_a_table() {
    let doc = import("|  |  |\n|---|---|\n|  |  |");
    check_shape(&doc);
    assert_eq!(tag(&doc, kids(&doc, 0)[0]), "simple_table");
}

#[test]
fn blockquote_splits_head_paragraph() {
    let doc = import("> quote text\n> \n> nested");
    check_shape(&doc);
    let top = kids(&doc, 0);
    assert_eq!(top.len(), 1);
    let q = top[0];
    assert_eq!(tag(&doc, q), "quote");
    assert_eq!(text(&doc, q), "quote text");
    let inner = kids(&doc, q);
    assert_eq!(inner.len(), 1);
    assert_eq!(tag(&doc, inner[0]), "paragraph");
    assert_eq!(text(&doc, inner[0]), "nested");
}

#[test]
fn aside_becomes_callout() {
    let doc = import("<aside>💡 Be careful</aside>");
    check_shape(&doc);
    let top = kids(&doc, 0);
    assert_eq!(top.len(), 1);
    let c = top[0];
    match &doc.blocks[c].ty {
        BlockType::Callout { icon } => assert_eq!(icon, "💡"),
        _ => panic!("a callout is expected"),
    }
    let r = runs(&doc, c);
    assert_eq!(r.len(), 1);
    assert_eq!(r[0].insert, "Be careful");
    assert!(kids(&doc, c).is_empty());
}

#[test]
fn aside_holds_following_siblings() {
    let doc = import("<aside>\n\nInside **here**\n\n</aside>\n\nAfter");
    check_shape(&doc);
    let top = kids(&doc, 0);
    assert_eq!(top.len(), 2);
    assert_eq!(tag(&doc, top[0]), "callout");
    let inner = kids(&doc, top[0]);
    assert_eq!(inner.len(), 1);
    assert_eq!(text(&doc, inner[0]), "Inside here");
    assert_eq!(text(&doc, top[1]), "After");
}

#[test]
fn details_become_toggle() {
    let doc = import("<details>\n<summary>More</summary>\n\nHidden text\n\n</details>");
    check_shape(&doc);
    let top = kids(&doc, 0);
    assert_eq!(top.len(), 1);
    let t = top[0];
    assert_eq!(tag(&doc, t), "toggle_list");
    assert_eq!(text(&doc, t), "More");
    let inner = kids(&doc, t);
    assert_eq!(inner.len(), 1);
    assert_eq!(text(&doc, inner[0]), "Hidden text");
}

#[test]
fn details_with_summary_inline() {
    let doc = import("<details><summary>Sum *it*</summary>Body line</details>");
    check_shape(&doc);
    let t = kids(&doc, 0)[0];
    assert_eq!(tag(&doc, t), "toggle_list");
    let r = runs(&doc, t);
    assert_eq!(r.len(), 2);
    assert_eq!(r[1].insert, "it");
    assert!(r[1].attributes.italic);
    let inner = kids(&doc, t);
    assert_eq!(inner.len(), 1);
    assert_eq!(text(&doc, inner[0]), "Body line");
}

#[test]
fn nested_formatting_composes() {
    let doc = import("***both***");
    let p = kids(&doc, 0)[0];
    let r = runs(&doc, p);
    assert_eq!(r.len(), 1);
    assert_eq!(r[0].insert, "both");
    assert!(r[0].attributes.bold);
    assert!(r[0].attributes.italic);
    let doc = import("**a _b_ ~~c~~ `d` [e](http://l)**");
    let r = runs(&doc, kids(&doc, 0)[0]);
    assert!(r.iter().all(|x| x.attributes.bold));
    assert!(r.iter().any(|x| x.insert == "b" && x.attributes.italic));
    assert!(r.iter().any(|x| x.insert == "c" && x.attributes.strikethrough));
    assert!(r.iter().any(|x| x.insert == "d" && x.attributes.code));
    assert!(r.iter().any(|x| x.insert == "e" && x.attributes.href.as_deref() == Some("http://l")));
}

#[test]
fn no_paragraph_holds_only_an_image() {
    let doc = import("![](a.png)\n\n![](c.png)\n\n> ![](d.png)");
    check_shape(&doc);
    for (i, b) in doc.blocks.iter().enumerate() {
        if b.ty.tag() == "paragraph" {
            let k = kids(&doc, i);
            assert!(!(k.len() == 1 && tag(&doc, k[0]) == "image"));
        }
    }
    let top = kids(&doc, 0);
    assert_eq!(top.len(), 3);
    assert_eq!(tag(&doc, top[0]), "image");
    assert_eq!(tag(&doc, top[1]), "image");
    assert_eq!(tag(&doc, top[2]), "quote");
}

#[test]
fn image_beside_text_is_a_child_of_its_paragraph() {
    let doc = import("text ![](b.png)");
    check_shape(&doc);
    let p = kids(&doc, 0)[0];
    assert_eq!(tag(&doc, p), "paragraph");
    assert_eq!(text(&doc, p), "text ");
    let k = kids(&doc, p);
    assert_eq!(k.len(), 1);
    assert_eq!(tag(&doc, k[0]), "image");
}

#[test]
fn importing_twice_gives_equal_snapshots() {
    let md = "# A\n\n- x\n- y\n\n> q\n\n| a | b |\n|---|---|\n| 1 | 2 |\n\n<aside>⚠ note</aside>";
    let a = import(md);
    let b = import(md);
    assert_eq!(format!("{:?}", a), format!("{:?}", b));
}

#[test]
fn lists_carry_kind_and_data() {
    let doc = import("3. one\n4. two\n\n- [x] done\n- [ ] open\n\n* plain");
    check_shape(&doc);
    let top = kids(&doc, 0);
    assert_eq!(top.len(), 5);
    assert!(matches!(doc.blocks[top[0]].ty, BlockType::NumberedList { start: Some(3) }));
    assert!(matches!(doc.blocks[top[1]].ty, BlockType::NumberedList { start: Some(3) }));
    assert_eq!(text(&doc, top[1]), "two");
    assert!(matches!(doc.blocks[top[2]].ty, BlockType::TodoList { checked: Some(true) }));
    assert!(matches!(doc.blocks[top[3]].ty, BlockType::TodoList { checked: Some(false) }));
    assert_eq!(tag(&doc, top[4]), "bulleted_list");
    let d = doc.blocks[top[0]].ty.data();
    assert_eq!(d[0].0, "start");
    assert!(matches!(d[0].1, DataValue::Number(3)));
}

#[test]
fn nested_list_items_become_children() {
    let doc = import("- outer\n  - inner");
    check_shape(&doc);
    let outer = kids(&doc, 0)[0];
    assert_eq!(text(&doc, outer), "outer");
    let inner = kids(&doc, outer);
    assert_eq!(inner.len(), 1);
    assert_eq!(tag(&doc, inner[0]), "bulleted_list");
    assert_eq!(text(&doc, inner[0]), "inner");
}

#[test]
fn code_and_divider() {
    let doc = import("```rust\nlet x = 1;\n```\n\n---\n\n```\nraw **text**\n```");
    check_shape(&doc);
    let top = kids(&doc, 0);
    assert_eq!(top.len(), 3);
    assert!(matches!(&doc.blocks[top[0]].ty, BlockType::Code { language: Some(l) } if l == "rust"));
    assert_eq!(text(&doc, top[0]), "let x = 1;");
    assert_eq!(tag(&doc, top[1]), "divider");
    let d = doc.blocks[top[2]].ty.data();
    assert!(matches!(&d[0].1, DataValue::Text(l) if l.is_empty()));
    assert_eq!(text(&doc, top[2]), "raw **text**");
}

#[test]
fn unknown_nodes_degrade_to_text() {
    let doc = import("$$\nx^2\n$$");
    check_shape(&doc);
    let top = kids(&doc, 0);
    assert_eq!(top.len(), 1);
    assert_eq!(tag(&doc, top[0]), "text");
    assert_eq!(text(&doc, top[0]), "x^2");
}

#[test]
fn line_break_and_inline_math() {
    let doc = import("a  \nb $m$");
    let r = runs(&doc, kids(&doc, 0)[0]);
    assert!(r.iter().any(|x| x.insert == "\n" && !x.attributes.bold));
    assert!(r.iter().any(|x| x.insert == "m" && x.attributes.math_inline));
}

#[test]
fn stray_closing_tags_are_dropped() {
    let doc = import("</aside>\n\ntext\n\n</details>");
    check_shape(&doc);
    let top = kids(&doc, 0);
    assert_eq!(top.len(), 1);
    assert_eq!(text(&doc, top[0]), "text");
}

#[test]
fn empty_document_is_a_bare_page() {
    let doc = import("");
    check_shape(&doc);
    assert_eq!(doc.blocks.len(), 1);
    assert!(kids(&doc, 0).is_empty());
}

#[test]
fn ids_are_named_after_page_and_position() {
    let doc = import("a\n\nb");
    assert_eq!(doc.blocks[1].id, "P-1");
    assert_eq!(doc.blocks[2].id, "P-2");
    assert_eq!(doc.blocks[1].children, "P-1");
    assert_eq!(doc.blocks[1].external_id.as_deref(), Some("P-1"));
    assert_eq!(doc.blocks[1].external_type.as_deref(), Some("text"));
}

#[test]
fn config_without_gfm_keeps_tables_as_text() {
    let config = ParseConfig {
        gfm: false,
        strikethrough_single_tilde: false,
        math_text: false,
        math_flow: false,
        autolink: false,
    };
    let importer = MDImporter::new(Some(config));
    assert_eq!(importer.parse_options, config);
    let doc = importer.import("P", "| a | b |\n|---|---|\n| 1 | 2 |".to_string()).unwrap();
    check_shape(&doc);
    assert_eq!(tag(&doc, kids(&doc, 0)[0]), "paragraph");
}

#[test]
fn default_config_is_gfm_with_math() {
    let importer = MDImporter::new(None);
    assert!(importer.parse_options.gfm);
    assert!(importer.parse_options.strikethrough_single_tilde);
    assert!(importer.parse_options.math_text);
    assert!(importer.parse_options.math_flow);
    assert!(importer.parse_options.autolink);
}

#[test]
fn image_block_fields() {
    let b = create_image_block("i1", "http://u".to_string(), "p1");
    assert_eq!(b.id, "i1");
    assert_eq!(b.parent, "p1");
    assert_eq!(b.children, "");
    assert!(b.external_id.is_none() && b.external_type.is_none());
    assert!(matches!(&b.ty, BlockType::Image { url } if url == "http://u"));
    assert_eq!(b.ty.tag(), "image");
}

#[test]
fn extract_tag_content_cases() {
    let (c, rest) = extract_tag_content("x<summary>Hi</summary> tail", "summary").unwrap();
    assert_eq!(c, "Hi");
    assert_eq!(rest, " tail");
    assert!(extract_tag_content("<summary>open", "summary").is_none());
    assert!(extract_tag_content("none here", "summary").is_none());
}

#[test]
fn aside_parsing_cases() {
    assert!(parse_aside_html("<div>x</div>").is_none());
    let a = parse_aside_html("  <aside></aside> ").unwrap();
    assert_eq!(a.icon, "");
    assert_eq!(a.content, "");
    let a = parse_aside_html("<aside>Plain words</aside>").unwrap();
    assert_eq!(a.icon, "");
    assert_eq!(a.content, "Plain words");
    let a = parse_aside_html("<aside><aside>! rest").unwrap();
    assert_eq!(a.icon, "!");
    assert_eq!(a.content, "rest");
}

#[test]
fn details_parsing_cases() {
    assert!(parse_details_html("<p>x</p>").is_none());
    assert!(parse_details_html("<details>no summary").is_none());
    let d = parse_details_html("<details><summary> S </summary> body </details>").unwrap();
    assert_eq!(d.summary, "S");
    assert_eq!(d.body, "body");
}

fn text_node(s: &str) -> MdNode {
    MdNode { kind: NodeKind::Text { value: s.to_string() }, children: vec![], rendered: s.to_string() }
}

#[test]
fn cell_emptiness() {
    let empty = MdNode { kind: NodeKind::TableCell, children: vec![], rendered: String::new() };
    assert!(is_table_cell_empty(&empty));
    let blank = MdNode { kind: NodeKind::TableCell, children: vec![text_node("  ")], rendered: "  ".to_string() };
    assert!(is_table_cell_empty(&blank));
    let strong = MdNode { kind: NodeKind::Strong, children: vec![text_node("x")], rendered: "x".to_string() };
    let full = MdNode { kind: NodeKind::TableCell, children: vec![strong], rendered: "x".to_string() };
    assert!(!is_table_cell_empty(&full));
}

fn node(kind: NodeKind, children: Vec<MdNode>) -> MdNode {
    let rendered = children.iter().map(|c| c.rendered.clone()).collect();
    MdNode { kind, children, rendered }
}

#[test]
fn fragment_delta_folds_paragraphs_and_flattens_the_rest() {
    let strong = node(NodeKind::Strong, vec![text_node("b")]);
    let para = node(NodeKind::Paragraph, vec![text_node("a "), strong]);
    let code = MdNode {
        kind: NodeKind::Code { value: "c".to_string(), lang: None },
        children: vec![],
        rendered: "c".to_string(),
    };
    let root = node(NodeKind::Root, vec![para, code]);
    let r = md_blocks::importer::fragment_delta(&root);
    assert_eq!(r.len(), 3);
    assert_eq!(r[0].insert, "a ");
    assert_eq!(r[1].insert, "b");
    assert!(r[1].attributes.bold);
    assert_eq!(r[2].insert, "c");
    assert!(!r[2].attributes.code);
    let lone = text_node("t");
    let r = md_blocks::importer::fragment_delta(&lone);
    assert_eq!(r.len(), 1);
    assert_eq!(r[0].insert, "t");
}

#[test]
fn translate_tree_on_a_built_tree() {
    let config = MDImporter::new(None).parse_options;
    let heading = node(NodeKind::Heading { depth: 2 }, vec![text_node("H")]);
    let other = MdNode { kind: NodeKind::Other, children: vec![], rendered: "raw".to_string() };
    let root = node(NodeKind::Root, vec![heading, other]);
    let doc = md_blocks::importer::translate_tree("D", &root, &config);
    check_shape(&doc);
    let top = kids(&doc, 0);
    assert_eq!(top.len(), 2);
    assert!(matches!(doc.blocks[top[0]].ty, BlockType::Heading { level: 2 }));
    assert_eq!(text(&doc, top[0]), "H");
    assert_eq!(tag(&doc, top[1]), "text");
    assert_eq!(text(&doc, top[1]), "raw");
    assert_eq!(doc.blocks[top[1]].id, "D-2");
}

#[test]
fn callout_without_icon_and_with_formatting() {
    let doc = import("<aside>Note **this**</aside>");
    let c = kids(&doc, 0)[0];
    assert!(matches!(&doc.blocks[c].ty, BlockType::Callout { icon } if icon.is_empty()));
    assert!(doc.blocks[c].ty.data().is_empty());
    let r = runs(&doc, c);
    assert_eq!(r.len(), 2);
    assert_eq!(r[0].insert, "Note ");
    assert_eq!(r[1].insert, "this");
    assert!(r[1].attributes.bold);
}

#[test]
fn table_alignment_is_carried() {
    let doc = import("| a | b | c |\n|:--|:-:|--:|\n| 1 | 2 | 3 |");
    let table = kids(&doc, 0)[0];
    let cells = kids(&doc, kids(&doc, table)[1]);
    let aligns: Vec<Align> = cells
        .iter()
        .map(|&c| match &doc.blocks[c].ty {
            BlockType::SimpleTableCell { align, .. } => *align,
            _ => panic!("a table cell is expected"),
        })
        .collect();
    assert_eq!(aligns, vec![Align::Left, Align::Center, Align::Right]);
}

#[test]
fn table_cell_holding_an_image_holds_it_directly() {
    let doc = import("| a | b |\n|---|---|\n| ![](x.png) | t |");
    check_shape(&doc);
    let table = kids(&doc, 0)[0];
    let cells = kids(&doc, kids(&doc, table)[1]);
    let first = kids(&doc, cells[0]);
    assert_eq!(first.len(), 1);
    assert_eq!(tag(&doc, first[0]), "image");
    assert!(matches!(&doc.blocks[first[0]].ty, BlockType::Image { url } if url == "x.png"));
    let second = kids(&doc, cells[1]);
    assert_eq!(tag(&doc, second[0]), "paragraph");
    for (i, b) in doc.blocks.iter().enumerate() {
        if b.ty.tag() == "paragraph" {
            let k = kids(&doc, i);
            assert!(!(k.len() == 1 && tag(&doc, k[0]) == "image"));
        }
    }
}

#[test]
fn nested_details_past_one_level() {
    let doc = import("<details><summary>Outer</summary><details><summary>Inner</summary>deep</details></details>");
    check_shape(&doc);
    let outer = kids(&doc, 0)[0];
    assert_eq!(tag(&doc, outer), "toggle_list");
    assert_eq!(text(&doc, outer), "Outer");
}

#[test]
fn aside_with_leading_accented_letter_has_no_icon() {
    let a = parse_aside_html("<aside>École ouverte</aside>").unwrap();
    assert_eq!(a.icon, "");
    assert_eq!(a.content, "École ouverte");
    let a = parse_aside_html("<aside>3 items</aside>").unwrap();
    assert_eq!(a.icon, "");
    let a = parse_aside_html("<aside>⚠ Warn</aside>").unwrap();
    assert_eq!(a.icon, "⚠");
    assert_eq!(a.content, "Warn");
}
