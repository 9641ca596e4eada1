use oops_libs::markdown::{parse, walk, Block, MdEvent, MdTag, MdTagEnd, Span};

fn text_of(spans: &[Span]) -> String {
    spans.iter().map(|s| s.text.as_str()).collect()
}

#[test]
fn a_heading_and_a_paragraph_come_out_separately() {
    let blocks = parse("# Title\n\nSome prose.\n");
    assert_eq!(blocks.len(), 2);
    let Block::Heading { level, spans } = &blocks[0] else {
        panic!("expected a heading, got {:?}", blocks[0])
    };
    assert_eq!(*level, 1);
    assert_eq!(text_of(spans), "Title");
}

#[test]
fn inline_styles_survive_as_flags_rather_than_markers() {
    let blocks = parse("a **bold** and `code` word\n");
    let Block::Paragraph { spans, .. } = &blocks[0] else {
        panic!("expected a paragraph")
    };
    assert!(spans.iter().any(|s| s.strong && s.text == "bold"));
    assert!(spans.iter().any(|s| s.code && s.text == "code"));
    // The asterisks and backticks are gone, not escaped.
    assert!(!text_of(spans).contains('*'));
}

#[test]
fn a_numbered_list_numbers_itself() {
    let blocks = parse("1. one\n2. two\n3. three\n");
    let markers: Vec<&str> = blocks
        .iter()
        .filter_map(|b| match b {
            Block::ListItem { marker, .. } => Some(marker.as_str()),
            _ => None,
        })
        .collect();
    assert_eq!(markers, ["1.", "2.", "3."]);
}

#[test]
fn a_nested_list_indents_and_the_outer_one_keeps_counting() {
    let blocks = parse("1. one\n   - inner\n2. two\n");
    let items: Vec<(&str, u8)> = blocks
        .iter()
        .filter_map(|b| match b {
            Block::ListItem { marker, indent, .. } => Some((marker.as_str(), *indent)),
            _ => None,
        })
        .collect();
    // Document order: the parent item, then its child, then the next parent - and `two`
    // is still 2 rather than restarting at 1.
    assert_eq!(items, [("1.", 0), ("\u{2022}", 1), ("2.", 0)]);
}

#[test]
fn a_fenced_block_keeps_its_language_and_loses_its_fence() {
    let blocks = parse("```bash\ncargo test\n```\n");
    let Block::Code { text, language } = &blocks[0] else {
        panic!("expected code, got {:?}", blocks[0])
    };
    assert_eq!(text, "cargo test");
    assert_eq!(language.as_deref(), Some("bash"));
    assert!(
        !text.ends_with('\n'),
        "trailing newline draws an empty line"
    );
}

#[test]
fn a_table_becomes_rows_with_the_header_marked() {
    let blocks = parse("| a | b |\n|---|---|\n| 1 | 2 |\n");
    let rows: Vec<(bool, usize)> = blocks
        .iter()
        .filter_map(|b| match b {
            Block::TableRow { cells, header } => Some((*header, cells.len())),
            _ => None,
        })
        .collect();
    assert_eq!(rows, [(true, 2), (false, 2)]);
}

#[test]
fn a_link_carries_its_destination() {
    let blocks = parse("see [the docs](docs/README.md)\n");
    let Block::Paragraph { spans, .. } = &blocks[0] else {
        panic!("expected a paragraph")
    };
    let link = spans.iter().find(|s| s.link.is_some()).expect("a link");
    assert_eq!(link.text, "the docs");
    assert_eq!(link.link.as_deref(), Some("docs/README.md"));
}

#[test]
fn nothing_at_all_parses_to_nothing() {
    assert!(parse("").is_empty());
    assert!(parse("   \n\n  \n").is_empty());
}

#[test]
fn a_quote_a_rule_and_an_indented_block_come_out_as_such() {
    let blocks = parse("> quoted\n\n---\n\n    indented\n");
    assert!(matches!(&blocks[0], Block::Quote { spans } if text_of(spans) == "quoted"));
    assert_eq!(blocks[1], Block::Rule);
    assert_eq!(
        blocks[2],
        Block::Code {
            text: "indented".to_owned(),
            language: None
        }
    );
}

#[test]
fn a_walk_over_events_builds_items_from_the_given_start() {
    let events = vec![
        MdEvent::Start(MdTag::List(Some(7))),
        MdEvent::Start(MdTag::Other),
        MdEvent::Text("seven".to_owned()),
        MdEvent::End(MdTagEnd::Item),
        MdEvent::Start(MdTag::Other),
        MdEvent::Start(MdTag::Emphasis),
        MdEvent::Text("eight".to_owned()),
        MdEvent::End(MdTagEnd::Emphasis),
        MdEvent::End(MdTagEnd::Item),
        MdEvent::End(MdTagEnd::List),
        MdEvent::Start(MdTag::CodeBlock(Some(String::new()))),
        MdEvent::Text("x\n\n".to_owned()),
        MdEvent::End(MdTagEnd::CodeBlock),
    ];
    let blocks = walk(events);
    assert_eq!(
        blocks,
        [
            Block::ListItem {
                marker: "7.".to_owned(),
                spans: vec![Span::plain("seven")],
                indent: 0
            },
            Block::ListItem {
                marker: "8.".to_owned(),
                spans: vec![Span {
                    emphasis: true,
                    ..Span::plain("eight")
                }],
                indent: 0
            },
            Block::Code {
                text: "x".to_owned(),
                language: None
            },
        ]
    );
}

#[test]
fn a_soft_break_is_a_space_and_a_hard_break_a_newline() {
    let blocks = parse("one\ntwo  \nthree\n");
    let Block::Paragraph { spans, indent } = &blocks[0] else {
        panic!("expected a paragraph")
    };
    assert_eq!(*indent, 0);
    assert_eq!(text_of(spans), "one two\nthree");
}
