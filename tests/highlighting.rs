use kak_tree_sitter::highlighting::{
    ByteLineColMapper, HighlightError, HighlightEvent, KakHighlightRange,
};

fn tokens(ranges: &[KakHighlightRange]) -> Vec<String> {
    ranges.iter().map(|r| r.to_kak_range_str()).collect()
}

#[test]
fn byte_line_col_mapper() {
    let source = "const x: &'str = \"Hello, world!\";\nconst y = 3;";
    let mut mapper = ByteLineColMapper::new(source);

    assert_eq!(mapper.line(), 1);
    assert_eq!(mapper.col(), 1);

    mapper.advance(4);
    assert_eq!(mapper.line(), 1);
    assert_eq!(mapper.col(), 5);

    mapper.advance(33);
    assert_eq!(mapper.line(), 1);
    assert_eq!(mapper.col(), 34);

    mapper.advance(34);
    assert_eq!(mapper.line(), 2);
    assert_eq!(mapper.col(), 1);
}

#[test]
fn mapper_never_moves_back() {
    let mut mapper = ByteLineColMapper::new("ab\ncd");
    mapper.advance(4);
    assert_eq!((mapper.line(), mapper.col()), (2, 2));
    mapper.advance(1);
    assert_eq!((mapper.line(), mapper.col()), (2, 2));
}

#[test]
fn mapper_stops_at_end_of_text() {
    let mut mapper = ByteLineColMapper::new("ab");
    mapper.advance(100);
    assert_eq!((mapper.line(), mapper.col()), (1, 2));
    let mut empty = ByteLineColMapper::new("");
    empty.advance(3);
    assert_eq!((empty.line(), empty.col()), (1, 1));
}

#[test]
fn mapper_counts_characters_not_bytes() {
    let mut mapper = ByteLineColMapper::new("\u{e9}\u{e9}x");
    mapper.advance(4);
    assert_eq!((mapper.line(), mapper.col()), (1, 3));
}

#[test]
fn range_token_format() {
    let r = KakHighlightRange::new(12, 3, 14, 250, "keyword".to_owned());
    assert_eq!(r.to_kak_range_str(), "12.3,14.250|ts_keyword");
}

#[test]
fn translate_events_into_ranges() {
    let names = ["keyword", "variable.builtin"];
    let events = [
        HighlightEvent::HighlightStart(0),
        HighlightEvent::Source { start: 0, end: 3 },
        HighlightEvent::HighlightEnd,
        HighlightEvent::Source { start: 3, end: 4 },
        HighlightEvent::Source { start: 4, end: 4 },
        HighlightEvent::HighlightStart(1),
        HighlightEvent::Source { start: 4, end: 5 },
        HighlightEvent::HighlightEnd,
        HighlightEvent::Source { start: 11, end: 14 },
    ];
    let ranges = KakHighlightRange::from_iter("let x = 1;\nfoo", &names, &events).unwrap();
    assert_eq!(
        tokens(&ranges),
        vec![
            "1.1,1.3|ts_keyword",
            "1.4,1.4|ts_unknown",
            "1.5,1.5|ts_variable_builtin",
            "2.1,2.3|ts_unknown",
        ]
    );
    assert_eq!(ranges[0], KakHighlightRange::new(1, 1, 1, 3, "keyword".to_owned()));
}

#[test]
fn translate_multibyte_source() {
    let events = [HighlightEvent::Source { start: 2, end: 4 }];
    let ranges = KakHighlightRange::from_iter("\u{e9}=1", &[], &events).unwrap();
    assert_eq!(tokens(&ranges), vec!["1.2,1.3|ts_unknown"]);
}

#[test]
fn nested_scope_end_restores_outer_face() {
    let names = ["keyword", "string.special"];
    let events = [
        HighlightEvent::Source { start: 0, end: 1 },
        HighlightEvent::HighlightStart(0),
        HighlightEvent::Source { start: 1, end: 2 },
        HighlightEvent::HighlightStart(1),
        HighlightEvent::Source { start: 2, end: 3 },
        HighlightEvent::HighlightEnd,
        HighlightEvent::Source { start: 3, end: 4 },
        HighlightEvent::HighlightEnd,
        HighlightEvent::Source { start: 4, end: 5 },
    ];
    let ranges = KakHighlightRange::from_iter("abcde", &names, &events).unwrap();
    let faces: Vec<&str> = ranges.iter().map(|r| r.face.as_str()).collect();
    assert_eq!(faces, vec!["unknown", "keyword", "string_special", "keyword", "unknown"]);
    assert!(faces.iter().all(|f| !f.contains('.')));
}

#[test]
fn empty_events_give_no_ranges() {
    let ranges = KakHighlightRange::from_iter("abc", &["a"], &[]).unwrap();
    assert!(ranges.is_empty());
}

#[test]
fn scope_end_without_start_is_reported() {
    let events = [HighlightEvent::HighlightEnd];
    assert_eq!(
        KakHighlightRange::from_iter("abc", &["a"], &events),
        Err(HighlightError::UnbalancedEnd)
    );
}

#[test]
fn unknown_face_index_is_reported() {
    let events = [
        HighlightEvent::Source { start: 0, end: 1 },
        HighlightEvent::HighlightStart(5),
    ];
    assert_eq!(
        KakHighlightRange::from_iter("abc", &["a"], &events),
        Err(HighlightError::UnknownHighlight { index: 5 })
    );
}

#[test]
fn leading_line_feed_starts_second_line() {
    let mut mapper = ByteLineColMapper::new("\nab");
    mapper.advance(2);
    assert_eq!((mapper.line(), mapper.col()), (2, 2));
}
