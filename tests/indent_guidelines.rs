use kak_tree_sitter::indent_guidelines::{IndentGuideline, IndentGuidelines};

fn sample() -> IndentGuidelines {
    IndentGuidelines::new(vec![
        IndentGuideline::new(2, vec![0]),
        IndentGuideline::new(5, vec![0, 2]),
    ])
}

#[test]
fn gaps_are_filled_with_previous_columns() {
    let s = sample().to_kak_ranges_str();
    assert_eq!(
        s,
        "2.1+1|ts_indent_guideline 3.1+1|ts_indent_guideline 4.1+1|ts_indent_guideline \
         5.1+1|ts_indent_guideline 5.3+1|ts_indent_guideline "
    );
    assert_eq!(s.split_whitespace().count(), 5);
}

#[test]
fn glyph_mode_uses_the_guideline_character() {
    assert_eq!(
        sample().to_kak_replace_replace_ranges_str(),
        "2.1+1|\u{2502} 3.1+1|\u{2502} 4.1+1|\u{2502} 5.1+1|\u{2502} 5.3+1|\u{2502} "
    );
}

#[test]
fn single_guideline_emits_its_own_columns() {
    let g = IndentGuidelines::new(vec![IndentGuideline::new(7, vec![3, 11])]);
    assert_eq!(g.to_kak_replace_hl_str("x"), "7.4+1|x 7.12+1|x ");
}

#[test]
fn no_guidelines_give_empty_string() {
    assert_eq!(IndentGuidelines::new(vec![]).to_kak_ranges_str(), "");
}
