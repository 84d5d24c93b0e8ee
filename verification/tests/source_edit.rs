use fallow::source_edit::{join_lines, remove_export_keyword, split_lines, utf8_len_of};

fn lines(text: &str) -> Vec<String> {
    split_lines(text).into_iter().map(|l| l.into_iter().collect()).collect()
}

#[test]
fn split_lines_matches_str_lines() {
    for text in ["", "a", "a\n", "a\nb", "a\r\nb\r\n", "\n\n", "x\r", "x\ry\n"] {
        let expected: Vec<String> = text.lines().map(|l| l.to_string()).collect();
        assert_eq!(lines(text), expected, "lines of {text:?}");
    }
}

#[test]
fn join_lines_puts_line_feeds_between() {
    let parts = vec!["a".chars().collect::<Vec<char>>(), vec![], "b".chars().collect()];
    assert_eq!(join_lines(&parts), "a\n\nb");
    assert_eq!(join_lines(&vec![]), "");
}

#[test]
fn utf8_length_counts_bytes() {
    let v: Vec<char> = "aé€😀".chars().collect();
    assert_eq!(utf8_len_of(&v, 0, v.len()), "aé€😀".len() as u128);
    assert_eq!(utf8_len_of(&v, 1, 3), 5);
}

#[test]
fn removes_export_keyword_of_line_holding_offset() {
    let content = "const a = 1;\n  export const b = 2;\nexport function c() {}\n";
    // byte 15 lies on the second line
    let (line, text) = remove_export_keyword(content, 15).unwrap();
    assert_eq!(line, 1);
    assert_eq!(text, "const a = 1;\n  const b = 2;\nexport function c() {}");
}

#[test]
fn offset_at_line_end_belongs_to_that_line() {
    let content = "export a\nexport b";
    // "export a" is 8 bytes: offset 8 still counts as the first line
    assert_eq!(remove_export_keyword(content, 8).unwrap().0, 0);
    assert_eq!(remove_export_keyword(content, 9).unwrap().0, 1);
}

#[test]
fn no_fix_without_export_keyword_or_past_the_end() {
    assert!(remove_export_keyword("const a = 1;\n", 3).is_none());
    assert!(remove_export_keyword("export a\n", 100).is_none());
    assert!(remove_export_keyword("exported = 1", 0).is_none());
}

#[test]
fn multibyte_characters_count_in_bytes() {
    // "é" takes two bytes: the first line spans bytes 0 to 4
    let content = "é=1\nexport x";
    assert!(remove_export_keyword(content, 4).is_none());
    assert_eq!(remove_export_keyword(content, 5).unwrap().1, "é=1\nx");
}
