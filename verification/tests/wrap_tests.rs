use schedule_pdf::wrap::wrap_text;

fn lines_of(text: &str, width_mpt: i64, font_size: u32) -> Vec<String> {
    wrap_text(text, width_mpt, font_size)
}

#[test]
fn wrap_scenario_sixteen_chars() {
    // max_width 100 pt, font size 10: char width 6 pt, capacity 16 chars.
    let lines = lines_of("This is a long line of instructions", 100_000, 10);
    assert!(lines.len() > 1);
    for line in &lines {
        assert!(line.chars().count() <= 16, "line too long: {:?}", line);
    }
    assert_eq!(lines, vec!["This is a long", "line of", "instructions"]);
}

#[test]
fn wrap_rejoins_words_in_order() {
    let text = "This is a long line of instructions";
    let lines = lines_of(text, 100_000, 10);
    let joined = lines.join(" ");
    let original_words: Vec<&str> = text.split_whitespace().collect();
    let joined_words: Vec<&str> = joined.split_whitespace().collect();
    assert_eq!(original_words, joined_words);
}

#[test]
fn wrap_empty_input_yields_single_line() {
    let lines = lines_of("", 100_000, 10);
    assert_eq!(lines, vec![String::new()]);
}

#[test]
fn wrap_whitespace_only_input_preserved() {
    let lines = lines_of("   ", 100_000, 10);
    assert_eq!(lines, vec!["   ".to_string()]);
}

#[test]
fn wrap_long_word_never_split() {
    let lines = lines_of("a supercalifragilisticexpialidocious b", 100_000, 10);
    assert!(lines.contains(&"supercalifragilisticexpialidocious".to_string()));
}

#[test]
fn wrap_capacity_floor_is_ten() {
    // A tiny width still wraps at ten characters, never fewer.
    let lines = lines_of("aaa bbb ccc", 6_000, 10);
    // capacity = max(10, 6000/6000) = 10: "aaa bbb" (7) + ccc would be 11.
    assert_eq!(lines, vec!["aaa bbb", "ccc"]);
}

#[test]
fn wrap_splits_on_unicode_whitespace() {
    // U+00A0 (no-break space) is White_Space, so it separates words just
    // as `str::split_whitespace` does.
    let lines = lines_of("alpha\u{00A0}beta gamma", 100_000, 10);
    let joined = lines.join(" ");
    let expected: Vec<&str> = "alpha\u{00A0}beta gamma".split_whitespace().collect();
    let got: Vec<&str> = joined.split_whitespace().collect();
    assert_eq!(expected, got);
    assert_eq!(expected, vec!["alpha", "beta", "gamma"]);
}

#[test]
fn wrap_single_word_exact_fit() {
    let lines = lines_of("abcdefghijklmnop", 100_000, 10);
    assert_eq!(lines, vec!["abcdefghijklmnop".to_string()]);
}
