use pmr::text::{
    chars_of, decimal, find_char, is_white_space, push_decimal, push_padded, same_text,
    split_lines, tail, trim_end,
};

#[test]
fn decimal_renders_numbers() {
    assert_eq!(decimal(0), "0");
    assert_eq!(decimal(7), "7");
    assert_eq!(decimal(10), "10");
    assert_eq!(decimal(4096), "4096");
    assert_eq!(decimal(1234567890), "1234567890");
    assert_eq!(decimal(u64::MAX), "18446744073709551615");
    let mut out = String::from("pid ");
    push_decimal(&mut out, 305);
    assert_eq!(out, "pid 305");
}

#[test]
fn characters_are_found_in_order() {
    let chars = chars_of("héllo");
    assert_eq!(chars, vec!['h', 'é', 'l', 'l', 'o']);
    assert_eq!(find_char(&chars, 'l'), Some(2));
    assert_eq!(find_char(&chars, 'x'), None);
}

#[test]
fn lines_split_as_in_std() {
    let cases = [
        "",
        "\n",
        "one",
        "one\n",
        "one\ntwo",
        "one\r\ntwo\r\n",
        "one\n\ntwo",
        "\r\n",
        "tail\r",
        "a\rb\nc",
        "x\n\r",
        "é\nü\r\n",
    ];
    for text in cases {
        let expected: Vec<String> = text.lines().map(|l| l.to_string()).collect();
        assert_eq!(split_lines(text), expected, "lines of {:?}", text);
    }
    assert_eq!(split_lines("tail\r"), vec!["tail\r".to_string()]);
    assert_eq!(split_lines("a\r\nb"), vec!["a".to_string(), "b".to_string()]);
}

#[test]
fn tail_keeps_the_last_lines() {
    assert_eq!(tail("one\ntwo\nthree\n", 2), "two\nthree");
    assert_eq!(tail("one\ntwo\nthree", 1), "three");
    assert_eq!(tail("one\ntwo\nthree", 3), "one\ntwo\nthree");
    assert_eq!(tail("one\ntwo\nthree", 30), "one\ntwo\nthree");
    assert_eq!(tail("one\ntwo\nthree", 0), "");
    assert_eq!(tail("", 5), "");
    assert_eq!(tail("a\r\nb\r\n", 2), "a\nb");
}

#[test]
fn trim_end_cuts_white_space_only_at_the_end() {
    assert_eq!(trim_end("  text \t\r\n"), "  text");
    assert_eq!(trim_end("text"), "text");
    assert_eq!(trim_end(" \n "), "");
    assert_eq!(trim_end(""), "");
    assert_eq!(trim_end("a\u{00a0}\u{2003}"), "a");
    assert_eq!(trim_end("a b"), "a b");
}

#[test]
fn padding_fills_to_the_width() {
    let mut out = String::new();
    push_padded(&mut out, "NAME", 8);
    out.push('|');
    push_padded(&mut out, "toolongvalue", 4);
    out.push('|');
    push_padded(&mut out, "é", 3);
    out.push('|');
    push_padded(&mut out, "", 0);
    assert_eq!(out, "NAME    |toolongvalue|é  |");
    assert_eq!(out, format!("{:<8}|{:<4}|{:<3}|{:<0}", "NAME", "toolongvalue", "é", ""));
}

#[test]
fn white_space_is_the_unicode_property() {
    for code in 0..=0x10FFFFu32 {
        if let Some(c) = char::from_u32(code) {
            assert_eq!(is_white_space(c), c.is_whitespace(), "U+{:04X}", code);
        }
    }
}

#[test]
fn texts_are_the_same_character_by_character() {
    assert!(same_text("", ""));
    assert!(same_text("stopped", "stopped"));
    assert!(!same_text("stopped", "Stopped"));
    assert!(!same_text("stop", "stopped"));
    assert!(!same_text("é", "e"));
}
