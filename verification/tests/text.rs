use ralph_stream::text::{
    chars_of, flatten, is_unbroken, same_text, split_rows, truncate_with_ellipsis,
};

#[test]
fn test_short_string_unchanged() {
    assert_eq!(truncate_with_ellipsis("short", 10), "short");
    assert_eq!(truncate_with_ellipsis("", 5), "");
    assert_eq!(truncate_with_ellipsis("exact", 5), "exact");
}

#[test]
fn test_long_string_truncated() {
    assert_eq!(
        truncate_with_ellipsis("this is a long string", 10),
        "this is a ..."
    );
    assert_eq!(truncate_with_ellipsis("abcdef", 3), "abc...");
}

#[test]
fn test_utf8_boundaries_arrows() {
    // Arrow characters are 3 bytes each in UTF-8
    let arrows = "→→→→→→→→";
    assert_eq!(truncate_with_ellipsis(arrows, 5), "→→→→→...");
}

#[test]
fn test_utf8_boundaries_mixed() {
    let mixed = "a→b→c→d";
    assert_eq!(truncate_with_ellipsis(mixed, 5), "a→b→c...");
}

#[test]
fn test_utf8_boundaries_emoji() {
    // Emojis are 4 bytes each in UTF-8
    let emoji = "🎉🎊🎁🎄";
    assert_eq!(truncate_with_ellipsis(emoji, 3), "🎉🎊🎁...");
}

#[test]
fn test_utf8_complex_emoji() {
    // Rust crab emoji
    let s = "hi 🦀 there";
    // "hi 🦀" = 4 characters (h, i, space, 🦀)
    assert_eq!(truncate_with_ellipsis(s, 4), "hi 🦀...");
}

#[test]
fn test_zero_max_chars() {
    assert_eq!(truncate_with_ellipsis("hello", 0), "...");
}

#[test]
fn test_single_char_truncation() {
    assert_eq!(truncate_with_ellipsis("hello", 1), "h...");
    assert_eq!(truncate_with_ellipsis("🎉hello", 1), "🎉...");
}

#[test]
fn truncation_is_idempotent() {
    for s in ["", "a", "hello world", "→→→→→→→→", "🎉🎊🎁🎄", "a.b.c.d.e"] {
        for n in 0..12 {
            let once = truncate_with_ellipsis(s, n);
            let twice = truncate_with_ellipsis(&once, n);
            assert_eq!(once, twice);
        }
    }
}

#[test]
fn truncation_length_bounds() {
    for s in ["", "a", "hello world", "→→→→→→→→", "🎉🎊🎁🎄"] {
        let len = s.chars().count();
        for n in 0..12 {
            let out = truncate_with_ellipsis(s, n);
            let out_len = out.chars().count();
            assert!(out_len <= n + 3);
            if len <= n {
                assert_eq!(out, s);
            } else {
                assert_eq!(out_len, n + 3);
                assert!(out.ends_with("..."));
                assert!(s.starts_with(&out[..out.len() - 3]));
            }
        }
    }
}

#[test]
fn truncation_empty_input_zero_budget() {
    assert_eq!(truncate_with_ellipsis("", 0), "");
}

#[test]
fn chars_of_keeps_every_character() {
    assert_eq!(chars_of("a→🎉"), vec!['a', '→', '🎉']);
    assert_eq!(chars_of(""), Vec::<char>::new());
}

#[test]
fn same_text_compares_characters() {
    assert!(same_text("Read", "Read"));
    assert!(!same_text("Read", "read"));
    assert!(!same_text("Read", "Reads"));
    assert!(same_text("", ""));
}

#[test]
fn rows_of_a_text() {
    let rows = |text: &str| split_rows(text);
    assert_eq!(rows(""), Vec::<String>::new());
    assert_eq!(rows("one"), vec!["one"]);
    assert_eq!(rows("one\n"), vec!["one"]);
    assert_eq!(rows("one\ntwo"), vec!["one", "two"]);
    assert_eq!(rows("one\r\ntwo\r\n"), vec!["one", "two"]);
    assert_eq!(rows("one\rtwo"), vec!["one", "two"]);
    assert_eq!(rows("one\n\rtwo"), vec!["one", "", "two"]);
    assert_eq!(rows("\n"), vec![""]);
    assert_eq!(rows("\n\n"), vec!["", ""]);
    assert_eq!(rows("\r\n"), vec![""]);
    assert_eq!(rows("\nx"), vec!["", "x"]);
    assert_eq!(rows("→\n🎉"), vec!["→", "🎉"]);
    // but for a lone carriage return, the rows are those that std cuts
    for text in ["", "a", "a\n", "a\nb", "a\r\nb\n", "\n\n", "\nx", "a\n\nb", "→\n🎉\r\n"] {
        let expected: Vec<String> = text.lines().map(|l| l.to_string()).collect();
        assert_eq!(rows(text), expected, "{:?}", text);
    }
}

#[test]
fn flattened_text() {
    assert_eq!(flatten(""), "");
    assert_eq!(flatten("one"), "one");
    assert_eq!(flatten("one\ntwo"), "one two");
    assert_eq!(flatten("one\r\ntwo\n"), "one two");
    assert_eq!(flatten("one\n\ntwo"), "one  two");
    assert_eq!(flatten("\n"), "");
    assert_eq!(flatten("\nx\r"), " x");
    assert_eq!(flatten("a→\r🎉"), "a→ 🎉");
    for text in ["", "a\nb", "\r\r\n\n", "x\ry\nz\r\n"] {
        let flat = flatten(text);
        assert!(is_unbroken(&flat));
        assert_eq!(flatten(&flat), flat);
    }
}

#[test]
fn unbroken_text() {
    assert!(is_unbroken(""));
    assert!(is_unbroken("no break → here"));
    assert!(!is_unbroken("a\nb"));
    assert!(!is_unbroken("a\r"));
    assert!(!is_unbroken("\n"));
}
