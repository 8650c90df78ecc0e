use rsfetch::text::{align_left, center, dashes, decimal_text, same_text, spaces, split_lines, trim};

fn std_lines(s: &str) -> Vec<String> {
    s.lines().map(|l| l.to_string()).collect()
}

#[test]
fn same_text_compares_characters() {
    assert!(same_text("abc", "abc"));
    assert!(!same_text("abc", "abd"));
    assert!(!same_text("abc", "ab"));
    assert!(same_text("", ""));
    assert!(same_text("héllo", "héllo"));
}

#[test]
fn trim_drops_unicode_white_space() {
    assert_eq!(trim("  Intel Core  "), "Intel Core");
    assert_eq!(trim("\t\n x \r\n"), "x");
    assert_eq!(trim("\u{3000}\u{a0}y\u{2009}"), "y");
    assert_eq!(trim("   "), "");
    assert_eq!(trim(""), "");
    assert_eq!(trim("a b"), "a b");
}

#[test]
fn trim_agrees_with_std() {
    let cases = ["  a ", "\u{85}b\u{85}", "\u{200b}c", "\u{1680} d \u{205f}", "e\u{feff}"];
    for c in cases {
        assert_eq!(trim(c), c.trim());
    }
}

#[test]
fn split_lines_agrees_with_std_lines() {
    let cases = [
        "",
        "\n",
        "a",
        "a\n",
        "a\n\n",
        "a\nb",
        "a\r\nb\r\n",
        "a\r",
        "\r\n",
        "x\n\ry",
        "\n    _~^~^~_\n\\) /  o o  \\ (/",
        "one\ntwo\r\nthree\rfour\n",
    ];
    for c in cases {
        assert_eq!(split_lines(c), std_lines(c), "text {:?}", c);
    }
}

#[test]
fn split_lines_edge_cases() {
    assert!(split_lines("").is_empty());
    assert_eq!(split_lines("\n"), vec![String::new()]);
    assert_eq!(split_lines("a\r"), vec!["a\r".to_string()]);
    assert_eq!(split_lines("a\r\n"), vec!["a".to_string()]);
}

#[test]
fn decimal_text_agrees_with_display() {
    for n in [0u64, 1, 9, 10, 11, 99, 100, 12345, 86399, u64::MAX] {
        assert_eq!(decimal_text(n), n.to_string());
    }
}

#[test]
fn center_agrees_with_format() {
    for (s, w) in [("abc", 8), ("abc", 7), ("abc", 3), ("abc", 1), ("", 4), ("héé", 6)] {
        assert_eq!(center(s, w), format!("{:^width$}", s, width = w));
    }
}

#[test]
fn align_left_agrees_with_format() {
    for (s, w) in [("abc", 8), ("abc", 3), ("abc", 0), ("", 11), ("ö", 3)] {
        assert_eq!(align_left(s, w), format!("{:<width$}", s, width = w));
    }
}

#[test]
fn spaces_and_dashes() {
    assert_eq!(spaces(3), "   ");
    assert_eq!(spaces(0), "");
    assert_eq!(dashes(5), "-----");
    assert_eq!(dashes(60), "-".repeat(60));
}
