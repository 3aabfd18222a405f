use tokimo_vm::text::{decimal_text, find_from, has_prefix, is_white_space, join, lines_of, trim};

#[test]
fn joining_puts_the_separator_between() {
    let v = vec!["a".to_string(), "".to_string(), "b".to_string()];
    assert_eq!(join(&v, ", "), v.join(", "));
    assert_eq!(join(&vec![], ","), "");
    assert_eq!(join(&vec!["x".to_string()], ","), "x");
}

#[test]
fn decimal_agrees_with_std() {
    for n in [0, 1, 9, 10, 11, 99, 100, 4096, 65535, 4294967295, u64::MAX] {
        assert_eq!(decimal_text(n), n.to_string());
    }
}

#[test]
fn white_space_agrees_with_std() {
    for n in 0..0x11_0000u32 {
        if let Some(c) = char::from_u32(n) {
            assert_eq!(is_white_space(c), c.is_whitespace(), "{n:#x}");
        }
    }
}

#[test]
fn trimming_agrees_with_std() {
    for s in ["", " ", "a", " a", "a ", " a b ", "\t\r\n x \u{a0}\u{2003}", "\u{feff}x"] {
        assert_eq!(trim(s), s.trim());
    }
}

#[test]
fn lines_agree_with_std() {
    for s in ["", "\n", "a", "a\n", "a\nb", "a\r\nb\r\n", "\r\n\r\n", "a\r", "a\rb\n", "\n\na"] {
        let std: Vec<String> = s.lines().map(|l| l.to_string()).collect();
        assert_eq!(lines_of(s), std, "{s:?}");
    }
}

#[test]
fn text_prefixes_agree_with_std() {
    for s in ["", "a", "ab", "tokimo.script=x", "tokimo.scrip"] {
        for p in ["", "a", "ab", "tokimo.script="] {
            assert_eq!(has_prefix(s, p), s.starts_with(p));
        }
    }
}

#[test]
fn finding_stops_at_the_end() {
    let v: Vec<char> = "abcb".chars().collect();
    assert_eq!(find_from(&v, 'b', 0), 1);
    assert_eq!(find_from(&v, 'b', 2), 3);
    assert_eq!(find_from(&v, 'x', 0), 4);
}
