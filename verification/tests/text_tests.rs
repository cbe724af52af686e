use rustbot::text::{
    chars_of, decimal_string, is_whitespace, join_strings, lines_of, remove_all_chars,
    split_on_char, string_of, trim_chars, trim_end_chars, utf8_len_exceeds,
};

fn s(v: &[char]) -> String {
    v.iter().collect()
}

#[test]
fn whitespace_matches_std() {
    for u in 0u32..0x3100 {
        if let Some(c) = char::from_u32(u) {
            assert_eq!(is_whitespace(c), c.is_whitespace(), "{:#x}", u);
        }
    }
    assert_eq!(is_whitespace('\u{10ffff}'), false);
}

#[test]
fn trim_like_std() {
    for t in ["  a b \n", "", "   ", "\u{3000}x\u{a0}", "plain"] {
        assert_eq!(s(&trim_chars(&chars_of(t))), t.trim());
        assert_eq!(s(&trim_end_chars(&chars_of(t))), t.trim_end());
    }
}

#[test]
fn split_like_std() {
    for t in ["a,b,,c", "", ",", "abc", ",x,"] {
        let got: Vec<String> = split_on_char(&chars_of(t), ',').iter().map(|p| s(p)).collect();
        let want: Vec<String> = t.split(',').map(|p| p.to_string()).collect();
        assert_eq!(got, want);
    }
}

#[test]
fn lines_like_std() {
    for t in ["a\nb", "a\r\nb\r\n", "", "\n", "x\r", "a\n\nb\n", "\r\n"] {
        let got: Vec<String> = lines_of(&chars_of(t)).iter().map(|p| s(p)).collect();
        let want: Vec<String> = t.lines().map(|p| p.to_string()).collect();
        assert_eq!(got, want, "{:?}", t);
    }
}

#[test]
fn remove_like_replace() {
    for (t, p) in [("a::b::c", "::"), ("aaa", "aa"), ("xyz", ""), ("", "q"), ("std::vec::Vec", "std::")] {
        assert_eq!(s(&remove_all_chars(&chars_of(t), &chars_of(p))), t.replace(p, ""));
    }
}

#[test]
fn decimal_like_to_string() {
    for n in [0u64, 7, 10, 99, 1234567890, u64::MAX] {
        assert_eq!(decimal_string(n), n.to_string());
    }
}

#[test]
fn join_like_std() {
    let items = vec!["a".to_string(), "bc".to_string(), "".to_string()];
    assert_eq!(join_strings(&items, ", "), items.join(", "));
    assert_eq!(join_strings(&vec![], "-"), "");
}

#[test]
fn utf8_length_limit() {
    assert!(!utf8_len_exceeds(&chars_of("héllo"), 6));
    assert!(utf8_len_exceeds(&chars_of("héllo"), 5));
    assert!(utf8_len_exceeds(&chars_of("🦀"), 3));
    assert_eq!(string_of(&chars_of("🦀x")), "🦀x");
}

#[test]
fn trim_twice_is_trim_once() {
    for t in [" \t a \n", "b", "  ", "\u{2028}c d\u{2029}"] {
        let once = trim_chars(&chars_of(t));
        assert_eq!(trim_chars(&once), once);
    }
}
