use voicy::text::{
    chars_of, contains_text, count_words, first_word_chars, is_blank, lines_of, parse_u32_chars,
    parse_u64_chars, replace_chars, same_text, split_chars, string_of, strip_leading_chars,
    trim_chars, trim_start_chars, white_space,
};

fn v(s: &str) -> Vec<char> {
    chars_of(s)
}

fn s(v: &Vec<char>) -> String {
    string_of(v)
}

#[test]
fn whitespace_follows_unicode_white_space() {
    assert!(white_space(' '));
    assert!(white_space('\t'));
    assert!(white_space('\n'));
    assert!(white_space('\r'));
    assert!(white_space('\u{a0}'));
    assert!(white_space('\u{3000}'));
    assert!(!white_space('a'));
    assert!(!white_space('\u{200b}'));
    for c in ['x', ' ', '\u{85}', '\u{2009}', '\u{feff}', '0'] {
        assert_eq!(white_space(c), c.is_whitespace());
    }
}

#[test]
fn trim_matches_std() {
    for t in ["  hello world \r\n", "", "   ", "abc", "\u{3000}x\u{a0}", " a b "] {
        assert_eq!(s(&trim_chars(&v(t))), t.trim());
        assert_eq!(s(&trim_start_chars(&v(t))), t.trim_start());
    }
}

#[test]
fn blank_texts() {
    assert!(is_blank(""));
    assert!(is_blank(" \t\r\n"));
    assert!(!is_blank("  a "));
}

#[test]
fn word_counts_match_split_whitespace() {
    for t in ["", "one", "one two  three", "  lead and trail  ", "a\tb\nc", "\u{3000}x"] {
        assert_eq!(count_words(t), t.split_whitespace().count());
    }
    assert_eq!(count_words("Hello big world"), 3);
}

#[test]
fn contains_and_same_text() {
    assert!(contains_text("GPU 0: NVIDIA GeForce", "NVIDIA"));
    assert!(!contains_text("GPU 0: AMD", "NVIDIA"));
    assert!(contains_text("abc", ""));
    assert!(same_text("auto", "auto"));
    assert!(!same_text("auto", "Auto"));
}

#[test]
fn split_matches_std() {
    for t in ["a,b,c", "", ",", "abc", "a,,b,"] {
        let got: Vec<String> = split_chars(&v(t), ',').iter().map(|p| s(p)).collect();
        let want: Vec<String> = t.split(',').map(|p| p.to_string()).collect();
        assert_eq!(got, want);
    }
}

#[test]
fn lines_match_std() {
    for t in ["a\nb", "a\r\nb\r\n", "", "\n", "x\r", "one\n\ntwo\n", "Name=X\r\r\n"] {
        let got: Vec<String> = lines_of(&v(t)).iter().map(|p| s(p)).collect();
        let want: Vec<String> = t.lines().map(|p| p.to_string()).collect();
        assert_eq!(got, want);
    }
}

#[test]
fn first_word_matches_std() {
    for t in ["  8192 MiB", "", "   ", "word", "\ttwo words"] {
        let got = first_word_chars(&v(t)).map(|w| s(&w));
        let want = t.split_whitespace().next().map(|w| w.to_string());
        assert_eq!(got, want);
    }
}

#[test]
fn leading_repetitions_removed() {
    assert_eq!(s(&strip_leading_chars(&v("Name=Name=Intel"), &v("Name="))), "Intel");
    assert_eq!(s(&strip_leading_chars(&v("Intel"), &v("Name="))), "Intel");
    assert_eq!(s(&strip_leading_chars(&v("abc"), &v(""))), "abc");
}

#[test]
fn parsing_matches_std() {
    for t in ["0", "42", "+7", "-1", "", "+", "12a", " 5", "18446744073709551615",
        "18446744073709551616", "4294967295", "4294967296", "007"] {
        assert_eq!(parse_u64_chars(&v(t)), t.parse::<u64>().ok(), "u64 {:?}", t);
        assert_eq!(parse_u32_chars(&v(t)), t.parse::<u32>().ok(), "u32 {:?}", t);
    }
}

#[test]
fn replace_matches_std() {
    for (t, p, r) in [("one and one2", "one", "1"), ("aaaa", "aa", "b"), ("abc", "x", "y"),
        ("12 1 12", "1", "one"), ("", "a", "b"), ("abab", "ab", "")] {
        assert_eq!(s(&replace_chars(&v(t), &v(p), &v(r))), t.replace(p, r));
    }
}
