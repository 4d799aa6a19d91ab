use ice_triage::text::{chars_of, find, matches_at, pad_right, split, starts_with, str_contains, string_of, trim};

fn chars(s: &str) -> Vec<char> {
    s.chars().collect()
}

#[test]
fn chars_of_keeps_every_character() {
    assert_eq!(chars_of("añ→b"), vec!['a', 'ñ', '→', 'b']);
    assert_eq!(chars_of(""), Vec::<char>::new());
}

#[test]
fn string_of_takes_a_range() {
    let v = chars("hello world");
    assert_eq!(string_of(&v, 6, 11), "world");
    assert_eq!(string_of(&v, 3, 3), "");
    assert_eq!(string_of(&v, 0, 11), "hello world");
}

#[test]
fn find_gives_the_first_position() {
    assert_eq!(find(&chars("abcabc"), &chars("bc")), Some(1));
    assert_eq!(find(&chars("abcabc"), &chars("abc")), Some(0));
    assert_eq!(find(&chars("abcabc"), &chars("cab")), Some(2));
    assert_eq!(find(&chars("abcabc"), &chars("cb")), None);
    assert_eq!(find(&chars("ab"), &chars("abc")), None);
    assert_eq!(find(&chars("abc"), &chars("")), Some(0));
    assert_eq!(find(&chars(""), &chars("")), Some(0));
    assert_eq!(find(&chars(""), &chars("a")), None);
}

#[test]
fn matches_at_compares_in_place() {
    assert!(matches_at(&chars("abcd"), &chars("cd"), 2));
    assert!(!matches_at(&chars("abcd"), &chars("cd"), 1));
    assert!(matches_at(&chars("abcd"), &chars(""), 4));
}

#[test]
fn str_contains_agrees_with_std() {
    let cases = [
        ("hello world", "lo w"),
        ("hello world", "world!"),
        ("", ""),
        ("abc", ""),
        ("", "a"),
        ("aaab", "aab"),
        ("naïve café", "ve c"),
        ("end", "d"),
    ];
    for (hay, needle) in cases {
        assert_eq!(str_contains(hay, needle), hay.contains(needle), "{hay:?} {needle:?}");
    }
}

#[test]
fn starts_with_checks_the_prefix() {
    assert!(starts_with(&chars("rel=\"next\""), &chars("rel=\"")));
    assert!(!starts_with(&chars("rel"), &chars("rel=\"")));
    assert!(starts_with(&chars("x"), &chars("")));
    assert!(!starts_with(&chars("xrel=\""), &chars("rel=\"")));
}

#[test]
fn trim_removes_white_space_at_both_ends() {
    assert_eq!(trim(&chars("  a b \n")), chars("a b"));
    assert_eq!(trim(&chars("\t\r\n")), chars(""));
    assert_eq!(trim(&chars("")), chars(""));
    assert_eq!(trim(&chars("x")), chars("x"));
    assert_eq!(trim(&chars("\u{3000}x\u{a0}")), chars("x"));
    assert_eq!(trim(&chars("\u{200b}x ")), chars("\u{200b}x"));
}

#[test]
fn trim_agrees_with_std() {
    for s in ["  lead", "trail  ", " \n both \t ", "in ner", "\u{2028}sep\u{2029}", "   "] {
        let trimmed: String = trim(&chars(s)).into_iter().collect();
        assert_eq!(trimmed, s.trim());
    }
}

#[test]
fn split_keeps_empty_pieces() {
    assert_eq!(split(&chars("a,b,c"), ','), vec![chars("a"), chars("b"), chars("c")]);
    assert_eq!(split(&chars(""), ','), vec![chars("")]);
    assert_eq!(split(&chars(","), ','), vec![chars(""), chars("")]);
    assert_eq!(split(&chars("a,,b,"), ','), vec![chars("a"), chars(""), chars("b"), chars("")]);
    assert_eq!(split(&chars("abc"), ';'), vec![chars("abc")]);
}

#[test]
fn split_agrees_with_std() {
    for s in ["x;y", ";", "", "a;b;;c", ";;;", "no separator"] {
        let pieces: Vec<String> = split(&chars(s), ';').into_iter().map(|p| p.into_iter().collect()).collect();
        let expected: Vec<String> = s.split(';').map(str::to_owned).collect();
        assert_eq!(pieces, expected);
    }
}

#[test]
fn pad_right_fills_up_with_blanks() {
    assert_eq!(pad_right("ab", 5), "ab   ");
    assert_eq!(pad_right("", 3), "   ");
    assert_eq!(pad_right("abc", 3), "abc");
    assert_eq!(pad_right("abcd", 3), "abcd");
    assert_eq!(pad_right("äö", 4), "äö  ");
    assert_eq!(pad_right("x", 0), "x");
}

#[test]
fn pad_right_agrees_with_format() {
    for s in ["", "nightly-2020-01-01", "a much longer text than the width allows"] {
        assert_eq!(pad_right(s, 20), format!("{:20}", s));
    }
}
