use devbrowsers::text::{
    chars_of, join_text, decimal, find, first_piece, from_first, last_piece, lines, replace,
    split_chars, starts_with, str_equal, string_of, strip_prefix, trim, trim_end_char,
};

fn cv(s: &str) -> Vec<char> {
    s.chars().collect()
}

#[test]
fn trim_removes_surrounding_white_space() {
    assert_eq!(trim(" \t hello world \r\n"), "hello world");
    assert_eq!(trim("\u{3000}x\u{a0}"), "x");
    assert_eq!(trim("   "), "");
    assert_eq!(trim(""), "");
}

#[test]
fn trim_is_idempotent_on_an_example() {
    let once = trim("  a b  ");
    assert_eq!(trim(&once), once);
}

#[test]
fn trim_end_char_removes_all_trailing_copies() {
    assert_eq!(trim_end_char("abc\n\n\n", '\n'), "abc");
    assert_eq!(trim_end_char("\nabc", '\n'), "\nabc");
    assert_eq!(trim_end_char("", 'x'), "");
}

#[test]
fn prefixes_and_search() {
    assert!(starts_with("https://x", "http"));
    assert!(!starts_with("ftp://x", "http"));
    assert!(starts_with("abc", ""));
    assert_eq!(strip_prefix("UserName: bob", "UserName: "), Some("bob".to_string()));
    assert_eq!(strip_prefix("User: bob", "UserName: "), None);
    assert_eq!(find("abcabc", "ca"), Some(2));
    assert_eq!(find("abc", "x"), None);
    assert_eq!(find("abc", ""), Some(0));
    assert_eq!(from_first("listening on ws://h/x", "ws://"), Some("ws://h/x".to_string()));
    assert_eq!(from_first("nothing", "ws://"), None);
}

#[test]
fn split_pieces() {
    assert_eq!(first_piece("127.0.0.1:9222/devtools/x", '/'), "127.0.0.1:9222");
    assert_eq!(first_piece("no-slash", '/'), "no-slash");
    assert_eq!(last_piece("Group/Sub/Entry", '/'), "Entry");
    assert_eq!(last_piece("Entry", '/'), "Entry");
    assert_eq!(last_piece("a/", '/'), "");
    let pieces = split_chars(&cv("a//b/"), '/');
    assert_eq!(pieces, vec![cv("a"), cv(""), cv("b"), cv("")]);
    let pieces = split_chars(&cv(""), '/');
    assert_eq!(pieces, vec![cv("")]);
}

#[test]
fn split_then_join_gives_back_the_text() {
    let s = "x/y//z/";
    let pieces: Vec<String> = split_chars(&cv(s), '/').iter().map(|p| p.iter().collect()).collect();
    assert_eq!(pieces.join("/"), s);
}

#[test]
fn lines_follow_str_lines() {
    let cases = ["a\r\nb\n\nc\n", "", "\n", "x\r", "one", "a\n\r\nb", "a\rb\n"];
    for c in cases {
        let got = lines(c);
        let want: Vec<Vec<char>> = c.lines().map(cv).collect();
        assert_eq!(got, want, "lines of {:?}", c);
    }
}

#[test]
fn replace_follows_str_replace() {
    let cases = [
        ("https://www.example.com/", "https://", ""),
        ("aaaa", "aa", "b"),
        ("it's Bob's", "'", "\\'"),
        ("localhost:localhost", "localhost", "127.0.0.1"),
        ("", "x", "y"),
        ("abc", "abcd", "z"),
    ];
    for (s, p, r) in cases {
        assert_eq!(replace(s, p, r), s.replace(p, r), "replace in {:?}", s);
    }
}

#[test]
fn decimal_follows_to_string() {
    for n in [0u64, 7, 10, 9222, 65535, 1_000_000, u64::MAX] {
        assert_eq!(decimal(n), n.to_string());
    }
}

#[test]
fn conversions_and_comparison() {
    assert_eq!(chars_of("héllo"), cv("héllo"));
    assert_eq!(string_of(&cv("héllo")), "héllo");
    assert_eq!(join_text("ab", "cd"), "abcd");
    assert!(str_equal("same", "same"));
    assert!(!str_equal("same", "sane"));
    assert!(!str_equal("a", "ab"));
}

#[test]
fn white_space_agrees_with_char_is_whitespace() {
    let mut samples: Vec<char> = (0u32..0x3100).filter_map(char::from_u32).collect();
    samples.extend(['\u{feff}', '\u{180e}', '\u{200b}', '\u{ffff}']);
    for c in samples {
        let s = format!("{}x{}", c, c);
        assert_eq!(trim(&s), s.trim(), "trimming around {:?}", c);
        assert_eq!(devbrowsers::text::is_white_space_char(c), c.is_whitespace(), "{:?}", c);
    }
}
