use self_esp::path::file_name;
use self_esp::text::{
    chars_of, decimal, is_whitespace, join, parse_usize, same_text, str_from_utf8, trim,
};

#[test]
fn trim_drops_surrounding_whitespace() {
    assert_eq!(trim("  hello world \n"), "hello world");
    assert_eq!(trim("\t\r\n"), "");
    assert_eq!(trim(""), "");
    assert_eq!(trim("\u{3000}x y\u{85}\u{2029}"), "x y");
    assert_eq!(trim("a"), "a");
}

#[test]
fn trim_twice_is_trim_once() {
    for s in [" a ", "\n\n", "x\u{a0}", "\u{2000} b c \u{200a}"] {
        assert_eq!(trim(trim(s)), trim(s));
        assert_eq!(trim(s), s.trim());
    }
}

#[test]
fn whitespace_is_unicode_white_space() {
    for c in ['\t', '\n', '\u{b}', '\u{c}', '\r', ' ', '\u{85}', '\u{a0}', '\u{1680}', '\u{2000}',
        '\u{200a}', '\u{2028}', '\u{2029}', '\u{202f}', '\u{205f}', '\u{3000}'] {
        assert!(is_whitespace(c));
        assert!(c.is_whitespace());
    }
    for c in ['a', '0', ':', '\u{200b}', '\u{feff}', '\u{8}', '\u{e}'] {
        assert!(!is_whitespace(c));
        assert_eq!(is_whitespace(c), c.is_whitespace());
    }
}

#[test]
fn chars_and_equality() {
    assert_eq!(chars_of("añb"), vec!['a', 'ñ', 'b']);
    assert!(same_text("flash", "flash"));
    assert!(!same_text("flash", "flas"));
    assert!(!same_text("load", "loaf"));
}

#[test]
fn parse_usize_follows_std() {
    assert_eq!(parse_usize("7"), Some(7));
    assert_eq!(parse_usize("+7"), Some(7));
    assert_eq!(parse_usize("0042"), Some(42));
    assert_eq!(parse_usize("-1"), None);
    assert_eq!(parse_usize("+"), None);
    assert_eq!(parse_usize(""), None);
    assert_eq!(parse_usize("1 2"), None);
    assert_eq!(parse_usize("12a"), None);
    let max = usize::MAX.to_string();
    assert_eq!(parse_usize(&max), Some(usize::MAX));
    let over = format!("{}0", max);
    assert_eq!(parse_usize(&over), None);
    for s in ["3", "+3", "-3", "", "x", "99999999999999999999999"] {
        assert_eq!(parse_usize(s), s.parse::<usize>().ok());
    }
}

#[test]
fn decimal_formats_like_display() {
    assert_eq!(decimal(0), "0");
    assert_eq!(decimal(9), "9");
    assert_eq!(decimal(10), "10");
    assert_eq!(decimal(1234), "1234");
    assert_eq!(decimal(u64::MAX), u64::MAX.to_string());
    assert_eq!(parse_usize(&decimal(305)), Some(305));
}

#[test]
fn join_puts_separator_between() {
    let v: Vec<String> = vec![];
    assert_eq!(join(&v, ", "), "");
    assert_eq!(join(&vec!["WiFi".to_string()], ", "), "WiFi");
    assert_eq!(
        join(&vec!["WiFi".to_string(), "BT".to_string(), "Dual Core".to_string()], ", "),
        "WiFi, BT, Dual Core"
    );
}

#[test]
fn utf8_check() {
    assert_eq!(str_from_utf8(b"hi"), Some("hi"));
    assert_eq!(str_from_utf8(&[0xff, 0x00]), None);
    assert_eq!(str_from_utf8("ñ".as_bytes()), Some("ñ"));
}

#[test]
fn file_name_follows_path_file_name() {
    assert_eq!(file_name("/usr/bin/"), Some("bin".to_string()));
    assert_eq!(file_name("tmp/foo.txt"), Some("foo.txt".to_string()));
    assert_eq!(file_name("foo.txt/."), Some("foo.txt".to_string()));
    assert_eq!(file_name("foo.txt/.//"), Some("foo.txt".to_string()));
    assert_eq!(file_name("foo.txt/.."), None);
    assert_eq!(file_name("/"), None);
    assert_eq!(file_name(""), None);
    assert_eq!(file_name("."), None);
    assert_eq!(file_name("./main.ego"), Some("main.ego".to_string()));
    assert_eq!(file_name("a/..b"), Some("..b".to_string()));
    for p in ["a/b/c.ego", "c.ego", "a//b", "../x", "x/./", "/.", "..", "a/.b/"] {
        let expected = std::path::Path::new(p)
            .file_name()
            .map(|n| n.to_string_lossy().into_owned());
        assert_eq!(file_name(p), expected);
    }
}

#[test]
fn trailing_slash_keeps_file_name() {
    assert_eq!(file_name("src/main.ego/"), file_name("src/main.ego"));
    assert_eq!(file_name("main.ego"), Some("main.ego".to_string()));
}
