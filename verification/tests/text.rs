//! Readings of text, against the standard library's.

use omavcam::table::Table;
use omavcam::text::{
    any_space, comes_before, contains, decoded, join, lines, number, parse_unsigned, replace,
    rsplit_once, signed, split, split_once, split_words, starts_with, strip_prefix,
    strip_suffix, trim,
};

const TEXTS: [&str; 16] = [
    "",
    " ",
    "a",
    "\n",
    "a\nb",
    "a\r\nb\r\n",
    "a\r",
    "\n\n",
    " \t a b \u{a0}\u{2003}c\u{3000}\u{85}",
    "1920x1080",
    "xx",
    "a:b:c",
    "::",
    "caf\u{e9} \u{1f4f7}",
    "\u{b}\u{c}\u{1c}\u{1680}\u{180e}\u{200b}\u{202f}\u{205f}\u{feff}",
    "model:Pixel_7 model:x",
];

#[test]
fn texts_are_cut_as_the_standard_library_cuts_them() {
    for s in TEXTS {
        assert_eq!(trim(s), s.trim(), "{s:?}");
        assert_eq!(lines(s), s.lines().collect::<Vec<_>>(), "{s:?}");
        assert_eq!(split_words(s), s.split_whitespace().collect::<Vec<_>>(), "{s:?}");
        assert_eq!(split(s, ':'), s.split(':').collect::<Vec<_>>(), "{s:?}");
        assert_eq!(any_space(s), s.chars().any(char::is_whitespace), "{s:?}");
        assert_eq!(replace(s, '_', ' '), s.replace('_', " "), "{s:?}");
        let last = s.rsplit_once(':').map(|(a, b)| (a.to_string(), b.to_string()));
        assert_eq!(rsplit_once(s, ':'), last, "{s:?}");
        for p in ["x", "a", "model:", "b\r", " ", ":b"] {
            let halves = s.split_once(p).map(|(a, b)| (a.to_string(), b.to_string()));
            assert_eq!(split_once(s, p), halves, "{s:?} {p:?}");
            assert_eq!(contains(s, p), s.contains(p), "{s:?} {p:?}");
            assert_eq!(starts_with(s, p), s.starts_with(p), "{s:?} {p:?}");
            assert_eq!(strip_prefix(s, p).as_deref(), s.strip_prefix(p), "{s:?} {p:?}");
            assert_eq!(strip_suffix(s, p).as_deref(), s.strip_suffix(p), "{s:?} {p:?}");
        }
        for t in TEXTS {
            assert_eq!(comes_before(s, t), s < t, "{s:?} {t:?}");
        }
    }
}

#[test]
fn numbers_are_written_and_read() {
    for n in [0, 9, 10, 65535, 4294967296, u64::MAX] {
        assert_eq!(number(n), n.to_string());
        assert_eq!(parse_unsigned(&n.to_string(), u64::MAX), Some(n));
    }
    for n in [i64::MIN, -641, -1, 0, 120, i64::MAX] {
        assert_eq!(signed(n), n.to_string());
    }
    for s in ["", "+", "-", "+7", "007", "65535", "65536", "99999999999999999999", "1 ", "-0", "٣"] {
        let own = parse_unsigned(s, u16::MAX as u64);
        assert_eq!(own, s.parse::<u16>().ok().map(u64::from), "{s:?}");
    }
}

#[test]
fn bytes_that_are_no_text_are_replaced() {
    assert_eq!(decoded(&b"plain".to_vec()), "plain");
    assert_eq!(decoded(&vec![b'a', 0xff, b'b']), "a\u{fffd}b");
}

#[test]
fn lists_are_joined() {
    assert_eq!(join(&vec![], ", "), "");
    assert_eq!(join(&vec!["a".into()], ", "), "a");
    assert_eq!(join(&vec!["a".into(), "b".into()], ", "), "a, b");
}

#[test]
fn a_table_holds_the_last_value_for_a_name() {
    let mut table: Table<u32> = Table::new();
    assert_eq!(table.get("a"), None);
    table.insert("a".into(), 1);
    table.insert("b".into(), 2);
    table.insert("a".into(), 3);
    assert_eq!(table.get("a"), Some(3));
    table.remove("a");
    assert_eq!(table.get("a"), None);
    assert_eq!(table.get("b"), Some(2));
}
