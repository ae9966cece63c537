use hyperion_agent::chars::{cut, is_whitespace, to_chars};
use hyperion_agent::fields::find_field;
use hyperion_agent::loadavg::load_field;
use hyperion_agent::meminfo::{begins_with, find_keyed_value, memory_fields, MemoryFields};

fn word(s: &str) -> Option<String> {
    Some(s.to_string())
}

#[test]
fn whitespace_class_is_the_unicode_one() {
    let mut n: u32 = 0;
    while n <= 0x10FFFF {
        if let Some(c) = char::from_u32(n) {
            assert_eq!(is_whitespace(c), c.is_whitespace(), "code point {:#x}", n);
        }
        n += 1;
    }
}

#[test]
fn whitespace_examples() {
    assert!(is_whitespace(' '));
    assert!(is_whitespace('\t'));
    assert!(is_whitespace('\n'));
    assert!(is_whitespace('\r'));
    assert!(is_whitespace('\u{A0}'));
    assert!(is_whitespace('\u{3000}'));
    assert!(!is_whitespace('a'));
    assert!(!is_whitespace('0'));
    assert!(!is_whitespace('\u{200B}'));
    assert!(!is_whitespace('\u{0}'));
}

#[test]
fn to_chars_keeps_every_character() {
    assert_eq!(to_chars(""), Vec::<char>::new());
    assert_eq!(to_chars("a b"), vec!['a', ' ', 'b']);
    assert_eq!(to_chars("é\u{3000}x"), vec!['é', '\u{3000}', 'x']);
}

#[test]
fn cut_counts_characters_not_bytes() {
    assert_eq!(cut("héllo wörld", Some((1, 5))), word("éllo"));
    assert_eq!(cut("héllo wörld", Some((6, 11))), word("wörld"));
    assert_eq!(cut("abc", Some((1, 1))), word(""));
    assert_eq!(cut("abc", None), None);
}

#[test]
fn find_field_gives_positions() {
    let line = to_chars("  alpha\tbeta  gamma ");
    assert_eq!(find_field(&line, 0), Some((2, 7)));
    assert_eq!(find_field(&line, 1), Some((8, 12)));
    assert_eq!(find_field(&line, 2), Some((14, 19)));
    assert_eq!(find_field(&line, 3), None);
    assert_eq!(find_field(&line, usize::MAX), None);
}

#[test]
fn find_field_on_blank_lines() {
    assert_eq!(find_field(&to_chars(""), 0), None);
    assert_eq!(find_field(&to_chars(" \t \u{A0}"), 0), None);
    assert_eq!(find_field(&to_chars("x"), 0), Some((0, 1)));
    assert_eq!(find_field(&to_chars("x"), 1), None);
}

#[test]
fn find_field_agrees_with_split_whitespace() {
    let samples = [
        "0.52 0.41 0.30 1/234 5678\n",
        "\u{2003}wide\u{2003}spaces\u{3000}here",
        "MemTotal:       16314572 kB",
        "a\u{200B}b c",
        "trailing   ",
        "\r\n",
    ];
    for s in samples {
        let line = to_chars(s);
        let want: Vec<String> = s.split_whitespace().map(|w| w.to_string()).collect();
        let mut n: usize = 0;
        while n <= want.len() {
            let got = cut(s, find_field(&line, n));
            assert_eq!(got, want.get(n).cloned(), "field {} of {:?}", n, s);
            n += 1;
        }
    }
}

#[test]
fn load_field_is_the_first_field() {
    assert_eq!(load_field("0.52 0.41 0.30 1/234 5678\n"), word("0.52"));
    assert_eq!(load_field("   2.0\t1.0"), word("2.0"));
    assert_eq!(load_field("10.0"), word("10.0"));
}

#[test]
fn load_field_of_missing_or_blank_input_is_none() {
    assert_eq!(load_field(""), None);
    assert_eq!(load_field("\n"), None);
    assert_eq!(load_field("  \t \r\n"), None);
}

#[test]
fn load_field_hands_on_malformed_numbers_unchanged() {
    assert_eq!(load_field("garbage 1 2"), word("garbage"));
    assert_eq!(load_field("1,5 2"), word("1,5"));
    assert!(load_field("garbage 1 2").unwrap().parse::<f64>().is_err());
}

#[test]
fn begins_with_compares_the_front() {
    let key = to_chars("MemTotal:");
    assert!(begins_with(&to_chars("MemTotal:   1000 kB"), &key));
    assert!(begins_with(&to_chars("MemTotal:"), &key));
    assert!(!begins_with(&to_chars("MemTotal"), &key));
    assert!(!begins_with(&to_chars(" MemTotal: 1"), &key));
    assert!(!begins_with(&to_chars("memtotal: 1"), &key));
    assert!(begins_with(&to_chars("anything"), &to_chars("")));
    assert!(!begins_with(&to_chars(""), &key));
}

#[test]
fn memory_fields_of_a_small_table() {
    let m = memory_fields("MemTotal:   1000 kB\nMemAvailable:  250 kB\n");
    assert_eq!(m, MemoryFields { total: word("1000"), available: word("250") });
}

#[test]
fn memory_usage_of_a_small_table_is_three_quarters() {
    let m = memory_fields("MemTotal:   1000 kB\nMemAvailable:  250 kB");
    let total: f64 = m.total.and_then(|v| v.parse().ok()).unwrap_or(0.0);
    let available: f64 = m.available.and_then(|v| v.parse().ok()).unwrap_or(0.0);
    assert_eq!(total, 1000.0);
    assert_eq!(available, 250.0);
    assert_eq!((total - available) / total * 100.0, 75.0);
}

#[test]
fn memory_fields_without_total() {
    let m = memory_fields("MemFree:  10 kB\nMemAvailable:  250 kB\n");
    assert_eq!(m, MemoryFields { total: None, available: word("250") });
}

#[test]
fn memory_fields_without_available() {
    let m = memory_fields("MemTotal:  10 kB\nSwapTotal:  250 kB\n");
    assert_eq!(m, MemoryFields { total: word("10"), available: None });
}

#[test]
fn memory_fields_of_an_empty_table() {
    assert_eq!(memory_fields(""), MemoryFields { total: None, available: None });
    assert_eq!(memory_fields("\n\n\n"), MemoryFields { total: None, available: None });
}

#[test]
fn memory_fields_of_a_real_table() {
    let table = "MemTotal:       16314572 kB\nMemFree:         1203456 kB\n\
                 MemAvailable:    9876543 kB\nBuffers:          345678 kB\n\
                 Cached:          7654321 kB\nSwapCached:            0 kB\n";
    let m = memory_fields(table);
    assert_eq!(m, MemoryFields { total: word("16314572"), available: word("9876543") });
}

#[test]
fn memory_fields_take_the_last_line_of_a_key() {
    let m = memory_fields("MemTotal: 1 kB\nMemAvailable: 2 kB\nMemTotal: 3 kB\nMemAvailable: 4 kB");
    assert_eq!(m, MemoryFields { total: word("3"), available: word("4") });
}

#[test]
fn a_later_line_without_value_clears_the_value() {
    let m = memory_fields("MemTotal: 1 kB\nMemAvailable: 2 kB\nMemTotal:\nMemAvailable:   \n");
    assert_eq!(m, MemoryFields { total: None, available: None });
}

#[test]
fn the_key_must_stand_at_the_front_of_the_line() {
    let m = memory_fields(" MemTotal: 1 kB\nxMemAvailable: 2 kB\n");
    assert_eq!(m, MemoryFields { total: None, available: None });
}

#[test]
fn the_value_is_the_second_field_even_when_glued_to_the_key() {
    let m = memory_fields("MemTotal:1000 kB\nMemAvailable:250\n");
    assert_eq!(m, MemoryFields { total: word("kB"), available: None });
}

#[test]
fn carriage_returns_end_lines_too() {
    let m = memory_fields("MemTotal: 1000 kB\r\nMemAvailable: 250\r\n");
    assert_eq!(m, MemoryFields { total: word("1000"), available: word("250") });
    let m = memory_fields("MemTotal: 1000\r\nMemAvailable: 250\r");
    assert_eq!(m, MemoryFields { total: word("1000"), available: word("250") });
}

#[test]
fn find_keyed_value_gives_positions_in_the_table() {
    let table = to_chars("A: 1\nKey: 22 x\nB: 3\n");
    let key = to_chars("Key:");
    assert_eq!(find_keyed_value(&table, &key), Some((10, 12)));
    assert_eq!(find_keyed_value(&table, &to_chars("C:")), None);
    assert_eq!(find_keyed_value(&to_chars(""), &key), None);
}

#[test]
fn memory_fields_agree_with_a_scan_by_lines() {
    let tables = [
        "MemTotal:   1000 kB\nMemAvailable:  250 kB\n",
        "MemTotal: 5\r\nMemTotal:\r\nMemAvailable: 7\r",
        "MemAvailable: 1\nMemAvailable: 2\n\nMemTotal: x y z",
        "MemTotal:\u{3000}9\u{2003}kB\nMemAvailable:\t8",
        "\nMemTotal: 1\n\n",
        "MemTotal: 1\rMemAvailable: 2\n",
    ];
    for t in tables {
        let mut total: Option<String> = None;
        let mut available: Option<String> = None;
        for line in t.lines() {
            if line.starts_with("MemTotal:") {
                total = line.split_whitespace().nth(1).map(|v| v.to_string());
            } else if line.starts_with("MemAvailable:") {
                available = line.split_whitespace().nth(1).map(|v| v.to_string());
            }
        }
        assert_eq!(memory_fields(t), MemoryFields { total, available }, "table {:?}", t);
    }
}
