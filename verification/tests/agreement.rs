use libsql_php::bootstrap::add_if_not_exists;
use libsql_php::config::slugify;
use libsql_php::connectivity::canonical_host_of;
use libsql_php::query_params::QueryValue;
use libsql_php::text::{
    chars_of, decimal_of, ends_with, find, has_text, hex_of, is_space_char, join_with,
    signed_decimal_of, split_on, starts_with, string_of, to_ascii_lower, to_lower, trimmed,
};

fn chars(text: &str) -> Vec<char> {
    text.chars().collect()
}

fn text(chars: &Vec<char>) -> String {
    chars.iter().collect()
}

fn every_char() -> Vec<char> {
    (0..=0x10ffffu32).filter_map(char::from_u32).collect()
}

const SAMPLES: [&str; 14] = [
    "",
    " ",
    "a",
    "  padded\t\n",
    "\u{a0}\u{2003}non-breaking\u{3000}",
    "CREATE TABLE t (id INTEGER)",
    "a.b.c",
    "a=b=c;d=e;;",
    "...",
    "MiXeD Case 123",
    "Stra\u{df}e \u{130}stanbul \u{212a}elvin",
    "tabs\tand\u{b}vertical",
    "\u{1f600} emoji \u{1f600}",
    "trailing=",
];

#[test]
fn white_space_is_what_the_language_calls_so() {
    for c in every_char() {
        assert_eq!(is_space_char(c), c.is_whitespace(), "{:?}", c);
    }
}

#[test]
fn lower_case_of_a_letter_is_the_ascii_one() {
    for c in every_char() {
        assert_eq!(to_ascii_lower(c), c.to_ascii_lowercase(), "{:?}", c);
    }
    for sample in SAMPLES {
        assert_eq!(text(&to_lower(&chars(sample))), sample.to_ascii_lowercase());
    }
}

#[test]
fn slugs_are_lower_case_alphanumerics_and_underscores() {
    for c in every_char() {
        let expected = if c.is_ascii_alphanumeric() { c.to_ascii_lowercase() } else { '_' };
        assert_eq!(slugify(&c.to_string()), expected.to_string(), "{:?}", c);
    }
}

#[test]
fn texts_go_to_characters_and_back() {
    for sample in SAMPLES {
        assert_eq!(chars_of(sample), chars(sample));
        assert_eq!(string_of(&chars(sample)), sample);
    }
}

#[test]
fn trimming_takes_the_white_space_off_both_ends() {
    for sample in SAMPLES {
        assert_eq!(text(&trimmed(&chars(sample))), sample.trim());
    }
    assert_eq!(text(&trimmed(&chars(" \t\r\n"))), "");
}

#[test]
fn splitting_gives_the_parts_between_the_separators() {
    for sample in SAMPLES {
        for sep in ['.', '=', ';', ' ', 'x'] {
            let parts: Vec<String> = split_on(&chars(sample), sep).iter().map(text).collect();
            let expected: Vec<String> = sample.split(sep).map(|p| p.to_string()).collect();
            assert_eq!(parts, expected, "{:?} at {:?}", sample, sep);
            assert_eq!(
                text(&join_with(&split_on(&chars(sample), sep), &vec![sep])),
                sample
            );
        }
    }
    assert_eq!(text(&join_with(&vec![], &chars(", "))), "");
    assert_eq!(text(&join_with(&vec![chars("a")], &chars(", "))), "a");
    assert_eq!(text(&join_with(&vec![chars("a"), chars(""), chars("b")], &chars(", "))), "a, , b");
}

#[test]
fn searching_finds_the_first_occurrence() {
    let needles = ["", "a", "=", "b=", "TABLE", "c", "..", "zzz", "\u{1f600}"];
    for sample in SAMPLES {
        for needle in needles {
            let s = chars(sample);
            let n = chars(needle);
            let expected = sample.find(needle).map(|at| sample[..at].chars().count());
            assert_eq!(find(&s, &n), expected, "{:?} in {:?}", needle, sample);
            assert_eq!(has_text(&s, &n), sample.contains(needle));
            assert_eq!(starts_with(&s, &n), sample.starts_with(needle));
            assert_eq!(ends_with(&s, &n), sample.ends_with(needle));
        }
    }
}

#[test]
fn numerals_are_the_decimal_ones() {
    for n in [0u64, 1, 9, 10, 11, 99, 100, 12345, 1 << 32, u64::MAX - 1, u64::MAX] {
        assert_eq!(text(&decimal_of(n)), n.to_string());
    }
    for i in [0i64, 1, -1, 9, -9, 10, -10, 4096, -4096, i64::MAX, i64::MIN, i64::MIN + 1] {
        assert_eq!(text(&signed_decimal_of(i)), i.to_string());
        assert_eq!(QueryValue::Integer(i).to_string(), Some(i.to_string()));
    }
}

#[test]
fn bytes_are_shown_as_two_capital_hexadecimal_digits() {
    let all: Vec<u8> = (0..=255).collect();
    let expected: String = all.iter().map(|b| format!("{:02X}", b)).collect();
    assert_eq!(text(&hex_of(&all)), expected);
    assert_eq!(text(&hex_of(&vec![])), "");
}

fn is_word_letter(c: char) -> bool {
    c.is_ascii_alphanumeric() || c == '_'
}

/// The guard behind the first of the keywords that stands as a word of its
/// own, found with the means of the language.
fn guard_by_the_language(sql: &str) -> String {
    let letters: Vec<char> = sql.chars().collect();
    let low: Vec<char> = letters.iter().map(|c| c.to_ascii_lowercase()).collect();
    let low_text: String = low.iter().collect();
    if low_text.contains("if not exists") {
        return sql.to_string();
    }
    for at in 0..low.len() {
        for keyword in ["table", "index", "view"] {
            let word: Vec<char> = keyword.chars().collect();
            let end = at + word.len();
            if end <= low.len()
                && low[at..end] == word[..]
                && (at == 0 || !is_word_letter(low[at - 1]))
                && (end == low.len() || !is_word_letter(low[end]))
            {
                let before: String = letters[..end].iter().collect();
                let after: String = letters[end..].iter().collect();
                return format!("{} IF NOT EXISTS{}", before, after);
            }
        }
    }
    sql.to_string()
}

#[test]
fn statements_are_guarded_as_by_the_language() {
    let statements = [
        "CREATE TABLE t (id INTEGER)",
        "create table t(x)",
        "CrEaTe InDeX i ON t(a)",
        "CREATE UNIQUE INDEX i ON t(a)",
        "CREATE VIEW v AS SELECT 1",
        "CREATE VIEW IF NOT EXISTS v AS SELECT 1",
        "CREATE TABLE t (x TEXT DEFAULT '\u{130}F NOT EXISTS')",
        "CREATE TABLE t (x TEXT DEFAULT 'if not exists')",
        "CREATE \u{130}NDEX i ON t(a)",
        "CREATE V\u{130}EW v AS SELECT 1",
        "CREATE TABLE \u{e9}t\u{e9} (\u{3a3}\u{3a3} INTEGER)",
        "CREATE \u{e9}TABLE\u{e9} t(x)",
        "CREATE  TABLE t(x)",
        "CREATE TABLEAU",
        "CREATE VIEWS",
        "CREATE INDEXES ON view",
        "DROP TABLE t",
        "tableindexview index",
        "create",
        "",
    ];
    for sql in statements {
        assert_eq!(add_if_not_exists(sql), guard_by_the_language(sql), "{:?}", sql);
    }
}

#[test]
fn every_letter_in_every_place_is_read_alike() {
    let mut letters: Vec<char> = every_char()
        .into_iter()
        .filter(|c| !c.is_ascii() && c.to_lowercase().any(|l| l.is_ascii()))
        .collect();
    letters.extend(['A', 'z', ' ', '_', '0', '(', '\u{e9}', '\u{3a3}', '\u{df}', '\u{1f600}']);
    let templates = [
        "CREATE TABLE t(x)",
        "create unique index i on t(x)",
        "Create View v As Select 1",
        "CREATE TABLE IF NOT EXISTS t(x)",
    ];
    for template in templates {
        let original: Vec<char> = template.chars().collect();
        for at in 0..original.len() {
            for letter in &letters {
                let mut changed = original.clone();
                changed[at] = *letter;
                let sql: String = changed.into_iter().collect();
                assert_eq!(add_if_not_exists(&sql), guard_by_the_language(&sql), "{:?}", sql);
            }
        }
    }
}

fn host_by_the_language(domain: &str) -> String {
    let domain_lower = domain.to_ascii_lowercase();
    if domain_lower.ends_with(".localhost") || domain_lower == "localhost" {
        "localhost".to_string()
    } else {
        let parts: Vec<&str> = domain.split('.').collect();
        if parts.len() >= 2 {
            format!("{}.{}", parts[parts.len() - 2], parts[parts.len() - 1])
        } else {
            domain.to_string()
        }
    }
}

#[test]
fn hosts_are_canonical_as_by_the_language() {
    for domain in [
        "",
        ".",
        "a",
        "a.b",
        "a.b.c.d.e",
        "LOCALHOST",
        "x.localhost",
        "x.LocalHost",
        "localhost.example.com",
        "xlocalhost",
        ".localhost",
        "trailing.dot.",
        "xn--bcher-kva.example",
    ] {
        assert_eq!(canonical_host_of(domain), host_by_the_language(domain), "{:?}", domain);
    }
}
