use envpath::chunks::{get_chunks, split_n};
use envpath::remix::{starts_with_remix_expr, Tag};
use envpath::separator::{detect, get_question_mark_separator, FULL_COLON, FWQM, HALF_COLON, HWQM};
use envpath::text::{
    contains_char, find, find_last, is_whitespace, skip_leading, skip_prefixes, split_on,
    starts_with, text_eq, trimmed,
};
use envpath::value::parse_length;

#[test]
fn the_first_separator_wins() {
    assert_eq!(detect("a ? b \u{ff1f} c", HWQM, FWQM), Some('?'));
    assert_eq!(detect("a \u{ff1f} b ? c", HWQM, FWQM), Some('\u{ff1f}'));
    assert_eq!(detect("a \u{ff1f} b", HWQM, FWQM), Some('\u{ff1f}'));
    assert_eq!(detect("a ? b", HWQM, FWQM), Some('?'));
    assert_eq!(detect("a b", HWQM, FWQM), None);
    assert_eq!(detect("", HALF_COLON, FULL_COLON), None);
    assert_eq!(detect("$env: a \u{ff1a} b", HALF_COLON, FULL_COLON), Some(':'));
    assert_eq!(get_question_mark_separator("a ?? b"), '?');
    assert_eq!(get_question_mark_separator("a \u{ff1f} b"), '\u{ff1f}');
    assert_eq!(get_question_mark_separator("a b"), ' ');
}

#[test]
fn chunks_are_cut_at_the_first_colon() {
    assert_eq!(get_chunks("$env: home"), vec!["$env", "home"]);
    assert_eq!(get_chunks("  $env  :  a ? b  "), vec!["$env", "a ? b"]);
    assert_eq!(get_chunks("$proj(a.b): x ? (c.d): y"), vec!["$proj(a.b)", "x ? (c.d): y"]);
    assert_eq!(get_chunks("$env \u{ff1a} a : b"), vec!["$env", "a : b"]);
    assert_eq!(get_chunks("$env : a \u{ff1a} b"), vec!["$env", "a \u{ff1a} b"]);
    assert_eq!(get_chunks("no colon here"), Vec::<&str>::new());
    assert_eq!(get_chunks(""), Vec::<&str>::new());
    assert_eq!(get_chunks(":"), vec!["", ""]);
    assert_eq!(split_n("a: b: c", ':'), vec!["a", "b: c"]);
    assert_eq!(split_n("  abc ", ':'), vec!["abc"]);
}

#[test]
fn splitting_keeps_empty_pieces() {
    assert_eq!(split_on("a ?? b", '?'), vec!["a", "", "b"]);
    assert_eq!(split_on("a ? b", '?'), vec!["a", "b"]);
    assert_eq!(split_on("a ?", '?'), vec!["a", ""]);
    assert_eq!(split_on("?", '?'), vec!["", ""]);
    assert_eq!(split_on("", '?'), vec![""]);
    assert_eq!(split_on(" \u{e9}t\u{e9} \u{ff1f} hiver ", '\u{ff1f}'), vec!["\u{e9}t\u{e9}", "hiver"]);
}

#[test]
fn trimming_drops_unicode_white_space() {
    assert_eq!(trimmed("  a b \t\n"), "a b");
    assert_eq!(trimmed("\u{3000}a\u{a0}"), "a");
    assert_eq!(trimmed("\u{2003}\u{85} x \u{2028}"), "x");
    assert_eq!(trimmed("   "), "");
    assert_eq!(trimmed(""), "");
    assert_eq!(trimmed("\u{200b}a"), "\u{200b}a");
    for c in ['\t', '\n', '\u{b}', '\u{c}', '\r', ' ', '\u{85}', '\u{a0}', '\u{1680}', '\u{2000}',
        '\u{200a}', '\u{2028}', '\u{2029}', '\u{202f}', '\u{205f}', '\u{3000}', 'a', '\u{200b}',
        '\u{feff}', '_', '\u{1c}']
    {
        assert_eq!(is_whitespace(c), c.is_whitespace());
    }
}

#[test]
fn searching_counts_characters() {
    assert_eq!(find("\u{e9}t\u{e9}(x)", '('), Some(3));
    assert_eq!(find("abc", 'z'), None);
    assert_eq!(find_last("a)b)c", ')'), Some(3));
    assert_eq!(find_last("abc", ')'), None);
    assert!(contains_char("a*b", '*'));
    assert!(!contains_char("ab", '*'));
    assert!(starts_with("$project(x)", "$proj"));
    assert!(!starts_with("$pro", "$proj"));
    assert!(starts_with("anything", ""));
    assert!(text_eq("same", "same"));
    assert!(!text_eq("same", "sama"));
    assert!(!text_eq("same", "sam"));
    assert_eq!(skip_prefixes("envenv * x", "env"), " * x");
    assert_eq!(skip_prefixes("dir", "env"), "dir");
    assert_eq!(skip_prefixes("abc", ""), "abc");
    assert_eq!(skip_leading("** x", '*'), " x");
    assert_eq!(skip_leading("x*", '*'), "x*");
}

#[test]
fn remix_shapes() {
    assert!(starts_with_remix_expr("env * HOME"));
    assert!(starts_with_remix_expr("env*HOME"));
    assert!(starts_with_remix_expr("dir * dl"));
    assert!(starts_with_remix_expr("const * arch"));
    assert!(starts_with_remix_expr("proj * (com.x.y): data"));
    assert!(starts_with_remix_expr("val * rand-4"));
    assert!(starts_with_remix_expr("environment * x"));
    assert!(!starts_with_remix_expr("env HOME"));
    assert!(!starts_with_remix_expr("home * env"));
    assert!(!starts_with_remix_expr("* env"));
    assert!(!starts_with_remix_expr("en*v"));
    assert_eq!(Tag::starting("proj * x"), Some(Tag::Proj));
    assert_eq!(Tag::starting("value"), Some(Tag::Val));
    assert_eq!(Tag::starting("home"), None);
    assert_eq!(Tag::Const.word(), "const");
}

#[test]
fn lengths_are_decimal_numbers() {
    assert_eq!(parse_length("16"), Some(16));
    assert_eq!(parse_length("+7"), Some(7));
    assert_eq!(parse_length("007"), Some(7));
    assert_eq!(parse_length("0"), Some(0));
    assert_eq!(parse_length(""), None);
    assert_eq!(parse_length("+"), None);
    assert_eq!(parse_length("-3"), None);
    assert_eq!(parse_length("1x"), None);
    assert_eq!(parse_length(" 1"), None);
    assert_eq!(parse_length("18446744073709551615"), "18446744073709551615".parse::<usize>().ok());
    assert_eq!(parse_length("18446744073709551616"), "18446744073709551616".parse::<usize>().ok());
    assert_eq!(parse_length("99999999999999999999999"), None);
}

#[test]
fn white_space_is_what_unicode_says() {
    for code in 0..=0x10FFFFu32 {
        if let Some(c) = char::from_u32(code) {
            assert_eq!(is_whitespace(c), c.is_whitespace(), "U+{code:04X}");
        }
    }
}
