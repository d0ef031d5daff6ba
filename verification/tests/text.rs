use ontime::digest::md5_hex_of;
use ontime::digest::to_hex;
use ontime::text::chars_of;
use ontime::text::contains_chars;
use ontime::text::parse_unsigned;
use ontime::text::push_int;
use ontime::text::same_text;
use ontime::text::split_chars;
use ontime::text::string_of;

fn decimal(n: i64) -> String {
    let mut out = String::from(">");
    push_int(&mut out, n);
    out
}

fn unsigned(text: &str) -> Option<u32> {
    let chars = chars_of(text);
    parse_unsigned(&chars, 0, chars.len())
}

fn contains_text(hay: &str, needle: &str) -> bool {
    contains_chars(&chars_of(hay), &chars_of(needle))
}

fn pieces(text: &str, at: char) -> Vec<String> {
    split_chars(&chars_of(text), at).iter().map(string_of).collect()
}

#[test]
fn chars_and_strings_convert_both_ways() {
    assert_eq!(chars_of("a✓b"), vec!['a', '✓', 'b']);
    assert_eq!(string_of(&vec!['x', 'ü', 'z']), "xüz");
    assert_eq!(chars_of(""), Vec::<char>::new());
    assert!(same_text("abc", "abc"));
    assert!(!same_text("abc", "abd"));
    assert!(!same_text("abc", "ab"));
}

#[test]
fn decimal_text_matches_the_usual_notation() {
    assert_eq!(decimal(0), ">0");
    assert_eq!(decimal(7), ">7");
    assert_eq!(decimal(10), ">10");
    assert_eq!(decimal(1_705_309_200), ">1705309200");
    assert_eq!(decimal(-1), ">-1");
    assert_eq!(decimal(-86_400), ">-86400");
    assert_eq!(decimal(i64::MAX), ">9223372036854775807");
    assert_eq!(decimal(i64::MIN), ">-9223372036854775808");
}

#[test]
fn unsigned_numbers_are_digits_with_an_optional_plus() {
    assert_eq!(unsigned("0"), Some(0));
    assert_eq!(unsigned("09"), Some(9));
    assert_eq!(unsigned("+17"), Some(17));
    assert_eq!(unsigned("4294967295"), Some(u32::MAX));
    assert_eq!(unsigned("0004294967295"), Some(u32::MAX));
    assert_eq!(unsigned("4294967296"), None);
    assert_eq!(unsigned("99999999999999999999999999"), None);
    assert_eq!(unsigned(""), None);
    assert_eq!(unsigned("+"), None);
    assert_eq!(unsigned("-1"), None);
    assert_eq!(unsigned("1 "), None);
    assert_eq!(unsigned(" 1"), None);
    assert_eq!(unsigned("1a"), None);
    assert_eq!(unsigned("++1"), None);
    assert_eq!(unsigned("٣"), None);
}

#[test]
fn unsigned_numbers_are_read_from_a_range() {
    let chars = chars_of("ab12cd");
    assert_eq!(parse_unsigned(&chars, 2, 4), Some(12));
    assert_eq!(parse_unsigned(&chars, 2, 3), Some(1));
    assert_eq!(parse_unsigned(&chars, 2, 2), None);
    assert_eq!(parse_unsigned(&chars, 1, 4), None);
}

#[test]
fn split_gives_one_piece_more_than_separators() {
    assert_eq!(pieces("a b c", ' '), vec!["a", "b", "c"]);
    assert_eq!(pieces("a  b", ' '), vec!["a", "", "b"]);
    assert_eq!(pieces(" a ", ' '), vec!["", "a", ""]);
    assert_eq!(pieces("", ' '), vec![""]);
    assert_eq!(pieces("abc", ':'), vec!["abc"]);
    assert_eq!(pieces("09:00", ':'), vec!["09", "00"]);
}

#[test]
fn contains_finds_runs_of_characters() {
    assert!(contains_text("/etc/ontime/monday.yml", "monday"));
    assert!(contains_text("monday", "monday"));
    assert!(contains_text("anything", ""));
    assert!(contains_text("", ""));
    assert!(!contains_text("", "a"));
    assert!(!contains_text("/etc/ontime/mondy.yml", "monday"));
    assert!(!contains_text("mon", "monday"));
    assert!(contains_text("aab", "ab"));
}

#[test]
fn hex_writes_two_lower_case_digits_per_byte() {
    assert_eq!(to_hex(&[]), "");
    assert_eq!(to_hex(&[0x00, 0x0f, 0xa0, 0xff, 0x5c]), "000fa0ff5c");
}

#[test]
fn md5_hex_matches_known_digests() {
    assert_eq!(md5_hex_of(""), "d41d8cd98f00b204e9800998ecf8427e");
    assert_eq!(md5_hex_of("abc"), "900150983cd24fb0d6963f7d28e17f72");
    assert_eq!(
        md5_hex_of("abcdefghijklmnopqrstuvwxyz"),
        "c3fcd3d76192e4007dfb496cca67e13b"
    );
}
