use soccercloud::text::csv_escape;
use soccercloud::text::i64_to_string;
use soccercloud::text::lex_le;
use soccercloud::text::micro_2dp;
use soccercloud::text::pad2;
use soccercloud::text::pad_left;
use soccercloud::text::pad_right;
use soccercloud::text::sanitize_csv_cell;
use soccercloud::text::u64_to_string;

#[test]
fn decimal_rendering() {
    assert_eq!(u64_to_string(0), "0");
    assert_eq!(u64_to_string(7), "7");
    assert_eq!(u64_to_string(90), "90");
    assert_eq!(u64_to_string(18446744073709551615), "18446744073709551615");
    assert_eq!(i64_to_string(-3), "-3");
    assert_eq!(i64_to_string(0), "0");
    assert_eq!(i64_to_string(12), "12");
}

#[test]
fn minute_padding() {
    assert_eq!(pad2(0), "00");
    assert_eq!(pad2(9), "09");
    assert_eq!(pad2(10), "10");
    assert_eq!(pad2(90), "90");
}

#[test]
fn fixed_point_two_decimals() {
    assert_eq!(micro_2dp(0), "0.00");
    assert_eq!(micro_2dp(228_030), "0.23");
    assert_eq!(micro_2dp(1_131_163), "1.13");
    // rounds half-up at the hundredth
    assert_eq!(micro_2dp(125_000), "0.13");
    assert_eq!(micro_2dp(124_999), "0.12");
}

#[test]
fn field_padding() {
    assert_eq!(pad_left("7", 3), "  7");
    assert_eq!(pad_left("1234", 3), "1234");
    assert_eq!(pad_right("ab", 5), "ab   ");
    assert_eq!(pad_right("abcdef", 5), "abcdef");
}

#[test]
fn lexicographic_order() {
    assert!(lex_le("Arsenal", "Arsenal"));
    assert!(lex_le("AC Milan", "Arsenal"));
    assert!(!lex_le("Porto", "Ajax"));
    assert!(lex_le("Ajax", "Ajaxx"));
}

#[test]
fn formula_cells_get_a_quote() {
    assert_eq!(sanitize_csv_cell("=2+2"), "'=2+2");
    assert_eq!(sanitize_csv_cell("+1"), "'+1");
    assert_eq!(sanitize_csv_cell("-1"), "'-1");
    assert_eq!(sanitize_csv_cell("@cmd"), "'@cmd");
    assert_eq!(sanitize_csv_cell("plain"), "plain");
    // the first visible character decides, but the cell is kept whole
    assert_eq!(sanitize_csv_cell("  =1"), "'  =1");
    // every Unicode white-space character is skipped, as str::trim would
    assert_eq!(sanitize_csv_cell("\u{000B}=2+2"), "'\u{000B}=2+2");
    assert_eq!(sanitize_csv_cell("\u{00A0}\u{2003}+sum"), "'\u{00A0}\u{2003}+sum");
    assert_eq!(sanitize_csv_cell("\u{3000}safe"), "\u{3000}safe");
}

#[test]
fn csv_escaping_cases() {
    assert_eq!(csv_escape("=2+2"), "'=2+2");
    assert_eq!(csv_escape("a,b"), "\"a,b\"");
    assert_eq!(csv_escape("say \"hi\""), "\"say \"\"hi\"\"\"");
    assert_eq!(csv_escape("line\nbreak"), "\"line\nbreak\"");
    assert_eq!(csv_escape("plain"), "plain");
}
