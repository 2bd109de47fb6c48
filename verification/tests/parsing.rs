//! Tests of the row readers: field splitting, the absence token, and the
//! numeric parsers.

use imdb_rs::records::{parse_name_record, parse_title_record};
use imdb_rs::rows::{is_absent_field, parse_i64, parse_rating_tenths, split_on};
use imdb_rs::text::{chars_of, contains_seq, contains_word, is_prefix_of, str_eq};

#[test]
fn split_on_keeps_empty_fields() {
    let fields = split_on("a\tb\t\tc", '\t');
    assert_eq!(fields.len(), 4);
    assert_eq!(fields[0], "a");
    assert_eq!(fields[1], "b");
    assert_eq!(fields[2], "");
    assert_eq!(fields[3], "c");
}

#[test]
fn split_on_whole_string_when_no_separator() {
    let fields = split_on("plain", '\t');
    assert_eq!(fields.len(), 1);
    assert_eq!(fields[0], "plain");
}

#[test]
fn absence_token_is_recognized() {
    assert!(is_absent_field(""));
    assert!(is_absent_field("\\N"));
    assert!(!is_absent_field("0"));
    assert!(!is_absent_field("\\No"));
}

#[test]
fn parse_i64_accepts_plain_integers() {
    assert_eq!(parse_i64(Some("123")), Some(123));
    assert_eq!(parse_i64(Some("-5")), Some(-5));
    assert_eq!(parse_i64(Some("+7")), Some(7));
    assert_eq!(parse_i64(Some("0")), Some(0));
    assert_eq!(parse_i64(Some("9223372036854775807")), Some(i64::MAX));
    assert_eq!(parse_i64(Some("-9223372036854775808")), Some(i64::MIN));
}

#[test]
fn parse_i64_rejects_what_is_not_a_number() {
    assert_eq!(parse_i64(None), None);
    assert_eq!(parse_i64(Some("")), None);
    assert_eq!(parse_i64(Some("\\N")), None);
    assert_eq!(parse_i64(Some("12x")), None);
    assert_eq!(parse_i64(Some("-")), None);
    assert_eq!(parse_i64(Some("9223372036854775808")), None);
    assert_eq!(parse_i64(Some("99999999999999999999999")), None);
}

#[test]
fn parse_rating_reads_tenths() {
    assert_eq!(parse_rating_tenths(Some("8.3")), Some(83));
    assert_eq!(parse_rating_tenths(Some("10")), Some(100));
    assert_eq!(parse_rating_tenths(Some("10.0")), Some(100));
    assert_eq!(parse_rating_tenths(Some("0.5")), Some(5));
    assert_eq!(parse_rating_tenths(Some("8.")), Some(80));
}

#[test]
fn parse_rating_rejects_off_scale_and_malformed() {
    assert_eq!(parse_rating_tenths(None), None);
    assert_eq!(parse_rating_tenths(Some("\\N")), None);
    assert_eq!(parse_rating_tenths(Some("")), None);
    assert_eq!(parse_rating_tenths(Some("10.1")), None);
    assert_eq!(parse_rating_tenths(Some("8.35")), None);
    assert_eq!(parse_rating_tenths(Some("-1")), None);
    assert_eq!(parse_rating_tenths(Some(".5")), None);
    assert_eq!(parse_rating_tenths(Some("a.b")), None);
}

#[test]
fn title_row_without_key_or_name_yields_no_record() {
    let missing_key = split_on("\\N\tmovie\tSomething\t\\N\t0\t1999\t\\N\t90\tDrama", '\t');
    assert!(parse_title_record(&missing_key).is_none());
    let missing_name = split_on("tt1\tmovie\t\\N\t\\N\t0\t1999\t\\N\t90\tDrama", '\t');
    assert!(parse_title_record(&missing_name).is_none());
    let too_short = split_on("tt1\tmovie", '\t');
    assert!(parse_title_record(&too_short).is_none());
}

#[test]
fn title_row_fields_carry_over() {
    let fields = split_on(
        "tt1\tmovie\tA Title\tOriginal\t0\t1999\t2001\t90\tDrama,\\N,Action",
        '\t',
    );
    let rec = parse_title_record(&fields).expect("valid row");
    assert_eq!(rec.tconst, "tt1");
    assert_eq!(rec.title_type, "movie");
    assert_eq!(rec.primary_title, "A Title");
    assert_eq!(rec.original_title.as_deref(), Some("Original"));
    assert_eq!(rec.start_year, Some(1999));
    assert_eq!(rec.end_year, Some(2001));
    assert_eq!(rec.genres, vec!["Drama".to_string(), "Action".to_string()]);
}

#[test]
fn title_row_sentinel_years_stay_absent() {
    let fields = split_on("tt1\tmovie\tA Title\t\\N\t0\t\\N\t\\N\t90\t\\N", '\t');
    let rec = parse_title_record(&fields).expect("valid row");
    assert_eq!(rec.original_title, None);
    assert_eq!(rec.start_year, None);
    assert_eq!(rec.end_year, None);
    assert_eq!(rec.genres.len(), 0);
}

#[test]
fn name_row_without_name_yields_no_record() {
    let missing_name = split_on("nm1\t\\N\t1964\t\\N\tactor\ttt1", '\t');
    assert!(parse_name_record(&missing_name).is_none());
    let empty_name = split_on("nm1\t\t1964\t\\N\tactor\ttt1", '\t');
    assert!(parse_name_record(&empty_name).is_none());
}

#[test]
fn name_row_fields_carry_over() {
    let fields = split_on("nm1\tKeanu Reeves\t1964\t\\N\tactor,producer\ttt1,tt2", '\t');
    let rec = parse_name_record(&fields).expect("valid row");
    assert_eq!(rec.nconst, "nm1");
    assert_eq!(rec.primary_name, "Keanu Reeves");
    assert_eq!(rec.birth_year, Some(1964));
    assert_eq!(rec.death_year, None);
    assert_eq!(rec.primary_profession, "actor,producer");
    assert_eq!(rec.known_for_titles, "tt1,tt2");
}

#[test]
fn text_matching_classifies_words_and_substrings() {
    let hay = chars_of("no way up");
    let way = chars_of("way");
    let ay = chars_of("ay");
    let no = chars_of("no");
    assert!(contains_word(&hay, &way));
    assert!(!contains_word(&hay, &ay));
    assert!(contains_seq(&hay, &ay));
    assert!(is_prefix_of(&hay, &no));
    assert!(!is_prefix_of(&hay, &way));
    assert!(str_eq("abc", "abc"));
    assert!(!str_eq("abc", "abd"));
}
