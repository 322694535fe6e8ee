use manga_reader::extract::chapter_number_from;
use manga_reader::manga::extract_chapter_number;
use manga_reader::number::ChapterNumber;

fn value(n: ChapterNumber) -> f64 {
    n.whole() as f64 + n.fraction() as f64 / 1e18
}

fn number(name: &str) -> Option<f32> {
    extract_chapter_number(name).map(|n| n.text().parse::<f32>().unwrap())
}

#[test]
fn chapter_marker_gives_number() {
    assert_eq!(number("Chapter 12.cbz"), Some(12.0));
}

#[test]
fn tome_marker_gives_number() {
    assert_eq!(number("tome3.cbr"), Some(3.0));
}

#[test]
fn volume_and_chapter_gives_chapter() {
    assert_eq!(number("Vol01_Chap012.cbz"), Some(12.0));
}

#[test]
fn upper_case_marker_is_found() {
    assert_eq!(number("CHAPITRE 7.CBZ"), Some(7.0));
    assert_eq!(number("TOME 4"), Some(4.0));
}

#[test]
fn fractional_number_is_kept() {
    let n = extract_chapter_number("Chapter 12.5").unwrap();
    assert_eq!(n.whole(), 12);
    assert_eq!(n.fraction(), 500_000_000_000_000_000);
    assert_eq!(value(n), 12.5);
}

#[test]
fn dot_after_marker_starts_the_run() {
    let n = extract_chapter_number("ch.12").unwrap();
    assert_eq!(n.whole(), 0);
    assert_eq!(n.fraction(), 120_000_000_000_000_000);
}

#[test]
fn comma_ends_the_run() {
    let n = extract_chapter_number("ch 12,5").unwrap();
    assert_eq!(n, ChapterNumber::from_whole(12));
}

#[test]
fn hash_marker_gives_number() {
    assert_eq!(number("One Piece #1050.cbz"), Some(1050.0));
}

#[test]
fn leading_digits_without_marker() {
    assert_eq!(number("12 - Title.pdf"), Some(12.0));
    assert_eq!(number("Volume 3"), Some(3.0));
}

#[test]
fn later_marker_decides_when_first_fails() {
    // "ch" is followed by the run "..", which writes no number; "tome" is
    // tried later and gives 9.
    assert_eq!(number("ch..x tome 9"), Some(9.0));
}

#[test]
fn three_digit_capture_is_last_resort() {
    // No marker; the leading run "1.2.345" has two dots; the first bare run
    // of two or three digits is "345".
    assert_eq!(number("1.2.345"), Some(345.0));
    assert_eq!(number("1.2.3456"), Some(345.0));
    assert_eq!(number("1.2.34"), Some(34.0));
}

#[test]
fn no_number_is_none() {
    assert!(extract_chapter_number("cover.jpg").is_none());
    assert!(extract_chapter_number("").is_none());
    assert!(extract_chapter_number("1.2.3").is_none());
}

#[test]
fn run_with_two_dots_after_marker_is_no_number() {
    assert!(extract_chapter_number("Chapter 1.5.cbz").is_none());
}

#[test]
fn whole_part_beyond_64_bits_is_no_number() {
    let n = extract_chapter_number("ch 18446744073709551615").unwrap();
    assert_eq!(n.whole(), u64::MAX);
    // One more and the run writes no chapter number: the marker rule and the
    // leading-digit rule both fail on it, and the bare run "184" decides.
    assert_eq!(number("ch 18446744073709551616"), Some(184.0));
    assert!(chapter_number_from("ch 18446744073709551616", None).is_none());
}

#[test]
fn fraction_beyond_eighteen_places_is_cut() {
    let n = extract_chapter_number("ch 1.1234567890123456789").unwrap();
    assert_eq!(n.whole(), 1);
    assert_eq!(n.fraction(), 123_456_789_012_345_678);
}

#[test]
fn given_capture_is_used_only_when_positions_fail() {
    let n = chapter_number_from("tome 2", Some("77".to_string())).unwrap();
    assert_eq!(n, ChapterNumber::from_whole(2));
    let m = chapter_number_from("no digits", Some("77".to_string())).unwrap();
    assert_eq!(m, ChapterNumber::from_whole(77));
    assert!(chapter_number_from("no digits", None).is_none());
    assert!(chapter_number_from("no digits", Some("x7".to_string())).is_none());
}
