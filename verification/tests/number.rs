use manga_reader::number::{parse_literal, ChapterNumber};

fn parse(text: &str) -> Option<ChapterNumber> {
    let chars: Vec<char> = text.chars().collect();
    parse_literal(&chars, 0, chars.len())
}

#[test]
fn literal_grammar() {
    assert_eq!(parse("12"), Some(ChapterNumber::from_whole(12)));
    assert_eq!(parse("012."), Some(ChapterNumber::from_whole(12)));
    assert_eq!(parse(".5"), ChapterNumber::from_parts(0, 500_000_000_000_000_000));
    assert_eq!(parse("5."), Some(ChapterNumber::from_whole(5)));
    assert_eq!(parse("0.0"), Some(ChapterNumber::zero()));
    assert_eq!(parse(""), None);
    assert_eq!(parse("."), None);
    assert_eq!(parse("1.2.3"), None);
    assert_eq!(parse("1..2"), None);
    assert_eq!(parse("12a"), None);
    assert_eq!(parse("-1"), None);
}

#[test]
fn literal_of_a_range() {
    let chars: Vec<char> = "abc12.5xyz".chars().collect();
    let n = parse_literal(&chars, 3, 7).unwrap();
    assert_eq!(n.whole(), 12);
    assert_eq!(n.fraction(), 500_000_000_000_000_000);
    assert_eq!(parse_literal(&chars, 2, 7), None);
    assert_eq!(parse_literal(&chars, 3, 3), None);
}

#[test]
fn whole_part_limit() {
    assert_eq!(parse("18446744073709551615").unwrap().whole(), u64::MAX);
    assert_eq!(parse("18446744073709551616"), None);
    assert_eq!(parse("000000000000000000000000000007").unwrap().whole(), 7);
}

#[test]
fn from_parts_checks_the_fraction() {
    assert!(ChapterNumber::from_parts(1, 999_999_999_999_999_999).is_some());
    assert!(ChapterNumber::from_parts(1, 1_000_000_000_000_000_000).is_none());
}

#[test]
fn order_is_numeric() {
    let a = parse("2").unwrap();
    let b = parse("10").unwrap();
    let c = parse("10.5").unwrap();
    let d = parse("10.25").unwrap();
    assert!(a.lt(&b));
    assert!(b.lt(&d));
    assert!(d.lt(&c));
    assert!(!c.lt(&d));
    assert!(!a.lt(&a));
    assert!(parse("1.50").unwrap().same(&parse("01.5").unwrap()));
    assert!(!a.same(&b));
}

#[test]
fn text_of_numbers() {
    assert_eq!(parse("12").unwrap().text(), "12");
    assert_eq!(parse("12.50").unwrap().text(), "12.5");
    assert_eq!(parse("0.05").unwrap().text(), "0.05");
    assert_eq!(parse("007").unwrap().text(), "7");
    assert_eq!(ChapterNumber::zero().text(), "0");
    assert_eq!(parse("3.000000000000000001").unwrap().text(), "3.000000000000000001");
    assert_eq!(parse("18446744073709551615").unwrap().text(), "18446744073709551615");
}
