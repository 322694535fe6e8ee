//! Reading a chapter number out of a file name.
//!
//! File names in a comic library follow no grammar ("Chapter 12", "ch.12",
//! "12 - Title", "Vol01_Chap012"), so the number is found by three rules tried
//! in order on the lower-cased name: the run of digits and dots that follows a
//! known marker, the run that starts at the first digit of the name, and a
//! bare run of two or three digits anywhere in the name.

use vstd::prelude::*;
use crate::number::{
    is_run_char, lemma_literal_number_fits, literal_number, parse_literal, ChapterNumber, Decimal,
};
use crate::text::{
    char_is_digit, chars_of, find, first_occurrence, is_digit, lemma_first_occurrence_from, occurs_at,
};

verus! {

/// The first position at or after `from` that holds a digit or a dot, or the
/// length of `s` if there is none.
pub open spec fn run_start(s: Seq<char>, from: int) -> int
    decreases s.len() - from,
{
    if from < 0 || from >= s.len() {
        s.len() as int
    } else if is_run_char(s[from]) {
        from
    } else {
        run_start(s, from + 1)
    }
}

/// The first position at or after `from` that holds a digit, or the length of
/// `s` if there is none.
pub open spec fn digit_start(s: Seq<char>, from: int) -> int
    decreases s.len() - from,
{
    if from < 0 || from >= s.len() {
        s.len() as int
    } else if is_digit(s[from]) {
        from
    } else {
        digit_start(s, from + 1)
    }
}

/// The first position at or after `from` that holds neither a digit nor a
/// dot, or the length of `s` if there is none.
pub open spec fn run_end(s: Seq<char>, from: int) -> int
    decreases s.len() - from,
{
    if from < 0 || from >= s.len() {
        s.len() as int
    } else if !is_run_char(s[from]) {
        from
    } else {
        run_end(s, from + 1)
    }
}

/// The number written by the longest run of digits and dots that starts at
/// `start`.
pub open spec fn number_at(s: Seq<char>, start: int) -> Option<Decimal> {
    literal_number(s.subrange(start, run_end(s, start)))
}

/// The markers after which a chapter number is looked for, in the order in
/// which they are tried.
pub open spec fn markers() -> Seq<Seq<char>> {
    seq![
        seq!['c', 'h'],
        seq!['c', 'h', 'a', 'p', 'i', 't', 'r', 'e'],
        seq!['c', 'h', 'a', 'p', 't', 'e', 'r'],
        seq!['c', 'h', 'a', 'p'],
        seq!['#'],
        seq!['t', 'o', 'm', 'e'],
    ]
}

/// The number that follows the first occurrence of `marker` in `s`: what
/// stands between the marker and the next digit or dot is skipped, and the run
/// of digits and dots that begins there is read.
pub open spec fn marker_number(s: Seq<char>, marker: Seq<char>) -> Option<Decimal> {
    match first_occurrence(s, marker) {
        Some(at) => number_at(s, run_start(s, at + marker.len())),
        None => None,
    }
}

/// The number given by the first marker, from the `from`-th on, after which a
/// number can be read.
pub open spec fn markers_number(s: Seq<char>, from: int) -> Option<Decimal>
    decreases markers().len() - from,
{
    if from < 0 || from >= markers().len() {
        None
    } else {
        match marker_number(s, markers()[from]) {
            Some(n) => Some(n),
            None => markers_number(s, from + 1),
        }
    }
}

/// The number written by the run that starts at the first digit of `s`.
pub open spec fn leading_number(s: Seq<char>) -> Option<Decimal> {
    number_at(s, digit_start(s, 0))
}

/// The number written by a captured run of digits, if one was captured.
pub open spec fn capture_number(capture: Option<Seq<char>>) -> Option<Decimal> {
    match capture {
        Some(run) => literal_number(run),
        None => None,
    }
}

/// The number found by the marker rule or, failing that, by the leading-digit
/// rule.
pub open spec fn number_by_position(s: Seq<char>) -> Option<Decimal> {
    match markers_number(s, 0) {
        Some(n) => Some(n),
        None => leading_number(s),
    }
}

/// The chapter number of a lower-cased file name `s`, given the run of two or
/// three digits that was captured in it: the first of the three rules that
/// yields a number decides.
pub open spec fn chapter_number_in(s: Seq<char>, capture: Option<Seq<char>>) -> Option<Decimal> {
    match number_by_position(s) {
        Some(n) => Some(n),
        None => capture_number(capture),
    }
}

/// The decimal that an optional chapter number stands for.
pub open spec fn decimal_of(n: Option<ChapterNumber>) -> Option<Decimal> {
    match n {
        Some(n) => Some(n@),
        None => None,
    }
}

/// The characters of an optional string.
pub open spec fn text_of(s: Option<String>) -> Option<Seq<char>> {
    match s {
        Some(s) => Some(s@),
        None => None,
    }
}

/// The `i`-th marker.
pub fn marker(i: usize) -> (m: Vec<char>)
    requires
        i < markers().len(),
    ensures
        m@ == markers()[i as int],
{
    let m = if i == 0 {
        vec!['c', 'h']
    } else if i == 1 {
        vec!['c', 'h', 'a', 'p', 'i', 't', 'r', 'e']
    } else if i == 2 {
        vec!['c', 'h', 'a', 'p', 't', 'e', 'r']
    } else if i == 3 {
        vec!['c', 'h', 'a', 'p']
    } else if i == 4 {
        vec!['#']
    } else {
        vec!['t', 'o', 'm', 'e']
    };
    assert(m@ =~= markers()[i as int]);
    m
}

/// Finds where the run of digits and dots at or after `from` starts.
pub fn find_run_start(chars: &Vec<char>, from: usize) -> (start: usize)
    requires
        from <= chars@.len(),
    ensures
        start == run_start(chars@, from as int),
        from <= start <= chars@.len(),
{
    let n: usize = chars.len();
    let mut i: usize = from;
    while i < n && !(char_is_digit(chars[i]) || chars[i] == '.')
        invariant
            n == chars@.len(),
            from <= i <= n,
            run_start(chars@, from as int) == run_start(chars@, i as int),
        decreases n - i,
    {
        i += 1;
    }
    i
}

/// Finds the first digit at or after `from`.
pub fn find_digit_start(chars: &Vec<char>, from: usize) -> (start: usize)
    requires
        from <= chars@.len(),
    ensures
        start == digit_start(chars@, from as int),
        from <= start <= chars@.len(),
{
    let n: usize = chars.len();
    let mut i: usize = from;
    while i < n && !char_is_digit(chars[i])
        invariant
            n == chars@.len(),
            from <= i <= n,
            digit_start(chars@, from as int) == digit_start(chars@, i as int),
        decreases n - i,
    {
        i += 1;
    }
    i
}

/// Finds where the run of digits and dots that starts at `from` ends.
pub fn find_run_end(chars: &Vec<char>, from: usize) -> (end: usize)
    requires
        from <= chars@.len(),
    ensures
        end == run_end(chars@, from as int),
        from <= end <= chars@.len(),
{
    let n: usize = chars.len();
    let mut i: usize = from;
    while i < n && (char_is_digit(chars[i]) || chars[i] == '.')
        invariant
            n == chars@.len(),
            from <= i <= n,
            run_end(chars@, from as int) == run_end(chars@, i as int),
        decreases n - i,
    {
        i += 1;
    }
    i
}

/// Reads the number written by the run that starts at `start`.
pub fn read_number_at(chars: &Vec<char>, start: usize) -> (n: Option<ChapterNumber>)
    requires
        start <= chars@.len(),
    ensures
        decimal_of(n) == number_at(chars@, start as int),
{
    let end = find_run_end(chars, start);
    parse_literal(chars, start, end)
}

/// Reads the number that follows the first occurrence of `marker`.
pub fn read_after_marker(chars: &Vec<char>, marker: &Vec<char>) -> (n: Option<ChapterNumber>)
    ensures
        decimal_of(n) == marker_number(chars@, marker@),
{
    let n: usize = chars.len();
    match find(chars, marker) {
        Some(at) => {
            proof {
                lemma_first_occurrence_from(chars@, marker@, 0);
                assert(occurs_at(chars@, marker@, at as int));
                assert(at + marker@.len() <= n);
            }
            let start = find_run_start(chars, at + marker.len());
            read_number_at(chars, start)
        },
        None => None,
    }
}

/// Applies the marker rule and then the leading-digit rule to a lower-cased
/// file name.
pub fn read_by_position(chars: &Vec<char>) -> (n: Option<ChapterNumber>)
    ensures
        decimal_of(n) == number_by_position(chars@),
{
    let mut i: usize = 0;
    while i < 6
        invariant
            i <= 6,
            markers().len() == 6,
            markers_number(chars@, 0) == markers_number(chars@, i as int),
        decreases 6 - i,
    {
        let m = marker(i);
        let found = read_after_marker(chars, &m);
        if found.is_some() {
            return found;
        }
        i += 1;
    }
    let start = find_digit_start(chars, 0);
    read_number_at(chars, start)
}

/// Reads the number written by a captured run of digits.
pub fn read_capture(capture: Option<String>) -> (n: Option<ChapterNumber>)
    ensures
        decimal_of(n) == capture_number(text_of(capture)),
{
    match capture {
        Some(run) => {
            let run_chars = chars_of(run.as_str());
            let n = parse_literal(&run_chars, 0, run_chars.len());
            assert(run_chars@.subrange(0, run_chars@.len() as int) =~= run@);
            n
        },
        None => None,
    }
}

/// The chapter number of the lower-cased file name `lower`, given the run of
/// two or three digits captured in it.
///
/// The marker rule is tried first, then the leading-digit rule, then the
/// captured run; `None` is returned when none of them yields a number.
pub fn chapter_number_from(lower: &str, capture: Option<String>) -> (n: Option<ChapterNumber>)
    ensures
        decimal_of(n) == chapter_number_in(lower@, text_of(capture)),
{
    let chars = chars_of(lower);
    let found = read_by_position(&chars);
    if found.is_some() {
        return found;
    }
    read_capture(capture)
}

/// Every number that the marker rule yields fits a chapter number.
pub proof fn lemma_markers_number_fits(s: Seq<char>, from: int)
    ensures
        markers_number(s, from) matches Some(n) ==> n.fits(),
    decreases markers().len() - from,
{
    if 0 <= from < markers().len() {
        let m = markers()[from];
        match first_occurrence(s, m) {
            Some(at) => {
                let start = run_start(s, at + m.len());
                lemma_literal_number_fits(s.subrange(start, run_end(s, start)));
            },
            None => {},
        }
        lemma_markers_number_fits(s, from + 1);
    }
}

/// Every chapter number that the three rules yield fits a chapter number.
pub proof fn lemma_chapter_number_fits(s: Seq<char>, capture: Option<Seq<char>>)
    ensures
        chapter_number_in(s, capture) matches Some(n) ==> n.fits(),
{
    lemma_markers_number_fits(s, 0);
    let start = digit_start(s, 0);
    lemma_literal_number_fits(s.subrange(start, run_end(s, start)));
    match capture {
        Some(run) => {
            lemma_literal_number_fits(run);
        },
        None => {},
    }
}

/// The markers are tried in order: from any marker up to the first one after
/// which a number can be read, the marker rule gives that number.
pub proof fn lemma_markers_up_to(s: Seq<char>, from: int, i: int)
    requires
        0 <= from <= i < markers().len(),
        marker_number(s, markers()[i]) is Some,
        forall|j: int| from <= j < i ==> marker_number(s, #[trigger] markers()[j]) is None,
    ensures
        markers_number(s, from) == marker_number(s, markers()[i]),
    decreases i - from,
{
    if from < i {
        lemma_markers_up_to(s, from + 1, i);
    }
}

/// A file name that holds a marker followed by a numeric run has the number
/// of that run: if a number can be read after the first occurrence of a
/// marker, and after no marker that is tried before it, then that number is
/// the chapter number, whatever else the name holds.
pub proof fn lemma_first_marker_decides(s: Seq<char>, capture: Option<Seq<char>>, i: int)
    requires
        0 <= i < markers().len(),
        marker_number(s, markers()[i]) is Some,
        forall|j: int| 0 <= j < i ==> marker_number(s, #[trigger] markers()[j]) is None,
    ensures
        chapter_number_in(s, capture) == marker_number(s, markers()[i]),
{
    lemma_markers_up_to(s, 0, i);
}

} // verus!
