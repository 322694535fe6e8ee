//! Reading the log of a download.
//!
//! The downloader reports in plain lines. Four kinds of line count: a chapter
//! was started, the images of a chapter were counted, an image was
//! downloaded, an archive was written. What a line reports is read from it
//! once, and the progress of the download is the sum of the reports.

use vstd::prelude::*;
use crate::app::{App, AppView};
use vstd::arithmetic::div_mod::{lemma_add_mod_noop, lemma_small_mod};
use crate::scanner::{find_from, text_end, text_start, trim};
use crate::text::{
    chars_of, find, first_occurrence, first_occurrence_from, is_digit, lemma_first_occurrence_from,
    occurs_at, push_text, string_of, string_of_range,
};

verus! {

/// Whether `c` is a control character: a character of the Unicode category
/// Cc.
pub open spec fn is_control(c: char) -> bool {
    let u = c as u32;
    u <= 0x1f || (0x7f <= u && u <= 0x9f)
}

/// The characters of `s` that are no control characters, among the first
/// `upto`.
pub open spec fn printable(s: Seq<char>, upto: int) -> Seq<char>
    decreases upto,
{
    if upto <= 0 {
        Seq::empty()
    } else if is_control(s[upto - 1]) {
        printable(s, upto - 1)
    } else {
        printable(s, upto - 1).push(s[upto - 1])
    }
}

/// Removes the control characters from a line, the escape character of
/// terminal sequences among them.
pub fn strip_ansi_escapes(s: &str) -> (clean: String)
    ensures
        clean@ == printable(s@, s@.len() as int),
{
    let chars = chars_of(s);
    let n: usize = chars.len();
    let mut out: Vec<char> = Vec::new();
    let mut i: usize = 0;
    while i < n
        invariant
            n == chars@.len(),
            chars@ == s@,
            i <= n,
            out@ == printable(s@, i as int),
        decreases n - i,
    {
        let u: u32 = chars[i] as u32;
        if !(u <= 0x1f || (0x7f <= u && u <= 0x9f)) {
            out.push(chars[i]);
        }
        i += 1;
    }
    string_of(&out)
}

/// The number that the text `s[from..to]` writes: an optional plus sign and
/// then decimal digits, nothing else, and a value that fits `usize`.
pub open spec fn count_of(s: Seq<char>, from: int, to: int) -> Option<usize> {
    let start = if from < to && s[from] == '+' {
        from + 1
    } else {
        from
    };
    if start < to && (forall|i: int| start <= i < to ==> is_digit(#[trigger] s[i])) && digits_value(
        s,
        start,
        to,
    ) <= usize::MAX {
        Some(digits_value(s, start, to) as usize)
    } else {
        None
    }
}

/// The number that the digits `s[from..to]` write.
pub open spec fn digits_value(s: Seq<char>, from: int, to: int) -> nat
    decreases to - from,
{
    if to <= from {
        0
    } else {
        digits_value(s, from, to - 1) * 10 + (s[to - 1] as int - '0' as int) as nat
    }
}

/// Longer runs of digits write larger numbers.
pub proof fn lemma_digits_grow(s: Seq<char>, from: int, mid: int, to: int)
    requires
        from <= mid <= to,
    ensures
        digits_value(s, from, mid) <= digits_value(s, from, to),
    decreases to - mid,
{
    if mid < to {
        lemma_digits_grow(s, from, mid, to - 1);
    }
}

/// Reads the text `chars[from..to]` as a count.
pub fn parse_count(chars: &Vec<char>, from: usize, to: usize) -> (count: Option<usize>)
    requires
        from <= to <= chars@.len(),
    ensures
        count == count_of(chars@, from as int, to as int),
{
    let start: usize = if from < to && chars[from] == '+' {
        from + 1
    } else {
        from
    };
    if start >= to {
        return None;
    }
    let mut value: usize = 0;
    let mut i: usize = start;
    while i < to
        invariant
            start == if from < to && chars@[from as int] == '+' {
                from + 1
            } else {
                from as int
            },
            start < to,
            start <= i <= to <= chars@.len(),
            forall|k: int| start <= k < i ==> is_digit(#[trigger] chars@[k]),
            value == digits_value(chars@, start as int, i as int),
        decreases to - i,
    {
        let c = chars[i];
        if !('0' <= c && c <= '9') {
            assert(!is_digit(chars@[i as int]));
            return None;
        }
        let d: usize = (c as u32 - '0' as u32) as usize;
        if value > (usize::MAX - d) / 10 {
            proof {
                assert(digits_value(chars@, start as int, i + 1) > usize::MAX);
                lemma_digits_grow(chars@, start as int, i + 1, to as int);
            }
            return None;
        }
        value = value * 10 + d;
        i += 1;
    }
    Some(value)
}

/// Where the last piece starts when `s` is parted at every occurrence of
/// `pat` found from `from` on, left to right.
pub open spec fn last_piece(s: Seq<char>, pat: Seq<char>, from: int) -> int
    decreases s.len() - from,
{
    match first_occurrence_from(s, pat, from) {
        Some(at) => if pat.len() > 0 && from <= at && at + pat.len() <= s.len() {
            last_piece(s, pat, at + pat.len())
        } else {
            from
        },
        None => from,
    }
}

/// Where the piece of `s` that starts at `from` ends: at the next occurrence
/// of `pat`, or at the end of `s`.
pub open spec fn piece_end(s: Seq<char>, pat: Seq<char>, from: int) -> int {
    match first_occurrence_from(s, pat, from) {
        Some(at) => at,
        None => s.len() as int,
    }
}

/// The count written, white space aside, in `s[from..to]`.
pub open spec fn trimmed_count(s: Seq<char>, from: int, to: int) -> Option<usize> {
    count_of(s, text_start(s, from, to), text_end(s, text_start(s, from, to), to))
}

/// Whether `pat` occurs in `s`.
pub open spec fn has(s: Seq<char>, pat: Seq<char>) -> bool {
    first_occurrence(s, pat) is Some
}

/// The piece that follows the first occurrence of `pat` in `s`, up to the
/// next occurrence or the end of `s`: where it starts and where it ends.
pub open spec fn second_piece(s: Seq<char>, pat: Seq<char>) -> Option<(int, int)> {
    match first_occurrence(s, pat) {
        Some(at) => Some((at + pat.len(), piece_end(s, pat, at + pat.len()))),
        None => None,
    }
}

/// The count written, white space aside, in `s` from `from` up to the first
/// occurrence of `stop` before `to`, or up to `to`.
pub open spec fn count_before(s: Seq<char>, from: int, to: int, stop: Seq<char>) -> Option<usize> {
    trimmed_count(s, from, piece_end(s.subrange(0, to), stop, from))
}

/// What one line of the log reports.
#[derive(Debug, Clone, Copy, PartialEq, Eq)]
pub struct LineEvents {
    /// The chapter that was started.
    pub chapter_started: Option<usize>,
    /// The number of images found for the chapter.
    pub images_found: Option<usize>,
    /// The number of the image that was downloaded.
    pub image_downloaded: Option<usize>,
    /// Whether the archive of a chapter was written.
    pub archive_created: bool,
}

/// The chapter that a line reports as started: the count that follows the
/// last "Chapter " before the first " of ", in a line that holds
/// "Downloading Chapter".
pub open spec fn chapter_started(line: Seq<char>) -> Option<usize> {
    if has(line, "Downloading Chapter"@) {
        let end = piece_end(line, " of "@, 0);
        let start = last_piece(line.subrange(0, end), "Chapter "@, 0);
        trimmed_count(line, start, end)
    } else {
        None
    }
}

/// The number of images that a line reports as found: the count between the
/// first "Found " and the next " images", in a line that holds "Found" and
/// "images for Chapter".
pub open spec fn images_found(line: Seq<char>) -> Option<usize> {
    if has(line, "Found"@) && has(line, "images for Chapter"@) {
        match second_piece(line, "Found "@) {
            Some((from, to)) => count_before(line, from, to, " images"@),
            None => None,
        }
    } else {
        None
    }
}

/// The number of the image that a line reports as downloaded: the count
/// between the first "Downloaded image " and the next "/".
pub open spec fn image_downloaded(line: Seq<char>) -> Option<usize> {
    if has(line, "Downloaded image"@) {
        match second_piece(line, "Downloaded image "@) {
            Some((from, to)) => count_before(line, from, to, "/"@),
            None => None,
        }
    } else {
        None
    }
}

/// What a line reports.
pub open spec fn line_events(line: Seq<char>) -> LineEvents {
    LineEvents {
        chapter_started: chapter_started(line),
        images_found: images_found(line),
        image_downloaded: image_downloaded(line),
        archive_created: has(line, ".cbr created with"@),
    }
}

/// Tests whether `pat` occurs in `chars`.
pub fn holds(chars: &Vec<char>, pat: &str) -> (b: bool)
    ensures
        b == has(chars@, pat@),
{
    let p = chars_of(pat);
    find(chars, &p).is_some()
}

/// Finds the piece that follows the first occurrence of `pat`.
pub fn find_second_piece(chars: &Vec<char>, pat: &str) -> (piece: Option<(usize, usize)>)
    ensures
        match piece {
            Some((from, to)) => second_piece(chars@, pat@) == Some((from as int, to as int))
                && from <= to <= chars@.len(),
            None => second_piece(chars@, pat@) is None,
        },
{
    let p = chars_of(pat);
    let n: usize = chars.len();
    match find(chars, &p) {
        Some(at) => {
            proof {
                lemma_first_occurrence_from(chars@, p@, 0);
                assert(occurs_at(chars@, p@, at as int));
            }
            let from = at + p.len();
            let to = match find_from(chars, &p, from) {
                Some(next) => {
                    proof {
                        lemma_first_occurrence_from(chars@, p@, from as int);
                        assert(occurs_at(chars@, p@, next as int));
                    }
                    next
                },
                None => n,
            };
            Some((from, to))
        },
        None => None,
    }
}

/// The first `to` characters of `chars`.
pub fn prefix_of(chars: &Vec<char>, to: usize) -> (prefix: Vec<char>)
    requires
        to <= chars@.len(),
    ensures
        prefix@ == chars@.subrange(0, to as int),
{
    let mut prefix: Vec<char> = Vec::new();
    let mut i: usize = 0;
    while i < to
        invariant
            i <= to <= chars@.len(),
            prefix@ == chars@.subrange(0, i as int),
        decreases to - i,
    {
        prefix.push(chars[i]);
        assert(chars@.subrange(0, i + 1) =~= chars@.subrange(0, i as int).push(chars@[i as int]));
        i += 1;
    }
    prefix
}

/// Finds where the piece that starts at `from` ends.
pub fn find_piece_end(chars: &Vec<char>, pat: &Vec<char>, from: usize) -> (end: usize)
    requires
        from <= chars@.len(),
    ensures
        end == piece_end(chars@, pat@, from as int),
        from <= end <= chars@.len(),
{
    match find_from(chars, pat, from) {
        Some(at) => {
            proof {
                lemma_first_occurrence_from(chars@, pat@, from as int);
                assert(occurs_at(chars@, pat@, at as int));
            }
            at
        },
        None => chars.len(),
    }
}

/// Reads the count written, white space aside, in `chars[from..to]`.
pub fn read_trimmed_count(chars: &Vec<char>, from: usize, to: usize) -> (count: Option<usize>)
    requires
        from <= to <= chars@.len(),
    ensures
        count == trimmed_count(chars@, from as int, to as int),
{
    let (a, b) = trim(chars, from, to);
    parse_count(chars, a, b)
}

/// Reads the count written in `chars` from `from` up to the first occurrence
/// of `stop` before `to`.
pub fn read_count_before(chars: &Vec<char>, from: usize, to: usize, stop: &str) -> (count: Option<
    usize,
>)
    requires
        from <= to <= chars@.len(),
    ensures
        count == count_before(chars@, from as int, to as int, stop@),
{
    let prefix = prefix_of(chars, to);
    let pat = chars_of(stop);
    let end = find_piece_end(&prefix, &pat, from);
    proof {
        lemma_same_prefix_count(chars@, prefix@, from as int, end as int);
    }
    read_trimmed_count(&prefix, from, end)
}

/// A count read in a prefix of a text is the count read at the same place in
/// the text.
pub proof fn lemma_same_prefix_count(s: Seq<char>, prefix: Seq<char>, from: int, to: int)
    requires
        0 <= from <= to <= prefix.len() <= s.len(),
        forall|i: int| 0 <= i < prefix.len() ==> prefix[i] == s[i],
    ensures
        trimmed_count(prefix, from, to) == trimmed_count(s, from, to),
{
    lemma_text_bounds(s, from, to);
    lemma_same_text_start(s, prefix, from, to);
    let a = text_start(s, from, to);
    lemma_same_text_end(s, prefix, a, to);
    let b = text_end(s, a, to);
    let start = if a < b && s[a] == '+' {
        a + 1
    } else {
        a
    };
    lemma_same_digits(s, prefix, start, b);
}

/// The text that remains of a stretch lies within it.
pub proof fn lemma_text_bounds(s: Seq<char>, from: int, to: int)
    requires
        from <= to,
    ensures
        from <= text_start(s, from, to) <= text_end(s, text_start(s, from, to), to) <= to,
{
    lemma_start_bounds(s, from, to);
    lemma_end_bounds(s, text_start(s, from, to), to);
}

/// The start of the remaining text lies within the stretch.
pub proof fn lemma_start_bounds(s: Seq<char>, from: int, to: int)
    requires
        from <= to,
    ensures
        from <= text_start(s, from, to) <= to,
    decreases to - from,
{
    if from < to && crate::scanner::is_space(s[from]) {
        lemma_start_bounds(s, from + 1, to);
    }
}

/// The end of the remaining text lies within the stretch.
pub proof fn lemma_end_bounds(s: Seq<char>, from: int, to: int)
    requires
        from <= to,
    ensures
        from <= text_end(s, from, to) <= to,
    decreases to - from,
{
    if from < to && crate::scanner::is_space(s[to - 1]) {
        lemma_end_bounds(s, from, to - 1);
    }
}

/// Texts that agree on a stretch have the same start of text in it.
pub proof fn lemma_same_text_start(s: Seq<char>, t: Seq<char>, from: int, to: int)
    requires
        0 <= from <= to <= t.len() <= s.len(),
        forall|i: int| 0 <= i < t.len() ==> t[i] == s[i],
    ensures
        text_start(t, from, to) == text_start(s, from, to),
    decreases to - from,
{
    if from < to && crate::scanner::is_space(s[from]) {
        lemma_same_text_start(s, t, from + 1, to);
    }
}

/// Texts that agree on a stretch have the same end of text in it.
pub proof fn lemma_same_text_end(s: Seq<char>, t: Seq<char>, from: int, to: int)
    requires
        0 <= from,
        to <= t.len() <= s.len(),
        forall|i: int| 0 <= i < t.len() ==> t[i] == s[i],
    ensures
        text_end(t, from, to) == text_end(s, from, to),
    decreases to - from,
{
    if from < to && crate::scanner::is_space(s[to - 1]) {
        lemma_same_text_end(s, t, from, to - 1);
    }
}

/// Texts that agree on a stretch write the same number in it.
pub proof fn lemma_same_digits(s: Seq<char>, t: Seq<char>, from: int, to: int)
    requires
        0 <= from,
        to <= t.len() <= s.len(),
        forall|i: int| 0 <= i < t.len() ==> t[i] == s[i],
    ensures
        digits_value(t, from, to) == digits_value(s, from, to),
    decreases to - from,
{
    if from < to {
        lemma_same_digits(s, t, from, to - 1);
    }
}

/// Finds where the last piece starts when `chars` is parted at every
/// occurrence of `pat`.
pub fn find_last_piece(chars: &Vec<char>, pat: &Vec<char>) -> (start: usize)
    ensures
        start == last_piece(chars@, pat@, 0),
        start <= chars@.len(),
{
    let m: usize = pat.len();
    let n: usize = chars.len();
    let mut from: usize = 0;
    loop
        invariant
            m == pat@.len(),
            n == chars@.len(),
            from <= chars@.len(),
            last_piece(chars@, pat@, 0) == last_piece(chars@, pat@, from as int),
        decreases chars@.len() - from,
    {
        match find_from(chars, pat, from) {
            Some(at) => {
                proof {
                    lemma_first_occurrence_from(chars@, pat@, from as int);
                    assert(occurs_at(chars@, pat@, at as int));
                    assert(at + m <= n);
                }
                if m == 0 {
                    return from;
                }
                from = at + m;
            },
            None => {
                return from;
            },
        }
    }
}

/// Reads what a line of the log reports.
pub fn read_line(line: &str) -> (events: LineEvents)
    ensures
        events == line_events(line@),
{
    let chars = chars_of(line);
    let n: usize = chars.len();
    let started = if holds(&chars, "Downloading Chapter") {
        let of = chars_of(" of ");
        let end = find_piece_end(&chars, &of, 0);
        let head = prefix_of(&chars, end);
        let chapter = chars_of("Chapter ");
        let start = find_last_piece(&head, &chapter);
        proof {
            lemma_same_prefix_count(chars@, head@, start as int, end as int);
        }
        read_trimmed_count(&head, start, end)
    } else {
        None
    };
    let found = if holds(&chars, "Found") && holds(&chars, "images for Chapter") {
        match find_second_piece(&chars, "Found ") {
            Some((from, to)) => read_count_before(&chars, from, to, " images"),
            None => None,
        }
    } else {
        None
    };
    let downloaded = if holds(&chars, "Downloaded image") {
        match find_second_piece(&chars, "Downloaded image ") {
            Some((from, to)) => read_count_before(&chars, from, to, "/"),
            None => None,
        }
    } else {
        None
    };
    LineEvents {
        chapter_started: started,
        images_found: found,
        image_downloaded: downloaded,
        archive_created: holds(&chars, ".cbr created with"),
    }
}

/// What a line of the log is about, by which it is marked on the screen.
#[derive(Debug, Clone, Copy, PartialEq, Eq, Structural)]
pub enum LogKind {
    /// Something failed.
    Failure,
    /// Something was completed.
    Success,
    /// Something is being downloaded.
    Downloading,
    /// The line speaks of a chapter.
    Chapter,
    /// The line speaks of a series.
    Series,
    /// Something was found.
    Found,
    /// Anything else.
    Note,
}

/// What a line is about: the first of these that holds decides. The line
/// holds "Error", "Failed" or a cross; "Complete", "Success" or a tick;
/// "Downloading" or an inbox; "Chapter" or "Chapitre"; "Manga" or books;
/// "Found" or "Detected".
pub open spec fn log_kind(line: Seq<char>) -> LogKind {
    if has(line, "Error"@) || has(line, "Failed"@) || has(line, "❌"@) {
        LogKind::Failure
    } else if has(line, "Complete"@) || has(line, "Success"@) || has(line, "✅"@) {
        LogKind::Success
    } else if has(line, "Downloading"@) || has(line, "📥"@) {
        LogKind::Downloading
    } else if has(line, "Chapter"@) || has(line, "Chapitre"@) {
        LogKind::Chapter
    } else if has(line, "Manga"@) || has(line, "📚"@) {
        LogKind::Series
    } else if has(line, "Found"@) || has(line, "Detected"@) {
        LogKind::Found
    } else {
        LogKind::Note
    }
}

/// Tells what a line of the log is about.
pub fn classify_line(line: &str) -> (kind: LogKind)
    ensures
        kind == log_kind(line@),
{
    let chars = chars_of(line);
    if holds(&chars, "Error") || holds(&chars, "Failed") || holds(&chars, "❌") {
        LogKind::Failure
    } else if holds(&chars, "Complete") || holds(&chars, "Success") || holds(&chars, "✅") {
        LogKind::Success
    } else if holds(&chars, "Downloading") || holds(&chars, "📥") {
        LogKind::Downloading
    } else if holds(&chars, "Chapter") || holds(&chars, "Chapitre") {
        LogKind::Chapter
    } else if holds(&chars, "Manga") || holds(&chars, "📚") {
        LogKind::Series
    } else if holds(&chars, "Found") || holds(&chars, "Detected") {
        LogKind::Found
    } else {
        LogKind::Note
    }
}

/// How far a download is.
#[derive(Debug, Clone, Copy, PartialEq, Eq)]
pub struct DownloadProgress {
    /// The number of chapters asked for.
    pub total_chapters: usize,
    /// The number of chapters whose archive was written.
    pub completed_chapters: usize,
    /// The number of images downloaded of the chapter at work.
    pub current_chapter_images: usize,
    /// The number of images of the chapter at work.
    pub total_images_in_current_chapter: usize,
    /// The chapter at work.
    pub current_chapter: usize,
    /// The chapter that was reported as started last.
    pub last_detected_chapter: usize,
}

/// The number of commas among the first `upto` characters of `s`.
pub open spec fn commas(s: Seq<char>, upto: int) -> nat
    decreases upto,
{
    if upto <= 0 {
        0
    } else {
        commas(s, upto - 1) + if s[upto - 1] == ',' {
            1nat
        } else {
            0nat
        }
    }
}

/// The number of chapters that a list such as "1,2,5" asks for: one more
/// than its commas, and one for an empty list.
pub open spec fn chapters_asked(list: Seq<char>) -> usize {
    let n = commas(list, list.len() as int);
    if n < usize::MAX {
        (n + 1) as usize
    } else {
        usize::MAX
    }
}

/// The progress before any line is read.
pub open spec fn progress_at_start(list: Seq<char>) -> DownloadProgress {
    DownloadProgress {
        total_chapters: chapters_asked(list),
        completed_chapters: 0,
        current_chapter_images: 0,
        total_images_in_current_chapter: 1,
        current_chapter: 1,
        last_detected_chapter: 0,
    }
}

/// The progress once a line was read. A chapter other than the last one
/// reported starts with no image downloaded; a count of found images is at
/// least one; a written archive completes a chapter with all its images.
pub open spec fn progress_after(p: DownloadProgress, e: LineEvents) -> DownloadProgress {
    let a = match e.chapter_started {
        Some(n) => if n != p.last_detected_chapter {
            DownloadProgress {
                current_chapter: n,
                current_chapter_images: 0,
                total_images_in_current_chapter: 1,
                last_detected_chapter: n,
                ..p
            }
        } else {
            DownloadProgress { current_chapter: n, ..p }
        },
        None => p,
    };
    let b = match e.images_found {
        Some(n) => DownloadProgress {
            total_images_in_current_chapter: if n > 1 {
                n
            } else {
                1
            },
            ..a
        },
        None => a,
    };
    let c = match e.image_downloaded {
        Some(n) => DownloadProgress { current_chapter_images: n, ..b },
        None => b,
    };
    if e.archive_created {
        DownloadProgress {
            completed_chapters: if c.completed_chapters < usize::MAX {
                (c.completed_chapters + 1) as usize
            } else {
                usize::MAX
            },
            current_chapter_images: c.total_images_in_current_chapter,
            ..c
        }
    } else {
        c
    }
}

/// The progress once the first `upto` lines were read.
pub open spec fn progress_of(list: Seq<char>, lines: Seq<Seq<char>>, upto: int) -> DownloadProgress
    decreases upto,
{
    if upto <= 0 {
        progress_at_start(list)
    } else {
        progress_after(progress_of(list, lines, upto - 1), line_events(lines[upto - 1]))
    }
}

/// Takes one line into the progress.
pub fn advance(p: DownloadProgress, e: LineEvents) -> (next: DownloadProgress)
    ensures
        next == progress_after(p, e),
{
    let mut next = p;
    match e.chapter_started {
        Some(n) => {
            next.current_chapter = n;
            if n != p.last_detected_chapter {
                next.current_chapter_images = 0;
                next.total_images_in_current_chapter = 1;
                next.last_detected_chapter = n;
            }
        },
        None => {},
    }
    match e.images_found {
        Some(n) => {
            next.total_images_in_current_chapter = if n > 1 {
                n
            } else {
                1
            };
        },
        None => {},
    }
    match e.image_downloaded {
        Some(n) => {
            next.current_chapter_images = n;
        },
        None => {},
    }
    if e.archive_created {
        if next.completed_chapters < usize::MAX {
            next.completed_chapters = next.completed_chapters + 1;
        }
        next.current_chapter_images = next.total_images_in_current_chapter;
    }
    next
}

/// Counts the chapters that a list asks for.
pub fn count_chapters(list: &str) -> (count: usize)
    ensures
        count == chapters_asked(list@),
{
    let chars = chars_of(list);
    let n: usize = chars.len();
    let mut found: usize = 0;
    let mut i: usize = 0;
    while i < n
        invariant
            n == chars@.len(),
            chars@ == list@,
            i <= n,
            found == commas(list@, i as int),
            found <= i,
        decreases n - i,
    {
        if chars[i] == ',' {
            found += 1;
        }
        i += 1;
    }
    if found < usize::MAX {
        found + 1
    } else {
        found
    }
}

/// The lines that are kept of a log: the last `LOG_LIMIT`.
pub open spec fn last_lines(lines: Seq<Seq<char>>) -> Seq<Seq<char>> {
    if lines.len() > LOG_LIMIT {
        lines.subrange(lines.len() - LOG_LIMIT, lines.len() as int)
    } else {
        lines
    }
}

/// The number of lines that are kept of a log.
pub const LOG_LIMIT: usize = 200;

/// What the screen says when a download has ended.
pub open spec fn finished_text(name: Seq<char>) -> Seq<char> {
    "Download "@ + name
        + " terminé. Press 'r' to refresh manga list, or continue viewing logs."@
}

/// The state once a line that names the series at work was read: the name
/// is what follows the first "📖 Manga en cours de téléchargement: ", up to
/// the next one, without the white space around it.
pub open spec fn series_named(a: AppView, clean: Seq<char>) -> AppView {
    if has(clean, "📖 Manga en cours de téléchargement:"@) {
        match second_piece(clean, "📖 Manga en cours de téléchargement: "@) {
            Some((from, to)) => AppView {
                current_download_manga_name: crate::scanner::trimmed(clean, from, to),
                ..a
            },
            None => a,
        }
    } else {
        a
    }
}

/// The state once a line that says "Download Complete!" was read: the
/// download has ended, and the screen says so.
pub open spec fn completion_noted(a: AppView, clean: Seq<char>) -> AppView {
    if has(clean, "Download Complete!"@) {
        AppView {
            is_downloading: false,
            download_finished: true,
            status: finished_text(a.current_download_manga_name),
            ..a
        }
    } else {
        a
    }
}

/// The state once a line joined the log, of which the last `LOG_LIMIT` lines
/// are kept.
pub open spec fn line_logged(a: AppView, clean: Seq<char>) -> AppView {
    AppView { download_logs: last_lines(a.download_logs.push(clean)), ..a }
}

/// The state once a line of the downloader was taken in. Control characters
/// are dropped from the line. A line that names the series at work sets the
/// name; a line that says the download is complete ends the download; the
/// line joins the log.
pub open spec fn log_taken(a: AppView, line: Seq<char>) -> AppView {
    let clean = printable(line, line.len() as int);
    line_logged(completion_noted(series_named(a, clean), clean), clean)
}

impl App {
    /// How far the download is, read from the log and from the list of
    /// chapters that was asked for.
    pub fn calculate_download_progress(&self) -> (progress: DownloadProgress)
        ensures
            progress == progress_of(
                self@.selected_chapters_input,
                self@.download_logs,
                self@.download_logs.len() as int,
            ),
    {
        let mut progress = DownloadProgress {
            total_chapters: count_chapters(self.selected_chapters_input.as_str()),
            completed_chapters: 0,
            current_chapter_images: 0,
            total_images_in_current_chapter: 1,
            current_chapter: 1,
            last_detected_chapter: 0,
        };
        let n: usize = self.download_logs.len();
        let mut i: usize = 0;
        while i < n
            invariant
                n == self.download_logs@.len(),
                i <= n,
                progress == progress_of(self@.selected_chapters_input, self@.download_logs, i as int),
            decreases n - i,
        {
            assert(self@.download_logs[i as int] == self.download_logs@[i as int]@);
            progress = advance(progress, read_line(self.download_logs[i].as_str()));
            i += 1;
        }
        progress
    }

    /// Reads the name of the series at work from a line, if the line names
    /// it.
    pub fn note_series(&mut self, clean: &Vec<char>)
        ensures
            final(self)@ == series_named(old(self)@, clean@),
    {
        if holds(clean, "📖 Manga en cours de téléchargement:") {
            match find_second_piece(clean, "📖 Manga en cours de téléchargement: ") {
                Some((from, to)) => {
                    let (a, b) = trim(clean, from, to);
                    self.current_download_manga_name = string_of_range(clean, a, b);
                },
                None => {},
            }
        }
    }

    /// Ends the download if a line says that it is complete. Returns whether
    /// the line says so.
    pub fn note_completion(&mut self, clean: &Vec<char>) -> (complete: bool)
        ensures
            final(self)@ == completion_noted(old(self)@, clean@),
            complete == has(clean@, "Download Complete!"@),
    {
        let complete = holds(clean, "Download Complete!");
        if complete {
            self.is_downloading = false;
            self.download_finished = true;
            let mut text: Vec<char> = Vec::new();
            push_text(&mut text, "Download ");
            push_text(&mut text, self.current_download_manga_name.as_str());
            push_text(
                &mut text,
                " terminé. Press 'r' to refresh manga list, or continue viewing logs.",
            );
            self.status = string_of(&text);
        }
        complete
    }

    /// Adds a line to the log and drops the oldest lines beyond the last
    /// `LOG_LIMIT`.
    pub fn log_line(&mut self, clean: String)
        ensures
            final(self)@ == line_logged(old(self)@, clean@),
    {
        self.download_logs.push(clean);
        let ghost all = self@.download_logs;
        assert(all =~= old(self)@.download_logs.push(clean@));
        let n: usize = self.download_logs.len();
        let mut extra: usize = if n > LOG_LIMIT {
            n - LOG_LIMIT
        } else {
            0
        };
        let ghost total = extra;
        assert(all.subrange(0, all.len() as int) =~= all);
        while extra > 0
            invariant
                extra <= total,
                total == if all.len() > LOG_LIMIT {
                    all.len() - LOG_LIMIT
                } else {
                    0
                },
                self.download_logs@.len() + (total - extra) == all.len(),
                self@.download_logs == all.subrange(total - extra, all.len() as int),
                (AppView { download_logs: all, ..self@ }) == (AppView {
                    download_logs: all,
                    ..old(self)@
                }),
            decreases extra,
        {
            let ghost now = self@.download_logs;
            self.download_logs.remove(0);
            assert(self@.download_logs =~= now.subrange(1, now.len() as int));
            assert(self@.download_logs =~= all.subrange(total - extra + 1, all.len() as int));
            extra -= 1;
        }
    }

    /// Takes in a line that the downloader wrote. Returns whether the line
    /// says that the download is complete.
    pub fn take_log(&mut self, line: &str) -> (complete: bool)
        ensures
            final(self)@ == log_taken(old(self)@, line@),
            complete == has(printable(line@, line@.len() as int), "Download Complete!"@),
    {
        let clean = strip_ansi_escapes(line);
        let chars = chars_of(clean.as_str());
        self.note_series(&chars);
        let complete = self.note_completion(&chars);
        self.log_line(clean);
        complete
    }

    /// Counts a tick of the timer: the page counter moves on, around after
    /// 99.
    pub fn tick(&mut self)
        ensures
            final(self)@ == (AppView {
                current_page: ((old(self).current_page + 1) % 100) as usize,
                ..old(self)@
            }),
    {
        proof {
            lemma_add_mod_noop(self.current_page as int, 1, 100);
            lemma_small_mod(1, 100);
        }
        self.current_page = (self.current_page % 100 + 1) % 100;
    }
}

} // verus!
