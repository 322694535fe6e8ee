//! What a walk of the library root is asked: which files are chapters, which
//! file of a series directory is its cover, and what a synopsis file says.
//!
//! Nothing here touches the disk. The caller lists directories and reads
//! files, and hands over names and texts.

use vstd::prelude::*;
use crate::catalog::holds_name;
use crate::catalog::name_set;
use crate::manga_indexer::ScannedFile;
use crate::text::{
    chars_of, find, first_occurrence, first_occurrence_from, lemma_first_occurrence_from,
    matches_at, occurs_at, owned, string_of_range,
};

verus! {

/// The lower-case form of an ASCII capital, and any other character as it is.
pub open spec fn ascii_lower(c: char) -> char {
    if 'A' <= c && c <= 'Z' {
        ((c as u8) + 32) as char
    } else {
        c
    }
}

/// The position of the last dot of `s` among its first `upto` characters, or
/// -1 if there is none.
pub open spec fn last_dot(s: Seq<char>, upto: int) -> int
    decreases upto,
{
    if upto <= 0 {
        -1
    } else if s[upto - 1] == '.' {
        upto - 1
    } else {
        last_dot(s, upto - 1)
    }
}

/// The extension of a file name: what follows its last dot, unless the name
/// has no dot or its only dot is its first character.
pub open spec fn extension(name: Seq<char>) -> Option<Seq<char>> {
    let dot = last_dot(name, name.len() as int);
    if dot > 0 {
        Some(name.subrange(dot + 1, name.len() as int))
    } else {
        None
    }
}

/// Whether `ext` is `word` up to the case of ASCII letters.
pub open spec fn same_ignoring_case(ext: Seq<char>, word: Seq<char>) -> bool {
    ext.len() == word.len() && forall|i: int|
        0 <= i < ext.len() ==> ascii_lower(#[trigger] ext[i]) == word[i]
}

/// Whether a file of this name is a chapter: its extension is "cbr", "cbz"
/// or "pdf", in any case.
pub open spec fn is_chapter_name(name: Seq<char>) -> bool {
    match extension(name) {
        Some(ext) => same_ignoring_case(ext, seq!['c', 'b', 'r']) || same_ignoring_case(
            ext,
            seq!['c', 'b', 'z'],
        ) || same_ignoring_case(ext, seq!['p', 'd', 'f']),
        None => false,
    }
}

/// The lower-case form of an ASCII capital, and any other character as it is.
pub fn to_ascii_lower(c: char) -> (l: char)
    ensures
        l == ascii_lower(c),
{
    if 'A' <= c && c <= 'Z' {
        ((c as u8) + 32) as char
    } else {
        c
    }
}

/// Tests whether `chars[from..]` is the three-letter word `a b c`, up to the
/// case of ASCII letters.
fn is_word(chars: &Vec<char>, from: usize, a: char, b: char, c: char) -> (same: bool)
    requires
        from <= chars@.len(),
    ensures
        same == same_ignoring_case(chars@.subrange(from as int, chars@.len() as int), seq![a, b, c]),
{
    let n: usize = chars.len();
    let ghost ext = chars@.subrange(from as int, n as int);
    if n - from != 3 {
        return false;
    }
    let same = to_ascii_lower(chars[from]) == a && to_ascii_lower(chars[from + 1]) == b
        && to_ascii_lower(chars[from + 2]) == c;
    proof {
        assert(ext[0] == chars@[from as int]);
        assert(ext[1] == chars@[from + 1]);
        assert(ext[2] == chars@[from + 2]);
        assert(seq![a, b, c][0] == a && seq![a, b, c][1] == b && seq![a, b, c][2] == c);
    }
    same
}

/// Decides whether a file of this name is a chapter: whether its extension
/// is "cbr", "cbz" or "pdf", in any case.
pub fn is_chapter_file(file_name: &str) -> (chapter: bool)
    ensures
        chapter == is_chapter_name(file_name@),
{
    let chars = chars_of(file_name);
    let n: usize = chars.len();
    let mut upto: usize = n;
    while upto > 0 && chars[upto - 1] != '.'
        invariant
            n == chars@.len(),
            upto <= n,
            last_dot(chars@, n as int) == last_dot(chars@, upto as int),
        decreases upto,
    {
        upto -= 1;
    }
    if upto <= 1 {
        return false;
    }
    is_word(&chars, upto, 'c', 'b', 'r') || is_word(&chars, upto, 'c', 'b', 'z') || is_word(
        &chars,
        upto,
        'p',
        'd',
        'f',
    )
}

/// The number of file names that are tried as the cover of a series.
pub const COVER_CANDIDATES: usize = 9;

/// The file names that are tried as the cover of a series, in the order in
/// which they are tried.
pub open spec fn cover_names() -> Seq<Seq<char>> {
    seq![
        "cover.jpg"@,
        "cover.jpeg"@,
        "cover.png"@,
        "thumbnail.jpg"@,
        "thumbnail.jpeg"@,
        "thumbnail.png"@,
        "poster.jpg"@,
        "poster.jpeg"@,
        "poster.png"@,
    ]
}

/// The `i`-th file name that is tried as the cover of a series.
pub fn cover_candidate(i: usize) -> (name: &'static str)
    requires
        i < COVER_CANDIDATES,
    ensures
        name@ == cover_names()[i as int],
{
    if i == 0 {
        "cover.jpg"
    } else if i == 1 {
        "cover.jpeg"
    } else if i == 2 {
        "cover.png"
    } else if i == 3 {
        "thumbnail.jpg"
    } else if i == 4 {
        "thumbnail.jpeg"
    } else if i == 5 {
        "thumbnail.png"
    } else if i == 6 {
        "poster.jpg"
    } else if i == 7 {
        "poster.jpeg"
    } else {
        "poster.png"
    }
}

/// Picks the cover of a series out of the names of the files in its
/// directory: the first candidate, in the order of `cover_names`, that is
/// among them. Returns its position in that order.
pub fn pick_cover(present: &Vec<String>) -> (picked: Option<usize>)
    ensures
        match picked {
            Some(i) => i < COVER_CANDIDATES && name_set(present@).contains(cover_names()[i as int])
                && forall|j: int|
                0 <= j < i ==> !name_set(present@).contains(#[trigger] cover_names()[j]),
            None => forall|j: int|
                0 <= j < COVER_CANDIDATES ==> !name_set(present@).contains(
                    #[trigger] cover_names()[j],
                ),
        },
{
    let mut i: usize = 0;
    while i < COVER_CANDIDATES
        invariant
            i <= COVER_CANDIDATES,
            forall|j: int| 0 <= j < i ==> !name_set(present@).contains(#[trigger] cover_names()[j]),
        decreases COVER_CANDIDATES - i,
    {
        if holds_name(present, cover_candidate(i)) {
            return Some(i);
        }
        i += 1;
    }
    None
}

/// Whether `c` is white space: a character with the Unicode property
/// White_Space.
pub open spec fn is_space(c: char) -> bool {
    let u = c as u32;
    (0x09 <= u && u <= 0x0d) || u == 0x20 || u == 0x85 || u == 0xa0 || u == 0x1680 || (0x2000 <= u
        && u <= 0x200a) || u == 0x2028 || u == 0x2029 || u == 0x202f || u == 0x205f || u == 0x3000
}

/// The first position at or after `from` and before `to` that holds no white
/// space, or `to` if there is none.
pub open spec fn text_start(s: Seq<char>, from: int, to: int) -> int
    decreases to - from,
{
    if from >= to {
        to
    } else if !is_space(s[from]) {
        from
    } else {
        text_start(s, from + 1, to)
    }
}

/// The end of the text that remains of `s[from..to]` when the white space at
/// its end is dropped.
pub open spec fn text_end(s: Seq<char>, from: int, to: int) -> int
    decreases to - from,
{
    if from >= to {
        from
    } else if !is_space(s[to - 1]) {
        to
    } else {
        text_end(s, from, to - 1)
    }
}

/// `s[from..to]` without the white space at its start and at its end.
pub open spec fn trimmed(s: Seq<char>, from: int, to: int) -> Seq<char> {
    s.subrange(text_start(s, from, to), text_end(s, text_start(s, from, to), to))
}

/// The marker that parts a synopsis from the address of its source.
pub open spec fn source_marker() -> Seq<char> {
    seq!['\n', 'S', 'o', 'u', 'r', 'c', 'e', ':', ' ']
}

/// The start of an address that is kept.
pub open spec fn address_start() -> Seq<char> {
    seq!['h', 't', 't', 'p']
}

/// Where the synopsis ends: at the first source marker, or at the end of the
/// text.
pub open spec fn synopsis_end(text: Seq<char>) -> int {
    match first_occurrence(text, source_marker()) {
        Some(at) => at,
        None => text.len() as int,
    }
}

/// The synopsis that a synopsis file holds: what stands before the first
/// source marker, without the white space around it.
pub open spec fn synopsis_of(text: Seq<char>) -> Seq<char> {
    trimmed(text, 0, synopsis_end(text))
}

/// The source that a synopsis file names: what stands between the first
/// source marker and the next one, or the end of the text, without the white
/// space around it, if that starts with "http".
pub open spec fn source_of(text: Seq<char>) -> Option<Seq<char>> {
    match first_occurrence(text, source_marker()) {
        Some(at) => {
            let from = at + source_marker().len();
            let to = match first_occurrence_from(text, source_marker(), from) {
                Some(next) => next,
                None => text.len() as int,
            };
            let address = trimmed(text, from, to);
            if occurs_at(address, address_start(), 0) {
                Some(address)
            } else {
                None
            }
        },
        None => None,
    }
}

/// Tests whether `c` is white space.
pub fn char_is_space(c: char) -> (b: bool)
    ensures
        b == is_space(c),
{
    let u: u32 = c as u32;
    (0x09 <= u && u <= 0x0d) || u == 0x20 || u == 0x85 || u == 0xa0 || u == 0x1680 || (0x2000 <= u
        && u <= 0x200a) || u == 0x2028 || u == 0x2029 || u == 0x202f || u == 0x205f || u == 0x3000
}

/// Finds `chars[from..to]` without the white space around it.
pub fn trim(chars: &Vec<char>, from: usize, to: usize) -> (bounds: (usize, usize))
    requires
        from <= to <= chars@.len(),
    ensures
        bounds.0 == text_start(chars@, from as int, to as int),
        bounds.1 == text_end(chars@, bounds.0 as int, to as int),
        from <= bounds.0 <= bounds.1 <= to,
{
    let mut start: usize = from;
    while start < to && char_is_space(chars[start])
        invariant
            from <= start <= to <= chars@.len(),
            text_start(chars@, from as int, to as int) == text_start(
                chars@,
                start as int,
                to as int,
            ),
        decreases to - start,
    {
        start += 1;
    }
    let mut end: usize = to;
    while end > start && char_is_space(chars[end - 1])
        invariant
            start <= end <= to <= chars@.len(),
            text_end(chars@, start as int, to as int) == text_end(chars@, start as int, end as int),
        decreases end - start,
    {
        end -= 1;
    }
    (start, end)
}

/// Finds the first occurrence of `needle` in `hay` at or after `from`.
pub fn find_from(hay: &Vec<char>, needle: &Vec<char>, from: usize) -> (found: Option<usize>)
    ensures
        match found {
            Some(at) => first_occurrence_from(hay@, needle@, from as int) == Some(at as int),
            None => first_occurrence_from(hay@, needle@, from as int) is None,
        },
{
    let n: usize = hay.len();
    let m: usize = needle.len();
    if m > n || from > n - m {
        return None;
    }
    let last: usize = n - m;
    let mut at: usize = from;
    loop
        invariant
            n == hay@.len(),
            m == needle@.len(),
            last == n - m,
            from <= at <= last,
            first_occurrence_from(hay@, needle@, from as int) == first_occurrence_from(
                hay@,
                needle@,
                at as int,
            ),
        decreases last - at,
    {
        if matches_at(hay, needle, at) {
            return Some(at);
        }
        if at == last {
            assert(first_occurrence_from(hay@, needle@, at + 1) is None);
            return None;
        }
        at += 1;
    }
}

/// Parts the text of a synopsis file into the synopsis and the address of
/// the source.
///
/// The synopsis is what stands before the first "\nSource: ", without the
/// white space around it. The address is what follows that marker, up to the
/// next one, without the white space around it, and is kept only if it starts
/// with "http".
pub fn split_synopsis(text: &str) -> (parts: (String, Option<String>))
    ensures
        parts.0@ == synopsis_of(text@),
        crate::extract::text_of(parts.1) == source_of(text@),
{
    let chars = chars_of(text);
    let n: usize = chars.len();
    let marker = vec!['\n', 'S', 'o', 'u', 'r', 'c', 'e', ':', ' '];
    let http = vec!['h', 't', 't', 'p'];
    assert(marker@ =~= source_marker());
    assert(http@ =~= address_start());
    match find(&chars, &marker) {
        Some(at) => {
            proof {
                lemma_first_occurrence_from(chars@, marker@, 0);
                assert(occurs_at(chars@, marker@, at as int));
            }
            let (a, b) = trim(&chars, 0, at);
            let synopsis = string_of_range(&chars, a, b);
            let from = at + marker.len();
            let to = match find_from(&chars, &marker, from) {
                Some(next) => {
                    proof {
                        lemma_first_occurrence_from(chars@, marker@, from as int);
                        assert(occurs_at(chars@, marker@, next as int));
                    }
                    next
                },
                None => n,
            };
            let (c, d) = trim(&chars, from, to);
            let address = string_of_range(&chars, c, d);
            let address_chars = chars_of(address.as_str());
            if matches_at(&address_chars, &http, 0) {
                (synopsis, Some(address))
            } else {
                (synopsis, None)
            }
        },
        None => {
            let (a, b) = trim(&chars, 0, n);
            (string_of_range(&chars, a, b), None)
        },
    }
}

/// Puts together what is known of one chapter file: its series, name, path,
/// size and modification time, the cover of its series if one was found, and
/// the synopsis and the source read from the text of the synopsis file if
/// there is one.
pub fn scanned_file(
    series: &str,
    file_name: &str,
    path: &str,
    size: u64,
    modified: u64,
    cover: Option<String>,
    synopsis_text: Option<&str>,
) -> (file: ScannedFile)
    ensures
        file.series@ == series@,
        file.file_name@ == file_name@,
        file.path@ == path@,
        file.size == size,
        file.modified == modified,
        file.cover == cover,
        match synopsis_text {
            Some(text) => file.synopsis matches Some(s) && s@ == synopsis_of(text@)
                && crate::extract::text_of(file.source_url) == source_of(text@),
            None => file.synopsis is None && file.source_url is None,
        },
{
    let (synopsis, source_url) = match synopsis_text {
        Some(text) => {
            let (s, u) = split_synopsis(text);
            (Some(s), u)
        },
        None => (None, None),
    };
    ScannedFile {
        series: owned(series),
        file_name: owned(file_name),
        path: owned(path),
        size,
        modified,
        cover,
        synopsis,
        source_url,
    }
}

} // verus!
