//! Series and chapters as a reader sees them, and the chapter number of a
//! file name.

use vstd::prelude::*;
use crate::catalog::{Catalog, CatalogView, ChapterRow, ChapterView};
use crate::extract::{chapter_number_in, decimal_of, read_by_position, read_capture, text_of};
use crate::number::{decimal_text, lemma_scaled_order, ChapterNumber, Decimal};
use crate::text::{chars_of, decimal_digits, digit_char, push_decimal, push_text, string_of};
use vstd::arithmetic::div_mod::lemma_div_is_ordered_by_denominator;

verus! {

/// The lower-case form of a text, as `str::to_lowercase` gives it.
pub uninterp spec fn lowercase_of(text: Seq<char>) -> Seq<char>;

/// What capture group 1 holds in the leftmost match of the regular expression
/// `pattern` in `text`: nothing if the pattern does not compile, does not
/// match, or matches without that group.
pub uninterp spec fn first_group_of(pattern: Seq<char>, text: Seq<char>) -> Option<Seq<char>>;

/// The pattern of the last rule: a bare run of two or three digits.
pub open spec fn digit_run_pattern() -> Seq<char> {
    seq!['(', '\\', 'd', '{', '2', ',', '3', '}', ')']
}

/// Calls `str::to_lowercase`, which maps every character of the text to its
/// Unicode lower-case form. The result depends on the text alone; nothing
/// else is claimed of it.
#[verifier::external_body]
pub(crate) fn lowercase(text: &str) -> (lower: String)
    ensures
        lower@ == lowercase_of(text@),
{
    text.to_lowercase()
}

/// Compiles `pattern` with `regex::Regex::new` and searches `text` with
/// `Regex::captures`, then hands out the text of group 1 (`Captures::get`,
/// `Match::as_str`). The result depends on the two texts alone; nothing else
/// is claimed of it.
#[verifier::external_body]
fn first_group(pattern: &str, text: &str) -> (found: Option<String>)
    ensures
        text_of(found) == first_group_of(pattern@, text@),
{
    let re = regex::Regex::new(pattern).ok()?;
    let caps = re.captures(text)?;
    Some(caps.get(1)?.as_str().to_string())
}

/// The pattern of the last rule, as a string.
fn digit_run_pattern_text() -> (pattern: String)
    ensures
        pattern@ == digit_run_pattern(),
{
    let chars = vec!['(', '\\', 'd', '{', '2', ',', '3', '}', ')'];
    assert(chars@ =~= digit_run_pattern());
    string_of(&chars)
}

/// Reads the chapter number out of a file name.
///
/// The name is lower-cased first. Then, for each marker in order ("ch",
/// "chapitre", "chapter", "chap", "#", "tome"), the run of digits and dots
/// that follows the marker's first occurrence is read; failing all markers,
/// the run that starts at the first digit of the name; failing that, the first
/// bare run of two or three digits. A run counts only if it writes a decimal.
/// `None` means that the name holds no number, which is no error.
pub fn extract_chapter_number(filename: &str) -> (n: Option<ChapterNumber>)
    ensures
        decimal_of(n) == chapter_number_in(
            lowercase_of(filename@),
            first_group_of(digit_run_pattern(), lowercase_of(filename@)),
        ),
{
    let lower = lowercase(filename);
    let chars = chars_of(lower.as_str());
    let found = read_by_position(&chars);
    if found.is_some() {
        return found;
    }
    let pattern = digit_run_pattern_text();
    let capture = first_group(pattern.as_str(), lower.as_str());
    read_capture(capture)
}

/// What a loader reports while it works.
#[derive(Debug, Clone)]
pub enum LoadingProgress {
    ScanningDirectory { current: String, total: usize, completed: usize },
    LoadingManga { name: String, completed: usize, total: usize },
    Complete { mangas: Vec<Manga> },
}

/// The read progress of one chapter.
#[derive(Debug, Clone)]
pub struct ChapterProgress {
    pub last_page: usize,
    pub total_pages: usize,
    pub read: bool,
}

/// A series with its chapters, as a reader sees it.
#[derive(Debug, Clone)]
pub struct Manga {
    pub id: i64,
    pub name: String,
    pub path: String,
    pub chapters: Vec<Chapter>,
    pub thumbnail: Option<String>,
    pub synopsis: Option<String>,
    pub source_url: Option<String>,
}

/// A chapter, as a reader sees it.
#[derive(Debug, Clone)]
pub struct Chapter {
    pub id: i64,
    pub manga_id: i64,
    pub num: ChapterNumber,
    pub path: String,
    pub title: String,
    pub read: bool,
    pub last_page_read: Option<usize>,
    pub full_pages_read: Option<usize>,
    pub size: u64,
    pub modified: u64,
}

/// Where a series comes from.
#[derive(Debug, Clone)]
pub enum MangaSource {
    Local(Manga),
    MangaDex { id: String, name: String, synopsis: Option<String>, thumbnail: Option<String> },
}

/// Where a chapter comes from.
#[derive(Debug, Clone)]
pub enum ChapterSource {
    Local(Chapter),
    MangaDex { id: String, number: String, title: Option<String>, language: String },
}

impl View for Chapter {
    type V = ChapterView;

    open spec fn view(&self) -> ChapterView {
        ChapterView {
            id: self.id as int,
            series_id: self.manga_id as int,
            number: self.num@,
            file: self.path@,
            read: self.read,
            last_page_read: self.last_page_read,
            full_pages_read: self.full_pages_read,
            size: self.size,
            modified: self.modified,
        }
    }
}

/// The title of the chapter with this number: "Chapter 12".
pub open spec fn chapter_title(number: Decimal) -> Seq<char> {
    seq!['C', 'h', 'a', 'p', 't', 'e', 'r', ' '] + decimal_text(number)
}

/// The label of the chapter with this number: "#12", "#12.5".
pub open spec fn chapter_label(number: Decimal) -> Seq<char> {
    seq!['#'] + decimal_text(number)
}

/// `size * 10 / unit`, rounded to the nearest whole number, a half to the
/// even one: the size in tenths of the unit.
pub open spec fn rounded_tenths(size: nat, unit: nat) -> nat {
    let q = size * 10 / unit;
    let rem = size * 10 % unit;
    if 2 * rem > unit || (2 * rem == unit && q % 2 == 1) {
        q + 1
    } else {
        q
    }
}

/// A number of tenths written with one decimal: "1.5" for fifteen.
pub open spec fn one_decimal(tenths: nat) -> Seq<char> {
    decimal_digits(tenths / 10) + seq!['.', digit_char(tenths % 10)]
}

/// The number of bytes in a kilobyte.
pub const KILOBYTE: u64 = 1024;

/// The number of bytes in a megabyte.
pub const MEGABYTE: u64 = 1_048_576;

/// The number of bytes in a gigabyte.
pub const GIGABYTE: u64 = 1_073_741_824;

/// How a size is written: in bytes below a kilobyte, and otherwise with one
/// decimal in the largest of kilobytes, megabytes and gigabytes that it
/// reaches.
pub open spec fn size_text(size: u64) -> Seq<char> {
    if size < KILOBYTE {
        decimal_digits(size as nat) + seq!['B']
    } else if size < MEGABYTE {
        one_decimal(rounded_tenths(size as nat, KILOBYTE as nat)) + seq!['K', 'B']
    } else if size < GIGABYTE {
        one_decimal(rounded_tenths(size as nat, MEGABYTE as nat)) + seq!['M', 'B']
    } else {
        one_decimal(rounded_tenths(size as nat, GIGABYTE as nat)) + seq!['G', 'B']
    }
}

/// The size in tenths of `unit`, rounded half to even.
pub fn tenths_of(size: u64, unit: u64) -> (tenths: u64)
    requires
        unit >= KILOBYTE,
    ensures
        tenths == rounded_tenths(size as nat, unit as nat),
{
    let scaled: u128 = size as u128 * 10;
    let wide: u128 = unit as u128;
    let q: u128 = scaled / wide;
    let rem: u128 = scaled % wide;
    proof {
        lemma_div_is_ordered_by_denominator(scaled as int, 1024, wide as int);
        assert(scaled / 1024 <= 0xffff_ffff_ffff_ffff * 10 / 1024);
    }
    let up = 2 * rem > wide || (2 * rem == wide && q % 2 == 1);
    if up {
        (q + 1) as u64
    } else {
        q as u64
    }
}

/// Appends a number of tenths, written with one decimal, to `out`.
pub fn push_one_decimal(out: &mut Vec<char>, tenths: u64)
    ensures
        final(out)@ == old(out)@ + one_decimal(tenths as nat),
{
    push_decimal(out, tenths / 10);
    out.push('.');
    out.push(crate::text::char_of_digit(tenths % 10));
    proof {
        assert(final(out)@ =~= old(out)@ + one_decimal(tenths as nat));
    }
}

impl Chapter {
    /// The label of the chapter: a hash sign and its number.
    pub fn number_display(&self) -> (label: String)
        ensures
            label@ == chapter_label(self@.number),
    {
        let mut out: Vec<char> = Vec::new();
        out.push('#');
        self.num.push_to(&mut out);
        assert(out@ =~= chapter_label(self@.number));
        string_of(&out)
    }

    /// The size of the chapter's file, as a reader sees it: "512B", "1.5KB",
    /// "3.2MB", "1.0GB".
    pub fn size_display(&self) -> (label: String)
        ensures
            label@ == size_text(self.size),
    {
        let mut out: Vec<char> = Vec::new();
        if self.size < KILOBYTE {
            push_decimal(&mut out, self.size);
            out.push('B');
        } else if self.size < MEGABYTE {
            push_one_decimal(&mut out, tenths_of(self.size, KILOBYTE));
            out.push('K');
            out.push('B');
        } else if self.size < GIGABYTE {
            push_one_decimal(&mut out, tenths_of(self.size, MEGABYTE));
            out.push('M');
            out.push('B');
        } else {
            push_one_decimal(&mut out, tenths_of(self.size, GIGABYTE));
            out.push('G');
            out.push('B');
        }
        assert(out@ =~= size_text(self.size));
        string_of(&out)
    }

    /// Records read progress on this chapter and in the catalogue: the read
    /// flag, the last page read and the number of pages. Returns whether the
    /// catalogue stores the chapter; if it does not, only this value changes.
    pub fn update_progress(
        &mut self,
        catalog: &mut Catalog,
        last_page: usize,
        total_pages: usize,
        read: bool,
    ) -> (stored: bool)
        requires
            old(catalog).wf(),
        ensures
            final(catalog).wf(),
            final(self)@ == (ChapterView {
                read,
                last_page_read: Some(last_page),
                full_pages_read: Some(total_pages),
                ..old(self)@
            }),
            final(self).title == old(self).title,
            stored == old(catalog)@.has_chapter_id(old(self).id as int),
            stored ==> final(catalog)@ == old(catalog)@.with_progress(
                old(self).id as int,
                read,
                Some(last_page),
                Some(total_pages),
            ),
            !stored ==> final(catalog)@ == old(catalog)@,
    {
        self.read = read;
        self.last_page_read = Some(last_page);
        self.full_pages_read = Some(total_pages);
        catalog.update_progress(self.id, last_page, total_pages, read)
    }
}

/// The chapter that shows a stored row: the same fields, and the title that
/// goes with the number.
pub fn chapter_of(row: &ChapterRow) -> (ch: Chapter)
    ensures
        ch@ == row@,
        ch.title@ == chapter_title(row@.number),
{
    let mut title: Vec<char> = Vec::new();
    push_text(&mut title, "Chapter ");
    proof {
        reveal_strlit("Chapter ");
        assert(title@ =~= seq!['C', 'h', 'a', 'p', 't', 'e', 'r', ' ']);
    }
    row.num.push_to(&mut title);
    Chapter {
        id: row.id,
        manga_id: row.manga_id,
        num: row.num,
        path: row.file.clone(),
        title: string_of(&title),
        read: row.read,
        last_page_read: row.last_page_read,
        full_pages_read: row.full_pages_read,
        size: row.size,
        modified: row.modified,
    }
}

/// Whether `ch` shows a row of `c`, with the title that goes with its
/// number.
pub open spec fn shows_row(c: CatalogView, j: int, ch: Chapter) -> bool {
    0 <= j < c.chapters.len() && c.chapters[j] == ch@ && ch.title@ == chapter_title(
        ch@.number,
    )
}

/// Whether the row `j` of `c` is shown at position `k` of `shown`.
pub open spec fn row_at(c: CatalogView, j: int, shown: Seq<Chapter>, k: int) -> bool {
    0 <= k < shown.len() && shown[k]@ == c.chapters[j]
}

/// Whether `shown` lists the chapters of the series `series_id` among the
/// first `upto` rows of `c`: each of them once, nothing else, in the order of
/// their numbers.
pub open spec fn lists_chapters(c: CatalogView, series_id: int, upto: int, shown: Seq<Chapter>) -> bool {
    &&& forall|a: int, b: int|
        0 <= a < b < shown.len() ==> (#[trigger] shown[a])@.number.scaled() < (
        #[trigger] shown[b])@.number.scaled()
    &&& forall|k: int|
        0 <= k < shown.len() ==> (#[trigger] shown[k])@.series_id == series_id && exists|j: int|
            0 <= j < upto && #[trigger] shows_row(c, j, shown[k])
    &&& forall|j: int|
        0 <= j < upto && (#[trigger] c.chapters[j]).series_id == series_id ==> exists|k: int|
            #[trigger] row_at(c, j, shown, k)
}

/// Whether `mangas` shows the catalogue `c`: one entry per stored series, in
/// the order of their ids, each with the fields of its series, its name as
/// its path, and its chapters in the order of their numbers.
pub open spec fn shows_catalog(c: CatalogView, mangas: Seq<Manga>) -> bool {
    &&& mangas.len() == c.series.len()
    &&& forall|i: int|
        0 <= i < mangas.len() ==> {
            let m = #[trigger] mangas[i];
            &&& m.id == c.series[i].id
            &&& m.name@ == c.series[i].name
            &&& m.path@ == c.series[i].name
            &&& text_of(m.thumbnail) == c.series[i].thumbnail
            &&& text_of(m.synopsis) == c.series[i].synopsis
            &&& text_of(m.source_url) == c.series[i].source_url
            &&& lists_chapters(c, c.series[i].id, c.chapters.len() as int, m.chapters@)
        }
}

/// The chapters of one series, in the order of their numbers.
pub fn load_chapters(catalog: &Catalog, series_id: i64) -> (shown: Vec<Chapter>)
    requires
        catalog.wf(),
    ensures
        lists_chapters(catalog@, series_id as int, catalog@.chapters.len() as int, shown@),
{
    let rows = catalog.chapters();
    let ghost c = catalog@;
    let n: usize = rows.len();
    let mut shown: Vec<Chapter> = Vec::new();
    let mut j: usize = 0;
    while j < n
        invariant
            c == catalog@,
            c.wf(),
            crate::catalog::chapter_views(rows@) == c.chapters,
            n == rows@.len(),
            j <= n,
            lists_chapters(c, series_id as int, j as int, shown@),
        decreases n - j,
    {
        assert(rows@[j as int]@ == c.chapters[j as int]);
        if rows[j].manga_id == series_id {
            let ch = chapter_of(&rows[j]);
            let m: usize = shown.len();
            let mut p: usize = 0;
            while p < m && shown[p].num.lt(&ch.num)
                invariant
                    m == shown@.len(),
                    p <= m,
                    forall|k: int|
                        0 <= k < p ==> (#[trigger] shown@[k])@.number.scaled()
                            < ch@.number.scaled(),
                decreases m - p,
            {
                p += 1;
            }
            let ghost before = shown@;
            shown.insert(p, ch);
            proof {
                let after = shown@;
                assert forall|k: int| 0 <= k < before.len() implies (#[trigger] before[k])@.number.scaled()
                    != ch@.number.scaled() by {
                    let r = choose|r: int| 0 <= r < j && #[trigger] shows_row(c, r, before[k]);
                    assert(c.chapters[r].series_id == c.chapters[j as int].series_id);
                    lemma_scaled_order(c.chapters[r].number, c.chapters[j as int].number);
                }
                assert forall|a: int, b: int| 0 <= a < b < after.len() implies (
                #[trigger] after[a])@.number.scaled() < (#[trigger] after[b])@.number.scaled() by {
                    if b < p {
                        assert(after[a] == before[a] && after[b] == before[b]);
                    } else if b == p {
                        assert(after[a] == before[a]);
                    } else if a < p {
                        assert(after[a] == before[a] && after[b] == before[b - 1]);
                    } else if a == p {
                        assert(after[b] == before[b - 1]);
                        assert(before[p as int]@.number.scaled() >= ch@.number.scaled());
                        if b - 1 > p {
                            assert(before[p as int]@.number.scaled() < before[b - 1]@.number.scaled());
                        }
                    } else {
                        assert(after[a] == before[a - 1] && after[b] == before[b - 1]);
                    }
                }
                assert forall|k: int| 0 <= k < after.len() implies (#[trigger] after[k])@.series_id
                    == series_id && exists|r: int| 0 <= r < j + 1 && #[trigger] shows_row(c, r, after[k]) by {
                    if k < p {
                        assert(after[k] == before[k]);
                        let r = choose|r: int| 0 <= r < j && #[trigger] shows_row(c, r, before[k]);
                        assert(shows_row(c, r, after[k]));
                    } else if k == p {
                        assert(shows_row(c, j as int, after[k]));
                    } else {
                        assert(after[k] == before[k - 1]);
                        let r = choose|r: int|
                            0 <= r < j && #[trigger] shows_row(c, r, before[k - 1]);
                        assert(shows_row(c, r, after[k]));
                    }
                }
                assert forall|r: int|
                    0 <= r < j + 1 && (#[trigger] c.chapters[r]).series_id
                        == series_id implies exists|k: int| #[trigger] row_at(c, r, after, k) by {
                    if r < j {
                        let k = choose|k: int| #[trigger] row_at(c, r, before, k);
                        if k < p {
                            assert(row_at(c, r, after, k));
                        } else {
                            assert(after[k + 1] == before[k]);
                            assert(row_at(c, r, after, k + 1));
                        }
                    } else {
                        assert(row_at(c, r, after, p as int));
                    }
                }
            }
        }
        j += 1;
    }
    shown
}

/// A copy of an optional text.
pub fn copy_text(text: &Option<String>) -> (copy: Option<String>)
    ensures
        text_of(copy) == text_of(*text),
{
    match text {
        Some(s) => Some(s.clone()),
        None => None,
    }
}

impl Manga {
    /// Loads the catalogue into the lists a reader sees: every stored series
    /// in the order of the ids, with its cover, synopsis and source, and with
    /// its chapters in ascending order of their numbers. Nothing is written.
    pub fn load_all_from_db(catalog: &Catalog) -> (mangas: Vec<Manga>)
        requires
            catalog.wf(),
        ensures
            shows_catalog(catalog@, mangas@),
    {
        let series = catalog.series();
        let ghost c = catalog@;
        let n: usize = series.len();
        let mut mangas: Vec<Manga> = Vec::new();
        let mut i: usize = 0;
        while i < n
            invariant
                c == catalog@,
                catalog.wf(),
                crate::catalog::series_views(series@) == c.series,
                n == series@.len(),
                i <= n,
                mangas@.len() == i,
                forall|k: int|
                    0 <= k < i ==> {
                        let m = #[trigger] mangas@[k];
                        &&& m.id == c.series[k].id
                        &&& m.name@ == c.series[k].name
                        &&& m.path@ == c.series[k].name
                        &&& text_of(m.thumbnail) == c.series[k].thumbnail
                        &&& text_of(m.synopsis) == c.series[k].synopsis
                        &&& text_of(m.source_url) == c.series[k].source_url
                        &&& lists_chapters(c, c.series[k].id, c.chapters.len() as int, m.chapters@)
                    },
            decreases n - i,
        {
            let row = &series[i];
            assert(row@ == c.series[i as int]);
            let manga = Manga {
                id: row.id,
                name: row.name.clone(),
                path: row.name.clone(),
                chapters: load_chapters(catalog, row.id),
                thumbnail: copy_text(&row.ta),
                synopsis: copy_text(&row.synopsis),
                source_url: copy_text(&row.source_url),
            };
            mangas.push(manga);
            i += 1;
        }
        mangas
    }

    /// Read progress lives in the catalogue, so there is nothing to load.
    pub fn load_progress_lazy(&mut self)
        ensures
            *final(self) == *old(self),
    {
    }

    /// Read progress lives in the catalogue, so there is nothing to reload.
    pub fn reload_progress(&mut self)
        ensures
            *final(self) == *old(self),
    {
        self.load_progress_lazy();
    }
}

} // verus!
