//! The catalogue: the series and chapters that are known, and the time of the
//! last full scan.
//!
//! The catalogue is a small relational store held in memory. Series are keyed
//! by name, chapters by the pair of their series and their number, and both
//! carry surrogate ids that are handed out in increasing order and never used
//! twice. Writing a chapter that is already known refreshes its file, size and
//! modification time and leaves its read progress alone.

use vstd::prelude::*;
use crate::extract::text_of;
use crate::manga_indexer::Manga;
use crate::number::{ChapterNumber, Decimal};
use crate::text::{owned, same_text};

verus! {

/// A series row as contracts see it.
pub ghost struct SeriesView {
    pub id: int,
    pub name: Seq<char>,
    pub thumbnail: Option<Seq<char>>,
    pub synopsis: Option<Seq<char>>,
    pub source_url: Option<Seq<char>>,
}

/// A chapter row as contracts see it.
pub ghost struct ChapterView {
    pub id: int,
    pub series_id: int,
    pub number: Decimal,
    pub file: Seq<char>,
    pub read: bool,
    pub last_page_read: Option<usize>,
    pub full_pages_read: Option<usize>,
    pub size: u64,
    pub modified: u64,
}

/// The catalogue as contracts see it.
pub ghost struct CatalogView {
    pub series: Seq<SeriesView>,
    pub chapters: Seq<ChapterView>,
    pub last_series_id: int,
    pub last_chapter_id: int,
    pub last_scan_time: Option<i64>,
}

impl View for Manga {
    type V = SeriesView;

    open spec fn view(&self) -> SeriesView {
        SeriesView {
            id: self.id as int,
            name: self.name@,
            thumbnail: text_of(self.ta),
            synopsis: text_of(self.synopsis),
            source_url: text_of(self.source_url),
        }
    }
}

/// A chapter as the catalogue stores it.
pub struct ChapterRow {
    pub id: i64,
    pub manga_id: i64,
    pub num: ChapterNumber,
    pub file: String,
    pub read: bool,
    pub last_page_read: Option<usize>,
    pub full_pages_read: Option<usize>,
    pub size: u64,
    pub modified: u64,
}

impl View for ChapterRow {
    type V = ChapterView;

    open spec fn view(&self) -> ChapterView {
        ChapterView {
            id: self.id as int,
            series_id: self.manga_id as int,
            number: self.num@,
            file: self.file@,
            read: self.read,
            last_page_read: self.last_page_read,
            full_pages_read: self.full_pages_read,
            size: self.size,
            modified: self.modified,
        }
    }
}

/// The views of a vector of series rows.
pub open spec fn series_views(rows: Seq<Manga>) -> Seq<SeriesView> {
    rows.map_values(|m: Manga| m@)
}

/// The views of a vector of chapter rows.
pub open spec fn chapter_views(rows: Seq<ChapterRow>) -> Seq<ChapterView> {
    rows.map_values(|c: ChapterRow| c@)
}

/// Holds of the series whose id is not in `dropped`.
pub open spec fn series_outside(dropped: Set<int>) -> spec_fn(SeriesView) -> bool {
    |s: SeriesView| !dropped.contains(s.id)
}

/// Holds of the chapters whose series is not in `dropped`.
pub open spec fn chapters_outside(dropped: Set<int>) -> spec_fn(ChapterView) -> bool {
    |c: ChapterView| !dropped.contains(c.series_id)
}

/// The ids held by a vector, as a set.
pub open spec fn id_set(ids: Seq<i64>) -> Set<int> {
    Set::new(|id: int| exists|k: int| 0 <= k < ids.len() && #[trigger] ids[k] == id)
}

/// The names held by a vector, as a set.
pub open spec fn name_set(names: Seq<String>) -> Set<Seq<char>> {
    Set::new(|name: Seq<char>| exists|k: int| 0 <= k < names.len() && (#[trigger] names[k])@ == name)
}

impl CatalogView {
    /// Whether a series of this name is stored.
    pub open spec fn has_series(self, name: Seq<char>) -> bool {
        exists|i: int| 0 <= i < self.series.len() && #[trigger] self.series[i].name == name
    }

    /// The position of the series of this name.
    pub open spec fn series_at(self, name: Seq<char>) -> int {
        choose|i: int| 0 <= i < self.series.len() && #[trigger] self.series[i].name == name
    }

    /// Whether a series with this id is stored.
    pub open spec fn has_series_id(self, id: int) -> bool {
        exists|i: int| 0 <= i < self.series.len() && #[trigger] self.series[i].id == id
    }

    /// Whether the chapter at position `i` has this series and number.
    pub open spec fn chapter_is(self, i: int, series_id: int, number: Decimal) -> bool {
        self.chapters[i].series_id == series_id && self.chapters[i].number == number
    }

    /// Whether a chapter of this series with this number is stored.
    pub open spec fn has_chapter(self, series_id: int, number: Decimal) -> bool {
        exists|i: int| 0 <= i < self.chapters.len() && #[trigger] self.chapter_is(i, series_id, number)
    }

    /// The position of the chapter of this series with this number.
    pub open spec fn chapter_at(self, series_id: int, number: Decimal) -> int {
        choose|i: int| 0 <= i < self.chapters.len() && #[trigger] self.chapter_is(i, series_id, number)
    }

    /// Whether a chapter with this id is stored.
    pub open spec fn has_chapter_id(self, id: int) -> bool {
        exists|i: int| 0 <= i < self.chapters.len() && #[trigger] self.chapters[i].id == id
    }

    /// The position of the chapter with this id.
    pub open spec fn chapter_id_at(self, id: int) -> int {
        choose|i: int| 0 <= i < self.chapters.len() && #[trigger] self.chapters[i].id == id
    }

    /// The id under which the series `name` is stored, or the next id to be
    /// handed out if it is not stored yet.
    pub open spec fn series_id_of(self, name: Seq<char>) -> int {
        if self.has_series(name) {
            self.series[self.series_at(name)].id
        } else {
            self.last_series_id + 1
        }
    }

    /// The catalogue after the series `name` was written with these three
    /// fields: a stored series keeps its id and takes the fields, a new one
    /// gets the next id.
    pub open spec fn with_series(
        self,
        name: Seq<char>,
        thumbnail: Option<Seq<char>>,
        synopsis: Option<Seq<char>>,
        source_url: Option<Seq<char>>,
    ) -> CatalogView {
        if self.has_series(name) {
            let i = self.series_at(name);
            CatalogView {
                series: self.series.update(
                    i,
                    SeriesView { thumbnail, synopsis, source_url, ..self.series[i] },
                ),
                ..self
            }
        } else {
            CatalogView {
                series: self.series.push(
                    SeriesView { id: self.last_series_id + 1, name, thumbnail, synopsis, source_url },
                ),
                last_series_id: self.last_series_id + 1,
                ..self
            }
        }
    }

    /// The catalogue after the series `name` was looked up or, if it was not
    /// stored, created with empty fields.
    pub open spec fn with_series_known(self, name: Seq<char>) -> CatalogView {
        if self.has_series(name) {
            self
        } else {
            self.with_series(name, None, None, None)
        }
    }

    /// The id under which the chapter is stored, or the next id to be handed
    /// out if it is not stored yet.
    pub open spec fn chapter_id_of(self, series_id: int, number: Decimal) -> int {
        if self.has_chapter(series_id, number) {
            self.chapters[self.chapter_at(series_id, number)].id
        } else {
            self.last_chapter_id + 1
        }
    }

    /// The catalogue after a chapter was written: a stored chapter keeps its
    /// id and its read progress and takes the file, the size and the
    /// modification time; a new one gets the next id and starts unread.
    pub open spec fn with_chapter(
        self,
        series_id: int,
        number: Decimal,
        file: Seq<char>,
        size: u64,
        modified: u64,
    ) -> CatalogView {
        if self.has_chapter(series_id, number) {
            let i = self.chapter_at(series_id, number);
            CatalogView {
                chapters: self.chapters.update(
                    i,
                    ChapterView { file, size, modified, ..self.chapters[i] },
                ),
                ..self
            }
        } else {
            CatalogView {
                chapters: self.chapters.push(
                    ChapterView {
                        id: self.last_chapter_id + 1,
                        series_id,
                        number,
                        file,
                        read: false,
                        last_page_read: None,
                        full_pages_read: None,
                        size,
                        modified,
                    },
                ),
                last_chapter_id: self.last_chapter_id + 1,
                ..self
            }
        }
    }

    /// The catalogue after the progress of the chapter with this id was set.
    pub open spec fn with_progress(
        self,
        chapter_id: int,
        read: bool,
        last_page_read: Option<usize>,
        full_pages_read: Option<usize>,
    ) -> CatalogView {
        let i = self.chapter_id_at(chapter_id);
        CatalogView {
            chapters: self.chapters.update(
                i,
                ChapterView { read, last_page_read, full_pages_read, ..self.chapters[i] },
            ),
            ..self
        }
    }

    /// The catalogue without the series whose ids are in `dropped` and without
    /// the chapters of those series.
    pub open spec fn without_series_in(self, dropped: Set<int>) -> CatalogView {
        CatalogView {
            series: self.series.filter(series_outside(dropped)),
            chapters: self.chapters.filter(chapters_outside(dropped)),
            ..self
        }
    }

    /// The catalogue without the series `id` and without its chapters.
    pub open spec fn without_series(self, id: int) -> CatalogView {
        self.without_series_in(set![id])
    }

    /// The ids of the stored series whose names are not in `keep`.
    pub open spec fn ids_outside(self, keep: Set<Seq<char>>) -> Set<int> {
        Set::new(
            |id: int|
                exists|i: int|
                    0 <= i < self.series.len() && (#[trigger] self.series[i]).id == id
                        && !keep.contains(self.series[i].name),
        )
    }

    /// The catalogue without the series whose names are not in `keep`, and
    /// without their chapters.
    pub open spec fn pruned(self, keep: Set<Seq<char>>) -> CatalogView {
        self.without_series_in(self.ids_outside(keep))
    }

    /// The invariant of the store: ids are positive, increase along the rows
    /// and do not exceed the last id handed out; no two series share a name;
    /// no two chapters share a series and a number; every chapter belongs to a
    /// stored series.
    pub open spec fn wf(self) -> bool {
        &&& 0 <= self.last_series_id <= i64::MAX
        &&& 0 <= self.last_chapter_id <= i64::MAX
        &&& forall|i: int|
            0 <= i < self.series.len() ==> 0 < (#[trigger] self.series[i]).id
                <= self.last_series_id
        &&& forall|i: int, j: int|
            0 <= i < j < self.series.len() ==> (#[trigger] self.series[i]).id
                < (#[trigger] self.series[j]).id
        &&& forall|i: int, j: int|
            0 <= i < self.series.len() && 0 <= j < self.series.len() && (
            #[trigger] self.series[i]).name == (#[trigger] self.series[j]).name ==> i == j
        &&& forall|i: int|
            0 <= i < self.chapters.len() ==> 0 < (#[trigger] self.chapters[i]).id
                <= self.last_chapter_id
        &&& forall|i: int, j: int|
            0 <= i < j < self.chapters.len() ==> (#[trigger] self.chapters[i]).id
                < (#[trigger] self.chapters[j]).id
        &&& forall|i: int, j: int|
            0 <= i < self.chapters.len() && 0 <= j < self.chapters.len() && (
            #[trigger] self.chapters[i]).series_id == (#[trigger] self.chapters[j]).series_id
                && self.chapters[i].number == self.chapters[j].number ==> i == j
        &&& forall|i: int|
            0 <= i < self.chapters.len() ==> self.has_series_id(
                (#[trigger] self.chapters[i]).series_id,
            )
        &&& forall|i: int|
            0 <= i < self.chapters.len() ==> (#[trigger] self.chapters[i]).number.fits()
    }
}

/// Why a write to the catalogue was refused.
#[derive(Clone, Copy, Debug, PartialEq, Eq, Structural)]
pub enum StoreError {
    /// No series has the id that a chapter was written for.
    UnknownSeries,
    /// No chapter has the id whose progress was to be changed.
    UnknownChapter,
    /// Every id has been handed out.
    IdsExhausted,
}

/// The catalogue.
pub struct Catalog {
    series: Vec<Manga>,
    chapters: Vec<ChapterRow>,
    last_series_id: i64,
    last_chapter_id: i64,
    last_scan_time: Option<i64>,
}

impl View for Catalog {
    type V = CatalogView;

    closed spec fn view(&self) -> CatalogView {
        CatalogView {
            series: series_views(self.series@),
            chapters: chapter_views(self.chapters@),
            last_series_id: self.last_series_id as int,
            last_chapter_id: self.last_chapter_id as int,
            last_scan_time: self.last_scan_time,
        }
    }
}

impl Catalog {
    /// Whether the store's invariant holds.
    pub open spec fn wf(&self) -> bool {
        self@.wf()
    }

    /// An empty catalogue that has never been scanned.
    pub fn new() -> (c: Catalog)
        ensures
            c.wf(),
            c@ == (CatalogView {
                series: Seq::empty(),
                chapters: Seq::empty(),
                last_series_id: 0,
                last_chapter_id: 0,
                last_scan_time: None,
            }),
    {
        let c = Catalog {
            series: Vec::new(),
            chapters: Vec::new(),
            last_series_id: 0,
            last_chapter_id: 0,
            last_scan_time: None,
        };
        assert(c@.series =~= Seq::empty());
        assert(c@.chapters =~= Seq::empty());
        c
    }

    /// The series rows, in the order of their ids.
    pub fn series(&self) -> (rows: &Vec<Manga>)
        ensures
            series_views(rows@) == self@.series,
    {
        &self.series
    }

    /// The chapter rows, in the order of their ids.
    pub fn chapters(&self) -> (rows: &Vec<ChapterRow>)
        ensures
            chapter_views(rows@) == self@.chapters,
    {
        &self.chapters
    }

    /// The last id handed out to a series.
    pub fn last_series_id(&self) -> (id: i64)
        ensures
            id == self@.last_series_id,
    {
        self.last_series_id
    }

    /// The last id handed out to a chapter.
    pub fn last_chapter_id(&self) -> (id: i64)
        ensures
            id == self@.last_chapter_id,
    {
        self.last_chapter_id
    }

    /// Whether ids are left for `count` more series and `count` more chapters.
    pub fn has_room_for(&self, count: usize) -> (b: bool)
        requires
            self.wf(),
        ensures
            b == (self@.last_series_id + count <= i64::MAX && self@.last_chapter_id + count
                <= i64::MAX),
    {
        let max: u64 = 9223372036854775807;
        let count: u64 = count as u64;
        count <= max && self.last_series_id as u64 <= max - count && self.last_chapter_id as u64
            <= max - count
    }

    /// The time of the last full scan, if there was one.
    pub fn get_watermark(&self) -> (t: Option<i64>)
        ensures
            t == self@.last_scan_time,
    {
        self.last_scan_time
    }

    /// Records `t` as the time of the last full scan.
    pub fn set_watermark(&mut self, t: i64)
        ensures
            final(self)@ == (CatalogView { last_scan_time: Some(t), ..old(self)@ }),
    {
        self.last_scan_time = Some(t);
    }

    /// Finds the series of this name.
    pub fn find_series(&self, name: &str) -> (found: Option<usize>)
        requires
            self.wf(),
        ensures
            match found {
                Some(i) => self@.has_series(name@) && self@.series_at(name@) == i && i
                    < self@.series.len(),
                None => !self@.has_series(name@),
            },
    {
        let n: usize = self.series.len();
        let mut i: usize = 0;
        while i < n
            invariant
                self.wf(),
                n == self.series@.len(),
                i <= n,
                forall|j: int| 0 <= j < i ==> (#[trigger] self@.series[j]).name != name@,
            decreases n - i,
        {
            if same_text(self.series[i].name.as_str(), name) {
                assert(self@.series[i as int].name == name@);
                return Some(i);
            }
            i += 1;
        }
        None
    }

    /// Finds the series with this id.
    pub fn find_series_by_id(&self, id: i64) -> (found: Option<usize>)
        requires
            self.wf(),
        ensures
            match found {
                Some(i) => i < self@.series.len() && self@.series[i as int].id == id,
                None => !self@.has_series_id(id as int),
            },
    {
        let n: usize = self.series.len();
        let mut i: usize = 0;
        while i < n
            invariant
                n == self.series@.len(),
                i <= n,
                forall|j: int| 0 <= j < i ==> (#[trigger] self@.series[j]).id != id,
            decreases n - i,
        {
            if self.series[i].id == id {
                return Some(i);
            }
            i += 1;
        }
        None
    }

    /// Finds the chapter of this series with this number.
    pub fn find_chapter(&self, series_id: i64, number: &ChapterNumber) -> (found: Option<usize>)
        requires
            self.wf(),
        ensures
            match found {
                Some(i) => self@.has_chapter(series_id as int, number@) && self@.chapter_at(
                    series_id as int,
                    number@,
                ) == i && i < self@.chapters.len(),
                None => !self@.has_chapter(series_id as int, number@),
            },
    {
        let n: usize = self.chapters.len();
        let mut i: usize = 0;
        while i < n
            invariant
                self.wf(),
                n == self.chapters@.len(),
                i <= n,
                forall|j: int| 0 <= j < i ==> !(#[trigger] self@.chapter_is(j, series_id as int, number@)),
            decreases n - i,
        {
            if self.chapters[i].manga_id == series_id && self.chapters[i].num.same(number) {
                assert(self@.chapter_is(i as int, series_id as int, number@));
                return Some(i);
            }
            i += 1;
        }
        None
    }

    /// Finds the chapter with this id.
    pub fn find_chapter_by_id(&self, id: i64) -> (found: Option<usize>)
        requires
            self.wf(),
        ensures
            match found {
                Some(i) => self@.has_chapter_id(id as int) && self@.chapter_id_at(id as int)
                    == i && i < self@.chapters.len(),
                None => !self@.has_chapter_id(id as int),
            },
    {
        let n: usize = self.chapters.len();
        let mut i: usize = 0;
        while i < n
            invariant
                self.wf(),
                n == self.chapters@.len(),
                i <= n,
                forall|j: int| 0 <= j < i ==> (#[trigger] self@.chapters[j]).id != id,
            decreases n - i,
        {
            if self.chapters[i].id == id {
                proof {
                    assert(self@.chapters[i as int].id == id);
                    let c = self@.chapter_id_at(id as int);
                    assert(self@.chapters[c].id == id);
                    if c < i {
                        assert(self@.chapters[c].id < self@.chapters[i as int].id);
                    } else if i < c {
                        assert(self@.chapters[i as int].id < self@.chapters[c].id);
                    }
                }
                return Some(i);
            }
            i += 1;
        }
        None
    }

    /// Writes the series `name` with its cover, synopsis and source: a stored
    /// series keeps its id and takes the three fields as given, a new one is
    /// added under the next id. Returns the id either way.
    ///
    /// The write is refused, and nothing changes, only when the series is new
    /// and every id has been handed out.
    pub fn upsert_series(
        &mut self,
        name: &str,
        thumbnail: Option<String>,
        synopsis: Option<String>,
        source_url: Option<String>,
    ) -> (id: Result<i64, StoreError>)
        requires
            old(self).wf(),
        ensures
            final(self).wf(),
            match id {
                Ok(id) => id == old(self)@.series_id_of(name@) && final(self)@ == old(
                    self,
                )@.with_series(name@, text_of(thumbnail), text_of(synopsis), text_of(source_url)),
                Err(e) => e == StoreError::IdsExhausted && !old(self)@.has_series(name@) && old(
                    self,
                )@.last_series_id == i64::MAX && final(self)@ == old(self)@,
            },
    {
        match self.find_series(name) {
            Some(i) => {
                let id = self.series[i].id;
                let row = Manga {
                    id,
                    name: self.series[i].name.clone(),
                    ta: thumbnail,
                    synopsis,
                    source_url,
                };
                self.series.set(i, row);
                proof {
                    assert(final(self)@.series =~= old(self)@.series.update(
                        i as int,
                        SeriesView {
                            thumbnail: text_of(thumbnail),
                            synopsis: text_of(synopsis),
                            source_url: text_of(source_url),
                            ..old(self)@.series[i as int]
                        },
                    ));
                    lemma_series_fields_keep_wf(old(self)@, final(self)@);
                }
                Ok(id)
            },
            None => {
                if self.last_series_id == i64::MAX {
                    return Err(StoreError::IdsExhausted);
                }
                let id = self.last_series_id + 1;
                let row = Manga {
                    id,
                    name: owned(name),
                    ta: thumbnail,
                    synopsis,
                    source_url,
                };
                self.last_series_id = id;
                self.series.push(row);
                proof {
                    assert(final(self)@.series =~= old(self)@.series.push(row@));
                    lemma_new_series_keeps_wf(old(self)@, row@);
                }
                Ok(id)
            },
        }
    }
}

/// Changing the cover, synopsis and source of stored series keeps the
/// invariant.
pub proof fn lemma_series_fields_keep_wf(old: CatalogView, new: CatalogView)
    requires
        old.wf(),
        new.chapters == old.chapters,
        new.last_series_id == old.last_series_id,
        new.last_chapter_id == old.last_chapter_id,
        new.series.len() == old.series.len(),
        forall|i: int|
            0 <= i < old.series.len() ==> (#[trigger] new.series[i]).id == old.series[i].id
                && new.series[i].name == old.series[i].name,
    ensures
        new.wf(),
{
    assert forall|i: int| 0 <= i < new.chapters.len() implies new.has_series_id(
        (#[trigger] new.chapters[i]).series_id,
    ) by {
        assert(old.has_series_id(old.chapters[i].series_id));
        let k = choose|k: int|
            0 <= k < old.series.len() && #[trigger] old.series[k].id == old.chapters[i].series_id;
        assert(new.series[k].id == new.chapters[i].series_id);
    }
}

/// Adding a series under the next id and a name that is not stored keeps the
/// invariant.
pub proof fn lemma_new_series_keeps_wf(old: CatalogView, row: SeriesView)
    requires
        old.wf(),
        old.last_series_id < i64::MAX,
        row.id == old.last_series_id + 1,
        !old.has_series(row.name),
    ensures
        (CatalogView {
            series: old.series.push(row),
            last_series_id: old.last_series_id + 1,
            ..old
        }).wf(),
{
    let new = CatalogView {
        series: old.series.push(row),
        last_series_id: old.last_series_id + 1,
        ..old
    };
    assert forall|i: int| 0 <= i < new.chapters.len() implies new.has_series_id(
        (#[trigger] new.chapters[i]).series_id,
    ) by {
        assert(old.has_series_id(old.chapters[i].series_id));
        let k = choose|k: int|
            0 <= k < old.series.len() && #[trigger] old.series[k].id == old.chapters[i].series_id;
        assert(new.series[k].id == new.chapters[i].series_id);
    }
    assert forall|i: int, j: int|
        0 <= i < new.series.len() && 0 <= j < new.series.len() && (#[trigger] new.series[i]).name
            == (#[trigger] new.series[j]).name implies i == j by {
        if i < old.series.len() && j < old.series.len() {
        } else if i < old.series.len() {
            assert(old.series[i].name == row.name);
        } else if j < old.series.len() {
            assert(old.series[j].name == row.name);
        }
    }
}


/// What filtering does to a sequence whose keys increase: the kept elements
/// are exactly the elements that satisfy the predicate, and their keys still
/// increase.
pub proof fn lemma_filter_increasing<A>(s: Seq<A>, pred: spec_fn(A) -> bool, key: spec_fn(A) -> int)
    requires
        forall|i: int, j: int| 0 <= i < j < s.len() ==> key(#[trigger] s[i]) < key(#[trigger] s[j]),
    ensures
        forall|a: int, b: int|
            0 <= a < b < s.filter(pred).len() ==> key(#[trigger] s.filter(pred)[a]) < key(
                #[trigger] s.filter(pred)[b],
            ),
        forall|a: int|
            0 <= a < s.filter(pred).len() ==> pred(#[trigger] s.filter(pred)[a]) && s.contains(
                s.filter(pred)[a],
            ),
        forall|i: int| 0 <= i < s.len() && pred(#[trigger] s[i]) ==> s.filter(pred).contains(s[i]),
    decreases s.len(),
{
    reveal(Seq::filter);
    let f = s.filter(pred);
    if s.len() > 0 {
        let rest = s.drop_last();
        let g = rest.filter(pred);
        lemma_filter_increasing(rest, pred, key);
        assert forall|a: int| 0 <= a < g.len() implies s.contains(#[trigger] g[a]) && key(g[a])
            < key(s.last()) by {
            assert(rest.contains(g[a]));
            let m = choose|m: int| 0 <= m < rest.len() && rest[m] == g[a];
            assert(s[m] == g[a]);
        }
        assert forall|a: int| 0 <= a < f.len() implies pred(#[trigger] f[a]) && s.contains(
            f[a],
        ) by {
            if a < g.len() {
                assert(f[a] == g[a]);
            } else {
                assert(f[a] == s.last());
                assert(s[s.len() - 1] == s.last());
            }
        }
        assert forall|a: int, b: int| 0 <= a < b < f.len() implies key(#[trigger] f[a]) < key(
            #[trigger] f[b],
        ) by {
            if b < g.len() {
                assert(f[a] == g[a] && f[b] == g[b]);
            } else {
                assert(f[a] == g[a]);
                assert(f[b] == s.last());
            }
        }
        assert forall|i: int| 0 <= i < s.len() && pred(#[trigger] s[i]) implies f.contains(
            s[i],
        ) by {
            if i < rest.len() {
                assert(rest[i] == s[i]);
                assert(g.contains(rest[i]));
                let m = choose|m: int| 0 <= m < g.len() && g[m] == rest[i];
                assert(f[m] == s[i]);
            } else {
                assert(f[f.len() - 1] == s[i]);
            }
        }
    }
}

/// Removing series together with their chapters keeps the invariant.
pub proof fn lemma_without_series_keeps_wf(c: CatalogView, dropped: Set<int>)
    requires
        c.wf(),
    ensures
        c.without_series_in(dropped).wf(),
{
    let new = c.without_series_in(dropped);
    lemma_filter_increasing(c.series, series_outside(dropped), |s: SeriesView| s.id);
    lemma_filter_increasing(c.chapters, chapters_outside(dropped), |ch: ChapterView| ch.id);
    assert forall|i: int| 0 <= i < new.series.len() implies 0 < (#[trigger] new.series[i]).id
        <= new.last_series_id by {
        assert(c.series.contains(new.series[i]));
    }
    assert forall|i: int, j: int|
        0 <= i < new.series.len() && 0 <= j < new.series.len() && (#[trigger] new.series[i]).name
            == (#[trigger] new.series[j]).name implies i == j by {
        assert(c.series.contains(new.series[i]));
        assert(c.series.contains(new.series[j]));
        let a = choose|a: int| 0 <= a < c.series.len() && c.series[a] == new.series[i];
        let b = choose|b: int| 0 <= b < c.series.len() && c.series[b] == new.series[j];
        assert(c.series[a].name == c.series[b].name);
        assert(a == b);
        if i < j {
            assert(new.series[i].id < new.series[j].id);
        } else if j < i {
            assert(new.series[j].id < new.series[i].id);
        }
    }
    assert forall|i: int| 0 <= i < new.chapters.len() implies 0 < (#[trigger] new.chapters[i]).id
        <= new.last_chapter_id && new.chapters[i].number.fits() && new.has_series_id(
        new.chapters[i].series_id,
    ) by {
        assert(c.chapters.contains(new.chapters[i]));
        let a = choose|a: int| 0 <= a < c.chapters.len() && c.chapters[a] == new.chapters[i];
        assert(c.has_series_id(c.chapters[a].series_id));
        let k = choose|k: int|
            0 <= k < c.series.len() && #[trigger] c.series[k].id == c.chapters[a].series_id;
        assert(chapters_outside(dropped)(new.chapters[i]));
        assert(series_outside(dropped)(c.series[k]));
        assert(new.series.contains(c.series[k]));
        let m = choose|m: int| 0 <= m < new.series.len() && new.series[m] == c.series[k];
        assert(new.series[m].id == new.chapters[i].series_id);
    }
    assert forall|i: int, j: int|
        0 <= i < new.chapters.len() && 0 <= j < new.chapters.len() && (
        #[trigger] new.chapters[i]).series_id == (#[trigger] new.chapters[j]).series_id
            && new.chapters[i].number == new.chapters[j].number implies i == j by {
        assert(c.chapters.contains(new.chapters[i]));
        assert(c.chapters.contains(new.chapters[j]));
        let a = choose|a: int| 0 <= a < c.chapters.len() && c.chapters[a] == new.chapters[i];
        let b = choose|b: int| 0 <= b < c.chapters.len() && c.chapters[b] == new.chapters[j];
        assert(c.chapters[a].series_id == c.chapters[b].series_id);
        assert(a == b);
        if i < j {
            assert(new.chapters[i].id < new.chapters[j].id);
        } else if j < i {
            assert(new.chapters[j].id < new.chapters[i].id);
        }
    }
}


/// Tests whether `id` is one of `ids`.
pub fn holds_id(ids: &Vec<i64>, id: i64) -> (b: bool)
    ensures
        b == id_set(ids@).contains(id as int),
{
    let n: usize = ids.len();
    let mut k: usize = 0;
    while k < n
        invariant
            n == ids@.len(),
            k <= n,
            forall|j: int| 0 <= j < k ==> ids@[j] != id,
        decreases n - k,
    {
        if ids[k] == id {
            return true;
        }
        k += 1;
    }
    false
}

/// Tests whether `name` is one of `names`.
pub fn holds_name(names: &Vec<String>, name: &str) -> (b: bool)
    ensures
        b == name_set(names@).contains(name@),
{
    let n: usize = names.len();
    let mut k: usize = 0;
    while k < n
        invariant
            n == names@.len(),
            k <= n,
            forall|j: int| 0 <= j < k ==> (#[trigger] names@[j])@ != name@,
        decreases n - k,
    {
        if same_text(names[k].as_str(), name) {
            return true;
        }
        k += 1;
    }
    false
}

impl Catalog {
    /// Looks the series `name` up and creates it, with no cover, synopsis or
    /// source, if it is not stored. Returns its id.
    ///
    /// The call is refused, and nothing changes, only when the series is new
    /// and every id has been handed out.
    pub fn resolve_series(&mut self, name: &str) -> (id: Result<i64, StoreError>)
        requires
            old(self).wf(),
        ensures
            final(self).wf(),
            match id {
                Ok(id) => id == old(self)@.series_id_of(name@) && final(self)@ == old(
                    self,
                )@.with_series_known(name@),
                Err(e) => e == StoreError::IdsExhausted && !old(self)@.has_series(name@) && old(
                    self,
                )@.last_series_id == i64::MAX && final(self)@ == old(self)@,
            },
    {
        match self.find_series(name) {
            Some(i) => Ok(self.series[i].id),
            None => self.upsert_series(name, None, None, None),
        }
    }

    /// Writes a chapter: a stored chapter of this series and number keeps its
    /// id and its read progress and takes the file, the size and the
    /// modification time; a new one is added under the next id, unread.
    /// Returns the id either way.
    ///
    /// The write is refused, and nothing changes, when no series has this id,
    /// or when the chapter is new and every id has been handed out.
    pub fn upsert_chapter(
        &mut self,
        series_id: i64,
        number: ChapterNumber,
        file: &str,
        size: u64,
        modified: u64,
    ) -> (id: Result<i64, StoreError>)
        requires
            old(self).wf(),
        ensures
            final(self).wf(),
            match id {
                Ok(id) => old(self)@.has_series_id(series_id as int) && id == old(
                    self,
                )@.chapter_id_of(series_id as int, number@) && final(self)@ == old(
                    self,
                )@.with_chapter(series_id as int, number@, file@, size, modified),
                Err(e) => final(self)@ == old(self)@ && if old(self)@.has_series_id(
                    series_id as int,
                ) {
                    e == StoreError::IdsExhausted && !old(self)@.has_chapter(
                        series_id as int,
                        number@,
                    ) && old(self)@.last_chapter_id == i64::MAX
                } else {
                    e == StoreError::UnknownSeries
                },
            },
    {
        if self.find_series_by_id(series_id).is_none() {
            return Err(StoreError::UnknownSeries);
        }
        number.recall_bounds();
        match self.find_chapter(series_id, &number) {
            Some(i) => {
                let id = self.chapters[i].id;
                let row = ChapterRow {
                    id,
                    manga_id: series_id,
                    num: number,
                    file: owned(file),
                    read: self.chapters[i].read,
                    last_page_read: self.chapters[i].last_page_read,
                    full_pages_read: self.chapters[i].full_pages_read,
                    size,
                    modified,
                };
                self.chapters.set(i, row);
                proof {
                    assert(old(self)@.chapter_is(i as int, series_id as int, number@));
                    assert(final(self)@.chapters =~= old(self)@.chapters.update(
                        i as int,
                        ChapterView { file: file@, size, modified, ..old(self)@.chapters[i as int] },
                    ));
                    lemma_chapter_fields_keep_wf(old(self)@, final(self)@);
                }
                Ok(id)
            },
            None => {
                if self.last_chapter_id == i64::MAX {
                    return Err(StoreError::IdsExhausted);
                }
                let id = self.last_chapter_id + 1;
                let row = ChapterRow {
                    id,
                    manga_id: series_id,
                    num: number,
                    file: owned(file),
                    read: false,
                    last_page_read: None,
                    full_pages_read: None,
                    size,
                    modified,
                };
                self.last_chapter_id = id;
                self.chapters.push(row);
                proof {
                    assert(final(self)@.chapters =~= old(self)@.chapters.push(row@));
                    lemma_new_chapter_keeps_wf(old(self)@, row@);
                }
                Ok(id)
            },
        }
    }

    /// Sets the read progress of the chapter with this id: the read flag, the
    /// last page read and the number of pages. Nothing else of the row
    /// changes. Returns whether such a chapter is stored; if none is, nothing
    /// changes.
    pub fn update_progress(
        &mut self,
        chapter_id: i64,
        last_page: usize,
        total_pages: usize,
        read: bool,
    ) -> (changed: bool)
        requires
            old(self).wf(),
        ensures
            final(self).wf(),
            changed == old(self)@.has_chapter_id(chapter_id as int),
            changed ==> final(self)@ == old(self)@.with_progress(
                chapter_id as int,
                read,
                Some(last_page),
                Some(total_pages),
            ),
            !changed ==> final(self)@ == old(self)@,
    {
        match self.find_chapter_by_id(chapter_id) {
            Some(i) => {
                let row = ChapterRow {
                    id: chapter_id,
                    manga_id: self.chapters[i].manga_id,
                    num: self.chapters[i].num,
                    file: self.chapters[i].file.clone(),
                    read,
                    last_page_read: Some(last_page),
                    full_pages_read: Some(total_pages),
                    size: self.chapters[i].size,
                    modified: self.chapters[i].modified,
                };
                self.chapters.set(i, row);
                proof {
                    assert(final(self)@.chapters =~= old(self)@.chapters.update(
                        i as int,
                        ChapterView {
                            read,
                            last_page_read: Some(last_page),
                            full_pages_read: Some(total_pages),
                            ..old(self)@.chapters[i as int]
                        },
                    ));
                    lemma_chapter_fields_keep_wf(old(self)@, final(self)@);
                }
                true
            },
            None => false,
        }
    }

    /// Marks the chapter with this id as read. The last page read is kept, or
    /// becomes 0 if none was recorded; the number of pages is kept, or becomes
    /// `DEFAULT_PAGE_COUNT` if none was recorded.
    pub fn mark_read(&mut self, chapter_id: i64) -> (changed: bool)
        requires
            old(self).wf(),
        ensures
            final(self).wf(),
            changed == old(self)@.has_chapter_id(chapter_id as int),
            changed ==> final(self)@ == old(self)@.with_progress(
                chapter_id as int,
                true,
                Some(page_or(old(self)@.chapters[old(self)@.chapter_id_at(chapter_id as int)].last_page_read, 0)),
                Some(page_or(old(self)@.chapters[old(self)@.chapter_id_at(chapter_id as int)].full_pages_read, DEFAULT_PAGE_COUNT)),
            ),
            !changed ==> final(self)@ == old(self)@,
    {
        match self.find_chapter_by_id(chapter_id) {
            Some(i) => {
                let last = or_page(self.chapters[i].last_page_read, 0);
                let total = or_page(self.chapters[i].full_pages_read, DEFAULT_PAGE_COUNT);
                self.update_progress(chapter_id, last, total, true)
            },
            None => false,
        }
    }

    /// Marks the chapter with this id as unread and resets its last page read
    /// to 0. The number of pages is kept, or becomes `DEFAULT_PAGE_COUNT` if
    /// none was recorded.
    pub fn mark_unread(&mut self, chapter_id: i64) -> (changed: bool)
        requires
            old(self).wf(),
        ensures
            final(self).wf(),
            changed == old(self)@.has_chapter_id(chapter_id as int),
            changed ==> final(self)@ == old(self)@.with_progress(
                chapter_id as int,
                false,
                Some(0),
                Some(page_or(old(self)@.chapters[old(self)@.chapter_id_at(chapter_id as int)].full_pages_read, DEFAULT_PAGE_COUNT)),
            ),
            !changed ==> final(self)@ == old(self)@,
    {
        match self.find_chapter_by_id(chapter_id) {
            Some(i) => {
                let total = or_page(self.chapters[i].full_pages_read, DEFAULT_PAGE_COUNT);
                self.update_progress(chapter_id, 0, total, false)
            },
            None => false,
        }
    }

    /// Removes the series whose ids are in `dropped`, and their chapters.
    pub fn remove_series_in(&mut self, dropped: &Vec<i64>)
        requires
            old(self).wf(),
        ensures
            final(self).wf(),
            final(self)@ == old(self)@.without_series_in(id_set(dropped@)),
    {
        let ghost gone = id_set(dropped@);
        let ghost before = self@;
        let mut i: usize = 0;
        let ghost mut k: int = 0;
        while i < self.series.len()
            invariant
                gone == id_set(dropped@),
                before.series.len() - k == self.series@.len() - i,
                0 <= k <= before.series.len(),
                i <= self.series@.len(),
                series_views(self.series@).subrange(0, i as int) == before.series.subrange(
                    0,
                    k,
                ).filter(series_outside(gone)),
                series_views(self.series@).subrange(i as int, self.series@.len() as int)
                    == before.series.subrange(k, before.series.len() as int),
                self.chapters@ == old(self).chapters@,
                self.last_series_id == old(self).last_series_id,
                self.last_chapter_id == old(self).last_chapter_id,
                self.last_scan_time == old(self).last_scan_time,
            decreases self.series@.len() - i,
        {
            let ghost cur = series_views(self.series@);
            proof {
                reveal(Seq::filter);
                assert(cur[i as int] == cur.subrange(i as int, cur.len() as int)[0]);
                assert(cur[i as int] == before.series[k]);
                assert(before.series.subrange(0, k + 1).drop_last() =~= before.series.subrange(
                    0,
                    k,
                ));
            }
            if holds_id(dropped, self.series[i].id) {
                self.series.remove(i);
                proof {
                    let now = series_views(self.series@);
                    assert(now =~= cur.remove(i as int));
                    assert(now.subrange(0, i as int) =~= cur.subrange(0, i as int));
                    assert(now.subrange(i as int, now.len() as int) =~= cur.subrange(
                        i as int,
                        cur.len() as int,
                    ).subrange(1, cur.len() - i));
                    assert(before.series.subrange(k + 1, before.series.len() as int)
                        =~= before.series.subrange(k, before.series.len() as int).subrange(
                        1,
                        before.series.len() - k,
                    ));
                    k = k + 1;
                }
            } else {
                proof {
                    assert(cur.subrange(0, i + 1) =~= cur.subrange(0, i as int).push(
                        cur[i as int],
                    ));
                    assert(cur.subrange(i + 1, cur.len() as int) =~= cur.subrange(
                        i as int,
                        cur.len() as int,
                    ).subrange(1, cur.len() - i));
                    assert(before.series.subrange(k + 1, before.series.len() as int)
                        =~= before.series.subrange(k, before.series.len() as int).subrange(
                        1,
                        before.series.len() - k,
                    ));
                    k = k + 1;
                }
                i += 1;
            }
        }
        proof {
            assert(before.series.subrange(0, k) =~= before.series);
            assert(series_views(self.series@).subrange(0, i as int) =~= series_views(
                self.series@,
            ));
        }
        let mut i: usize = 0;
        proof {
            k = 0;
        }
        while i < self.chapters.len()
            invariant
                gone == id_set(dropped@),
                before.chapters.len() - k == self.chapters@.len() - i,
                0 <= k <= before.chapters.len(),
                i <= self.chapters@.len(),
                chapter_views(self.chapters@).subrange(0, i as int) == before.chapters.subrange(
                    0,
                    k,
                ).filter(chapters_outside(gone)),
                chapter_views(self.chapters@).subrange(i as int, self.chapters@.len() as int)
                    == before.chapters.subrange(k, before.chapters.len() as int),
                series_views(self.series@) == before.series.filter(series_outside(gone)),
                self.last_series_id == old(self).last_series_id,
                self.last_chapter_id == old(self).last_chapter_id,
                self.last_scan_time == old(self).last_scan_time,
            decreases self.chapters@.len() - i,
        {
            let ghost cur = chapter_views(self.chapters@);
            proof {
                reveal(Seq::filter);
                assert(cur[i as int] == cur.subrange(i as int, cur.len() as int)[0]);
                assert(cur[i as int] == before.chapters[k]);
                assert(before.chapters.subrange(0, k + 1).drop_last() =~= before.chapters.subrange(
                    0,
                    k,
                ));
            }
            if holds_id(dropped, self.chapters[i].manga_id) {
                self.chapters.remove(i);
                proof {
                    let now = chapter_views(self.chapters@);
                    assert(now =~= cur.remove(i as int));
                    assert(now.subrange(0, i as int) =~= cur.subrange(0, i as int));
                    assert(now.subrange(i as int, now.len() as int) =~= cur.subrange(
                        i as int,
                        cur.len() as int,
                    ).subrange(1, cur.len() - i));
                    assert(before.chapters.subrange(k + 1, before.chapters.len() as int)
                        =~= before.chapters.subrange(k, before.chapters.len() as int).subrange(
                        1,
                        before.chapters.len() - k,
                    ));
                    k = k + 1;
                }
            } else {
                proof {
                    assert(cur.subrange(0, i + 1) =~= cur.subrange(0, i as int).push(
                        cur[i as int],
                    ));
                    assert(cur.subrange(i + 1, cur.len() as int) =~= cur.subrange(
                        i as int,
                        cur.len() as int,
                    ).subrange(1, cur.len() - i));
                    assert(before.chapters.subrange(k + 1, before.chapters.len() as int)
                        =~= before.chapters.subrange(k, before.chapters.len() as int).subrange(
                        1,
                        before.chapters.len() - k,
                    ));
                    k = k + 1;
                }
                i += 1;
            }
        }
        proof {
            assert(before.chapters.subrange(0, k) =~= before.chapters);
            assert(chapter_views(self.chapters@).subrange(0, i as int) =~= chapter_views(
                self.chapters@,
            ));
            lemma_without_series_keeps_wf(before, gone);
        }
    }

    /// Removes the series with this id and all its chapters.
    pub fn delete_series_cascade(&mut self, series_id: i64)
        requires
            old(self).wf(),
        ensures
            final(self).wf(),
            final(self)@ == old(self)@.without_series(series_id as int),
    {
        let dropped = vec![series_id];
        proof {
            assert(id_set(dropped@) =~= set![series_id as int]) by {
                assert(dropped@[0] == series_id);
            }
        }
        self.remove_series_in(&dropped);
    }

    /// Removes every series whose name is not among `keep`, and the chapters
    /// of those series.
    pub fn prune(&mut self, keep: &Vec<String>)
        requires
            old(self).wf(),
        ensures
            final(self).wf(),
            final(self)@ == old(self)@.pruned(name_set(keep@)),
    {
        let mut dropped: Vec<i64> = Vec::new();
        let n: usize = self.series.len();
        let mut i: usize = 0;
        while i < n
            invariant
                n == self.series@.len(),
                i <= n,
                forall|id: int|
                    id_set(dropped@).contains(id) <==> exists|j: int|
                        0 <= j < i && (#[trigger] self@.series[j]).id == id && !name_set(
                            keep@,
                        ).contains(self@.series[j].name),
            decreases n - i,
        {
            if !holds_name(keep, self.series[i].name.as_str()) {
                let ghost before = dropped@;
                dropped.push(self.series[i].id);
                proof {
                    assert forall|id: int| id_set(dropped@).contains(id) <==> exists|j: int|
                        0 <= j < i + 1 && (#[trigger] self@.series[j]).id == id && !name_set(
                            keep@,
                        ).contains(self@.series[j].name) by {
                        if id_set(dropped@).contains(id) {
                            let m = choose|m: int| 0 <= m < dropped@.len() && dropped@[m] == id;
                            if m < before.len() {
                                assert(before[m] == id);
                                assert(id_set(before).contains(id));
                            } else {
                                assert(self@.series[i as int].id == id);
                            }
                        }
                        if exists|j: int|
                            0 <= j < i + 1 && (#[trigger] self@.series[j]).id == id && !name_set(
                                keep@,
                            ).contains(self@.series[j].name) {
                            let j = choose|j: int|
                                0 <= j < i + 1 && (#[trigger] self@.series[j]).id == id
                                    && !name_set(keep@).contains(self@.series[j].name);
                            if j < i {
                                assert(id_set(before).contains(id));
                                let m = choose|m: int| 0 <= m < before.len() && before[m] == id;
                                assert(dropped@[m] == id);
                            } else {
                                assert(dropped@[dropped@.len() - 1] == id);
                            }
                        }
                    }
                }
            }
            i += 1;
        }
        proof {
            assert(id_set(dropped@) =~= self@.ids_outside(name_set(keep@)));
        }
        self.remove_series_in(&dropped);
    }
}

/// The number of pages assumed for a chapter whose page count is not known.
pub const DEFAULT_PAGE_COUNT: usize = 20;

/// A recorded page count, or `default` if none was recorded.
pub open spec fn page_or(recorded: Option<usize>, default: usize) -> usize {
    match recorded {
        Some(n) => n,
        None => default,
    }
}

/// A recorded page count, or `default` if none was recorded.
pub fn or_page(recorded: Option<usize>, default: usize) -> (n: usize)
    ensures
        n == page_or(recorded, default),
{
    match recorded {
        Some(n) => n,
        None => default,
    }
}

/// Changing fields of stored chapters other than their id, series and number
/// keeps the invariant.
pub proof fn lemma_chapter_fields_keep_wf(old: CatalogView, new: CatalogView)
    requires
        old.wf(),
        new.series == old.series,
        new.last_series_id == old.last_series_id,
        new.last_chapter_id == old.last_chapter_id,
        new.chapters.len() == old.chapters.len(),
        forall|i: int|
            0 <= i < old.chapters.len() ==> (#[trigger] new.chapters[i]).id == old.chapters[i].id
                && new.chapters[i].series_id == old.chapters[i].series_id
                && new.chapters[i].number == old.chapters[i].number,
    ensures
        new.wf(),
{
    assert forall|i: int| 0 <= i < new.chapters.len() implies new.has_series_id(
        (#[trigger] new.chapters[i]).series_id,
    ) by {
        assert(old.has_series_id(old.chapters[i].series_id));
    }
    assert forall|i: int, j: int|
        0 <= i < new.chapters.len() && 0 <= j < new.chapters.len() && (
        #[trigger] new.chapters[i]).series_id == (#[trigger] new.chapters[j]).series_id
            && new.chapters[i].number == new.chapters[j].number implies i == j by {
        assert(old.chapters[i].series_id == old.chapters[j].series_id);
    }
}

/// Adding a chapter under the next id, for a stored series and a number that
/// the series does not have yet, keeps the invariant.
pub proof fn lemma_new_chapter_keeps_wf(old: CatalogView, row: ChapterView)
    requires
        old.wf(),
        old.last_chapter_id < i64::MAX,
        row.id == old.last_chapter_id + 1,
        row.number.fits(),
        old.has_series_id(row.series_id),
        !old.has_chapter(row.series_id, row.number),
    ensures
        (CatalogView {
            chapters: old.chapters.push(row),
            last_chapter_id: old.last_chapter_id + 1,
            ..old
        }).wf(),
{
    let new = CatalogView {
        chapters: old.chapters.push(row),
        last_chapter_id: old.last_chapter_id + 1,
        ..old
    };
    assert forall|i: int| 0 <= i < new.chapters.len() implies new.has_series_id(
        (#[trigger] new.chapters[i]).series_id,
    ) by {
        if i < old.chapters.len() {
            assert(old.has_series_id(old.chapters[i].series_id));
        }
    }
    assert forall|i: int, j: int|
        0 <= i < new.chapters.len() && 0 <= j < new.chapters.len() && (
        #[trigger] new.chapters[i]).series_id == (#[trigger] new.chapters[j]).series_id
            && new.chapters[i].number == new.chapters[j].number implies i == j by {
        if i < old.chapters.len() && j < old.chapters.len() {
            assert(old.chapters[i].series_id == old.chapters[j].series_id);
        } else if i < old.chapters.len() {
            assert(old.chapter_is(i, row.series_id, row.number));
        } else if j < old.chapters.len() {
            assert(old.chapter_is(j, row.series_id, row.number));
        }
    }
}


/// Tests whether the ids of the series are positive, at most `last` and
/// increasing, and no two series share a name.
fn series_rows_fit(rows: &Vec<Manga>, last: i64) -> (fit: bool)
    ensures
        fit == ({
            let s = series_views(rows@);
            &&& forall|i: int| 0 <= i < s.len() ==> 0 < (#[trigger] s[i]).id <= last
            &&& forall|i: int, j: int|
                0 <= i < j < s.len() ==> (#[trigger] s[i]).id < (#[trigger] s[j]).id
            &&& forall|i: int, j: int|
                0 <= i < s.len() && 0 <= j < s.len() && (#[trigger] s[i]).name == (
                #[trigger] s[j]).name ==> i == j
        }),
{
    let ghost s = series_views(rows@);
    let n: usize = rows.len();
    let mut i: usize = 0;
    while i < n
        invariant
            s == series_views(rows@),
            n == rows@.len(),
            i <= n,
            forall|a: int| 0 <= a < i ==> 0 < (#[trigger] s[a]).id <= last,
            forall|a: int, b: int| 0 <= a < b < i ==> (#[trigger] s[a]).id < (#[trigger] s[b]).id,
            forall|a: int, b: int|
                0 <= a < i && 0 <= b < i && (#[trigger] s[a]).name == (#[trigger] s[b]).name ==> a
                    == b,
        decreases n - i,
    {
        assert(s[i as int] == rows@[i as int]@);
        if rows[i].id <= 0 || rows[i].id > last {
            return false;
        }
        if i > 0 {
            assert(s[i - 1] == rows@[i - 1]@);
            if rows[i - 1].id >= rows[i].id {
                return false;
            }
        }
        let mut k: usize = 0;
        while k < i
            invariant
                s == series_views(rows@),
                n == rows@.len(),
                i < n,
                k <= i,
                forall|a: int| 0 <= a < k ==> (#[trigger] s[a]).name != s[i as int].name,
            decreases i - k,
        {
            assert(s[k as int] == rows@[k as int]@);
            if same_text(rows[k].name.as_str(), rows[i].name.as_str()) {
                return false;
            }
            k += 1;
        }
        proof {
            assert forall|a: int, b: int| 0 <= a < b < i + 1 implies (#[trigger] s[a]).id < (
            #[trigger] s[b]).id by {
                if b == i && a < i - 1 {
                    assert(s[a].id < s[i - 1].id);
                }
            }
        }
        i += 1;
    }
    true
}

/// Whether one of the series has this id.
pub open spec fn owned_by(s: Seq<SeriesView>, id: int) -> bool {
    exists|k: int| 0 <= k < s.len() && #[trigger] s[k].id == id
}

/// Tests whether one of the series has this id.
fn has_owner(series: &Vec<Manga>, id: i64) -> (b: bool)
    ensures
        b == owned_by(series_views(series@), id as int),
{
    let ghost s = series_views(series@);
    let m: usize = series.len();
    let mut k: usize = 0;
    while k < m
        invariant
            s == series_views(series@),
            m == series@.len(),
            k <= m,
            forall|a: int| 0 <= a < k ==> (#[trigger] s[a]).id != id,
        decreases m - k,
    {
        assert(s[k as int] == series@[k as int]@);
        if series[k].id == id {
            assert(s[k as int].id == id);
            return true;
        }
        k += 1;
    }
    false
}

/// Tests whether the ids of the chapters are positive, at most `last` and
/// increasing, no two chapters share a series and a number, and every chapter
/// belongs to one of the series.
fn chapter_rows_fit(rows: &Vec<ChapterRow>, last: i64, series: &Vec<Manga>) -> (fit: bool)
    ensures
        fit == ({
            let c = chapter_views(rows@);
            let s = series_views(series@);
            &&& forall|i: int| 0 <= i < c.len() ==> 0 < (#[trigger] c[i]).id <= last
            &&& forall|i: int, j: int|
                0 <= i < j < c.len() ==> (#[trigger] c[i]).id < (#[trigger] c[j]).id
            &&& forall|i: int, j: int|
                0 <= i < c.len() && 0 <= j < c.len() && (#[trigger] c[i]).series_id == (
                #[trigger] c[j]).series_id && c[i].number == c[j].number ==> i == j
            &&& forall|i: int| 0 <= i < c.len() ==> owned_by(s, (#[trigger] c[i]).series_id)
        }),
        fit ==> forall|i: int|
            0 <= i < rows@.len() ==> (#[trigger] chapter_views(rows@)[i]).number.fits(),
{
    let ghost c = chapter_views(rows@);
    let ghost s = series_views(series@);
    let n: usize = rows.len();
    let mut i: usize = 0;
    while i < n
        invariant
            c == chapter_views(rows@),
            s == series_views(series@),
            n == rows@.len(),
            i <= n,
            forall|a: int| 0 <= a < i ==> 0 < (#[trigger] c[a]).id <= last && c[a].number.fits(),
            forall|a: int, b: int| 0 <= a < b < i ==> (#[trigger] c[a]).id < (#[trigger] c[b]).id,
            forall|a: int, b: int|
                0 <= a < i && 0 <= b < i && (#[trigger] c[a]).series_id == (
                #[trigger] c[b]).series_id && c[a].number == c[b].number ==> a == b,
            forall|a: int| 0 <= a < i ==> owned_by(s, (#[trigger] c[a]).series_id),
        decreases n - i,
    {
        assert(c[i as int] == rows@[i as int]@);
        rows[i].num.recall_bounds();
        if rows[i].id <= 0 || rows[i].id > last {
            return false;
        }
        if i > 0 {
            assert(c[i - 1] == rows@[i - 1]@);
            if rows[i - 1].id >= rows[i].id {
                return false;
            }
        }
        let mut k: usize = 0;
        while k < i
            invariant
                c == chapter_views(rows@),
                n == rows@.len(),
                i < n,
                k <= i,
                forall|a: int|
                    0 <= a < k ==> !((#[trigger] c[a]).series_id == c[i as int].series_id
                        && c[a].number == c[i as int].number),
            decreases i - k,
        {
            assert(c[k as int] == rows@[k as int]@);
            if rows[k].manga_id == rows[i].manga_id && rows[k].num.same(&rows[i].num) {
                return false;
            }
            k += 1;
        }
        if !has_owner(series, rows[i].manga_id) {
            return false;
        }
        proof {
            assert forall|a: int, b: int| 0 <= a < b < i + 1 implies (#[trigger] c[a]).id < (
            #[trigger] c[b]).id by {
                if b == i && a < i - 1 {
                    assert(c[a].id < c[i - 1].id);
                }
            }
        }
        i += 1;
    }
    true
}

impl Catalog {
    /// Puts a catalogue together from rows that were stored elsewhere: the
    /// series and the chapters in the order of their ids, the last id handed
    /// out of each kind, and the time of the last full scan.
    ///
    /// Returns the catalogue if the rows keep the invariant of the store, and
    /// `None` if they break it.
    pub fn restore(
        series: Vec<Manga>,
        chapters: Vec<ChapterRow>,
        last_series_id: i64,
        last_chapter_id: i64,
        last_scan_time: Option<i64>,
    ) -> (restored: Option<Catalog>)
        ensures
            match restored {
                Some(c) => c.wf() && c@ == (CatalogView {
                    series: series_views(series@),
                    chapters: chapter_views(chapters@),
                    last_series_id: last_series_id as int,
                    last_chapter_id: last_chapter_id as int,
                    last_scan_time,
                }),
                None => !(CatalogView {
                    series: series_views(series@),
                    chapters: chapter_views(chapters@),
                    last_series_id: last_series_id as int,
                    last_chapter_id: last_chapter_id as int,
                    last_scan_time,
                }).wf(),
            },
    {
        let ghost view = CatalogView {
            series: series_views(series@),
            chapters: chapter_views(chapters@),
            last_series_id: last_series_id as int,
            last_chapter_id: last_chapter_id as int,
            last_scan_time,
        };
        if last_series_id < 0 || last_chapter_id < 0 {
            return None;
        }
        if !series_rows_fit(&series, last_series_id) {
            return None;
        }
        if !chapter_rows_fit(&chapters, last_chapter_id, &series) {
            proof {
                if view.wf() {
                    assert forall|i: int| 0 <= i < view.chapters.len() implies owned_by(
                        view.series,
                        (#[trigger] view.chapters[i]).series_id,
                    ) by {
                        assert(view.has_series_id(view.chapters[i].series_id));
                    }
                }
            }
            return None;
        }
        proof {
            assert forall|i: int| 0 <= i < view.chapters.len() implies view.has_series_id(
                (#[trigger] view.chapters[i]).series_id,
            ) by {
                assert(owned_by(view.series, view.chapters[i].series_id));
            }
        }
        Some(Catalog { series, chapters, last_series_id, last_chapter_id, last_scan_time })
    }
}

} // verus!
