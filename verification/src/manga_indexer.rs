//! Keeping the catalogue in step with the files on disk.
//!
//! A refresh first decides whether anything changed since the last full scan:
//! if a scan time is recorded and no file is newer, the catalogue is left as
//! it is. Otherwise the scanned chapter files are written into the catalogue
//! one by one, the series whose directories are gone are removed together with
//! their chapters, and the scan time is moved forward.

use vstd::prelude::*;
use crate::catalog::{name_set, Catalog, CatalogView, StoreError};
use crate::extract::{chapter_number_in, text_of};
use crate::manga::{digit_run_pattern, extract_chapter_number, first_group_of, lowercase_of};
use crate::number::{ChapterNumber, Decimal};

verus! {

/// A series as the catalogue stores it.
pub struct Manga {
    pub id: i64,
    pub name: String,
    /// The path of the cover image.
    pub ta: Option<String>,
    pub synopsis: Option<String>,
    pub source_url: Option<String>,
}

/// A chapter file found under the library root, with what was found beside
/// it in its directory.
pub struct ScannedFile {
    /// The name of the directory that holds the file: the name of the series.
    pub series: String,
    /// The name of the file, from which its chapter number is read.
    pub file_name: String,
    /// The full path of the file.
    pub path: String,
    /// The size of the file in bytes.
    pub size: u64,
    /// When the file was last modified, in seconds since the epoch.
    pub modified: u64,
    /// The path of the cover image of the series, if one was found.
    pub cover: Option<String>,
    /// The synopsis of the series, if one was found.
    pub synopsis: Option<String>,
    /// The address the series was taken from, if the synopsis names one.
    pub source_url: Option<String>,
}

/// A scanned file as contracts see it.
pub ghost struct ScannedFileView {
    pub series: Seq<char>,
    pub file_name: Seq<char>,
    pub path: Seq<char>,
    pub size: u64,
    pub modified: u64,
    pub cover: Option<Seq<char>>,
    pub synopsis: Option<Seq<char>>,
    pub source_url: Option<Seq<char>>,
}

impl View for ScannedFile {
    type V = ScannedFileView;

    open spec fn view(&self) -> ScannedFileView {
        ScannedFileView {
            series: self.series@,
            file_name: self.file_name@,
            path: self.path@,
            size: self.size,
            modified: self.modified,
            cover: text_of(self.cover),
            synopsis: text_of(self.synopsis),
            source_url: text_of(self.source_url),
        }
    }
}

impl ScannedFileView {
    /// Whether a cover, a synopsis or a source came with the file.
    pub open spec fn has_artifacts(self) -> bool {
        self.cover is Some || self.synopsis is Some || self.source_url is Some
    }
}

/// The views of a vector of scanned files.
pub open spec fn file_views(files: Seq<ScannedFile>) -> Seq<ScannedFileView> {
    files.map_values(|f: ScannedFile| f@)
}

/// The number under which a file of this name is stored: the number read from
/// the name, or zero if the name holds none.
pub open spec fn number_for(file_name: Seq<char>) -> Decimal {
    match chapter_number_in(
        lowercase_of(file_name),
        first_group_of(digit_run_pattern(), lowercase_of(file_name)),
    ) {
        Some(n) => n,
        None => Decimal { whole: 0, frac: 0 },
    }
}

/// The catalogue after one scanned file was written under `number`. The
/// series of the file is looked up or created; its cover, synopsis and source
/// are overwritten only if at least one of them came with the file; then the
/// chapter is written.
pub open spec fn apply_file(c: CatalogView, f: ScannedFileView, number: Decimal) -> CatalogView {
    let with_series = if f.has_artifacts() {
        c.with_series(f.series, f.cover, f.synopsis, f.source_url)
    } else {
        c.with_series_known(f.series)
    };
    with_series.with_chapter(c.series_id_of(f.series), number, f.path, f.size, f.modified)
}

/// The catalogue after the scanned files were written in order.
pub open spec fn apply_files(c: CatalogView, files: Seq<ScannedFileView>) -> CatalogView
    decreases files.len(),
{
    if files.len() == 0 {
        c
    } else {
        apply_file(
            apply_files(c, files.drop_last()),
            files.last(),
            number_for(files.last().file_name),
        )
    }
}

/// The later of the recorded scan time and `now`.
pub open spec fn advanced(recorded: Option<i64>, now: i64) -> i64 {
    match recorded {
        Some(t) => if t > now {
            t
        } else {
            now
        },
        None => now,
    }
}

/// The catalogue after a full scan: the files are written, the series whose
/// names are not in `keep` are removed with their chapters, and the scan time
/// moves to `now` unless it is later already.
pub open spec fn reconciled(
    c: CatalogView,
    files: Seq<ScannedFileView>,
    keep: Set<Seq<char>>,
    now: i64,
) -> CatalogView {
    CatalogView {
        last_scan_time: Some(advanced(c.last_scan_time, now)),
        ..apply_files(c, files).pruned(keep)
    }
}

/// Whether a full scan has ids for every series and chapter that `count`
/// files could add.
pub open spec fn has_room(c: CatalogView, count: nat) -> bool {
    c.last_series_id + count <= i64::MAX && c.last_chapter_id + count <= i64::MAX
}

/// Writing a series leaves a series with the expected id in the catalogue.
pub proof fn lemma_series_written(
    c: CatalogView,
    name: Seq<char>,
    thumbnail: Option<Seq<char>>,
    synopsis: Option<Seq<char>>,
    source_url: Option<Seq<char>>,
)
    requires
        c.wf(),
    ensures
        c.with_series(name, thumbnail, synopsis, source_url).has_series_id(c.series_id_of(name)),
        c.with_series_known(name).has_series_id(c.series_id_of(name)),
{
    let a = c.with_series(name, thumbnail, synopsis, source_url);
    let b = c.with_series_known(name);
    if c.has_series(name) {
        let i = c.series_at(name);
        assert(a.series[i].id == c.series_id_of(name));
        assert(b.series[i].id == c.series_id_of(name));
    } else {
        assert(a.series[c.series.len() as int].id == c.series_id_of(name));
        assert(b.series[c.series.len() as int].id == c.series_id_of(name));
    }
}

/// Writes one scanned file into the catalogue under `number`.
///
/// The series named by the file is looked up or created. Its cover, synopsis
/// and source are overwritten with what came with the file if at least one of
/// the three came, and left alone otherwise. The chapter of that series with
/// this number then takes the file's path, size and modification time, and
/// keeps its read progress if it was stored already.
///
/// The write is refused, and nothing changes, only when a new id is needed
/// and none is left.
pub fn index_file(catalog: &mut Catalog, file: &ScannedFile, number: ChapterNumber) -> (done: Result<
    (),
    StoreError,
>)
    requires
        old(catalog).wf(),
    ensures
        final(catalog).wf(),
        match done {
            Ok(_) => final(catalog)@ == apply_file(old(catalog)@, file@, number@),
            Err(e) => e == StoreError::IdsExhausted && final(catalog)@ == old(catalog)@ && (old(
                catalog,
            )@.last_series_id == i64::MAX || old(catalog)@.last_chapter_id == i64::MAX),
        },
        old(catalog)@.last_series_id < i64::MAX && old(catalog)@.last_chapter_id < i64::MAX
            ==> done is Ok,
        final(catalog)@.last_series_id <= old(catalog)@.last_series_id + 1,
        final(catalog)@.last_chapter_id <= old(catalog)@.last_chapter_id + 1,
{
    if catalog.last_chapter_id() == i64::MAX {
        return Err(StoreError::IdsExhausted);
    }
    proof {
        lemma_series_written(
            catalog@,
            file.series@,
            text_of(file.cover),
            text_of(file.synopsis),
            text_of(file.source_url),
        );
    }
    let resolved = if file.cover.is_some() || file.synopsis.is_some() || file.source_url.is_some() {
        catalog.upsert_series(
            file.series.as_str(),
            file.cover.clone(),
            file.synopsis.clone(),
            file.source_url.clone(),
        )
    } else {
        catalog.resolve_series(file.series.as_str())
    };
    match resolved {
        Ok(series_id) => {
            match catalog.upsert_chapter(
                series_id,
                number,
                file.path.as_str(),
                file.size,
                file.modified,
            ) {
                Ok(_) => Ok(()),
                Err(e) => {
                    assert(false);
                    Err(e)
                },
            }
        },
        Err(e) => Err(e),
    }
}

/// Brings the catalogue in step with a full scan.
///
/// Every scanned file is written in order, under the number read from its
/// name or under zero if the name holds none. Then every series whose name is
/// not among `existing_dirs` is removed together with its chapters. Last, the
/// scan time moves to `now`, unless the recorded time is later already.
///
/// The scan is one transaction: it is refused as a whole, before anything is
/// written, if the ids left would not suffice for a new series and a new
/// chapter per file.
pub fn scan_and_index(
    catalog: &mut Catalog,
    files: &Vec<ScannedFile>,
    existing_dirs: &Vec<String>,
    now: i64,
) -> (done: Result<(), StoreError>)
    requires
        old(catalog).wf(),
    ensures
        final(catalog).wf(),
        match done {
            Ok(_) => has_room(old(catalog)@, files@.len()) && final(catalog)@ == reconciled(
                old(catalog)@,
                file_views(files@),
                name_set(existing_dirs@),
                now,
            ),
            Err(e) => e == StoreError::IdsExhausted && !has_room(old(catalog)@, files@.len())
                && final(catalog)@ == old(catalog)@,
        },
{
    let n: usize = files.len();
    if !catalog.has_room_for(n) {
        return Err(StoreError::IdsExhausted);
    }
    let ghost all = file_views(files@);
    let mut i: usize = 0;
    while i < n
        invariant
            n == files@.len(),
            i <= n,
            all == file_views(files@),
            catalog.wf(),
            has_room(old(catalog)@, n as nat),
            catalog@.last_series_id <= old(catalog)@.last_series_id + i,
            catalog@.last_chapter_id <= old(catalog)@.last_chapter_id + i,
            catalog@ == apply_files(old(catalog)@, all.subrange(0, i as int)),
            catalog@.last_scan_time == old(catalog)@.last_scan_time,
        decreases n - i,
    {
        let number = match extract_chapter_number(files[i].file_name.as_str()) {
            Some(number) => number,
            None => ChapterNumber::zero(),
        };
        let step = index_file(catalog, &files[i], number);
        proof {
            assert(step is Ok);
            assert(all.subrange(0, i + 1).drop_last() =~= all.subrange(0, i as int));
            assert(all.subrange(0, i + 1).last() == files@[i as int]@);
            assert(number@ == number_for(files@[i as int].file_name@));
        }
        i += 1;
    }
    proof {
        assert(all.subrange(0, n as int) =~= all);
    }
    catalog.prune(existing_dirs);
    let later = match catalog.get_watermark() {
        Some(t) => if t > now {
            t
        } else {
            now
        },
        None => now,
    };
    catalog.set_watermark(later);
    Ok(())
}

/// Whether a full scan is due: no scan time is recorded, or some file was
/// modified after the recorded scan time.
pub open spec fn needs_full_scan(recorded: Option<i64>, modified: Seq<u64>) -> bool {
    match recorded {
        Some(t) => exists|i: int| 0 <= i < modified.len() && #[trigger] modified[i] > t,
        None => true,
    }
}

/// The catalogue after a refresh: after a full scan if one is due, and
/// unchanged otherwise.
pub open spec fn refreshed(
    c: CatalogView,
    modified: Seq<u64>,
    files: Seq<ScannedFileView>,
    keep: Set<Seq<char>>,
    now: i64,
) -> CatalogView {
    if needs_full_scan(c.last_scan_time, modified) {
        reconciled(c, files, keep, now)
    } else {
        c
    }
}

/// What a refresh did.
#[derive(Clone, Copy, Debug, PartialEq, Eq, Structural)]
pub enum Refresh {
    /// Nothing changed on disk; the catalogue was left as it was.
    Unchanged,
    /// A full scan brought the catalogue in step with the disk.
    Rescanned,
}

/// Decides whether a full scan is due, from the recorded scan time and the
/// modification times of the files under the library root.
pub fn needs_rescan(last_scan_time: Option<i64>, modified: &Vec<u64>) -> (due: bool)
    ensures
        due == needs_full_scan(last_scan_time, modified@),
{
    match last_scan_time {
        None => true,
        Some(t) => {
            let n: usize = modified.len();
            let mut i: usize = 0;
            while i < n
                invariant
                    last_scan_time == Some(t),
                    n == modified@.len(),
                    i <= n,
                    forall|j: int| 0 <= j < i ==> modified@[j] <= t,
                decreases n - i,
            {
                if t < 0 || modified[i] > t as u64 {
                    assert(modified@[i as int] > t);
                    return true;
                }
                i += 1;
            }
            false
        },
    }
}

/// Refreshes the catalogue: runs a full scan if one is due and leaves the
/// catalogue untouched otherwise, and says which of the two happened.
pub fn refresh(
    catalog: &mut Catalog,
    modified: &Vec<u64>,
    files: &Vec<ScannedFile>,
    existing_dirs: &Vec<String>,
    now: i64,
) -> (done: Result<Refresh, StoreError>)
    requires
        old(catalog).wf(),
    ensures
        final(catalog).wf(),
        match done {
            Ok(what) => final(catalog)@ == refreshed(
                old(catalog)@,
                modified@,
                file_views(files@),
                name_set(existing_dirs@),
                now,
            ) && (what == Refresh::Rescanned) == needs_full_scan(
                old(catalog)@.last_scan_time,
                modified@,
            ),
            Err(e) => e == StoreError::IdsExhausted && final(catalog)@ == old(catalog)@
                && needs_full_scan(old(catalog)@.last_scan_time, modified@) && !has_room(
                old(catalog)@,
                files@.len(),
            ),
        },
        done is Err <==> needs_full_scan(old(catalog)@.last_scan_time, modified@) && !has_room(
            old(catalog)@,
            files@.len(),
        ),
{
    if needs_rescan(catalog.get_watermark(), modified) {
        match scan_and_index(catalog, files, existing_dirs, now) {
            Ok(_) => Ok(Refresh::Rescanned),
            Err(e) => Err(e),
        }
    } else {
        Ok(Refresh::Unchanged)
    }
}

} // verus!
