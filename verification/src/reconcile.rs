//! What holds of every full scan and of every refresh.
//!
//! The facts are stated over the same functions in which the contracts of
//! `scan_and_index` and `refresh` speak, so each of them holds of what those
//! functions do to a catalogue.

use vstd::prelude::*;
use crate::catalog::{
    chapters_outside, lemma_chapter_fields_keep_wf, lemma_filter_increasing,
    lemma_new_chapter_keeps_wf, lemma_new_series_keeps_wf, lemma_series_fields_keep_wf,
    lemma_without_series_keeps_wf, series_outside, CatalogView, ChapterView, SeriesView,
};
use crate::extract::lemma_chapter_number_fits;
use crate::manga::{digit_run_pattern, first_group_of, lowercase_of, shows_catalog, Manga};
use crate::manga_indexer::{
    advanced, apply_file, apply_files, has_room, lemma_series_written, needs_full_scan, number_for,
    reconciled, refreshed, ScannedFileView,
};
use crate::number::Decimal;

verus! {

/// Two chapter rows that are the same chapter with the same read progress.
pub open spec fn same_chapter_and_progress(a: ChapterView, b: ChapterView) -> bool {
    &&& a.id == b.id
    &&& a.series_id == b.series_id
    &&& a.number == b.number
    &&& a.read == b.read
    &&& a.last_page_read == b.last_page_read
    &&& a.full_pages_read == b.full_pages_read
}

/// Whether `c` stores a series with the id and the name of `row`.
pub open spec fn series_known(c: CatalogView, row: SeriesView) -> bool {
    exists|i: int|
        0 <= i < c.series.len() && (#[trigger] c.series[i]).id == row.id && c.series[i].name
            == row.name
}

/// Whether `c` stores the chapter `row` with the read progress of `row`.
pub open spec fn chapter_known(c: CatalogView, row: ChapterView) -> bool {
    exists|i: int|
        0 <= i < c.chapters.len() && same_chapter_and_progress(#[trigger] c.chapters[i], row)
}

/// Whether `new` came from `old` without reusing an id and without touching
/// what identifies a row or the read progress of a chapter: every row of
/// `new` whose id `old` had handed out is a row of `old`, with the same name
/// for a series, and the same series, number and progress for a chapter.
pub open spec fn keeps_rows(old: CatalogView, new: CatalogView) -> bool {
    &&& old.last_series_id <= new.last_series_id
    &&& old.last_chapter_id <= new.last_chapter_id
    &&& forall|j: int|
        0 <= j < new.series.len() && (#[trigger] new.series[j]).id <= old.last_series_id
            ==> series_known(old, new.series[j])
    &&& forall|j: int|
        0 <= j < new.chapters.len() && (#[trigger] new.chapters[j]).id <= old.last_chapter_id
            ==> chapter_known(old, new.chapters[j])
}

/// A well-formed catalogue keeps its own rows.
pub proof fn lemma_keeps_rows_reflexive(c: CatalogView)
    ensures
        keeps_rows(c, c),
{
    assert forall|j: int| 0 <= j < c.chapters.len() implies chapter_known(
        c,
        #[trigger] c.chapters[j],
    ) by {
        assert(same_chapter_and_progress(c.chapters[j], c.chapters[j]));
    }
}

/// Keeping rows carries over two steps.
pub proof fn lemma_keeps_rows_transitive(a: CatalogView, b: CatalogView, c: CatalogView)
    requires
        keeps_rows(a, b),
        keeps_rows(b, c),
    ensures
        keeps_rows(a, c),
{
    assert forall|j: int|
        0 <= j < c.series.len() && (#[trigger] c.series[j]).id <= a.last_series_id implies series_known(
        a,
        c.series[j],
    ) by {
        assert(series_known(b, c.series[j]));
        let k = choose|k: int|
            0 <= k < b.series.len() && (#[trigger] b.series[k]).id == c.series[j].id
                && b.series[k].name == c.series[j].name;
        assert(series_known(a, b.series[k]));
        let i = choose|i: int|
            0 <= i < a.series.len() && (#[trigger] a.series[i]).id == b.series[k].id
                && a.series[i].name == b.series[k].name;
        assert(a.series[i].id == c.series[j].id);
    }
    assert forall|j: int|
        0 <= j < c.chapters.len() && (#[trigger] c.chapters[j]).id
            <= a.last_chapter_id implies chapter_known(a, c.chapters[j]) by {
        assert(chapter_known(b, c.chapters[j]));
        let k = choose|k: int|
            0 <= k < b.chapters.len() && same_chapter_and_progress(
                #[trigger] b.chapters[k],
                c.chapters[j],
            );
        assert(chapter_known(a, b.chapters[k]));
        let i = choose|i: int|
            0 <= i < a.chapters.len() && same_chapter_and_progress(
                #[trigger] a.chapters[i],
                b.chapters[k],
            );
        assert(same_chapter_and_progress(a.chapters[i], c.chapters[j]));
    }
}

/// Writing a series keeps the invariant and the rows.
pub proof fn lemma_with_series(
    c: CatalogView,
    name: Seq<char>,
    thumbnail: Option<Seq<char>>,
    synopsis: Option<Seq<char>>,
    source_url: Option<Seq<char>>,
)
    requires
        c.wf(),
        c.last_series_id < i64::MAX,
    ensures
        c.with_series(name, thumbnail, synopsis, source_url).wf(),
        keeps_rows(c, c.with_series(name, thumbnail, synopsis, source_url)),
        c.with_series(name, thumbnail, synopsis, source_url).last_series_id <= c.last_series_id
            + 1,
{
    let new = c.with_series(name, thumbnail, synopsis, source_url);
    lemma_keeps_rows_reflexive(c);
    if c.has_series(name) {
        lemma_series_fields_keep_wf(c, new);
        assert forall|j: int|
            0 <= j < new.series.len() && (#[trigger] new.series[j]).id
                <= c.last_series_id implies series_known(c, new.series[j]) by {
            assert(c.series[j].id == new.series[j].id);
        }
    } else {
        let row = SeriesView { id: c.last_series_id + 1, name, thumbnail, synopsis, source_url };
        lemma_new_series_keeps_wf(c, row);
        assert forall|j: int|
            0 <= j < new.series.len() && (#[trigger] new.series[j]).id
                <= c.last_series_id implies series_known(c, new.series[j]) by {
            assert(c.series[j].id == new.series[j].id);
        }
    }
    assert forall|j: int|
        0 <= j < new.chapters.len() && (#[trigger] new.chapters[j]).id
            <= c.last_chapter_id implies chapter_known(c, new.chapters[j]) by {
        assert(same_chapter_and_progress(c.chapters[j], new.chapters[j]));
    }
}

/// Writing a chapter of a stored series keeps the invariant and the rows.
pub proof fn lemma_with_chapter(
    c: CatalogView,
    series_id: int,
    number: Decimal,
    file: Seq<char>,
    size: u64,
    modified: u64,
)
    requires
        c.wf(),
        c.last_chapter_id < i64::MAX,
        c.has_series_id(series_id),
        number.fits(),
    ensures
        c.with_chapter(series_id, number, file, size, modified).wf(),
        keeps_rows(c, c.with_chapter(series_id, number, file, size, modified)),
        c.with_chapter(series_id, number, file, size, modified).last_chapter_id
            <= c.last_chapter_id + 1,
{
    let new = c.with_chapter(series_id, number, file, size, modified);
    if c.has_chapter(series_id, number) {
        let i = c.chapter_at(series_id, number);
        assert(c.chapter_is(i, series_id, number));
        lemma_chapter_fields_keep_wf(c, new);
        assert forall|j: int|
            0 <= j < new.chapters.len() && (#[trigger] new.chapters[j]).id
                <= c.last_chapter_id implies chapter_known(c, new.chapters[j]) by {
            assert(same_chapter_and_progress(c.chapters[j], new.chapters[j]));
        }
    } else {
        let row = ChapterView {
            id: c.last_chapter_id + 1,
            series_id,
            number,
            file,
            read: false,
            last_page_read: None,
            full_pages_read: None,
            size,
            modified,
        };
        lemma_new_chapter_keeps_wf(c, row);
        assert forall|j: int|
            0 <= j < new.chapters.len() && (#[trigger] new.chapters[j]).id
                <= c.last_chapter_id implies chapter_known(c, new.chapters[j]) by {
            assert(same_chapter_and_progress(c.chapters[j], new.chapters[j]));
        }
    }
    assert forall|j: int|
        0 <= j < new.series.len() && (#[trigger] new.series[j]).id
            <= c.last_series_id implies series_known(c, new.series[j]) by {
        assert(c.series[j].id == new.series[j].id);
    }
}

/// Removing series with their chapters keeps the invariant and the rows.
pub proof fn lemma_without_series(c: CatalogView, dropped: Set<int>)
    requires
        c.wf(),
    ensures
        c.without_series_in(dropped).wf(),
        keeps_rows(c, c.without_series_in(dropped)),
{
    let new = c.without_series_in(dropped);
    lemma_without_series_keeps_wf(c, dropped);
    lemma_filter_increasing(c.series, series_outside(dropped), |s: SeriesView| s.id);
    lemma_filter_increasing(c.chapters, chapters_outside(dropped), |ch: ChapterView| ch.id);
    assert forall|j: int| 0 <= j < new.series.len() implies series_known(
        c,
        #[trigger] new.series[j],
    ) by {
        assert(c.series.contains(new.series[j]));
        let i = choose|i: int| 0 <= i < c.series.len() && c.series[i] == new.series[j];
        assert(c.series[i].id == new.series[j].id);
    }
    assert forall|j: int| 0 <= j < new.chapters.len() implies chapter_known(
        c,
        #[trigger] new.chapters[j],
    ) by {
        assert(c.chapters.contains(new.chapters[j]));
        let i = choose|i: int| 0 <= i < c.chapters.len() && c.chapters[i] == new.chapters[j];
        assert(same_chapter_and_progress(c.chapters[i], new.chapters[j]));
    }
}

/// The number under which a file is stored fits a chapter number.
pub proof fn lemma_number_for_fits(file_name: Seq<char>)
    ensures
        number_for(file_name).fits(),
{
    lemma_chapter_number_fits(
        lowercase_of(file_name),
        first_group_of(digit_run_pattern(), lowercase_of(file_name)),
    );
}

/// Writing one scanned file keeps the invariant and the rows, and uses at
/// most one new id of each kind.
pub proof fn lemma_apply_file(c: CatalogView, f: ScannedFileView, number: Decimal)
    requires
        c.wf(),
        number.fits(),
        c.last_series_id < i64::MAX,
        c.last_chapter_id < i64::MAX,
    ensures
        apply_file(c, f, number).wf(),
        keeps_rows(c, apply_file(c, f, number)),
        apply_file(c, f, number).last_series_id <= c.last_series_id + 1,
        apply_file(c, f, number).last_chapter_id <= c.last_chapter_id + 1,
        apply_file(c, f, number).last_scan_time == c.last_scan_time,
{
    let mid = if f.has_artifacts() {
        c.with_series(f.series, f.cover, f.synopsis, f.source_url)
    } else {
        c.with_series_known(f.series)
    };
    lemma_series_written(c, f.series, f.cover, f.synopsis, f.source_url);
    lemma_with_series(c, f.series, f.cover, f.synopsis, f.source_url);
    lemma_with_series(c, f.series, None, None, None);
    lemma_keeps_rows_reflexive(c);
    let id = c.series_id_of(f.series);
    lemma_with_chapter(mid, id, number, f.path, f.size, f.modified);
    lemma_keeps_rows_transitive(c, mid, apply_file(c, f, number));
}

/// Writing scanned files keeps the invariant and the rows, and uses at most
/// one new id of each kind per file.
pub proof fn lemma_apply_files(c: CatalogView, files: Seq<ScannedFileView>)
    requires
        c.wf(),
        has_room(c, files.len()),
    ensures
        apply_files(c, files).wf(),
        keeps_rows(c, apply_files(c, files)),
        apply_files(c, files).last_series_id <= c.last_series_id + files.len(),
        apply_files(c, files).last_chapter_id <= c.last_chapter_id + files.len(),
        apply_files(c, files).last_scan_time == c.last_scan_time,
    decreases files.len(),
{
    if files.len() == 0 {
        lemma_keeps_rows_reflexive(c);
    } else {
        let before = apply_files(c, files.drop_last());
        lemma_apply_files(c, files.drop_last());
        lemma_number_for_fits(files.last().file_name);
        lemma_apply_file(before, files.last(), number_for(files.last().file_name));
        lemma_keeps_rows_transitive(c, before, apply_files(c, files));
    }
}

/// A full scan leaves a well-formed catalogue that keeps the rows it had.
pub proof fn lemma_reconciled(
    c: CatalogView,
    files: Seq<ScannedFileView>,
    keep: Set<Seq<char>>,
    now: i64,
)
    requires
        c.wf(),
        has_room(c, files.len()),
    ensures
        reconciled(c, files, keep, now).wf(),
        keeps_rows(c, reconciled(c, files, keep, now)),
{
    let written = apply_files(c, files);
    lemma_apply_files(c, files);
    lemma_without_series(written, written.ids_outside(keep));
    let pruned = written.pruned(keep);
    lemma_keeps_rows_transitive(c, written, pruned);
    let new = reconciled(c, files, keep, now);
    assert(new.series == pruned.series);
    assert(new.chapters == pruned.chapters);
    assert forall|i: int| 0 <= i < new.chapters.len() implies new.has_series_id(
        (#[trigger] new.chapters[i]).series_id,
    ) by {
        assert(pruned.has_series_id(pruned.chapters[i].series_id));
    }
}

/// Read progress survives a full scan: a chapter that was stored before the
/// scan and is stored after it has the series, the number, the read flag, the
/// last page read and the page count that it had. A scan changes nothing of
/// a stored chapter but its file, its size and its modification time.
pub proof fn lemma_scan_preserves_progress(
    c: CatalogView,
    files: Seq<ScannedFileView>,
    keep: Set<Seq<char>>,
    now: i64,
)
    requires
        c.wf(),
        has_room(c, files.len()),
    ensures
        forall|i: int, j: int|
            0 <= i < c.chapters.len() && 0 <= j < reconciled(c, files, keep, now).chapters.len()
                && (#[trigger] c.chapters[i]).id == (#[trigger] reconciled(
                c,
                files,
                keep,
                now,
            ).chapters[j]).id ==> same_chapter_and_progress(
                c.chapters[i],
                reconciled(c, files, keep, now).chapters[j],
            ),
{
    let new = reconciled(c, files, keep, now);
    lemma_reconciled(c, files, keep, now);
    assert forall|i: int, j: int|
        0 <= i < c.chapters.len() && 0 <= j < new.chapters.len() && (#[trigger] c.chapters[i]).id
            == (#[trigger] new.chapters[j]).id implies same_chapter_and_progress(
        c.chapters[i],
        new.chapters[j],
    ) by {
        assert(chapter_known(c, new.chapters[j]));
        let k = choose|k: int|
            0 <= k < c.chapters.len() && same_chapter_and_progress(
                #[trigger] c.chapters[k],
                new.chapters[j],
            );
        if k < i {
            assert(c.chapters[k].id < c.chapters[i].id);
        } else if i < k {
            assert(c.chapters[i].id < c.chapters[k].id);
        }
    }
}

/// Writing a file again refreshes its chapter and keeps the chapter's
/// progress: after a scanned file is written, the chapter of its series with
/// its number has the file's path, size and modification time; if the chapter
/// was stored before, it has the id and the read progress that it had.
pub proof fn lemma_rewrite_refreshes_chapter(c: CatalogView, f: ScannedFileView, number: Decimal)
    requires
        c.wf(),
        number.fits(),
        c.last_series_id < i64::MAX,
        c.last_chapter_id < i64::MAX,
    ensures
        ({
            let new = apply_file(c, f, number);
            let sid = c.series_id_of(f.series);
            &&& new.has_chapter(sid, number)
            &&& new.chapters[new.chapter_at(sid, number)].file == f.path
            &&& new.chapters[new.chapter_at(sid, number)].size == f.size
            &&& new.chapters[new.chapter_at(sid, number)].modified == f.modified
            &&& c.has_chapter(sid, number) ==> same_chapter_and_progress(
                c.chapters[c.chapter_at(sid, number)],
                new.chapters[new.chapter_at(sid, number)],
            ) && new.chapters.len() == c.chapters.len()
        }),
{
    let new = apply_file(c, f, number);
    let sid = c.series_id_of(f.series);
    let mid = if f.has_artifacts() {
        c.with_series(f.series, f.cover, f.synopsis, f.source_url)
    } else {
        c.with_series_known(f.series)
    };
    lemma_apply_file(c, f, number);
    assert(mid.chapters == c.chapters);
    if mid.has_chapter(sid, number) {
        let i = mid.chapter_at(sid, number);
        assert(mid.chapter_is(i, sid, number));
        assert(new.chapter_is(i, sid, number));
        let k = new.chapter_at(sid, number);
        assert(new.chapter_is(k, sid, number));
        assert(c.chapter_is(i, sid, number));
        let m = c.chapter_at(sid, number);
        assert(c.chapter_is(m, sid, number));
    } else {
        let i = mid.chapters.len() as int;
        assert(new.chapter_is(i, sid, number));
        let k = new.chapter_at(sid, number);
        assert(new.chapter_is(k, sid, number));
        if c.has_chapter(sid, number) {
            let m = c.chapter_at(sid, number);
            assert(c.chapter_is(m, sid, number));
            assert(mid.chapter_is(m, sid, number));
        }
    }
}

/// After a full scan no series is stored whose name is not among the
/// directories that exist, and every stored chapter belongs to a stored
/// series: a series whose directory is gone is gone with all its chapters.
pub proof fn lemma_scan_drops_missing_series(
    c: CatalogView,
    files: Seq<ScannedFileView>,
    keep: Set<Seq<char>>,
    now: i64,
)
    requires
        c.wf(),
        has_room(c, files.len()),
    ensures
        forall|i: int|
            0 <= i < reconciled(c, files, keep, now).series.len() ==> keep.contains(
                (#[trigger] reconciled(c, files, keep, now).series[i]).name,
            ),
        forall|name: Seq<char>|
            !keep.contains(name) ==> !reconciled(c, files, keep, now).has_series(name),
        forall|j: int|
            0 <= j < reconciled(c, files, keep, now).chapters.len() ==> reconciled(
                c,
                files,
                keep,
                now,
            ).has_series_id((#[trigger] reconciled(c, files, keep, now).chapters[j]).series_id),
{
    let new = reconciled(c, files, keep, now);
    let written = apply_files(c, files);
    let dropped = written.ids_outside(keep);
    lemma_reconciled(c, files, keep, now);
    lemma_apply_files(c, files);
    lemma_filter_increasing(written.series, series_outside(dropped), |s: SeriesView| s.id);
    assert forall|i: int| 0 <= i < new.series.len() implies keep.contains(
        (#[trigger] new.series[i]).name,
    ) by {
        assert(written.series.contains(new.series[i]));
        let k = choose|k: int| 0 <= k < written.series.len() && written.series[k] == new.series[i];
        assert(series_outside(dropped)(new.series[i]));
        if !keep.contains(written.series[k].name) {
            assert(dropped.contains(written.series[k].id));
        }
    }
}

/// No two stored chapters share a series and a number, and no two stored
/// series share a name.
pub proof fn lemma_keys_are_unique(c: CatalogView)
    requires
        c.wf(),
    ensures
        forall|i: int, j: int|
            0 <= i < j < c.chapters.len() ==> !((#[trigger] c.chapters[i]).series_id == (
            #[trigger] c.chapters[j]).series_id && c.chapters[i].number == c.chapters[j].number),
        forall|i: int, j: int|
            0 <= i < j < c.series.len() ==> (#[trigger] c.series[i]).name != (
            #[trigger] c.series[j]).name,
{
}

/// The recorded scan time never moves back: after a full scan it is at least
/// `now` and at least what it was.
pub proof fn lemma_scan_time_moves_forward(
    c: CatalogView,
    files: Seq<ScannedFileView>,
    keep: Set<Seq<char>>,
    now: i64,
)
    ensures
        reconciled(c, files, keep, now).last_scan_time is Some,
        reconciled(c, files, keep, now).last_scan_time->0 >= now,
        c.last_scan_time matches Some(t) ==> reconciled(c, files, keep, now).last_scan_time->0
            >= t,
{
}

/// A refresh that follows a refresh changes nothing, provided no file claims
/// to have been modified after the first refresh began: the second refresh
/// finds no file newer than the recorded scan time and leaves the catalogue
/// as it is.
pub proof fn lemma_refresh_settles(
    c: CatalogView,
    modified: Seq<u64>,
    files: Seq<ScannedFileView>,
    keep: Set<Seq<char>>,
    first: i64,
    second: i64,
)
    requires
        forall|i: int| 0 <= i < modified.len() ==> modified[i] <= first,
    ensures
        !needs_full_scan(refreshed(c, modified, files, keep, first).last_scan_time, modified),
        refreshed(refreshed(c, modified, files, keep, first), modified, files, keep, second)
            == refreshed(c, modified, files, keep, first),
{
    let once = refreshed(c, modified, files, keep, first);
    if needs_full_scan(c.last_scan_time, modified) {
        assert(once.last_scan_time == Some(advanced(c.last_scan_time, first)));
    }
}

/// What is loaded after a full scan shows no series whose directory is gone:
/// every series on show has a name among the directories that exist, and
/// every chapter on show belongs to the series under which it is shown.
pub proof fn lemma_loaded_after_scan(
    c: CatalogView,
    files: Seq<ScannedFileView>,
    keep: Set<Seq<char>>,
    now: i64,
    mangas: Seq<Manga>,
)
    requires
        c.wf(),
        has_room(c, files.len()),
        shows_catalog(reconciled(c, files, keep, now), mangas),
    ensures
        forall|i: int| 0 <= i < mangas.len() ==> keep.contains((#[trigger] mangas[i]).name@),
        forall|i: int, k: int|
            0 <= i < mangas.len() && 0 <= k < mangas[i].chapters@.len() ==> (
            #[trigger] mangas[i].chapters@[k]).manga_id == mangas[i].id,
{
    let new = reconciled(c, files, keep, now);
    lemma_scan_drops_missing_series(c, files, keep, now);
    assert forall|i: int| 0 <= i < mangas.len() implies keep.contains(
        (#[trigger] mangas[i]).name@,
    ) by {
        assert(keep.contains(new.series[i].name));
    }
    assert forall|i: int, k: int|
        0 <= i < mangas.len() && 0 <= k < mangas[i].chapters@.len() implies (
        #[trigger] mangas[i].chapters@[k]).manga_id == mangas[i].id by {
        let shown = mangas[i].chapters@;
        assert(shown[k]@.series_id == new.series[i].id);
    }
}

} // verus!
