//! A full scan repeated.
//!
//! Scanning the same files twice gives the rows that scanning them once
//! gives: the second scan finds every kept series and chapter under the id
//! it has, writes into it what it holds already, and the rows it adds for
//! series outside the kept directories are removed again before it ends.

use vstd::prelude::*;
use crate::catalog::{
    chapters_outside, lemma_filter_increasing, series_outside, CatalogView, ChapterView,
    SeriesView,
};
use crate::manga_indexer::{
    apply_file, apply_files, has_room, number_for, reconciled, ScannedFileView,
};
use crate::number::Decimal;
use crate::reconcile::{
    lemma_apply_file, lemma_apply_files, lemma_number_for_fits, lemma_reconciled,
    same_chapter_and_progress,
};

verus! {

/// The cover, the synopsis and the source of a series.
pub ghost struct SeriesFields {
    pub thumbnail: Option<Seq<char>>,
    pub synopsis: Option<Seq<char>>,
    pub source_url: Option<Seq<char>>,
}

/// The file, the size and the modification time of a chapter.
pub ghost struct ChapterData {
    pub file: Seq<char>,
    pub size: u64,
    pub modified: u64,
}

/// The fields of a series row.
pub open spec fn fields_of(s: SeriesView) -> SeriesFields {
    SeriesFields { thumbnail: s.thumbnail, synopsis: s.synopsis, source_url: s.source_url }
}

/// What came with a scanned file for its series.
pub open spec fn artifacts_of(f: ScannedFileView) -> SeriesFields {
    SeriesFields { thumbnail: f.cover, synopsis: f.synopsis, source_url: f.source_url }
}

/// The fields of a series of which nothing is known.
pub open spec fn no_fields() -> SeriesFields {
    SeriesFields { thumbnail: None, synopsis: None, source_url: None }
}

/// The data of a chapter row.
pub open spec fn data_of(c: ChapterView) -> ChapterData {
    ChapterData { file: c.file, size: c.size, modified: c.modified }
}

/// The data that a scanned file gives its chapter.
pub open spec fn data_in(f: ScannedFileView) -> ChapterData {
    ChapterData { file: f.path, size: f.size, modified: f.modified }
}

/// In a well-formed catalogue a series is found by its name.
pub proof fn lemma_series_found(c: CatalogView, j: int)
    requires
        c.wf(),
        0 <= j < c.series.len(),
    ensures
        c.has_series(c.series[j].name),
        c.series_at(c.series[j].name) == j,
        c.series_id_of(c.series[j].name) == c.series[j].id,
{
    let name = c.series[j].name;
    assert(c.series[j].name == name);
    let i = c.series_at(name);
    assert(c.series[i].name == c.series[j].name);
}

/// What writing one scanned file does to the series, row by row.
pub proof fn lemma_step_series(x: CatalogView, f: ScannedFileView, number: Decimal)
    requires
        x.wf(),
        number.fits(),
        x.last_series_id < i64::MAX,
        x.last_chapter_id < i64::MAX,
    ensures
        ({
            let z = apply_file(x, f, number);
            let n = f.series;
            &&& z.wf()
            &&& z.last_scan_time == x.last_scan_time
            &&& x.has_series(n) ==> z.series.len() == x.series.len() && z.last_series_id
                == x.last_series_id
            &&& !x.has_series(n) ==> z.series.len() == x.series.len() + 1 && z.last_series_id
                == x.last_series_id + 1 && z.series[x.series.len() as int].name == n
                && z.series[x.series.len() as int].id == x.last_series_id + 1 && fields_of(
                z.series[x.series.len() as int],
            ) == if f.has_artifacts() {
                artifacts_of(f)
            } else {
                no_fields()
            }
            &&& forall|j: int|
                0 <= j < x.series.len() ==> (#[trigger] z.series[j]).id == x.series[j].id
                    && z.series[j].name == x.series[j].name && fields_of(z.series[j]) == if x.series[j].name
                    == n && f.has_artifacts() {
                    artifacts_of(f)
                } else {
                    fields_of(x.series[j])
                }
            &&& z.has_series(n)
            &&& z.series_id_of(n) == x.series_id_of(n)
            &&& forall|m: Seq<char>| #[trigger]
                x.has_series(m) ==> z.has_series(m) && z.series_id_of(m) == x.series_id_of(m)
        }),
{
    let z = apply_file(x, f, number);
    let n = f.series;
    let mid = if f.has_artifacts() {
        x.with_series(f.series, f.cover, f.synopsis, f.source_url)
    } else {
        x.with_series_known(f.series)
    };
    lemma_apply_file(x, f, number);
    assert(z.series == mid.series);
    if x.has_series(n) {
        let i = x.series_at(n);
        assert(x.series[i].name == n);
        assert forall|j: int| 0 <= j < x.series.len() implies (#[trigger] z.series[j]).id
            == x.series[j].id && z.series[j].name == x.series[j].name && fields_of(z.series[j])
            == if x.series[j].name == n && f.has_artifacts() {
            artifacts_of(f)
        } else {
            fields_of(x.series[j])
        } by {
            if x.series[j].name == n {
                assert(x.series[j].name == x.series[i].name);
            }
        }
        assert(z.series[i].name == n);
        lemma_series_found(z, i);
    } else {
        let k = x.series.len() as int;
        assert(z.series[k].name == n);
        lemma_series_found(z, k);
        assert forall|j: int| 0 <= j < x.series.len() implies x.series[j].name != n by {
            if x.series[j].name == n {
                assert(x.has_series(n));
            }
        }
    }
    assert forall|m: Seq<char>| #[trigger] x.has_series(m) implies z.has_series(m)
        && z.series_id_of(m) == x.series_id_of(m) by {
        let i = x.series_at(m);
        assert(x.series[i].name == m);
        assert(z.series[i].name == m);
        lemma_series_found(z, i);
        lemma_series_found(x, i);
    }
}

/// What writing one scanned file does to the chapters, row by row.
pub proof fn lemma_step_chapters(x: CatalogView, f: ScannedFileView, number: Decimal)
    requires
        x.wf(),
        number.fits(),
        x.last_series_id < i64::MAX,
        x.last_chapter_id < i64::MAX,
    ensures
        ({
            let z = apply_file(x, f, number);
            let sid = x.series_id_of(f.series);
            &&& x.has_chapter(sid, number) ==> z.chapters.len() == x.chapters.len()
                && z.last_chapter_id == x.last_chapter_id
            &&& !x.has_chapter(sid, number) ==> z.chapters.len() == x.chapters.len() + 1
                && z.last_chapter_id == x.last_chapter_id + 1 && z.chapters[x.chapters.len() as int]
                == (ChapterView {
                id: x.last_chapter_id + 1,
                series_id: sid,
                number,
                file: f.path,
                read: false,
                last_page_read: None,
                full_pages_read: None,
                size: f.size,
                modified: f.modified,
            })
            &&& forall|j: int|
                0 <= j < x.chapters.len() ==> #[trigger] z.chapters[j] == if x.chapters[j].series_id
                    == sid && x.chapters[j].number == number {
                    ChapterView {
                        file: f.path,
                        size: f.size,
                        modified: f.modified,
                        ..x.chapters[j]
                    }
                } else {
                    x.chapters[j]
                }
            &&& z.has_chapter(sid, number)
        }),
{
    let z = apply_file(x, f, number);
    let sid = x.series_id_of(f.series);
    let mid = if f.has_artifacts() {
        x.with_series(f.series, f.cover, f.synopsis, f.source_url)
    } else {
        x.with_series_known(f.series)
    };
    lemma_apply_file(x, f, number);
    assert(mid.chapters == x.chapters);
    assert(mid.last_chapter_id == x.last_chapter_id);
    if x.has_chapter(sid, number) {
        let i = x.chapter_at(sid, number);
        assert(x.chapter_is(i, sid, number));
        assert(mid.chapter_is(i, sid, number));
        let k = mid.chapter_at(sid, number);
        assert(mid.chapter_is(k, sid, number));
        assert(x.chapters[k].series_id == x.chapters[i].series_id);
        assert(k == i);
        assert forall|j: int| 0 <= j < x.chapters.len() implies #[trigger] z.chapters[j]
            == if x.chapters[j].series_id == sid && x.chapters[j].number == number {
            ChapterView { file: f.path, size: f.size, modified: f.modified, ..x.chapters[j] }
        } else {
            x.chapters[j]
        } by {
            if x.chapters[j].series_id == sid && x.chapters[j].number == number {
                assert(x.chapters[j].series_id == x.chapters[i].series_id);
            }
        }
        assert(z.chapter_is(i, sid, number));
    } else {
        if mid.has_chapter(sid, number) {
            let k = mid.chapter_at(sid, number);
            assert(mid.chapter_is(k, sid, number));
            assert(x.chapter_is(k, sid, number));
        }
        assert forall|j: int| 0 <= j < x.chapters.len() implies !(x.chapters[j].series_id == sid
            && x.chapters[j].number == number) by {
            if x.chapters[j].series_id == sid && x.chapters[j].number == number {
                assert(x.chapter_is(j, sid, number));
            }
        }
        assert(z.chapter_is(x.chapters.len() as int, sid, number));
    }
}

/// Whether one of the files belongs to the series `name`.
pub open spec fn mentions(files: Seq<ScannedFileView>, name: Seq<char>) -> bool {
    exists|i: int| 0 <= i < files.len() && (#[trigger] files[i]).series == name
}

/// The fields that a series has once the files are written: what came with
/// the last file of the series that brought a cover, a synopsis or a source,
/// and `initial` if no file of the series brought any.
pub open spec fn series_fields(
    files: Seq<ScannedFileView>,
    name: Seq<char>,
    initial: SeriesFields,
) -> SeriesFields
    decreases files.len(),
{
    if files.len() == 0 {
        initial
    } else if files.last().series == name && files.last().has_artifacts() {
        artifacts_of(files.last())
    } else {
        series_fields(files.drop_last(), name, initial)
    }
}

/// The fields with which the series at position `j` starts a scan of `x`:
/// those it has in `x`, or none if `x` does not hold it.
pub open spec fn initial_fields(x: CatalogView, j: int) -> SeriesFields {
    if j < x.series.len() {
        fields_of(x.series[j])
    } else {
        no_fields()
    }
}

/// Files of a series that is not mentioned leave its fields alone.
pub proof fn lemma_unmentioned_fields(
    files: Seq<ScannedFileView>,
    name: Seq<char>,
    initial: SeriesFields,
)
    requires
        !mentions(files, name),
    ensures
        series_fields(files, name, initial) == initial,
    decreases files.len(),
{
    if files.len() > 0 {
        assert(files[files.len() - 1].series != name);
        assert forall|i: int| 0 <= i < files.drop_last().len() implies (
        #[trigger] files.drop_last()[i]).series != name by {
            assert(files[i].series != name);
        }
        lemma_unmentioned_fields(files.drop_last(), name, initial);
    }
}

/// Either the files leave the fields of a series alone, or they decide them
/// whatever they were.
pub proof fn lemma_fields_cases(
    files: Seq<ScannedFileView>,
    name: Seq<char>,
    a: SeriesFields,
    b: SeriesFields,
)
    ensures
        (series_fields(files, name, a) == a && series_fields(files, name, b) == b) || series_fields(
            files,
            name,
            a,
        ) == series_fields(files, name, b),
    decreases files.len(),
{
    if files.len() > 0 {
        lemma_fields_cases(files.drop_last(), name, a, b);
    }
}

/// The fields that the files give a series do not change when the files are
/// written once more.
pub proof fn lemma_fields_settle(
    files: Seq<ScannedFileView>,
    name: Seq<char>,
    initial: SeriesFields,
)
    ensures
        series_fields(files, name, series_fields(files, name, initial)) == series_fields(
            files,
            name,
            initial,
        ),
{
    lemma_fields_cases(files, name, series_fields(files, name, initial), initial);
}

/// What writing scanned files does to the series, row by row: the series of
/// `x` keep their places, ids and names; every row after them belongs to a
/// series that the files mention and `x` does not hold; every series that
/// the files mention is stored; and each series has the fields that the last
/// of its files with a cover, a synopsis or a source brought.
pub proof fn lemma_scan_series(x: CatalogView, files: Seq<ScannedFileView>)
    requires
        x.wf(),
        has_room(x, files.len()),
    ensures
        ({
            let z = apply_files(x, files);
            &&& z.wf()
            &&& z.last_series_id <= x.last_series_id + files.len()
            &&& z.last_chapter_id <= x.last_chapter_id + files.len()
            &&& z.series.len() >= x.series.len()
            &&& forall|j: int|
                0 <= j < x.series.len() ==> (#[trigger] z.series[j]).id == x.series[j].id
                    && z.series[j].name == x.series[j].name
            &&& forall|j: int|
                x.series.len() <= j < z.series.len() ==> mentions(files, (#[trigger] z.series[j]).name)
                    && !x.has_series(z.series[j].name)
            &&& forall|i: int| 0 <= i < files.len() ==> z.has_series((#[trigger] files[i]).series)
            &&& forall|m: Seq<char>| #[trigger]
                x.has_series(m) ==> z.has_series(m) && z.series_id_of(m) == x.series_id_of(m)
            &&& forall|j: int|
                0 <= j < z.series.len() ==> fields_of(#[trigger] z.series[j]) == series_fields(
                    files,
                    z.series[j].name,
                    initial_fields(x, j),
                )
        }),
    decreases files.len(),
{
    let z = apply_files(x, files);
    if files.len() == 0 {
    } else {
        let rest = files.drop_last();
        let f = files.last();
        let y = apply_files(x, rest);
        lemma_scan_series(x, rest);
        lemma_number_for_fits(f.file_name);
        lemma_step_series(y, f, number_for(f.file_name));
        let n = f.series;
        assert forall|j: int| x.series.len() <= j < z.series.len() implies mentions(
            files,
            (#[trigger] z.series[j]).name,
        ) && !x.has_series(z.series[j].name) by {
            if j < y.series.len() {
                assert(z.series[j].name == y.series[j].name);
                assert(mentions(rest, y.series[j].name));
                let i = choose|i: int| 0 <= i < rest.len() && (#[trigger] rest[i]).series == y.series[j].name;
                assert(files[i].series == z.series[j].name);
            } else {
                assert(files[files.len() - 1].series == n);
                if x.has_series(n) {
                    assert(y.has_series(n));
                }
            }
        }
        assert forall|i: int| 0 <= i < files.len() implies z.has_series(
            (#[trigger] files[i]).series,
        ) by {
            if i < rest.len() {
                assert(rest[i] == files[i]);
                assert(y.has_series(rest[i].series));
            }
        }
        assert forall|m: Seq<char>| #[trigger] x.has_series(m) implies z.has_series(m)
            && z.series_id_of(m) == x.series_id_of(m) by {
            assert(y.has_series(m));
        }
        assert forall|j: int| 0 <= j < z.series.len() implies fields_of(#[trigger] z.series[j])
            == series_fields(files, z.series[j].name, initial_fields(x, j)) by {
            if j < y.series.len() {
                assert(z.series[j].name == y.series[j].name);
                assert(fields_of(y.series[j]) == series_fields(
                    rest,
                    y.series[j].name,
                    initial_fields(x, j),
                ));
            } else {
                if mentions(rest, n) {
                    let i = choose|i: int| 0 <= i < rest.len() && (#[trigger] rest[i]).series == n;
                    assert(y.has_series(rest[i].series));
                }
                lemma_unmentioned_fields(rest, n, no_fields());
            }
        }
    }
}

/// The id under which each series is stored in `z`.
pub open spec fn ids_in(z: CatalogView) -> spec_fn(Seq<char>) -> int {
    |name: Seq<char>| z.series_id_of(name)
}

/// Whether the file `f` is written into the chapter `number` of the series
/// `sid`, when series have the ids `ids`.
pub open spec fn writes_to(
    f: ScannedFileView,
    ids: spec_fn(Seq<char>) -> int,
    sid: int,
    number: Decimal,
) -> bool {
    ids(f.series) == sid && number_for(f.file_name) == number
}

/// Whether one of the files is written into the chapter `number` of the
/// series `sid`.
pub open spec fn writes(
    files: Seq<ScannedFileView>,
    ids: spec_fn(Seq<char>) -> int,
    sid: int,
    number: Decimal,
) -> bool {
    exists|i: int| 0 <= i < files.len() && writes_to(#[trigger] files[i], ids, sid, number)
}

/// The data that a chapter has once the files are written: that of the last
/// file written into it, and `initial` if no file is written into it.
pub open spec fn chapter_data(
    files: Seq<ScannedFileView>,
    ids: spec_fn(Seq<char>) -> int,
    sid: int,
    number: Decimal,
    initial: ChapterData,
) -> ChapterData
    decreases files.len(),
{
    if files.len() == 0 {
        initial
    } else if writes_to(files.last(), ids, sid, number) {
        data_in(files.last())
    } else {
        chapter_data(files.drop_last(), ids, sid, number, initial)
    }
}

/// The data with which the chapter at position `j` starts a scan of `x`.
pub open spec fn initial_data(x: CatalogView, j: int) -> ChapterData {
    if j < x.chapters.len() {
        data_of(x.chapters[j])
    } else {
        ChapterData { file: Seq::empty(), size: 0, modified: 0 }
    }
}

/// The data that the files give a chapter depends on the ids of the series
/// only through which files are written into the chapter.
pub proof fn lemma_data_same_writers(
    files: Seq<ScannedFileView>,
    a: spec_fn(Seq<char>) -> int,
    b: spec_fn(Seq<char>) -> int,
    sid: int,
    number: Decimal,
    initial: ChapterData,
)
    requires
        forall|i: int|
            0 <= i < files.len() ==> writes_to(#[trigger] files[i], a, sid, number) == writes_to(
                files[i],
                b,
                sid,
                number,
            ),
    ensures
        chapter_data(files, a, sid, number, initial) == chapter_data(files, b, sid, number, initial),
    decreases files.len(),
{
    if files.len() > 0 {
        assert(writes_to(files[files.len() - 1], a, sid, number) == writes_to(
            files[files.len() - 1],
            b,
            sid,
            number,
        ));
        assert forall|i: int| 0 <= i < files.drop_last().len() implies writes_to(
            #[trigger] files.drop_last()[i],
            a,
            sid,
            number,
        ) == writes_to(files.drop_last()[i], b, sid, number) by {
            assert(files.drop_last()[i] == files[i]);
        }
        lemma_data_same_writers(files.drop_last(), a, b, sid, number, initial);
    }
}

/// Either the files leave the data of a chapter alone, or they decide it
/// whatever it was.
pub proof fn lemma_data_cases(
    files: Seq<ScannedFileView>,
    ids: spec_fn(Seq<char>) -> int,
    sid: int,
    number: Decimal,
    a: ChapterData,
    b: ChapterData,
)
    ensures
        (chapter_data(files, ids, sid, number, a) == a && chapter_data(files, ids, sid, number, b)
            == b) || chapter_data(files, ids, sid, number, a) == chapter_data(
            files,
            ids,
            sid,
            number,
            b,
        ),
    decreases files.len(),
{
    if files.len() > 0 {
        lemma_data_cases(files.drop_last(), ids, sid, number, a, b);
    }
}

/// The last step of writing scanned files: the files before the last give a
/// well-formed catalogue with room for one more file, and the last file is
/// written into it without changing the id of any series that the files
/// before it mention.
pub proof fn lemma_last_step(x: CatalogView, files: Seq<ScannedFileView>)
    requires
        x.wf(),
        has_room(x, files.len()),
        files.len() > 0,
    ensures
        ({
            let rest = files.drop_last();
            let f = files.last();
            let y = apply_files(x, rest);
            let z = apply_files(x, files);
            &&& has_room(x, rest.len())
            &&& y.wf()
            &&& y.last_series_id < i64::MAX
            &&& y.last_chapter_id < i64::MAX
            &&& number_for(f.file_name).fits()
            &&& z == apply_file(y, f, number_for(f.file_name))
            &&& ids_in(z)(f.series) == y.series_id_of(f.series)
            &&& forall|i: int|
                0 <= i < rest.len() ==> ids_in(z)((#[trigger] rest[i]).series) == ids_in(y)(
                    rest[i].series,
                )
        }),
{
    let rest = files.drop_last();
    let f = files.last();
    let y = apply_files(x, rest);
    let z = apply_files(x, files);
    lemma_scan_series(x, rest);
    lemma_number_for_fits(f.file_name);
    lemma_step_series(y, f, number_for(f.file_name));
    assert forall|i: int| 0 <= i < rest.len() implies ids_in(z)((#[trigger] rest[i]).series)
        == ids_in(y)(rest[i].series) by {
        assert(y.has_series(rest[i].series));
    }
}

/// Writing scanned files keeps the chapters of `x` in their places, with
/// their ids, series, numbers and progress.
pub proof fn lemma_scan_keeps_chapters(x: CatalogView, files: Seq<ScannedFileView>)
    requires
        x.wf(),
        has_room(x, files.len()),
    ensures
        apply_files(x, files).chapters.len() >= x.chapters.len(),
        forall|j: int|
            0 <= j < x.chapters.len() ==> same_chapter_and_progress(
                x.chapters[j],
                #[trigger] apply_files(x, files).chapters[j],
            ),
    decreases files.len(),
{
    let z = apply_files(x, files);
    if files.len() > 0 {
        let rest = files.drop_last();
        let f = files.last();
        let y = apply_files(x, rest);
        lemma_last_step(x, files);
        lemma_scan_keeps_chapters(x, rest);
        lemma_step_chapters(y, f, number_for(f.file_name));
        assert forall|j: int| 0 <= j < x.chapters.len() implies same_chapter_and_progress(
            x.chapters[j],
            #[trigger] z.chapters[j],
        ) by {
            assert(same_chapter_and_progress(x.chapters[j], y.chapters[j]));
        }
    }
}

/// Once scanned files are written, the chapter of each of them is stored.
pub proof fn lemma_scan_stores_chapters(x: CatalogView, files: Seq<ScannedFileView>)
    requires
        x.wf(),
        has_room(x, files.len()),
    ensures
        forall|i: int|
            0 <= i < files.len() ==> apply_files(x, files).has_chapter(
                apply_files(x, files).series_id_of((#[trigger] files[i]).series),
                number_for(files[i].file_name),
            ),
    decreases files.len(),
{
    let z = apply_files(x, files);
    if files.len() > 0 {
        let rest = files.drop_last();
        let f = files.last();
        let y = apply_files(x, rest);
        lemma_last_step(x, files);
        lemma_scan_stores_chapters(x, rest);
        lemma_step_chapters(y, f, number_for(f.file_name));
        assert forall|i: int| 0 <= i < files.len() implies z.has_chapter(
            z.series_id_of((#[trigger] files[i]).series),
            number_for(files[i].file_name),
        ) by {
            if i < rest.len() {
                assert(rest[i] == files[i]);
                let s = y.series_id_of(rest[i].series);
                let k = number_for(rest[i].file_name);
                assert(y.has_chapter(s, k));
                let r = y.chapter_at(s, k);
                assert(y.chapter_is(r, s, k));
                assert(z.chapter_is(r, s, k));
                assert(ids_in(z)(rest[i].series) == ids_in(y)(rest[i].series));
            } else {
                assert(files[i] == f);
                assert(ids_in(z)(f.series) == y.series_id_of(f.series));
            }
        }
    }
}

/// Every chapter that writing scanned files adds is one that a file is
/// written into and that `x` does not hold.
pub proof fn lemma_scan_adds_chapters(x: CatalogView, files: Seq<ScannedFileView>)
    requires
        x.wf(),
        has_room(x, files.len()),
    ensures
        forall|j: int|
            x.chapters.len() <= j < apply_files(x, files).chapters.len() ==> writes(
                files,
                ids_in(apply_files(x, files)),
                (#[trigger] apply_files(x, files).chapters[j]).series_id,
                apply_files(x, files).chapters[j].number,
            ) && !x.has_chapter(
                apply_files(x, files).chapters[j].series_id,
                apply_files(x, files).chapters[j].number,
            ),
    decreases files.len(),
{
    let z = apply_files(x, files);
    if files.len() > 0 {
        let rest = files.drop_last();
        let f = files.last();
        let y = apply_files(x, rest);
        lemma_last_step(x, files);
        lemma_scan_adds_chapters(x, rest);
        lemma_scan_keeps_chapters(x, rest);
        lemma_step_chapters(y, f, number_for(f.file_name));
        assert forall|j: int| x.chapters.len() <= j < z.chapters.len() implies writes(
            files,
            ids_in(z),
            (#[trigger] z.chapters[j]).series_id,
            z.chapters[j].number,
        ) && !x.has_chapter(z.chapters[j].series_id, z.chapters[j].number) by {
            let s = z.chapters[j].series_id;
            let k = z.chapters[j].number;
            if j < y.chapters.len() {
                assert(y.chapters[j].series_id == s && y.chapters[j].number == k);
                assert(writes(rest, ids_in(y), s, k));
                let i = choose|i: int|
                    0 <= i < rest.len() && writes_to(#[trigger] rest[i], ids_in(y), s, k);
                assert(rest[i] == files[i]);
                assert(ids_in(z)(rest[i].series) == ids_in(y)(rest[i].series));
                assert(writes_to(files[i], ids_in(z), s, k));
            } else {
                assert(files[files.len() - 1] == f);
                assert(writes_to(files[files.len() - 1], ids_in(z), s, k));
                if x.has_chapter(s, k) {
                    let r = x.chapter_at(s, k);
                    assert(x.chapter_is(r, s, k));
                    assert(same_chapter_and_progress(x.chapters[r], y.chapters[r]));
                    assert(y.chapter_is(r, s, k));
                }
            }
        }
    }
}

/// Once scanned files are written, each chapter has the data of the last
/// file written into it, or the data it had if none is.
pub proof fn lemma_scan_chapter_data(x: CatalogView, files: Seq<ScannedFileView>)
    requires
        x.wf(),
        has_room(x, files.len()),
    ensures
        forall|j: int|
            0 <= j < apply_files(x, files).chapters.len() ==> data_of(
                #[trigger] apply_files(x, files).chapters[j],
            ) == chapter_data(
                files,
                ids_in(apply_files(x, files)),
                apply_files(x, files).chapters[j].series_id,
                apply_files(x, files).chapters[j].number,
                initial_data(x, j),
            ),
    decreases files.len(),
{
    let z = apply_files(x, files);
    if files.len() > 0 {
        let rest = files.drop_last();
        let f = files.last();
        let y = apply_files(x, rest);
        lemma_last_step(x, files);
        lemma_scan_chapter_data(x, rest);
        lemma_scan_keeps_chapters(x, rest);
        lemma_step_chapters(y, f, number_for(f.file_name));
        assert forall|j: int| 0 <= j < z.chapters.len() implies data_of(#[trigger] z.chapters[j])
            == chapter_data(
            files,
            ids_in(z),
            z.chapters[j].series_id,
            z.chapters[j].number,
            initial_data(x, j),
        ) by {
            let s = z.chapters[j].series_id;
            let k = z.chapters[j].number;
            if j < y.chapters.len() {
                assert(y.chapters[j].series_id == s && y.chapters[j].number == k);
                assert forall|i: int| 0 <= i < rest.len() implies writes_to(
                    #[trigger] rest[i],
                    ids_in(z),
                    s,
                    k,
                ) == writes_to(rest[i], ids_in(y), s, k) by {
                    assert(ids_in(z)(rest[i].series) == ids_in(y)(rest[i].series));
                }
                lemma_data_same_writers(rest, ids_in(z), ids_in(y), s, k, initial_data(x, j));
                assert(data_of(y.chapters[j]) == chapter_data(
                    rest,
                    ids_in(y),
                    s,
                    k,
                    initial_data(x, j),
                ));
            } else {
                assert(writes_to(f, ids_in(z), s, k));
            }
        }
    }
}

/// Filtering a sequence whose first `n` elements satisfy the predicate, and
/// none after them, keeps exactly those `n`.
pub proof fn lemma_filter_prefix<A>(s: Seq<A>, pred: spec_fn(A) -> bool, n: int)
    requires
        0 <= n <= s.len(),
        forall|j: int| 0 <= j < n ==> pred(#[trigger] s[j]),
        forall|j: int| n <= j < s.len() ==> !pred(#[trigger] s[j]),
    ensures
        s.filter(pred) == s.subrange(0, n),
    decreases s.len(),
{
    reveal(Seq::filter);
    if s.len() == 0 {
        assert(s.filter(pred) =~= s.subrange(0, n));
    } else if n < s.len() {
        assert(!pred(s[s.len() - 1]));
        lemma_filter_prefix(s.drop_last(), pred, n);
        assert(s.drop_last().subrange(0, n) =~= s.subrange(0, n));
    } else {
        assert(pred(s[s.len() - 1]));
        lemma_filter_prefix(s.drop_last(), pred, n - 1);
        assert(s.drop_last().subrange(0, n - 1).push(s.last()) =~= s.subrange(0, n));
    }
}

/// What pruning keeps: the series whose names are kept and the chapters of
/// those series, and nothing else.
pub proof fn lemma_pruned_rows(u: CatalogView, keep: Set<Seq<char>>)
    requires
        u.wf(),
    ensures
        u.pruned(keep).wf(),
        forall|j: int|
            0 <= j < u.pruned(keep).series.len() ==> keep.contains(
                (#[trigger] u.pruned(keep).series[j]).name,
            ) && u.series.contains(u.pruned(keep).series[j]),
        forall|m: int|
            0 <= m < u.series.len() && keep.contains((#[trigger] u.series[m]).name)
                ==> u.pruned(keep).series.contains(u.series[m]),
        forall|j: int|
            0 <= j < u.pruned(keep).chapters.len() ==> u.chapters.contains(
                #[trigger] u.pruned(keep).chapters[j],
            ),
        forall|w: int, m: int|
            0 <= w < u.chapters.len() && 0 <= m < u.series.len() && (#[trigger] u.series[m]).id
                == (#[trigger] u.chapters[w]).series_id && keep.contains(u.series[m].name)
                ==> u.pruned(keep).chapters.contains(u.chapters[w]),
{
    let dropped = u.ids_outside(keep);
    let p = u.pruned(keep);
    crate::catalog::lemma_without_series_keeps_wf(u, dropped);
    lemma_filter_increasing(u.series, series_outside(dropped), |s: SeriesView| s.id);
    lemma_filter_increasing(u.chapters, chapters_outside(dropped), |ch: ChapterView| ch.id);
    assert forall|m: int| 0 <= m < u.series.len() && keep.contains((#[trigger] u.series[m]).name)
        implies !dropped.contains(u.series[m].id) by {
        if dropped.contains(u.series[m].id) {
            let i = choose|i: int|
                0 <= i < u.series.len() && (#[trigger] u.series[i]).id == u.series[m].id
                    && !keep.contains(u.series[i].name);
            if i < m {
                assert(u.series[i].id < u.series[m].id);
            } else if m < i {
                assert(u.series[m].id < u.series[i].id);
            }
        }
    }
    assert forall|j: int| 0 <= j < p.series.len() implies keep.contains(
        (#[trigger] p.series[j]).name,
    ) && u.series.contains(p.series[j]) by {
        assert(u.series.contains(p.series[j]));
        let k = choose|k: int| 0 <= k < u.series.len() && u.series[k] == p.series[j];
        assert(series_outside(dropped)(p.series[j]));
        if !keep.contains(u.series[k].name) {
            assert(dropped.contains(u.series[k].id));
        }
    }
    assert forall|m: int|
        0 <= m < u.series.len() && keep.contains(
            (#[trigger] u.series[m]).name,
        ) implies p.series.contains(u.series[m]) by {
        assert(series_outside(dropped)(u.series[m]));
    }
    assert forall|w: int, m: int|
        0 <= w < u.chapters.len() && 0 <= m < u.series.len() && (#[trigger] u.series[m]).id == (
        #[trigger] u.chapters[w]).series_id && keep.contains(
            u.series[m].name,
        ) implies p.chapters.contains(u.chapters[w]) by {
        assert(chapters_outside(dropped)(u.chapters[w]));
    }
}

/// A second scan of the same files finds every series of the first scan as
/// it is, and adds only series whose names are not kept.
pub proof fn lemma_rescan_series(
    c: CatalogView,
    files: Seq<ScannedFileView>,
    keep: Set<Seq<char>>,
)
    requires
        c.wf(),
        has_room(c, files.len()),
        has_room(apply_files(c, files), files.len()),
    ensures
        ({
            let once = apply_files(c, files).pruned(keep);
            let again = apply_files(once, files);
            &&& once.wf()
            &&& again.wf()
            &&& again.series.len() >= once.series.len()
            &&& forall|j: int|
                0 <= j < once.series.len() ==> #[trigger] again.series[j] == once.series[j]
            &&& forall|j: int|
                once.series.len() <= j < again.series.len() ==> !keep.contains(
                    (#[trigger] again.series[j]).name,
                )
        }),
{
    let u = apply_files(c, files);
    let once = u.pruned(keep);
    let again = apply_files(once, files);
    lemma_scan_series(c, files);
    lemma_pruned_rows(u, keep);
    lemma_scan_series(once, files);
    assert forall|j: int| 0 <= j < once.series.len() implies #[trigger] again.series[j]
        == once.series[j] by {
        let name = once.series[j].name;
        assert(u.series.contains(once.series[j]));
        let m = choose|m: int| 0 <= m < u.series.len() && u.series[m] == once.series[j];
        assert(fields_of(u.series[m]) == series_fields(files, name, initial_fields(c, m)));
        assert(fields_of(again.series[j]) == series_fields(
            files,
            name,
            fields_of(once.series[j]),
        ));
        lemma_fields_settle(files, name, initial_fields(c, m));
        assert(again.series[j].id == once.series[j].id);
        assert(again.series[j].name == once.series[j].name);
        assert(fields_of(again.series[j]) == fields_of(once.series[j]));
    }
    assert forall|j: int| once.series.len() <= j < again.series.len() implies !keep.contains(
        (#[trigger] again.series[j]).name,
    ) by {
        let name = again.series[j].name;
        assert(mentions(files, name) && !once.has_series(name));
        if keep.contains(name) {
            let i = choose|i: int| 0 <= i < files.len() && (#[trigger] files[i]).series == name;
            assert(u.has_series(files[i].series));
            let m = u.series_at(name);
            assert(u.series[m].name == name);
            assert(once.series.contains(u.series[m]));
            let q = choose|q: int| 0 <= q < once.series.len() && once.series[q] == u.series[m];
            assert(once.series[q].name == name);
        }
    }
}

/// A series that the first scan keeps gets, in the second scan, the files
/// that it got in the first: a file is written under its id in the one
/// exactly if it is in the other.
pub proof fn lemma_kept_series_writers(
    c: CatalogView,
    files: Seq<ScannedFileView>,
    keep: Set<Seq<char>>,
    sid: int,
)
    requires
        c.wf(),
        has_room(c, files.len()),
        has_room(apply_files(c, files), files.len()),
        apply_files(c, files).pruned(keep).has_series_id(sid),
    ensures
        ({
            let u = apply_files(c, files);
            let again = apply_files(u.pruned(keep), files);
            forall|i: int|
                0 <= i < files.len() ==> (ids_in(again)((#[trigger] files[i]).series) == sid) == (
                ids_in(u)(files[i].series) == sid)
        }),
{
    let u = apply_files(c, files);
    let once = u.pruned(keep);
    let again = apply_files(once, files);
    lemma_scan_series(c, files);
    lemma_pruned_rows(u, keep);
    lemma_rescan_series(c, files, keep);
    lemma_scan_series(once, files);
    let q = choose|q: int| 0 <= q < once.series.len() && #[trigger] once.series[q].id == sid;
    let name = once.series[q].name;
    assert(u.series.contains(once.series[q]));
    let m = choose|m: int| 0 <= m < u.series.len() && u.series[m] == once.series[q];
    assert(again.series[q] == once.series[q]);
    lemma_series_found(u, m);
    lemma_series_found(again, q);
    assert forall|i: int| 0 <= i < files.len() implies (ids_in(again)(
        (#[trigger] files[i]).series,
    ) == sid) == (ids_in(u)(files[i].series) == sid) by {
        let n = files[i].series;
        assert(u.has_series(n));
        assert(again.has_series(n));
        let a = u.series_at(n);
        let b = again.series_at(n);
        assert(u.series[a].name == n);
        assert(again.series[b].name == n);
        if n == name {
            assert(u.series[a].name == u.series[m].name);
            assert(again.series[b].name == again.series[q].name);
        } else {
            if u.series[a].id == sid {
                if a < m {
                    assert(u.series[a].id < u.series[m].id);
                } else if m < a {
                    assert(u.series[m].id < u.series[a].id);
                }
            }
            if again.series[b].id == sid {
                if b < q {
                    assert(again.series[b].id < again.series[q].id);
                } else if q < b {
                    assert(again.series[q].id < again.series[b].id);
                }
            }
        }
    }
}

/// A second scan of the same files finds every chapter of the first scan as
/// it is.
pub proof fn lemma_rescan_old_chapters(
    c: CatalogView,
    files: Seq<ScannedFileView>,
    keep: Set<Seq<char>>,
)
    requires
        c.wf(),
        has_room(c, files.len()),
        has_room(apply_files(c, files), files.len()),
    ensures
        ({
            let once = apply_files(c, files).pruned(keep);
            let again = apply_files(once, files);
            &&& again.chapters.len() >= once.chapters.len()
            &&& forall|j: int|
                0 <= j < once.chapters.len() ==> #[trigger] again.chapters[j] == once.chapters[j]
        }),
{
    let u = apply_files(c, files);
    let once = u.pruned(keep);
    let again = apply_files(once, files);
    lemma_apply_files(c, files);
    lemma_pruned_rows(u, keep);
    lemma_scan_keeps_chapters(once, files);
    lemma_scan_chapter_data(once, files);
    lemma_scan_chapter_data(c, files);
    assert forall|j: int| 0 <= j < once.chapters.len() implies #[trigger] again.chapters[j]
        == once.chapters[j] by {
        let s = once.chapters[j].series_id;
        let k = once.chapters[j].number;
        assert(same_chapter_and_progress(once.chapters[j], again.chapters[j]));
        assert(u.chapters.contains(once.chapters[j]));
        let w = choose|w: int| 0 <= w < u.chapters.len() && u.chapters[w] == once.chapters[j];
        let first = initial_data(c, w);
        let settled = chapter_data(files, ids_in(u), s, k, first);
        assert(data_of(u.chapters[w]) == settled);
        assert(data_of(again.chapters[j]) == chapter_data(files, ids_in(again), s, k, settled));
        assert(once.has_series_id(s));
        lemma_kept_series_writers(c, files, keep, s);
        assert forall|i: int| 0 <= i < files.len() implies writes_to(
            #[trigger] files[i],
            ids_in(again),
            s,
            k,
        ) == writes_to(files[i], ids_in(u), s, k) by {
            assert((ids_in(again)(files[i].series) == s) == (ids_in(u)(files[i].series) == s));
        }
        lemma_data_same_writers(files, ids_in(again), ids_in(u), s, k, settled);
        lemma_data_cases(files, ids_in(u), s, k, settled, first);
        assert(data_of(again.chapters[j]) == data_of(once.chapters[j]));
    }
}

/// Every chapter that a second scan of the same files adds belongs to a
/// series whose name is not kept.
pub proof fn lemma_rescan_new_chapters(
    c: CatalogView,
    files: Seq<ScannedFileView>,
    keep: Set<Seq<char>>,
)
    requires
        c.wf(),
        has_room(c, files.len()),
        has_room(apply_files(c, files), files.len()),
    ensures
        ({
            let once = apply_files(c, files).pruned(keep);
            let again = apply_files(once, files);
            forall|j: int|
                once.chapters.len() <= j < again.chapters.len() ==> again.ids_outside(
                    keep,
                ).contains((#[trigger] again.chapters[j]).series_id)
        }),
{
    let u = apply_files(c, files);
    let once = u.pruned(keep);
    let again = apply_files(once, files);
    lemma_scan_series(c, files);
    lemma_scan_stores_chapters(c, files);
    lemma_pruned_rows(u, keep);
    lemma_rescan_series(c, files, keep);
    lemma_scan_series(once, files);
    lemma_scan_adds_chapters(once, files);
    assert forall|j: int| once.chapters.len() <= j < again.chapters.len() implies again.ids_outside(
        keep,
    ).contains((#[trigger] again.chapters[j]).series_id) by {
        let s = again.chapters[j].series_id;
        let k = again.chapters[j].number;
        assert(writes(files, ids_in(again), s, k) && !once.has_chapter(s, k));
        let i = choose|i: int|
            0 <= i < files.len() && writes_to(#[trigger] files[i], ids_in(again), s, k);
        let n = files[i].series;
        assert(again.has_series(n));
        let e = again.series_at(n);
        assert(again.series[e].name == n);
        assert(again.series[e].id == s);
        if keep.contains(n) {
            assert(u.has_series(n));
            let m = u.series_at(n);
            assert(u.series[m].name == n);
            assert(once.series.contains(u.series[m]));
            let q = choose|q: int| 0 <= q < once.series.len() && once.series[q] == u.series[m];
            assert(again.series[q] == once.series[q]);
            assert(again.series[q].name == again.series[e].name);
            assert(q == e);
            assert(u.series[m].id == s);
            assert(u.has_chapter(u.series_id_of(n), number_for(files[i].file_name)));
            let w = u.chapter_at(s, k);
            assert(u.chapter_is(w, s, k));
            assert(once.chapters.contains(u.chapters[w]));
            let r = choose|r: int| 0 <= r < once.chapters.len() && once.chapters[r] == u.chapters[w];
            assert(once.chapter_is(r, s, k));
        }
    }
}

/// The ids that a second scan of the same files drops are those of the
/// series that it added: no series of the first scan has one of them, nor
/// the series of any chapter of the first scan.
pub proof fn lemma_rescan_drops(c: CatalogView, files: Seq<ScannedFileView>, keep: Set<Seq<char>>)
    requires
        c.wf(),
        has_room(c, files.len()),
        has_room(apply_files(c, files), files.len()),
    ensures
        ({
            let once = apply_files(c, files).pruned(keep);
            let again = apply_files(once, files);
            &&& forall|j: int|
                0 <= j < once.series.len() ==> !again.ids_outside(keep).contains(
                    (#[trigger] again.series[j]).id,
                )
            &&& forall|j: int|
                once.series.len() <= j < again.series.len() ==> again.ids_outside(keep).contains(
                    (#[trigger] again.series[j]).id,
                )
            &&& forall|j: int|
                0 <= j < once.chapters.len() ==> !again.ids_outside(keep).contains(
                    (#[trigger] once.chapters[j]).series_id,
                )
        }),
{
    let u = apply_files(c, files);
    let once = u.pruned(keep);
    let again = apply_files(once, files);
    lemma_apply_files(c, files);
    lemma_pruned_rows(u, keep);
    lemma_rescan_series(c, files, keep);
    assert forall|j: int| 0 <= j < once.series.len() implies !again.ids_outside(keep).contains(
        (#[trigger] again.series[j]).id,
    ) by {
        if again.ids_outside(keep).contains(again.series[j].id) {
            let e = choose|e: int|
                0 <= e < again.series.len() && (#[trigger] again.series[e]).id
                    == again.series[j].id && !keep.contains(again.series[e].name);
            if e < j {
                assert(again.series[e].id < again.series[j].id);
            } else if j < e {
                assert(again.series[j].id < again.series[e].id);
            }
            assert(again.series[j] == once.series[j]);
        }
    }
    assert forall|j: int| 0 <= j < once.chapters.len() implies !again.ids_outside(keep).contains(
        (#[trigger] once.chapters[j]).series_id,
    ) by {
        assert(once.has_series_id(once.chapters[j].series_id));
        let q = choose|q: int|
            0 <= q < once.series.len() && #[trigger] once.series[q].id
                == once.chapters[j].series_id;
        assert(again.series[q] == once.series[q]);
        assert(!again.ids_outside(keep).contains(again.series[q].id));
    }
}

/// Ids are stable across scans: a series whose directory still exists is
/// stored after a full scan under the id it had, and so is every chapter of
/// such a series.
pub proof fn lemma_scan_keeps_ids(
    c: CatalogView,
    files: Seq<ScannedFileView>,
    keep: Set<Seq<char>>,
    now: i64,
)
    requires
        c.wf(),
        has_room(c, files.len()),
    ensures
        forall|i: int|
            0 <= i < c.series.len() && keep.contains((#[trigger] c.series[i]).name) ==> reconciled(
                c,
                files,
                keep,
                now,
            ).has_series(c.series[i].name) && reconciled(c, files, keep, now).series_id_of(
                c.series[i].name,
            ) == c.series[i].id,
        forall|i: int, j: int|
            0 <= i < c.series.len() && 0 <= j < c.chapters.len() && (#[trigger] c.series[i]).id == (
            #[trigger] c.chapters[j]).series_id && keep.contains(c.series[i].name) ==> reconciled(
                c,
                files,
                keep,
                now,
            ).has_chapter_id(c.chapters[j].id),
{
    let u = apply_files(c, files);
    let new = reconciled(c, files, keep, now);
    lemma_scan_series(c, files);
    lemma_scan_keeps_chapters(c, files);
    lemma_pruned_rows(u, keep);
    lemma_reconciled(c, files, keep, now);
    assert forall|i: int|
        0 <= i < c.series.len() && keep.contains(
            (#[trigger] c.series[i]).name,
        ) implies new.has_series(c.series[i].name) && new.series_id_of(c.series[i].name)
        == c.series[i].id by {
        assert(u.series[i].name == c.series[i].name);
        assert(new.series.contains(u.series[i]));
        let q = choose|q: int| 0 <= q < new.series.len() && new.series[q] == u.series[i];
        lemma_series_found(new, q);
    }
    assert forall|i: int, j: int|
        0 <= i < c.series.len() && 0 <= j < c.chapters.len() && (#[trigger] c.series[i]).id == (
        #[trigger] c.chapters[j]).series_id && keep.contains(
            c.series[i].name,
        ) implies new.has_chapter_id(c.chapters[j].id) by {
        assert(u.series[i].id == c.series[i].id && u.series[i].name == c.series[i].name);
        assert(same_chapter_and_progress(c.chapters[j], u.chapters[j]));
        assert(new.chapters.contains(u.chapters[j]));
        let r = choose|r: int| 0 <= r < new.chapters.len() && new.chapters[r] == u.chapters[j];
        assert(new.chapters[r].id == c.chapters[j].id);
    }
}

/// Scanning the same files twice gives the rows that scanning them once
/// gives: after a second full scan of the same files with the same
/// directories, the catalogue holds the same series and the same chapters,
/// under the same ids and with the same fields, as after the first. Only the
/// scan time and the last ids handed out may differ.
pub proof fn lemma_rescan_changes_no_row(
    c: CatalogView,
    files: Seq<ScannedFileView>,
    keep: Set<Seq<char>>,
    first: i64,
    second: i64,
)
    requires
        c.wf(),
        has_room(c, files.len()),
        has_room(reconciled(c, files, keep, first), files.len()),
    ensures
        reconciled(reconciled(c, files, keep, first), files, keep, second).series == reconciled(
            c,
            files,
            keep,
            first,
        ).series,
        reconciled(reconciled(c, files, keep, first), files, keep, second).chapters == reconciled(
            c,
            files,
            keep,
            first,
        ).chapters,
{
    let u = apply_files(c, files);
    let once = u.pruned(keep);
    let r1 = reconciled(c, files, keep, first);
    lemma_apply_files(c, files);
    lemma_pruned_rows(u, keep);
    lemma_reconciled(c, files, keep, first);
    lemma_same_rows_same_scan(once, r1, files);
    let again = apply_files(once, files);
    let r2 = reconciled(r1, files, keep, second);
    assert(apply_files(r1, files).series == again.series);
    assert(apply_files(r1, files).chapters == again.chapters);
    assert(apply_files(r1, files).ids_outside(keep) =~= again.ids_outside(keep));
    lemma_rescan_series(c, files, keep);
    lemma_rescan_old_chapters(c, files, keep);
    lemma_rescan_new_chapters(c, files, keep);
    lemma_rescan_drops(c, files, keep);
    let dropped = again.ids_outside(keep);
    lemma_filter_prefix(again.series, series_outside(dropped), once.series.len() as int);
    lemma_filter_prefix(again.chapters, chapters_outside(dropped), once.chapters.len() as int);
    assert(again.series.subrange(0, once.series.len() as int) =~= once.series);
    assert(again.chapters.subrange(0, once.chapters.len() as int) =~= once.chapters);
}

/// Writing files does not look at the scan time: two catalogues with the
/// same rows and last ids get the same rows and last ids.
pub proof fn lemma_same_rows_same_scan(a: CatalogView, b: CatalogView, files: Seq<ScannedFileView>)
    requires
        a.wf(),
        b.wf(),
        has_room(a, files.len()),
        a.series == b.series,
        a.chapters == b.chapters,
        a.last_series_id == b.last_series_id,
        a.last_chapter_id == b.last_chapter_id,
    ensures
        apply_files(a, files).series == apply_files(b, files).series,
        apply_files(a, files).chapters == apply_files(b, files).chapters,
        apply_files(a, files).last_series_id == apply_files(b, files).last_series_id,
        apply_files(a, files).last_chapter_id == apply_files(b, files).last_chapter_id,
    decreases files.len(),
{
    if files.len() > 0 {
        lemma_same_rows_same_scan(a, b, files.drop_last());
        let x = apply_files(a, files.drop_last());
        let y = apply_files(b, files.drop_last());
        let f = files.last();
        lemma_apply_files(a, files.drop_last());
        lemma_apply_files(b, files.drop_last());
        assert(x.has_series(f.series) == y.has_series(f.series));
        assert(x.series_at(f.series) == y.series_at(f.series));
        let num = number_for(f.file_name);
        let sid = x.series_id_of(f.series);
        let xm = if f.has_artifacts() {
            x.with_series(f.series, f.cover, f.synopsis, f.source_url)
        } else {
            x.with_series_known(f.series)
        };
        let ym = if f.has_artifacts() {
            y.with_series(f.series, f.cover, f.synopsis, f.source_url)
        } else {
            y.with_series_known(f.series)
        };
        assert(xm.series == ym.series && xm.chapters == ym.chapters && xm.last_series_id
            == ym.last_series_id && xm.last_chapter_id == ym.last_chapter_id);
        assert(xm.has_chapter(sid, num) == ym.has_chapter(sid, num)) by {
            if xm.has_chapter(sid, num) {
                let i = xm.chapter_at(sid, num);
                assert(xm.chapter_is(i, sid, num));
                assert(ym.chapter_is(i, sid, num));
            }
            if ym.has_chapter(sid, num) {
                let i = ym.chapter_at(sid, num);
                assert(ym.chapter_is(i, sid, num));
                assert(xm.chapter_is(i, sid, num));
            }
        }
        if xm.has_chapter(sid, num) {
            let i = xm.chapter_at(sid, num);
            let j = ym.chapter_at(sid, num);
            assert(xm.chapter_is(i, sid, num));
            assert(ym.chapter_is(j, sid, num));
            assert(x.chapters[i].series_id == x.chapters[j].series_id);
            assert(i == j);
        }
    }
}

} // verus!
