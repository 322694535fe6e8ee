use manga_reader::catalog::{Catalog, ChapterRow, StoreError};
use manga_reader::manga_indexer::Manga;
use manga_reader::number::ChapterNumber;

fn n(whole: u64) -> ChapterNumber {
    ChapterNumber::from_whole(whole)
}

#[test]
fn new_catalog_is_empty() {
    let c = Catalog::new();
    assert!(c.series().is_empty());
    assert!(c.chapters().is_empty());
    assert_eq!(c.get_watermark(), None);
    assert_eq!(c.last_series_id(), 0);
    assert_eq!(c.last_chapter_id(), 0);
}

#[test]
fn upsert_series_inserts_then_updates() {
    let mut c = Catalog::new();
    let a = c.upsert_series("A", None, None, None).unwrap();
    let b = c.upsert_series("B", Some("b.jpg".to_string()), None, None).unwrap();
    assert_eq!((a, b), (1, 2));
    let again = c
        .upsert_series("A", Some("a.png".to_string()), Some("syn".to_string()), None)
        .unwrap();
    assert_eq!(again, 1);
    assert_eq!(c.series().len(), 2);
    assert_eq!(c.series()[0].name, "A");
    assert_eq!(c.series()[0].ta.as_deref(), Some("a.png"));
    assert_eq!(c.series()[0].synopsis.as_deref(), Some("syn"));
    assert_eq!(c.series()[0].source_url, None);
    // An upsert overwrites all three fields, also with nothing.
    c.upsert_series("B", None, None, None).unwrap();
    assert_eq!(c.series()[1].ta, None);
}

#[test]
fn resolve_series_leaves_fields_alone() {
    let mut c = Catalog::new();
    c.upsert_series("A", Some("a.png".to_string()), None, None).unwrap();
    assert_eq!(c.resolve_series("A"), Ok(1));
    assert_eq!(c.series()[0].ta.as_deref(), Some("a.png"));
    assert_eq!(c.resolve_series("B"), Ok(2));
    assert_eq!(c.series()[1].ta, None);
}

#[test]
fn upsert_chapter_keeps_progress_and_id() {
    let mut c = Catalog::new();
    let s = c.resolve_series("A").unwrap();
    let id = c.upsert_chapter(s, n(1), "/a/1.cbz", 10, 100).unwrap();
    assert!(c.update_progress(id, 5, 30, true));
    let again = c.upsert_chapter(s, n(1), "/a/one.cbz", 11, 200).unwrap();
    assert_eq!(again, id);
    assert_eq!(c.chapters().len(), 1);
    let row = &c.chapters()[0];
    assert_eq!(row.file, "/a/one.cbz");
    assert_eq!(row.size, 11);
    assert_eq!(row.modified, 200);
    assert!(row.read);
    assert_eq!(row.last_page_read, Some(5));
    assert_eq!(row.full_pages_read, Some(30));
}

#[test]
fn same_number_in_two_series_gives_two_rows() {
    let mut c = Catalog::new();
    let a = c.resolve_series("A").unwrap();
    let b = c.resolve_series("B").unwrap();
    let x = c.upsert_chapter(a, n(1), "/a/1", 0, 0).unwrap();
    let y = c.upsert_chapter(b, n(1), "/b/1", 0, 0).unwrap();
    assert_ne!(x, y);
    assert_eq!(c.chapters().len(), 2);
}

#[test]
fn new_chapter_starts_unread() {
    let mut c = Catalog::new();
    let s = c.resolve_series("A").unwrap();
    c.upsert_chapter(s, n(3), "/a/3", 1, 2).unwrap();
    let row = &c.chapters()[0];
    assert!(!row.read);
    assert_eq!(row.last_page_read, None);
    assert_eq!(row.full_pages_read, None);
}

#[test]
fn chapter_of_unknown_series_is_refused() {
    let mut c = Catalog::new();
    assert_eq!(c.upsert_chapter(7, n(1), "/x", 0, 0), Err(StoreError::UnknownSeries));
    assert!(c.chapters().is_empty());
}

#[test]
fn exhausted_ids_are_refused() {
    let c = Catalog::restore(Vec::new(), Vec::new(), i64::MAX, i64::MAX, None);
    let mut c = c.unwrap();
    assert_eq!(c.upsert_series("A", None, None, None), Err(StoreError::IdsExhausted));
    assert_eq!(c.resolve_series("A"), Err(StoreError::IdsExhausted));
    assert!(c.series().is_empty());
    let series = vec![Manga { id: 1, name: "A".to_string(), ta: None, synopsis: None, source_url: None }];
    let mut d = Catalog::restore(series, Vec::new(), 1, i64::MAX, None).unwrap();
    assert_eq!(d.upsert_chapter(1, n(1), "/a", 0, 0), Err(StoreError::IdsExhausted));
}

#[test]
fn delete_series_cascade_removes_chapters() {
    let mut c = Catalog::new();
    let a = c.resolve_series("A").unwrap();
    let b = c.resolve_series("B").unwrap();
    c.upsert_chapter(a, n(1), "/a/1", 0, 0).unwrap();
    c.upsert_chapter(b, n(1), "/b/1", 0, 0).unwrap();
    c.upsert_chapter(a, n(2), "/a/2", 0, 0).unwrap();
    c.delete_series_cascade(a);
    assert_eq!(c.series().len(), 1);
    assert_eq!(c.series()[0].name, "B");
    assert_eq!(c.chapters().len(), 1);
    assert_eq!(c.chapters()[0].file, "/b/1");
    // Ids are not handed out again.
    assert_eq!(c.resolve_series("C"), Ok(3));
    assert_eq!(c.upsert_chapter(3, n(1), "/c/1", 0, 0), Ok(4));
    c.delete_series_cascade(99);
    assert_eq!(c.series().len(), 2);
}

#[test]
fn prune_keeps_named_series() {
    let mut c = Catalog::new();
    for name in ["A", "B", "C"] {
        let s = c.resolve_series(name).unwrap();
        c.upsert_chapter(s, n(1), name, 0, 0).unwrap();
    }
    c.prune(&vec!["C".to_string(), "A".to_string(), "Z".to_string()]);
    let names: Vec<&str> = c.series().iter().map(|m| m.name.as_str()).collect();
    assert_eq!(names, vec!["A", "C"]);
    let files: Vec<&str> = c.chapters().iter().map(|r| r.file.as_str()).collect();
    assert_eq!(files, vec!["A", "C"]);
}

#[test]
fn progress_operations() {
    let mut c = Catalog::new();
    let s = c.resolve_series("A").unwrap();
    let id = c.upsert_chapter(s, n(1), "/a/1", 0, 0).unwrap();
    assert!(c.mark_read(id));
    assert!(c.chapters()[0].read);
    assert_eq!(c.chapters()[0].last_page_read, Some(0));
    assert_eq!(c.chapters()[0].full_pages_read, Some(20));
    assert!(c.update_progress(id, 7, 40, false));
    assert!(c.mark_read(id));
    assert_eq!(c.chapters()[0].last_page_read, Some(7));
    assert_eq!(c.chapters()[0].full_pages_read, Some(40));
    assert!(c.mark_unread(id));
    assert!(!c.chapters()[0].read);
    assert_eq!(c.chapters()[0].last_page_read, Some(0));
    assert_eq!(c.chapters()[0].full_pages_read, Some(40));
    assert!(!c.mark_read(99));
    assert!(!c.mark_unread(99));
    assert!(!c.update_progress(99, 1, 2, true));
    assert_eq!(c.chapters()[0].file, "/a/1");
}

#[test]
fn watermark_is_set_and_read() {
    let mut c = Catalog::new();
    c.set_watermark(42);
    assert_eq!(c.get_watermark(), Some(42));
}

#[test]
fn restore_checks_the_rows() {
    let series = |id: i64, name: &str| Manga {
        id,
        name: name.to_string(),
        ta: None,
        synopsis: None,
        source_url: None,
    };
    let chapter = |id: i64, manga_id: i64, num: u64| ChapterRow {
        id,
        manga_id,
        num: n(num),
        file: "f".to_string(),
        read: false,
        last_page_read: None,
        full_pages_read: None,
        size: 0,
        modified: 0,
    };
    let ok = Catalog::restore(
        vec![series(1, "A"), series(3, "B")],
        vec![chapter(2, 1, 1), chapter(5, 3, 1), chapter(6, 1, 2)],
        3,
        6,
        Some(9),
    );
    let c = ok.unwrap();
    assert_eq!(c.series().len(), 2);
    assert_eq!(c.chapters().len(), 3);
    assert_eq!(c.get_watermark(), Some(9));
    // ids out of order
    assert!(Catalog::restore(vec![series(3, "A"), series(1, "B")], vec![], 3, 0, None).is_none());
    // a name twice
    assert!(Catalog::restore(vec![series(1, "A"), series(2, "A")], vec![], 2, 0, None).is_none());
    // an id beyond the last one handed out
    assert!(Catalog::restore(vec![series(4, "A")], vec![], 3, 0, None).is_none());
    // a chapter without its series
    assert!(Catalog::restore(vec![series(1, "A")], vec![chapter(1, 2, 1)], 1, 1, None).is_none());
    // a series with a chapter number twice
    assert!(Catalog::restore(
        vec![series(1, "A")],
        vec![chapter(1, 1, 4), chapter(2, 1, 4)],
        1,
        2,
        None
    )
    .is_none());
    assert!(Catalog::restore(vec![], vec![], -1, 0, None).is_none());
}
