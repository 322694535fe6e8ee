use manga_reader::catalog::{Catalog, StoreError};
use manga_reader::manga::Manga;
use manga_reader::manga_indexer::{
    index_file, needs_rescan, refresh, scan_and_index, Refresh, ScannedFile,
};
use manga_reader::number::ChapterNumber;
use manga_reader::scanner::scanned_file;

fn file(series: &str, name: &str, modified: u64) -> ScannedFile {
    ScannedFile {
        series: series.to_string(),
        file_name: name.to_string(),
        path: format!("/root/{}/{}", series, name),
        size: 1000,
        modified,
        cover: None,
        synopsis: None,
        source_url: None,
    }
}

fn dirs(names: &[&str]) -> Vec<String> {
    names.iter().map(|s| s.to_string()).collect()
}

fn rows(c: &Catalog) -> Vec<(i64, i64, String, String, bool, Option<usize>, u64)> {
    c.chapters()
        .iter()
        .map(|r| (r.id, r.manga_id, r.num.text(), r.file.clone(), r.read, r.last_page_read, r.modified))
        .collect()
}

fn series_rows(c: &Catalog) -> Vec<(i64, String, Option<String>, Option<String>, Option<String>)> {
    c.series()
        .iter()
        .map(|m| (m.id, m.name.clone(), m.ta.clone(), m.synopsis.clone(), m.source_url.clone()))
        .collect()
}

#[test]
fn full_scan_twice_gives_the_same_rows() {
    let files = vec![
        file("A", "Chapter 1.cbz", 10),
        file("A", "Chapter 2.cbz", 10),
        file("B", "tome 1.cbr", 10),
        file("A", "ch 1 (v2).cbz", 11),
    ];
    let mut c = Catalog::new();
    scan_and_index(&mut c, &files, &dirs(&["A", "B"]), 100).unwrap();
    let first = (series_rows(&c), rows(&c));
    scan_and_index(&mut c, &files, &dirs(&["A", "B"]), 200).unwrap();
    assert_eq!((series_rows(&c), rows(&c)), first);
    assert_eq!(c.chapters().len(), 3);
    assert_eq!(c.series().len(), 2);
}

#[test]
fn second_refresh_takes_the_skip_path() {
    let files = vec![file("A", "Chapter 1.cbz", 10), file("A", "Chapter 2.cbz", 20)];
    let modified = vec![10, 20, 5];
    let mut c = Catalog::new();
    let first = refresh(&mut c, &modified, &files, &dirs(&["A"]), 100);
    assert_eq!(first, Ok(Refresh::Rescanned));
    let before = (series_rows(&c), rows(&c), c.get_watermark());
    // Nothing would be kept if the second refresh scanned: it does not.
    let second = refresh(&mut c, &modified, &Vec::new(), &Vec::new(), 150);
    assert_eq!(second, Ok(Refresh::Unchanged));
    assert_eq!((series_rows(&c), rows(&c), c.get_watermark()), before);
}

#[test]
fn newer_file_forces_a_scan() {
    assert!(needs_rescan(None, &vec![]));
    assert!(needs_rescan(None, &vec![1]));
    assert!(!needs_rescan(Some(100), &vec![]));
    assert!(!needs_rescan(Some(100), &vec![100, 99, 0]));
    assert!(needs_rescan(Some(100), &vec![99, 101]));
    assert!(needs_rescan(Some(-1), &vec![0]));
    assert!(!needs_rescan(Some(i64::MAX), &vec![u64::MAX / 2]));
    assert!(needs_rescan(Some(i64::MAX), &vec![u64::MAX]));
}

#[test]
fn progress_survives_a_touched_file() {
    let mut c = Catalog::new();
    scan_and_index(&mut c, &vec![file("A", "Chapter 1.cbz", 10)], &dirs(&["A"]), 100).unwrap();
    let id = c.chapters()[0].id;
    assert!(c.update_progress(id, 5, 30, true));
    scan_and_index(&mut c, &vec![file("A", "Chapter 1.cbz", 500)], &dirs(&["A"]), 600).unwrap();
    let row = &c.chapters()[0];
    assert_eq!(row.id, id);
    assert!(row.read);
    assert_eq!(row.last_page_read, Some(5));
    assert_eq!(row.full_pages_read, Some(30));
    assert_eq!(row.modified, 500);
}

#[test]
fn removed_directory_removes_series_and_chapters() {
    let files = vec![file("A", "Chapter 1.cbz", 10), file("B", "Chapter 1.cbz", 10)];
    let mut c = Catalog::new();
    scan_and_index(&mut c, &files, &dirs(&["A", "B"]), 100).unwrap();
    assert_eq!(c.series().len(), 2);
    scan_and_index(&mut c, &vec![file("A", "Chapter 1.cbz", 10)], &dirs(&["A"]), 200).unwrap();
    let shown = Manga::load_all_from_db(&c);
    assert_eq!(shown.len(), 1);
    assert_eq!(shown[0].name, "A");
    assert!(c.chapters().iter().all(|r| r.manga_id == shown[0].id));
    assert_eq!(c.chapters().len(), 1);
}

#[test]
fn series_outside_the_existing_directories_is_pruned_in_the_same_scan() {
    let mut c = Catalog::new();
    scan_and_index(&mut c, &vec![file("Nested", "Chapter 1.cbz", 10)], &dirs(&["A"]), 100).unwrap();
    assert!(c.series().is_empty());
    assert!(c.chapters().is_empty());
    // The ids were used all the same.
    assert_eq!(c.last_series_id(), 1);
    assert_eq!(c.last_chapter_id(), 1);
}

#[test]
fn second_file_with_a_used_number_updates_the_row() {
    let files = vec![file("A", "Chapter 1.cbz", 10), file("A", "chap 01 bis.cbz", 20)];
    let mut c = Catalog::new();
    scan_and_index(&mut c, &files, &dirs(&["A"]), 100).unwrap();
    assert_eq!(c.chapters().len(), 1);
    assert_eq!(c.chapters()[0].file, "/root/A/chap 01 bis.cbz");
    assert_eq!(c.chapters()[0].modified, 20);
    let mut keys: Vec<(i64, String)> =
        c.chapters().iter().map(|r| (r.manga_id, r.num.text())).collect();
    keys.dedup();
    assert_eq!(keys.len(), c.chapters().len());
}

#[test]
fn watermark_never_moves_back() {
    let mut c = Catalog::new();
    scan_and_index(&mut c, &Vec::new(), &Vec::new(), 100).unwrap();
    assert_eq!(c.get_watermark(), Some(100));
    scan_and_index(&mut c, &Vec::new(), &Vec::new(), 250).unwrap();
    assert_eq!(c.get_watermark(), Some(250));
    scan_and_index(&mut c, &Vec::new(), &Vec::new(), 200).unwrap();
    assert_eq!(c.get_watermark(), Some(250));
}

#[test]
fn file_without_number_is_kept_under_zero() {
    let mut c = Catalog::new();
    scan_and_index(&mut c, &vec![file("A", "extra.cbz", 10)], &dirs(&["A"]), 100).unwrap();
    assert_eq!(c.chapters().len(), 1);
    assert_eq!(c.chapters()[0].num, ChapterNumber::zero());
    assert_eq!(c.series().len(), 1);
}

#[test]
fn artifacts_overwrite_only_when_present() {
    let mut with = file("A", "Chapter 1.cbz", 10);
    with.cover = Some("/root/A/cover.jpg".to_string());
    with.synopsis = Some("A story.".to_string());
    let mut c = Catalog::new();
    scan_and_index(&mut c, &vec![with], &dirs(&["A"]), 100).unwrap();
    assert_eq!(c.series()[0].ta.as_deref(), Some("/root/A/cover.jpg"));
    // A later file without artifacts leaves them alone.
    scan_and_index(&mut c, &vec![file("A", "Chapter 2.cbz", 10)], &dirs(&["A"]), 200).unwrap();
    assert_eq!(c.series()[0].ta.as_deref(), Some("/root/A/cover.jpg"));
    assert_eq!(c.series()[0].synopsis.as_deref(), Some("A story."));
    // One artifact overwrites all three fields.
    let mut only_source = file("A", "Chapter 3.cbz", 10);
    only_source.source_url = Some("https://example.com".to_string());
    scan_and_index(&mut c, &vec![only_source], &dirs(&["A"]), 300).unwrap();
    assert_eq!(c.series()[0].ta, None);
    assert_eq!(c.series()[0].synopsis, None);
    assert_eq!(c.series()[0].source_url.as_deref(), Some("https://example.com"));
}

#[test]
fn scan_without_room_for_ids_changes_nothing() {
    let mut c = Catalog::restore(Vec::new(), Vec::new(), i64::MAX - 1, 0, Some(7)).unwrap();
    let files = vec![file("A", "Chapter 1.cbz", 10), file("A", "Chapter 2.cbz", 10)];
    assert_eq!(scan_and_index(&mut c, &files, &dirs(&["A"]), 100), Err(StoreError::IdsExhausted));
    assert!(c.series().is_empty());
    assert_eq!(c.get_watermark(), Some(7));
    assert_eq!(refresh(&mut c, &vec![8], &files, &dirs(&["A"]), 100), Err(StoreError::IdsExhausted));
    assert_eq!(refresh(&mut c, &vec![7], &files, &dirs(&["A"]), 100), Ok(Refresh::Unchanged));
}

#[test]
fn index_file_writes_under_the_given_number() {
    let mut c = Catalog::new();
    let f = file("A", "whatever.cbz", 10);
    assert_eq!(index_file(&mut c, &f, ChapterNumber::from_whole(42)), Ok(()));
    assert_eq!(c.chapters()[0].num, ChapterNumber::from_whole(42));
    assert_eq!(c.series()[0].name, "A");
}

#[test]
fn end_to_end_library() {
    let synopsis = "A story.\nSource: https://example.com";
    let cover = Some("/root/MySeries/cover.jpg".to_string());
    let scan = |names: &[&str]| -> Vec<ScannedFile> {
        names
            .iter()
            .map(|name| {
                scanned_file(
                    "MySeries",
                    name,
                    &format!("/root/MySeries/{}", name),
                    2048,
                    10,
                    cover.clone(),
                    Some(synopsis),
                )
            })
            .collect()
    };
    let mut c = Catalog::new();
    let first = refresh(
        &mut c,
        &vec![10, 10, 10, 10],
        &scan(&["Chapter 1.cbz", "Chapter 2.cbz"]),
        &dirs(&["MySeries"]),
        100,
    );
    assert_eq!(first, Ok(Refresh::Rescanned));
    let shown = Manga::load_all_from_db(&c);
    assert_eq!(shown.len(), 1);
    assert_eq!(shown[0].name, "MySeries");
    assert_eq!(shown[0].thumbnail.as_deref(), Some("/root/MySeries/cover.jpg"));
    assert_eq!(shown[0].synopsis.as_deref(), Some("A story."));
    assert_eq!(shown[0].source_url.as_deref(), Some("https://example.com"));
    let numbers: Vec<f32> =
        shown[0].chapters.iter().map(|ch| ch.num.text().parse::<f32>().unwrap()).collect();
    assert_eq!(numbers, vec![1.0, 2.0]);
    assert!(shown[0].chapters.iter().all(|ch| !ch.read));

    assert!(c.mark_read(shown[0].chapters[0].id));

    let second = refresh(
        &mut c,
        &vec![10, 10, 10, 10, 150],
        &scan(&["Chapter 1.cbz", "Chapter 2.cbz", "Chapter 3.cbz"]),
        &dirs(&["MySeries"]),
        200,
    );
    assert_eq!(second, Ok(Refresh::Rescanned));
    let shown = Manga::load_all_from_db(&c);
    assert_eq!(shown.len(), 1);
    let state: Vec<(String, bool)> =
        shown[0].chapters.iter().map(|ch| (ch.num.text(), ch.read)).collect();
    assert_eq!(
        state,
        vec![("1".to_string(), true), ("2".to_string(), false), ("3".to_string(), false)]
    );
}
