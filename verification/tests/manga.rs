use manga_reader::catalog::Catalog;
use manga_reader::manga::{chapter_of, load_chapters, Chapter, Manga};
use manga_reader::number::ChapterNumber;

fn chapter(size: u64, num: ChapterNumber) -> Chapter {
    Chapter {
        id: 1,
        manga_id: 1,
        num,
        path: "/a/1.cbz".to_string(),
        title: "Chapter 1".to_string(),
        read: false,
        last_page_read: None,
        full_pages_read: None,
        size,
        modified: 0,
    }
}

fn sized(size: u64) -> String {
    chapter(size, ChapterNumber::from_whole(1)).size_display()
}

#[test]
fn size_in_bytes() {
    assert_eq!(sized(0), "0B");
    assert_eq!(sized(512), "512B");
    assert_eq!(sized(1023), "1023B");
}

#[test]
fn size_in_larger_units() {
    assert_eq!(sized(1024), "1.0KB");
    assert_eq!(sized(1536), "1.5KB");
    assert_eq!(sized(10 * 1024 * 1024), "10.0MB");
    assert_eq!(sized(3 * 1024 * 1024 * 1024), "3.0GB");
    assert_eq!(sized(1024 * 1024 - 1), "1024.0KB");
    assert_eq!(sized(u64::MAX), "17179869184.0GB");
}

#[test]
fn size_rounds_half_to_even() {
    // Each expected text is what `format!("{:.1}", ..)` gives for the
    // quotient.
    assert_eq!(sized(1280), format!("{:.1}KB", 1280.0_f32 / 1024.0));
    assert_eq!(sized(1280), "1.2KB");
    assert_eq!(sized(1382), "1.3KB");
    assert_eq!(sized(1383), "1.4KB");
    assert_eq!(sized(1331), "1.3KB");
    for size in [1024u64, 1100, 1279, 1280, 1281, 5000, 99_999, 1_000_000] {
        assert_eq!(sized(size), format!("{:.1}KB", size as f32 / 1024.0));
    }
    for size in [1_048_576u64, 1_310_720, 5_000_000, 16_000_000] {
        assert_eq!(sized(size), format!("{:.1}MB", size as f32 / 1024.0 / 1024.0));
    }
}

#[test]
fn number_label() {
    assert_eq!(chapter(0, ChapterNumber::from_whole(12)).number_display(), "#12");
    let half = ChapterNumber::from_parts(12, 500_000_000_000_000_000).unwrap();
    assert_eq!(chapter(0, half).number_display(), "#12.5");
    assert_eq!(chapter(0, ChapterNumber::zero()).number_display(), "#0");
}

#[test]
fn chapters_come_out_in_the_order_of_their_numbers() {
    let mut c = Catalog::new();
    let a = c.resolve_series("A").unwrap();
    let b = c.resolve_series("B").unwrap();
    let half = ChapterNumber::from_parts(2, 500_000_000_000_000_000).unwrap();
    c.upsert_chapter(a, ChapterNumber::from_whole(10), "/a/10", 1, 1).unwrap();
    c.upsert_chapter(b, ChapterNumber::from_whole(1), "/b/1", 1, 1).unwrap();
    c.upsert_chapter(a, half, "/a/2.5", 1, 1).unwrap();
    c.upsert_chapter(a, ChapterNumber::from_whole(3), "/a/3", 1, 1).unwrap();
    c.upsert_chapter(a, ChapterNumber::from_whole(2), "/a/2", 1, 1).unwrap();
    let shown = Manga::load_all_from_db(&c);
    assert_eq!(shown.len(), 2);
    assert_eq!(shown[0].name, "A");
    assert_eq!(shown[0].path, "A");
    let paths: Vec<&str> = shown[0].chapters.iter().map(|ch| ch.path.as_str()).collect();
    assert_eq!(paths, vec!["/a/2", "/a/2.5", "/a/3", "/a/10"]);
    let titles: Vec<&str> = shown[0].chapters.iter().map(|ch| ch.title.as_str()).collect();
    assert_eq!(titles, vec!["Chapter 2", "Chapter 2.5", "Chapter 3", "Chapter 10"]);
    assert_eq!(shown[1].chapters.len(), 1);
    assert_eq!(load_chapters(&c, 99).len(), 0);
}

#[test]
fn chapter_shows_its_row() {
    let mut c = Catalog::new();
    let a = c.resolve_series("A").unwrap();
    let id = c.upsert_chapter(a, ChapterNumber::from_whole(4), "/a/4", 77, 88).unwrap();
    c.update_progress(id, 3, 9, true);
    let ch = chapter_of(&c.chapters()[0]);
    assert_eq!((ch.id, ch.manga_id, ch.size, ch.modified), (id, a, 77, 88));
    assert_eq!(ch.title, "Chapter 4");
    assert_eq!(ch.path, "/a/4");
    assert!(ch.read);
    assert_eq!((ch.last_page_read, ch.full_pages_read), (Some(3), Some(9)));
}

#[test]
fn chapter_progress_reaches_the_catalogue() {
    let mut c = Catalog::new();
    let a = c.resolve_series("A").unwrap();
    c.upsert_chapter(a, ChapterNumber::from_whole(4), "/a/4", 77, 88).unwrap();
    let mut ch = chapter_of(&c.chapters()[0]);
    assert!(ch.update_progress(&mut c, 6, 12, true));
    assert!(ch.read);
    assert_eq!(ch.last_page_read, Some(6));
    assert_eq!(c.chapters()[0].last_page_read, Some(6));
    assert_eq!(c.chapters()[0].full_pages_read, Some(12));
    let mut stray = chapter(0, ChapterNumber::from_whole(1));
    stray.id = 50;
    assert!(!stray.update_progress(&mut c, 1, 2, true));
    assert_eq!(stray.last_page_read, Some(1));
}

#[test]
fn progress_loading_is_a_no_op() {
    let mut m = Manga {
        id: 1,
        name: "A".to_string(),
        path: "A".to_string(),
        chapters: vec![chapter(5, ChapterNumber::from_whole(1))],
        thumbnail: None,
        synopsis: None,
        source_url: None,
    };
    m.load_progress_lazy();
    m.reload_progress();
    assert_eq!(m.chapters.len(), 1);
    assert_eq!(m.name, "A");
}
