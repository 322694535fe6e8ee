use manga_reader::config::{Config, Settings};
use manga_reader::image::ImageManager;

#[test]
fn default_config() {
    let c = Config::default();
    assert_eq!(c.last_manga_dir, None);
    assert!(c.read_chapters.is_empty());
    assert_eq!(c.open_command, None);
    assert_eq!(c.last_download_url, None);
    assert!(c.last_downloaded_chapters.is_empty());
    let s = Settings::default();
    assert!(!s.prefer_external);
    assert!(s.auto_mark_read);
    assert_eq!(s.default_provider, "manual");
    assert!(s.enable_image_rendering);
    assert_eq!(s.reader_options, vec![("mode".to_string(), "webtoon".to_string())]);
}

#[test]
fn marking_read_and_unread() {
    let mut c = Config::default();
    c.mark_chapter_as_read("/a/1.cbz");
    c.mark_chapter_as_read("/a/2.cbz");
    c.mark_chapter_as_read("/a/1.cbz");
    assert_eq!(c.read_chapters, vec!["/a/1.cbz", "/a/2.cbz"]);
    assert!(c.is_chapter_read("/a/1.cbz"));
    assert!(!c.is_chapter_read("/a/3.cbz"));
    c.mark_chapter_as_unread("/a/1.cbz");
    assert_eq!(c.read_chapters, vec!["/a/2.cbz"]);
    c.mark_chapter_as_unread("/a/1.cbz");
    assert_eq!(c.read_chapters, vec!["/a/2.cbz"]);
    assert!(!c.is_chapter_read("/a/1.cbz"));
}

#[test]
fn image_manager_starts_and_ends_empty() {
    let mut m = ImageManager::new();
    assert!(m.image_info.is_none());
    m.clear();
    assert!(m.image_info.is_none());
}
