use manga_reader::app::{App, AppState};
use manga_reader::catalog::Catalog;
use manga_reader::config::Config;
use manga_reader::download::{
    advance, classify_line, count_chapters, parse_count, read_line, strip_ansi_escapes,
    DownloadProgress, LineEvents, LogKind,
};
use manga_reader::event::RefreshCause;
use manga_reader::number::ChapterNumber;
use manga_reader::session::{opener, read_chapter_numbers, reader_command, Platform};

fn app() -> App {
    App::new("/root".to_string(), Config::default())
}

fn count(text: &str) -> Option<usize> {
    let chars: Vec<char> = text.chars().collect();
    parse_count(&chars, 0, chars.len())
}

#[test]
fn control_characters_are_stripped() {
    assert_eq!(strip_ansi_escapes("\u{1b}[32mDone\u{1b}[0m\r\n"), "[32mDone[0m");
    assert_eq!(strip_ansi_escapes("plain é 📖"), "plain é 📖");
    assert_eq!(strip_ansi_escapes("a\u{7f}b\u{85}c\u{9f}d\u{a0}e"), "abcd\u{a0}e");
    assert_eq!(strip_ansi_escapes(""), "");
    for c in ['\0', '\t', '\u{1f}', ' ', '~', '\u{7f}', '\u{80}', '\u{9f}', '\u{a0}', 'é'] {
        let kept = strip_ansi_escapes(&c.to_string()).len() > 0;
        assert_eq!(kept, !c.is_control());
    }
}

#[test]
fn counts_are_parsed_as_unsigned_numbers() {
    for text in ["0", "7", "+7", "007", "12345", "", "+", "-1", "1 ", "1a", "++1", "18446744073709551615", "18446744073709551616", "99999999999999999999999"] {
        assert_eq!(count(text), text.parse::<usize>().ok());
    }
}

#[test]
fn lines_of_the_downloader() {
    let nothing = LineEvents {
        chapter_started: None,
        images_found: None,
        image_downloaded: None,
        archive_created: false,
    };
    assert_eq!(read_line("hello"), nothing);
    assert_eq!(
        read_line("Downloading Chapter 3 of 10"),
        LineEvents { chapter_started: Some(3), ..nothing }
    );
    assert_eq!(
        read_line("[x] Downloading Chapter  12  of Chapter 99"),
        LineEvents { chapter_started: Some(12), ..nothing }
    );
    assert_eq!(read_line("Downloading Chapter three of 10"), nothing);
    assert_eq!(
        read_line("Found 24 images for Chapter 3"),
        LineEvents { images_found: Some(24), ..nothing }
    );
    assert_eq!(read_line("Found 24 pictures for Chapter 3"), nothing);
    assert_eq!(read_line("Foundimages for Chapter"), nothing);
    assert_eq!(
        read_line("Downloaded image 5/24"),
        LineEvents { image_downloaded: Some(5), ..nothing }
    );
    assert_eq!(read_line("Downloaded image5/24"), nothing);
    assert_eq!(
        read_line("Chapter_3.cbr created with 24 images"),
        LineEvents { archive_created: true, ..nothing }
    );
}

#[test]
fn chapters_asked_for() {
    assert_eq!(count_chapters(""), 1);
    assert_eq!(count_chapters("5"), 1);
    assert_eq!(count_chapters("1,2,3"), 3);
    assert_eq!(count_chapters(",,"), 3);
    assert_eq!(read_chapter_numbers("1, 2,x,5"), vec![1, 2, 5]);
    assert_eq!(read_chapter_numbers(""), Vec::<u32>::new());
    assert_eq!(read_chapter_numbers("1-3"), Vec::<u32>::new());
    assert_eq!(read_chapter_numbers("4294967295,4294967296,+3,"), vec![4294967295, 3]);
}

#[test]
fn progress_of_a_download() {
    let mut a = app();
    a.selected_chapters_input = "1,2".to_string();
    for line in [
        "Downloading Chapter 1 of 2",
        "Found 10 images for Chapter 1",
        "Downloaded image 1/10",
        "Downloaded image 2/10",
    ] {
        a.download_logs.push(line.to_string());
    }
    let p = a.calculate_download_progress();
    assert_eq!(
        p,
        DownloadProgress {
            total_chapters: 2,
            completed_chapters: 0,
            current_chapter_images: 2,
            total_images_in_current_chapter: 10,
            current_chapter: 1,
            last_detected_chapter: 1,
        }
    );
    a.download_logs.push("Chapter_1.cbr created with 10 images".to_string());
    a.download_logs.push("Downloading Chapter 2 of 2".to_string());
    let q = a.calculate_download_progress();
    assert_eq!(q.completed_chapters, 1);
    assert_eq!(q.current_chapter, 2);
    assert_eq!(q.current_chapter_images, 0);
    assert_eq!(q.total_images_in_current_chapter, 1);
    a.download_logs.push("Found 0 images for Chapter 2".to_string());
    assert_eq!(a.calculate_download_progress().total_images_in_current_chapter, 1);
}

#[test]
fn progress_without_lines() {
    let p = app().calculate_download_progress();
    assert_eq!(
        p,
        DownloadProgress {
            total_chapters: 1,
            completed_chapters: 0,
            current_chapter_images: 0,
            total_images_in_current_chapter: 1,
            current_chapter: 1,
            last_detected_chapter: 0,
        }
    );
    let same = LineEvents {
        chapter_started: Some(0),
        images_found: None,
        image_downloaded: Some(4),
        archive_created: false,
    };
    let q = advance(p, same);
    assert_eq!(q.current_chapter, 0);
    assert_eq!(q.current_chapter_images, 4);
    assert_eq!(q.total_images_in_current_chapter, 1);
}

#[test]
fn log_lines_are_taken_in() {
    let mut a = app();
    a.is_downloading = true;
    assert!(!a.take_log("\u{1b}[1m📖 Manga en cours de téléchargement:  One_Piece \u{1b}[0m"));
    assert_eq!(a.current_download_manga_name, "One_Piece [0m");
    assert!(!a.take_log("📖 Manga en cours de téléchargement: Naruto"));
    assert_eq!(a.current_download_manga_name, "Naruto");
    assert!(!a.take_log("📖 Manga en cours de téléchargement:"));
    assert_eq!(a.current_download_manga_name, "Naruto");
    assert!(a.is_downloading);
    assert!(a.take_log("Download Complete!"));
    assert!(!a.is_downloading);
    assert!(a.download_finished);
    assert_eq!(
        a.status,
        "Download Naruto terminé. Press 'r' to refresh manga list, or continue viewing logs."
    );
    assert_eq!(a.download_logs.len(), 4);
    assert_eq!(a.download_logs[0], "[1m📖 Manga en cours de téléchargement:  One_Piece [0m");
}

#[test]
fn log_keeps_the_last_two_hundred_lines() {
    let mut a = app();
    for i in 0..250 {
        a.take_log(&format!("line {}", i));
    }
    assert_eq!(a.download_logs.len(), 200);
    assert_eq!(a.download_logs[0], "line 50");
    assert_eq!(a.download_logs[199], "line 249");
    a.download_logs = (0..300).map(|i| i.to_string()).collect();
    a.take_log("last");
    assert_eq!(a.download_logs.len(), 200);
    assert_eq!(a.download_logs[0], "101");
    assert_eq!(a.download_logs[199], "last");
}

#[test]
fn ticks_count_pages() {
    let mut a = app();
    a.tick();
    assert_eq!(a.current_page, 1);
    a.current_page = 99;
    a.tick();
    assert_eq!(a.current_page, 0);
    a.current_page = usize::MAX;
    a.tick();
    assert_eq!(a.current_page, (usize::MAX % 100 + 1) % 100);
}

#[test]
fn download_needs_an_address() {
    let mut a = app();
    assert_eq!(a.start_download(), None);
    assert_eq!(a.status, "Error: URL is required");
    assert_eq!(a.state, AppState::BrowseManga);
    a.download_url = "https://example.com/x".to_string();
    a.download_logs.push("old".to_string());
    assert_eq!(a.start_download().as_deref(), Some("1"));
    assert_eq!(a.state, AppState::Downloading);
    assert!(a.is_downloading);
    assert!(a.download_logs.is_empty());
    assert_eq!(a.status, "Download started. Showing logs below...");
    assert_eq!(a.config.last_download_url.as_deref(), Some("https://example.com/x"));
    assert!(a.config.last_downloaded_chapters.is_empty());
    a.selected_chapters_input = "3, 4,a".to_string();
    assert_eq!(a.start_download().as_deref(), Some("3, 4,a"));
    assert_eq!(a.config.last_downloaded_chapters, vec![3, 4]);
}

#[test]
fn errors_are_reported() {
    let mut a = app();
    a.report_error("No chapter selected");
    assert_eq!(a.status, "Erreur: No chapter selected");
    a.directory_refused();
    assert_eq!(a.status, "Error: Invalid or impossible path");
}

fn library() -> (App, Catalog) {
    let mut c = Catalog::new();
    let s = c.resolve_series("A").unwrap();
    for i in 1..=3u64 {
        c.upsert_chapter(s, ChapterNumber::from_whole(i), &format!("/a/{}.cbz", i), 0, 0).unwrap();
    }
    c.mark_read(1);
    let mut a = app();
    a.reload(&c);
    (a, c)
}

#[test]
fn opened_chapter_moves_the_selection() {
    let (mut a, _) = library();
    assert_eq!(a.selected_chapter, Some(1));
    assert!(a.chapter_opened(true));
    assert_eq!(a.status, "Chapter opened");
    assert_eq!(a.mangas[0].chapters[1].last_page_read, Some(0));
    assert_eq!(a.selected_chapter, Some(2));
    assert!(a.needs_refresh);
    assert!(a.chapter_opened(false));
    assert_eq!(a.status, "Opened Chapter 3 with external reader");
    // No unread chapter follows the third: the last read one is selected.
    assert_eq!(a.selected_chapter, Some(0));
    a.mangas[0].chapters[0].last_page_read = Some(7);
    assert!(a.chapter_opened(true));
    assert_eq!(a.mangas[0].chapters[0].last_page_read, Some(7));
    assert_eq!(a.selected_chapter, Some(1));
    a.selected_chapter = None;
    assert!(!a.chapter_opened(true));
}

#[test]
fn refresh_reports_by_cause() {
    let (mut a, c) = library();
    a.refresh_done(&c, true, RefreshCause::Asked);
    assert_eq!(a.status, "Liste des mangas actualisée");
    a.refresh_done(&c, true, RefreshCause::DownloadCancelled);
    assert_eq!(a.status, "Loaded 1 mangas from SQLite database");
    a.refresh_done(&c, false, RefreshCause::DownloadCancelled);
    assert_eq!(a.status, "Loaded 1 mangas from SQLite (no rescan needed)");
    a.refresh_done(&c, false, RefreshCause::DownloadLeft);
    assert_eq!(a.status, "Manga list refreshed.");
    a.needs_refresh = false;
    a.refresh_done(&c, false, RefreshCause::ReaderClosed);
    assert_eq!(a.status, "Manga list refreshed after closing external reader.");
    assert!(a.needs_refresh);
    assert_eq!(a.mangas.len(), 1);
}

#[test]
fn directory_change() {
    let mut a = app();
    a.state = AppState::Settings;
    a.input_mode = true;
    a.filter = "/new".to_string();
    a.set_directory();
    assert_eq!(a.manga_dir, "/new");
    assert_eq!(a.config.last_manga_dir.as_deref(), Some("/new"));
    assert_eq!(a.state, AppState::Settings);
    a.directory_changed(false);
    assert_eq!(a.state, AppState::BrowseManga);
    assert_eq!(a.filter, "");
    assert_eq!(a.status, "Manga folder updated");
    a.directory_changed(true);
    assert_eq!(a.status, "Manga folder created and updated");
}

#[test]
fn all_chapters_are_marked_unread() {
    let (mut a, mut c) = library();
    c.update_progress(2, 4, 30, true);
    a.reload(&c);
    a.config.mark_chapter_as_read("/a/1.cbz");
    a.config.mark_chapter_as_read("/other.cbz");
    assert!(a.mark_all_unread(&mut c));
    for (j, ch) in a.mangas[0].chapters.iter().enumerate() {
        assert!(!ch.read);
        assert_eq!(ch.last_page_read, Some(0));
        assert_eq!(ch.full_pages_read, Some(if j == 1 { 30 } else { 20 }));
    }
    assert!(c.chapters().iter().all(|r| !r.read && r.last_page_read == Some(0)));
    assert_eq!(c.chapters()[1].full_pages_read, Some(30));
    assert_eq!(a.config.read_chapters, vec!["/other.cbz"]);
    assert_eq!(a.status, "Tous les chapitres marqués comme non lus");
    a.selected_manga = None;
    assert!(!a.mark_all_unread(&mut c));
}

#[test]
fn kinds_of_lines() {
    assert_eq!(classify_line("Error: Download Complete"), LogKind::Failure);
    assert_eq!(classify_line("Failed to fetch"), LogKind::Failure);
    assert_eq!(classify_line("Download Complete!"), LogKind::Success);
    assert_eq!(classify_line("Downloading Chapter 3 of 10"), LogKind::Downloading);
    assert_eq!(classify_line("Chapitre 3"), LogKind::Chapter);
    assert_eq!(classify_line("📚 Mangas"), LogKind::Series);
    assert_eq!(classify_line("Found 3 images"), LogKind::Found);
    assert_eq!(classify_line("Detected"), LogKind::Found);
    assert_eq!(classify_line("error"), LogKind::Note);
    assert_eq!(classify_line(""), LogKind::Note);
}

#[test]
fn how_a_chapter_is_opened() {
    let none: Option<String> = None;
    let live = Some("manga-live".to_string());
    let l = reader_command(&none, Platform::Linux, true, true, "/a/1.cbz", Some(7));
    assert_eq!(l.program, "manga-live");
    assert_eq!(l.args, vec!["/a/1.cbz", "--page", "7"]);
    let l = reader_command(&none, Platform::Linux, true, false, "/a/1.cbz", None);
    assert_eq!(l.args, vec!["/a/1.cbz", "--page", "0"]);
    let l = reader_command(&live, Platform::Linux, false, true, "/a/1.cbz", Some(7));
    assert_eq!(l.program, "sh");
    assert_eq!(l.args, vec!["mupdf-launcher.sh", "/a/1.cbz"]);
    let l = reader_command(&live, Platform::Linux, false, false, "/a/1.cbz", Some(12));
    assert_eq!(l.program, "manga-live");
    assert_eq!(l.args, vec!["/a/1.cbz", "--page", "12"]);
    let l = reader_command(&none, Platform::Linux, false, false, "/a/1.cbz", Some(12));
    assert_eq!(l.program, "xdg-open");
    assert_eq!(l.args, vec!["/a/1.cbz"]);
    let l = reader_command(&live, Platform::MacOs, true, true, "/a/1.cbz", Some(12));
    assert_eq!(l.program, "manga-live");
    assert_eq!(l.args, vec!["/a/1.cbz"]);
    let l = reader_command(&none, Platform::Windows, false, false, "c.cbz", None);
    assert_eq!(l.program, "start");
    assert_eq!(opener(Platform::MacOs), "open");
    assert_eq!(opener(Platform::Other), "xdg-open");
}
