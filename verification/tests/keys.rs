use manga_reader::app::{App, AppState, InputField};
use manga_reader::config::Config;
use manga_reader::event::{
    Action, Area, Event, KeyCode, KeyEvent, MouseEvent, MouseEventKind, RefreshCause,
};
use manga_reader::keys::find_position;
use manga_reader::manga::{Chapter, Manga};
use manga_reader::number::ChapterNumber;

fn chapter(id: i64, read: bool) -> Chapter {
    Chapter {
        id,
        manga_id: 1,
        num: ChapterNumber::from_whole(id as u64),
        path: format!("/a/{}.cbz", id),
        title: format!("Chapter {}", id),
        read,
        last_page_read: None,
        full_pages_read: None,
        size: 0,
        modified: 0,
    }
}

fn manga(name: &str, reads: &[bool]) -> Manga {
    Manga {
        id: 1,
        name: name.to_string(),
        path: name.to_string(),
        chapters: reads.iter().enumerate().map(|(i, r)| chapter(i as i64 + 1, *r)).collect(),
        thumbnail: None,
        synopsis: None,
        source_url: Some(format!("https://example.com/{}", name)),
    }
}

fn library() -> App {
    let mut a = App::new("/root".to_string(), Config::default());
    a.mangas = vec![
        manga("Alpha", &[true, false, false]),
        manga("Beta", &[]),
        manga("Gamma", &[false]),
    ];
    a.selected_manga = Some(0);
    a.selected_chapter = Some(0);
    a
}

fn key(code: KeyCode) -> Event {
    Event::Key(KeyEvent { code, shift: false })
}

fn ch(c: char) -> Event {
    key(KeyCode::Char(c))
}

fn mouse(kind: MouseEventKind, column: u16, row: u16) -> Event {
    Event::Mouse(MouseEvent { kind, column, row })
}

#[test]
fn quit_key() {
    let mut a = library();
    assert_eq!(a.handle_key(&ch('q'), 0), Action::Quit);
    assert!(a.should_quit);
}

#[test]
fn help_key_toggles() {
    let mut a = library();
    assert_eq!(a.handle_key(&ch('?'), 0), Action::Nothing);
    assert!(a.show_help);
    assert_eq!(a.status, "Help displayed");
    a.handle_key(&ch('?'), 0);
    assert!(!a.show_help);
    assert_eq!(a.status, "Help hidden");
}

#[test]
fn refresh_key_asks_for_a_refresh() {
    let mut a = library();
    assert_eq!(a.handle_key(&ch('r'), 0), Action::Refresh(RefreshCause::Asked));
}

#[test]
fn settings_key_opens_the_path_editor() {
    let mut a = library();
    a.handle_key(&ch('c'), 0);
    assert_eq!(a.state, AppState::Settings);
    assert!(a.input_mode);
    assert_eq!(a.input_field, InputField::MangaDir);
    assert_eq!(a.filter, "/root");
    a.handle_key(&ch('x'), 0);
    a.handle_key(&key(KeyCode::Backspace), 0);
    a.handle_key(&ch('2'), 0);
    assert_eq!(a.filter, "/root2");
    assert_eq!(a.handle_key(&key(KeyCode::Enter), 0), Action::ChangeDirectory);
    a.handle_key(&key(KeyCode::Esc), 0);
    assert_eq!(a.state, AppState::BrowseManga);
    assert_eq!(a.status, "Liste des mangas");
    assert!(!a.input_mode);
}

#[test]
fn filter_is_typed() {
    let mut a = library();
    a.handle_key(&ch('/'), 0);
    assert!(a.input_mode);
    assert_eq!(a.status, "Filtering manga list");
    for c in "gaq".chars() {
        assert_eq!(a.handle_key(&ch(c), 0), Action::Nothing);
    }
    assert!(!a.should_quit);
    a.handle_key(&key(KeyCode::Backspace), 0);
    assert_eq!(a.filter, "ga");
    a.handle_key(&key(KeyCode::Enter), 0);
    assert!(!a.input_mode);
    assert_eq!(a.status, "Filter applied");
    assert_eq!(a.filtered_mangas(), vec![2]);
    a.handle_key(&ch('/'), 0);
    a.handle_key(&key(KeyCode::Esc), 0);
    assert_eq!(a.filter, "");
    assert_eq!(a.status, "Filter cleared");
    a.handle_key(&ch('/'), 0);
    for _ in 0..3 {
        a.handle_key(&key(KeyCode::Backspace), 0);
    }
    assert_eq!(a.filter, "");
}

#[test]
fn moving_through_the_series() {
    let mut a = library();
    assert_eq!(a.handle_key(&key(KeyCode::Down), 0), Action::LoadCover);
    assert_eq!(a.selected_manga, Some(1));
    assert_eq!(a.selected_chapter, None);
    a.handle_key(&ch('j'), 0);
    assert_eq!(a.selected_manga, Some(2));
    assert_eq!(a.selected_chapter, Some(0));
    a.handle_key(&ch('j'), 0);
    assert_eq!(a.selected_manga, Some(0));
    a.handle_key(&key(KeyCode::Up), 0);
    assert_eq!(a.selected_manga, Some(2));
    a.handle_key(&ch('k'), 0);
    assert_eq!(a.selected_manga, Some(1));
}

#[test]
fn moving_in_an_empty_list_does_nothing() {
    let mut a = App::new("/root".to_string(), Config::default());
    assert_eq!(a.handle_key(&key(KeyCode::Down), 0), Action::Nothing);
    assert_eq!(a.selected_manga, None);
}

#[test]
fn focus_moves_to_the_chapter_to_resume() {
    let mut a = library();
    a.handle_key(&key(KeyCode::Tab), 0);
    assert!(!a.is_manga_list_focused);
    assert_eq!(a.status, "Focus: Chapter List");
    assert_eq!(a.selected_chapter, Some(1));
    a.handle_key(&key(KeyCode::Down), 0);
    assert_eq!(a.selected_chapter, Some(2));
    a.handle_key(&key(KeyCode::Down), 0);
    assert_eq!(a.selected_chapter, Some(0));
    a.handle_key(&key(KeyCode::Up), 0);
    assert_eq!(a.selected_chapter, Some(2));
    a.handle_key(&key(KeyCode::Tab), 0);
    assert!(a.is_manga_list_focused);
    assert_eq!(a.status, "Focus: Manga List");
    a.handle_key(&key(KeyCode::Right), 0);
    assert!(!a.is_manga_list_focused);
    a.handle_key(&key(KeyCode::Left), 0);
    assert!(a.is_manga_list_focused);
    assert_eq!(a.handle_key(&key(KeyCode::Enter), 0), Action::Nothing);
    assert!(!a.is_manga_list_focused);
    assert_eq!(a.handle_key(&key(KeyCode::Enter), 0), Action::OpenChapter);
    a.handle_key(&key(KeyCode::Backspace), 0);
    assert!(a.is_manga_list_focused);
    assert_eq!(a.selected_chapter, None);
}

#[test]
fn keys_of_the_chapter_list() {
    let mut a = library();
    assert_eq!(a.handle_key(&ch('o'), 0), Action::Nothing);
    assert_eq!(a.handle_key(&ch('m'), 0), Action::Nothing);
    a.is_manga_list_focused = false;
    assert_eq!(a.handle_key(&ch('o'), 0), Action::OpenChapter);
    assert_eq!(a.handle_key(&ch('m'), 0), Action::ToggleRead(false));
    a.selected_chapter = Some(1);
    assert_eq!(a.handle_key(&ch('m'), 0), Action::ToggleRead(true));
    a.selected_chapter = Some(9);
    assert_eq!(a.handle_key(&ch('m'), 0), Action::Nothing);
    assert_eq!(a.handle_key(&ch('M'), 0), Action::Nothing);
    let shifted = Event::Key(KeyEvent { code: KeyCode::Char('M'), shift: true });
    assert_eq!(a.handle_key(&shifted, 0), Action::MarkAllUnread);
    assert_eq!(a.handle_key(&ch('v'), 0), Action::Nothing);
    assert_eq!(a.state, AppState::BrowseManga);
    a.is_manga_list_focused = true;
    a.handle_key(&ch('v'), 0);
    assert_eq!(a.state, AppState::ViewMangaDetails);
    assert_eq!(a.status, "Viewing manga details");
}

#[test]
fn details_screen() {
    let mut a = library();
    a.state = AppState::ViewMangaDetails;
    a.handle_key(&ch('j'), 0);
    assert_eq!(a.selected_chapter, Some(1));
    a.handle_key(&ch('k'), 0);
    a.handle_key(&ch('k'), 0);
    assert_eq!(a.selected_chapter, Some(2));
    a.handle_key(&mouse(MouseEventKind::ScrollDown, 0, 0), 0);
    assert_eq!(a.selected_chapter, Some(0));
    a.handle_key(&mouse(MouseEventKind::ScrollUp, 0, 0), 0);
    assert_eq!(a.selected_chapter, Some(2));
    assert_eq!(a.handle_key(&key(KeyCode::Enter), 0), Action::OpenChapter);
    assert_eq!(a.handle_key(&ch('o'), 0), Action::OpenChapter);
    assert_eq!(a.handle_key(&ch('m'), 0), Action::ToggleRead(true));
    assert_eq!(a.handle_key(&key(KeyCode::Up), 0), Action::Nothing);
    assert_eq!(a.selected_chapter, Some(2));
    a.handle_key(&key(KeyCode::Esc), 0);
    assert_eq!(a.state, AppState::BrowseManga);
    assert_eq!(a.status, "Returned to manga list");
    a.state = AppState::ViewMangaDetails;
    a.handle_key(&ch('d'), 0);
    assert_eq!(a.state, AppState::DownloadInput);
    assert_eq!(a.input_field, InputField::Url);
}

#[test]
fn download_form() {
    let mut a = library();
    a.handle_key(&ch('d'), 0);
    assert_eq!(a.state, AppState::DownloadInput);
    assert_eq!(a.status, "Enter the URL, then press Tab to select chapters.");
    for c in "http".chars() {
        a.handle_key(&ch(c), 0);
    }
    a.handle_key(&key(KeyCode::Tab), 0);
    assert_eq!(a.input_field, InputField::Chapters);
    assert_eq!(a.status, "Editing chapters (e.g., 1,2,3 or 1-3)");
    for c in "1,23".chars() {
        a.handle_key(&ch(c), 0);
    }
    a.handle_key(&key(KeyCode::Backspace), 0);
    a.handle_key(&key(KeyCode::Tab), 0);
    assert_eq!(a.input_field, InputField::Url);
    assert_eq!(a.status, "Editing URL");
    a.handle_key(&key(KeyCode::Backspace), 0);
    assert_eq!(a.download_url, "htt");
    assert_eq!(a.selected_chapters_input, "1,2");
    assert_eq!(a.handle_key(&key(KeyCode::Enter), 0), Action::StartDownload);
    a.download_logs.push("x".to_string());
    assert_eq!(a.handle_key(&key(KeyCode::Esc), 0), Action::DropDownload);
    assert_eq!(a.state, AppState::BrowseManga);
    assert!(a.download_logs.is_empty());
    assert!(!a.input_mode);
    assert_eq!(a.input_field, InputField::NoField);
}

#[test]
fn download_log_screen() {
    let mut a = library();
    a.state = AppState::Downloading;
    a.is_downloading = true;
    a.download_logs = vec!["a".to_string(), "b".to_string(), "c".to_string()];
    a.handle_key(&key(KeyCode::Up), 0);
    assert_eq!(a.scroll_offset, 0);
    assert!(a.has_user_scrolled);
    for _ in 0..5 {
        a.handle_key(&ch('j'), 0);
    }
    assert_eq!(a.scroll_offset, 2);
    a.handle_key(&ch('k'), 0);
    assert_eq!(a.scroll_offset, 1);
    assert_eq!(
        a.handle_key(&key(KeyCode::Esc), 0),
        Action::Refresh(RefreshCause::DownloadCancelled)
    );
    assert_eq!(a.download_logs.last().map(|s| s.as_str()), Some("Download cancelled."));
    assert_eq!(a.status, "Download cancelled. Manga list refreshed and focused.");
    assert_eq!(a.state, AppState::BrowseManga);
    assert!(!a.is_downloading);
    assert_eq!(a.scroll_offset, 0);
    assert!(!a.has_user_scrolled);
    a.state = AppState::Downloading;
    assert_eq!(a.handle_key(&ch('r'), 0), Action::Refresh(RefreshCause::DownloadLeft));
    assert_eq!(a.download_logs.len(), 4);
}

#[test]
fn click_on_the_source() {
    let mut a = library();
    a.source_link_area = Some(Area { x: 10, y: 5, width: 20, height: 2 });
    assert_eq!(a.handle_key(&mouse(MouseEventKind::LeftDown, 9, 5), 0), Action::Nothing);
    assert_eq!(a.state, AppState::BrowseManga);
    assert_eq!(a.handle_key(&mouse(MouseEventKind::RightDown, 29, 6), 0), Action::OpenSource);
    assert_eq!(a.handle_key(&mouse(MouseEventKind::RightDown, 30, 6), 0), Action::Nothing);
    a.mangas[0].source_url = None;
    assert_eq!(a.handle_key(&mouse(MouseEventKind::RightDown, 10, 5), 0), Action::Nothing);
    assert_eq!(a.status, "No source URL available");
    a.selected_manga = Some(2);
    assert_eq!(a.handle_key(&mouse(MouseEventKind::LeftDown, 10, 6), 0), Action::Nothing);
    assert_eq!(a.state, AppState::DownloadInput);
    assert_eq!(a.download_url, "https://example.com/Gamma");
    assert_eq!(a.status, "URL filled from source. Press Tab to select chapters.");
}

#[test]
fn area_edges() {
    let area = Area { x: 65530, y: 0, width: 100, height: 1 };
    assert!(area.contains(65530, 0));
    assert!(area.contains(65534, 0));
    assert!(!area.contains(65535, 0));
    assert!(!area.contains(65530, 1));
    assert!(!Area { x: 1, y: 1, width: 0, height: 5 }.contains(1, 1));
}

#[test]
fn wheel_moves_through_the_filtered_series() {
    let mut a = library();
    a.filter = "a".to_string();
    assert_eq!(a.filtered_mangas(), vec![0, 1, 2]);
    a.filter = "m".to_string();
    assert_eq!(a.filtered_mangas(), vec![2]);
    a.filter = "ph".to_string();
    assert_eq!(a.filtered_mangas(), vec![0]);
    a.filter = "et".to_string();
    // Only "Beta" passes; "Alpha" is selected and does not pass.
    assert_eq!(a.handle_key(&mouse(MouseEventKind::ScrollDown, 0, 0), 1000), Action::LoadCover);
    assert_eq!(a.selected_manga, Some(1));
    a.filter = "a".to_string();
    // Too soon after the last turn of the wheel.
    assert_eq!(a.handle_key(&mouse(MouseEventKind::ScrollDown, 0, 0), 1119), Action::Nothing);
    assert_eq!(a.selected_manga, Some(1));
    assert_eq!(a.handle_key(&mouse(MouseEventKind::ScrollDown, 0, 0), 1120), Action::LoadCover);
    assert_eq!(a.selected_manga, Some(2));
    a.handle_key(&mouse(MouseEventKind::ScrollDown, 0, 0), 2000);
    assert_eq!(a.selected_manga, Some(0));
    a.handle_key(&mouse(MouseEventKind::ScrollUp, 0, 0), 3000);
    assert_eq!(a.selected_manga, Some(2));
    a.handle_key(&mouse(MouseEventKind::ScrollUp, 0, 0), 4000);
    assert_eq!(a.selected_manga, Some(1));
    a.is_manga_list_focused = false;
    a.selected_manga = Some(0);
    a.selected_chapter = Some(2);
    a.handle_key(&mouse(MouseEventKind::ScrollDown, 0, 0), 5000);
    assert_eq!(a.selected_chapter, Some(0));
    // A clock that went back does not let the wheel through.
    assert_eq!(a.handle_key(&mouse(MouseEventKind::ScrollDown, 0, 0), 10), Action::Nothing);
}

#[test]
fn ticks_and_resizes_are_not_keys() {
    let mut a = library();
    assert_eq!(a.handle_key(&Event::Tick, 0), Action::Nothing);
    assert_eq!(a.handle_key(&Event::Resize(10, 10), 0), Action::Nothing);
    assert_eq!(a.term_width, 120);
}

#[test]
fn position_in_a_list() {
    assert_eq!(find_position(&vec![4, 7, 7, 9], 7), Some(1));
    assert_eq!(find_position(&vec![4, 7, 7, 9], 5), None);
    assert_eq!(find_position(&vec![], 5), None);
}
