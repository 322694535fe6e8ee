use manga_reader::app::{
    find_last_read, first_unread, first_unread_from, position_of, resume_chapter, step_down,
    step_up, App, AppState, InputField,
};
use manga_reader::catalog::Catalog;
use manga_reader::config::Config;
use manga_reader::manga::{Chapter, Manga};
use manga_reader::number::ChapterNumber;

fn chapter(id: i64, read: bool) -> Chapter {
    Chapter {
        id,
        manga_id: 1,
        num: ChapterNumber::from_whole(id as u64),
        path: format!("/a/{}.cbz", id),
        title: format!("Chapter {}", id),
        read,
        last_page_read: None,
        full_pages_read: None,
        size: 0,
        modified: 0,
    }
}

fn manga(name: &str, reads: &[bool]) -> Manga {
    Manga {
        id: 1,
        name: name.to_string(),
        path: name.to_string(),
        chapters: reads.iter().enumerate().map(|(i, r)| chapter(i as i64 + 1, *r)).collect(),
        thumbnail: None,
        synopsis: None,
        source_url: None,
    }
}

fn app(mangas: Vec<Manga>) -> App {
    let mut a = App::new("/root".to_string(), Config::default());
    a.mangas = mangas;
    a
}

#[test]
fn new_app() {
    let a = App::new("/root".to_string(), Config::default());
    assert_eq!(a.state, AppState::BrowseManga);
    assert_eq!(a.input_field, InputField::NoField);
    assert_eq!(a.manga_dir, "/root");
    assert_eq!((a.term_width, a.term_height), (120, 30));
    assert!(a.is_manga_list_focused);
    assert_eq!(a.selected_manga, None);
    assert_eq!(a.selected_chapter, None);
}

#[test]
fn selection_is_restored_by_name() {
    let mut a = app(vec![manga("A", &[true, false]), manga("B", &[true, true, false]), manga("C", &[])]);
    a.restore_selection(Some("B"));
    assert_eq!(a.selected_manga, Some(1));
    assert_eq!(a.selected_chapter, Some(2));
    a.restore_selection(Some("Gone"));
    assert_eq!(a.selected_manga, Some(0));
    assert_eq!(a.selected_chapter, Some(1));
    a.restore_selection(None);
    assert_eq!(a.selected_manga, Some(0));
    a.restore_selection(Some("C"));
    assert_eq!(a.selected_manga, Some(2));
    assert_eq!(a.selected_chapter, Some(0));
    assert!(a.current_chapter().is_none());
}

#[test]
fn selection_in_an_empty_library() {
    let mut a = app(vec![]);
    a.restore_selection(Some("A"));
    assert_eq!(a.selected_manga, None);
    assert_eq!(a.selected_chapter, None);
    assert!(a.current_manga().is_none());
}

#[test]
fn all_read_selects_the_first_chapter() {
    let mut a = app(vec![manga("A", &[true, true])]);
    a.restore_selection(None);
    assert_eq!(a.selected_chapter, Some(0));
    assert_eq!(a.current_chapter().map(|c| c.id), Some(1));
}

#[test]
fn reload_keeps_the_selected_series() {
    let mut c = Catalog::new();
    for name in ["A", "B", "C"] {
        let s = c.resolve_series(name).unwrap();
        c.upsert_chapter(s, ChapterNumber::from_whole(1), name, 0, 0).unwrap();
        c.upsert_chapter(s, ChapterNumber::from_whole(2), name, 0, 0).unwrap();
    }
    let mut a = app(vec![]);
    a.reload(&c);
    assert_eq!(a.mangas.len(), 3);
    assert_eq!(a.selected_manga, Some(0));
    assert!(a.needs_refresh);
    a.selected_manga = Some(2);
    c.delete_series_cascade(1);
    let first_of_c = c.chapters().iter().find(|r| r.manga_id == 3).unwrap().id;
    c.mark_read(first_of_c);
    a.reload(&c);
    assert_eq!(a.mangas.len(), 2);
    assert_eq!(a.current_manga().map(|m| m.name.as_str()), Some("C"));
    assert_eq!(a.selected_manga, Some(1));
    assert_eq!(a.selected_chapter, Some(1));
    a.reset_refresh();
    assert!(!a.needs_refresh);
}

#[test]
fn searches() {
    let m = manga("A", &[true, false, true, false]);
    assert_eq!(first_unread(&m.chapters), Some(1));
    assert_eq!(first_unread_from(&m.chapters, 2), Some(3));
    assert_eq!(first_unread_from(&m.chapters, 4), None);
    assert_eq!(find_last_read(&m.chapters), Some(2));
    assert_eq!(find_last_read(&manga("B", &[false]).chapters), None);
    let list = vec![manga("A", &[]), manga("B", &[]), manga("A", &[])];
    assert_eq!(position_of(&list, "A"), Some(0));
    assert_eq!(position_of(&list, "B"), Some(1));
    assert_eq!(position_of(&list, "Z"), None);
}

#[test]
fn resuming() {
    assert_eq!(resume_chapter(&manga("A", &[]).chapters), 0);
    assert_eq!(resume_chapter(&manga("A", &[false, false]).chapters), 0);
    assert_eq!(resume_chapter(&manga("A", &[true, false, false]).chapters), 1);
    assert_eq!(resume_chapter(&manga("A", &[true, true, true]).chapters), 1);
    assert_eq!(resume_chapter(&manga("A", &[true]).chapters), 0);
    assert_eq!(resume_chapter(&manga("A", &[false, true, false]).chapters), 2);
}

#[test]
fn stepping_wraps_around() {
    assert_eq!(step_down(None, 3), 0);
    assert_eq!(step_down(Some(0), 3), 1);
    assert_eq!(step_down(Some(2), 3), 0);
    assert_eq!(step_down(Some(usize::MAX), 4), 0);
    assert_eq!(step_down(Some(0), 1), 0);
    assert_eq!(step_up(None, 3), 0);
    assert_eq!(step_up(Some(0), 3), 2);
    assert_eq!(step_up(Some(2), 3), 1);
}

#[test]
fn progress_of_a_series() {
    assert_eq!(App::manga_progress(&manga("A", &[true, false, true])), (2, 3));
    assert_eq!(App::manga_progress(&manga("A", &[])), (0, 0));
}

#[test]
fn filter_ignores_case() {
    let mut a = app(vec![manga("One Piece", &[]), manga("Naruto", &[]), manga("PIECES", &[])]);
    assert_eq!(a.filtered_mangas(), vec![0, 1, 2]);
    a.filter = "piece".to_string();
    assert_eq!(a.filtered_mangas(), vec![0, 2]);
    a.filter = "NAR".to_string();
    assert_eq!(a.filtered_mangas(), vec![1]);
    a.filter = "zzz".to_string();
    assert!(a.filtered_mangas().is_empty());
}

#[test]
fn toggling_marks_everywhere() {
    let mut c = Catalog::new();
    let s = c.resolve_series("A").unwrap();
    c.upsert_chapter(s, ChapterNumber::from_whole(1), "/a/1.cbz", 0, 0).unwrap();
    c.upsert_chapter(s, ChapterNumber::from_whole(2), "/a/2.cbz", 0, 0).unwrap();
    let mut a = app(vec![]);
    a.reload(&c);
    a.selected_chapter = Some(1);
    assert!(a.toggle_chapter_read_state(&mut c, true));
    assert!(a.mangas[0].chapters[1].read);
    assert_eq!(a.mangas[0].chapters[1].last_page_read, Some(0));
    assert_eq!(a.mangas[0].chapters[1].full_pages_read, Some(20));
    assert!(!a.mangas[0].chapters[0].read);
    assert_eq!(a.config.read_chapters, vec!["/a/2.cbz"]);
    assert!(c.chapters()[1].read);
    assert_eq!(c.chapters()[1].full_pages_read, Some(20));
    assert_eq!(a.status, "Chapitre marqué comme lu");
    c.update_progress(2, 9, 33, true);
    a.reload(&c);
    a.selected_chapter = Some(1);
    assert!(a.toggle_chapter_read_state(&mut c, false));
    assert!(!a.mangas[0].chapters[1].read);
    assert_eq!(a.mangas[0].chapters[1].last_page_read, Some(0));
    assert_eq!(a.mangas[0].chapters[1].full_pages_read, Some(33));
    assert!(a.config.read_chapters.is_empty());
    assert!(!c.chapters()[1].read);
    assert_eq!(a.status, "Chapitre marqué comme non lu (progression réinitialisée)");
}

#[test]
fn toggling_without_a_selection_does_nothing() {
    let mut c = Catalog::new();
    let mut a = app(vec![manga("A", &[false])]);
    assert!(!a.toggle_chapter_read_state(&mut c, true));
    a.selected_manga = Some(0);
    a.selected_chapter = Some(5);
    assert!(!a.toggle_chapter_read_state(&mut c, true));
    assert!(!a.mangas[0].chapters[0].read);
    assert!(a.config.read_chapters.is_empty());
}

#[test]
fn resize_is_recorded() {
    let mut a = app(vec![]);
    a.on_resize(80, 24);
    assert_eq!((a.term_width, a.term_height), (80, 24));
}
