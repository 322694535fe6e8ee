//! What the interface does with an event.
//!
//! Every handler changes the state as far as it can on its own and returns
//! what it asks of its surroundings: to load, to open, to download. The
//! state after the event and the request are functions of the state before
//! it and of the event.

use vstd::prelude::*;
use vstd::arithmetic::div_mod::{lemma_add_mod_noop, lemma_small_mod};
use crate::app::{
    chapter_to_resume, filtered_positions, next_position, previous_position, resume_chapter,
    step_down, step_up, App, AppState, AppView, InputField,
};
use crate::event::{Action, Event, KeyCode, KeyEvent, MouseEvent, MouseEventKind, RefreshCause};
use crate::extract::text_of;
use crate::text::owned;

verus! {

/// How long, in milliseconds, the mouse wheel is not listened to after it
/// moved a selection.
pub const WHEEL_PAUSE: u64 = 120;

/// The position of the first occurrence of `value` in `list` at or after
/// `from`.
pub open spec fn position_in(list: Seq<usize>, value: usize, from: int) -> Option<int>
    decreases list.len() - from,
{
    if from < 0 || from >= list.len() {
        None
    } else if list[from] == value {
        Some(from)
    } else {
        position_in(list, value, from + 1)
    }
}

/// Whether the mouse wheel is listened to at the time `now`, given when it
/// last moved a selection.
pub open spec fn wheel_due(last: Option<u64>, now: u64) -> bool {
    match last {
        Some(t) => now >= t && now - t >= WHEEL_PAUSE,
        None => true,
    }
}

impl AppView {
    /// The position of the selected series, if the selection names one.
    pub open spec fn current(self) -> Option<int> {
        match self.selected_manga {
            Some(i) => if i < self.mangas.len() {
                Some(i as int)
            } else {
                None
            },
            None => None,
        }
    }

    /// The positions of the series that pass the filter.
    pub open spec fn filtered(self) -> Seq<usize> {
        filtered_positions(self.mangas, self.filter, self.mangas.len() as int)
    }

    /// The chapter that is selected with a newly selected series: its first
    /// chapter, if it has one.
    pub open spec fn first_chapter(self) -> Option<usize> {
        match self.current() {
            Some(i) => if self.mangas[i].chapters@.len() == 0 {
                None
            } else {
                Some(0usize)
            },
            None => None,
        }
    }

    /// The state once the chapter to go on with is selected, if a series is
    /// selected.
    pub open spec fn resumed(self) -> AppView {
        match self.current() {
            Some(i) => AppView {
                selected_chapter: Some(chapter_to_resume(self.mangas[i].chapters@)),
                ..self
            },
            None => self,
        }
    }

    /// The state once the selection moved one chapter down or up, around the
    /// ends, if the selected series has chapters.
    pub open spec fn chapter_moved(self, down: bool) -> AppView {
        match self.current() {
            Some(i) => {
                let len = self.mangas[i].chapters@.len() as usize;
                if len > 0 {
                    AppView {
                        selected_chapter: Some(
                            if down {
                                next_position(self.selected_chapter, len)
                            } else {
                                previous_position(self.selected_chapter, len)
                            },
                        ),
                        ..self
                    }
                } else {
                    self
                }
            },
            None => self,
        }
    }

    /// The state once `target` is the selected series, with its first
    /// chapter.
    pub open spec fn with_manga(self, target: usize) -> AppView {
        let moved = AppView { selected_manga: Some(target), ..self };
        AppView { selected_chapter: moved.first_chapter(), ..moved }
    }

    /// The state once the selection moved one series down or up through as
    /// many positions as series pass the filter, and what is asked then.
    pub open spec fn manga_moved(self, down: bool) -> (AppView, Action) {
        let count = self.filtered().len() as usize;
        if count > 0 {
            (
                self.with_manga(
                    if down {
                        next_position(self.selected_manga, count)
                    } else {
                        previous_position(self.selected_manga, count)
                    },
                ),
                Action::LoadCover,
            )
        } else {
            (self, Action::Nothing)
        }
    }

    /// The series that the mouse wheel selects among those that pass the
    /// filter: the one after or before the selected one, around the ends, or
    /// the first if the selected one does not pass.
    pub open spec fn wheel_target(self, down: bool) -> usize {
        let list = self.filtered();
        let found = match self.selected_manga {
            Some(current) => position_in(list, current, 0),
            None => None,
        };
        match found {
            Some(at) => if down {
                list[(at + 1) % (list.len() as int)]
            } else if at == 0 {
                list[list.len() - 1]
            } else {
                list[at - 1]
            },
            None => list[0],
        }
    }

    /// The state once the mouse wheel moved the selection of the list that is
    /// in focus, and what is asked then.
    pub open spec fn wheel_moved(self, down: bool) -> (AppView, Action) {
        if self.is_manga_list_focused {
            if self.filtered().len() > 0 {
                (self.with_manga(self.wheel_target(down)), Action::LoadCover)
            } else {
                (self, Action::Nothing)
            }
        } else {
            (self.chapter_moved(down), Action::Nothing)
        }
    }

    /// The source of the selected series.
    pub open spec fn source(self) -> Option<Seq<char>> {
        match self.current() {
            Some(i) => text_of(self.mangas[i].source_url),
            None => None,
        }
    }

    /// Whether the cell lies where the source of the selected series is
    /// drawn.
    pub open spec fn on_source(self, column: u16, row: u16) -> bool {
        match self.source_link_area {
            Some(area) => area.holds(column, row),
            None => false,
        }
    }

    /// The selected chapter, if the selection names one.
    pub open spec fn chapter_read(self) -> Option<bool> {
        match (self.current(), self.selected_chapter) {
            (Some(i), Some(j)) => if j < self.mangas[i].chapters@.len() {
                Some(self.mangas[i].chapters@[j as int].read)
            } else {
                None
            },
            _ => None,
        }
    }

    /// The state with the chapter list in focus and the chapter to go on
    /// with selected.
    pub open spec fn chapters_focused(self) -> AppView {
        (AppView {
            is_manga_list_focused: false,
            status: "Focus: Chapter List"@,
            ..self
        }).resumed()
    }

    /// The state with the download form on show and the address field in
    /// focus.
    pub open spec fn download_form(self) -> AppView {
        AppView {
            state: AppState::DownloadInput,
            input_mode: true,
            input_field: InputField::Url,
            status: "Enter the URL, then press Tab to select chapters."@,
            ..self
        }
    }
}

/// What a key does while the filter is typed.
pub open spec fn filter_key(a: AppView, key: KeyEvent) -> AppView {
    match key.code {
        KeyCode::Esc => AppView {
            input_mode: false,
            filter: Seq::empty(),
            input_field: InputField::NoField,
            status: "Filter cleared"@,
            ..a
        },
        KeyCode::Enter => AppView { input_mode: false, status: "Filter applied"@, ..a },
        KeyCode::Char(c) => AppView { filter: a.filter.push(c), ..a },
        KeyCode::Backspace => AppView { filter: without_last(a.filter), ..a },
        _ => a,
    }
}

/// A text without its last character; the empty text stays empty.
pub open spec fn without_last(s: Seq<char>) -> Seq<char> {
    if s.len() > 0 {
        s.drop_last()
    } else {
        s
    }
}

/// What a key does in the list of series and chapters.
pub open spec fn browse_key(a: AppView, key: KeyEvent) -> (AppView, Action) {
    match key.code {
        KeyCode::Char(c) => if c == 'q' {
            (AppView { should_quit: true, ..a }, Action::Quit)
        } else if c == '?' {
            (
                AppView {
                    show_help: !a.show_help,
                    status: if !a.show_help {
                        "Help displayed"@
                    } else {
                        "Help hidden"@
                    },
                    ..a
                },
                Action::Nothing,
            )
        } else if c == 'r' {
            (a, Action::Refresh(RefreshCause::Asked))
        } else if c == 'c' {
            (
                AppView {
                    state: AppState::Settings,
                    input_mode: true,
                    input_field: InputField::MangaDir,
                    filter: a.manga_dir,
                    status: "Editing manga folder path (Enter to confirm)"@,
                    ..a
                },
                Action::Nothing,
            )
        } else if c == 'd' {
            (a.download_form(), Action::Nothing)
        } else if c == '/' {
            (
                AppView {
                    input_mode: true,
                    input_field: InputField::NoField,
                    status: "Filtering manga list"@,
                    ..a
                },
                Action::Nothing,
            )
        } else if c == 'k' {
            move_key(a, false)
        } else if c == 'j' {
            move_key(a, true)
        } else if c == 'o' {
            if !a.is_manga_list_focused {
                (a, Action::OpenChapter)
            } else {
                (a, Action::Nothing)
            }
        } else if c == 'v' {
            if a.is_manga_list_focused {
                (
                    AppView {
                        state: AppState::ViewMangaDetails,
                        status: "Viewing manga details"@,
                        ..a
                    },
                    Action::Nothing,
                )
            } else {
                (a, Action::Nothing)
            }
        } else if c == 'm' {
            if !a.is_manga_list_focused {
                mark_key(a)
            } else {
                (a, Action::Nothing)
            }
        } else if c == 'M' && key.shift {
            if !a.is_manga_list_focused {
                (a, Action::MarkAllUnread)
            } else {
                (a, Action::Nothing)
            }
        } else {
            (a, Action::Nothing)
        },
        KeyCode::Tab => if a.is_manga_list_focused {
            (a.chapters_focused(), Action::Nothing)
        } else {
            (
                AppView { is_manga_list_focused: true, status: "Focus: Manga List"@, ..a },
                Action::Nothing,
            )
        },
        KeyCode::Left => (
            AppView { is_manga_list_focused: true, status: "Focus: Manga List"@, ..a },
            Action::Nothing,
        ),
        KeyCode::Right => (a.chapters_focused(), Action::Nothing),
        KeyCode::Up => move_key(a, false),
        KeyCode::Down => move_key(a, true),
        KeyCode::Enter => if a.is_manga_list_focused {
            (a.chapters_focused(), Action::Nothing)
        } else {
            (a, Action::OpenChapter)
        },
        KeyCode::Backspace => if !a.is_manga_list_focused {
            (
                AppView {
                    is_manga_list_focused: true,
                    status: "Focus: Manga List"@,
                    selected_chapter: None,
                    ..a
                },
                Action::Nothing,
            )
        } else {
            (a, Action::Nothing)
        },
        _ => (a, Action::Nothing),
    }
}

/// What an up or down key does: it moves the selection of the list that is
/// in focus.
pub open spec fn move_key(a: AppView, down: bool) -> (AppView, Action) {
    if a.is_manga_list_focused {
        a.manga_moved(down)
    } else {
        (a.chapter_moved(down), Action::Nothing)
    }
}

/// What the mark key does: it asks to mark the selected chapter as read if
/// it is unread, and as unread if it is read.
pub open spec fn mark_key(a: AppView) -> (AppView, Action) {
    match a.chapter_read() {
        Some(read) => (a, Action::ToggleRead(!read)),
        None => (a, Action::Nothing),
    }
}

/// What the mouse does in the list of series and chapters, at the time
/// `now`.
pub open spec fn browse_mouse(a: AppView, mouse: MouseEvent, now: u64) -> (AppView, Action) {
    match mouse.kind {
        MouseEventKind::LeftDown => if a.on_source(mouse.column, mouse.row) {
            match a.source() {
                Some(url) => (
                    AppView {
                        state: AppState::DownloadInput,
                        input_mode: true,
                        input_field: InputField::Url,
                        download_url: url,
                        status: "URL filled from source. Press Tab to select chapters."@,
                        ..a
                    },
                    Action::Nothing,
                ),
                None => (a, Action::Nothing),
            }
        } else {
            (a, Action::Nothing)
        },
        MouseEventKind::RightDown => if a.on_source(mouse.column, mouse.row) {
            match a.source() {
                Some(url) => (a, Action::OpenSource),
                None => (AppView { status: "No source URL available"@, ..a }, Action::Nothing),
            }
        } else {
            (a, Action::Nothing)
        },
        MouseEventKind::ScrollDown => wheel(a, true, now),
        MouseEventKind::ScrollUp => wheel(a, false, now),
        MouseEventKind::Other => (a, Action::Nothing),
    }
}

/// What the mouse wheel does at the time `now`: nothing while it is not
/// listened to; else it moves the selection of the list that is in focus.
pub open spec fn wheel(a: AppView, down: bool, now: u64) -> (AppView, Action) {
    if wheel_due(a.last_mouse_scroll, now) {
        (AppView { last_mouse_scroll: Some(now), ..a }).wheel_moved(down)
    } else {
        (a, Action::Nothing)
    }
}

/// What an event does in the list of series and chapters.
pub open spec fn browse_event(a: AppView, event: Event, now: u64) -> (AppView, Action) {
    if a.input_mode && a.input_field != InputField::MangaDir {
        match event {
            Event::Key(key) => (filter_key(a, key), Action::Nothing),
            _ => (a, Action::Nothing),
        }
    } else {
        match event {
            Event::Key(key) => browse_key(a, key),
            Event::Mouse(mouse) => browse_mouse(a, mouse, now),
            _ => (a, Action::Nothing),
        }
    }
}

/// Finds the first occurrence of `value` in `list`.
pub fn find_position(list: &Vec<usize>, value: usize) -> (found: Option<usize>)
    ensures
        match found {
            Some(at) => position_in(list@, value, 0) == Some(at as int) && at < list@.len(),
            None => position_in(list@, value, 0) is None,
        },
{
    let n: usize = list.len();
    let mut i: usize = 0;
    while i < n
        invariant
            n == list@.len(),
            i <= n,
            position_in(list@, value, 0) == position_in(list@, value, i as int),
        decreases n - i,
    {
        if list[i] == value {
            return Some(i);
        }
        i += 1;
    }
    None
}

impl App {
    /// The position of the selected series, if the selection names one.
    pub fn current_position(&self) -> (at: Option<usize>)
        ensures
            match at {
                Some(i) => self@.current() == Some(i as int) && i < self.mangas@.len(),
                None => self@.current() is None,
            },
    {
        match self.selected_manga {
            Some(i) => if i < self.mangas.len() {
                Some(i)
            } else {
                None
            },
            None => None,
        }
    }

    /// Selects the chapter to go on with, if a series is selected.
    pub fn resume(&mut self)
        ensures
            final(self)@ == old(self)@.resumed(),
    {
        match self.current_position() {
            Some(i) => {
                self.selected_chapter = Some(resume_chapter(&self.mangas[i].chapters));
            },
            None => {},
        }
    }

    /// Moves the selection one chapter down or up, around the ends, if the
    /// selected series has chapters.
    pub fn move_chapter(&mut self, down: bool)
        ensures
            final(self)@ == old(self)@.chapter_moved(down),
    {
        match self.current_position() {
            Some(i) => {
                let len = self.mangas[i].chapters.len();
                if len > 0 {
                    self.selected_chapter = Some(
                        if down {
                            step_down(self.selected_chapter, len)
                        } else {
                            step_up(self.selected_chapter, len)
                        },
                    );
                }
            },
            None => {},
        }
    }

    /// Selects the series at `target`, with its first chapter.
    pub fn select_manga(&mut self, target: usize)
        ensures
            final(self)@ == old(self)@.with_manga(target),
    {
        self.selected_manga = Some(target);
        self.selected_chapter = match self.current_position() {
            Some(i) => if self.mangas[i].chapters.len() == 0 {
                None
            } else {
                Some(0)
            },
            None => None,
        };
    }

    /// Moves the selection one series down or up through as many positions
    /// as series pass the filter.
    pub fn move_manga(&mut self, down: bool) -> (action: Action)
        ensures
            (final(self)@, action) == old(self)@.manga_moved(down),
    {
        let count = self.filtered_mangas().len();
        if count > 0 {
            let target = if down {
                step_down(self.selected_manga, count)
            } else {
                step_up(self.selected_manga, count)
            };
            self.select_manga(target);
            Action::LoadCover
        } else {
            Action::Nothing
        }
    }

    /// Moves the selection of the list in focus as the mouse wheel asks.
    pub fn move_by_wheel(&mut self, down: bool) -> (action: Action)
        ensures
            (final(self)@, action) == old(self)@.wheel_moved(down),
    {
        if self.is_manga_list_focused {
            let list = self.filtered_mangas();
            let n: usize = list.len();
            if n > 0 {
                let found = match self.selected_manga {
                    Some(current) => find_position(&list, current),
                    None => None,
                };
                let target = match found {
                    Some(at) => if down {
                        proof {
                            lemma_add_mod_noop(at as int, 1, n as int);
                            if n > 1 {
                                lemma_small_mod(1, n as nat);
                            }
                            lemma_small_mod(at as nat, n as nat);
                        }
                        list[(at % n + 1) % n]
                    } else if at == 0 {
                        list[n - 1]
                    } else {
                        list[at - 1]
                    },
                    None => list[0],
                };
                self.select_manga(target);
                Action::LoadCover
            } else {
                Action::Nothing
            }
        } else {
            self.move_chapter(down);
            Action::Nothing
        }
    }

    /// Puts the chapter list in focus and selects the chapter to go on with.
    pub fn focus_chapters(&mut self)
        ensures
            final(self)@ == old(self)@.chapters_focused(),
    {
        self.is_manga_list_focused = false;
        self.status = owned("Focus: Chapter List");
        self.resume();
    }

    /// Puts the list of series in focus.
    pub fn focus_mangas(&mut self)
        ensures
            final(self)@ == (AppView {
                is_manga_list_focused: true,
                status: "Focus: Manga List"@,
                ..old(self)@
            }),
    {
        self.is_manga_list_focused = true;
        self.status = owned("Focus: Manga List");
    }

    /// Shows the download form with the address field in focus.
    pub fn show_download_form(&mut self)
        ensures
            final(self)@ == old(self)@.download_form(),
    {
        self.state = AppState::DownloadInput;
        self.input_mode = true;
        self.input_field = InputField::Url;
        self.status = owned("Enter the URL, then press Tab to select chapters.");
    }

    /// Whether the selected chapter is read, if the selection names one.
    pub fn selected_chapter_read(&self) -> (read: Option<bool>)
        ensures
            read == self@.chapter_read(),
    {
        match self.current_position() {
            Some(i) => match self.selected_chapter {
                Some(j) => if j < self.mangas[i].chapters.len() {
                    Some(self.mangas[i].chapters[j].read)
                } else {
                    None
                },
                None => None,
            },
            None => None,
        }
    }

    /// Takes a key while the filter is typed.
    pub fn handle_filter_key(&mut self, key: KeyEvent)
        ensures
            final(self)@ == filter_key(old(self)@, key),
    {
        match key.code {
            KeyCode::Esc => {
                self.input_mode = false;
                self.filter = String::new();
                self.input_field = InputField::NoField;
                self.status = owned("Filter cleared");
            },
            KeyCode::Enter => {
                self.input_mode = false;
                self.status = owned("Filter applied");
            },
            KeyCode::Char(c) => {
                self.filter.push(c);
            },
            KeyCode::Backspace => {
                let _ = self.filter.pop();
            },
            _ => {},
        }
    }

    /// Takes an up or down key.
    pub fn handle_move_key(&mut self, down: bool) -> (action: Action)
        ensures
            (final(self)@, action) == move_key(old(self)@, down),
    {
        if self.is_manga_list_focused {
            self.move_manga(down)
        } else {
            self.move_chapter(down);
            Action::Nothing
        }
    }

    /// Takes the mark key.
    pub fn handle_mark_key(&self) -> (action: Action)
        ensures
            (self@, action) == mark_key(self@),
    {
        match self.selected_chapter_read() {
            Some(read) => Action::ToggleRead(!read),
            None => Action::Nothing,
        }
    }

    /// Takes a key in the list of series and chapters.
    pub fn handle_browse_key(&mut self, key: KeyEvent) -> (action: Action)
        ensures
            (final(self)@, action) == browse_key(old(self)@, key),
    {
        match key.code {
            KeyCode::Char(c) => if c == 'q' {
                self.should_quit = true;
                Action::Quit
            } else if c == '?' {
                self.show_help = !self.show_help;
                self.status = if self.show_help {
                    owned("Help displayed")
                } else {
                    owned("Help hidden")
                };
                Action::Nothing
            } else if c == 'r' {
                Action::Refresh(RefreshCause::Asked)
            } else if c == 'c' {
                self.state = AppState::Settings;
                self.input_mode = true;
                self.input_field = InputField::MangaDir;
                self.filter = self.manga_dir.clone();
                self.status = owned("Editing manga folder path (Enter to confirm)");
                Action::Nothing
            } else if c == 'd' {
                self.show_download_form();
                Action::Nothing
            } else if c == '/' {
                self.input_mode = true;
                self.input_field = InputField::NoField;
                self.status = owned("Filtering manga list");
                Action::Nothing
            } else if c == 'k' {
                self.handle_move_key(false)
            } else if c == 'j' {
                self.handle_move_key(true)
            } else if c == 'o' {
                if !self.is_manga_list_focused {
                    Action::OpenChapter
                } else {
                    Action::Nothing
                }
            } else if c == 'v' {
                if self.is_manga_list_focused {
                    self.state = AppState::ViewMangaDetails;
                    self.status = owned("Viewing manga details");
                }
                Action::Nothing
            } else if c == 'm' {
                if !self.is_manga_list_focused {
                    self.handle_mark_key()
                } else {
                    Action::Nothing
                }
            } else if c == 'M' && key.shift {
                if !self.is_manga_list_focused {
                    Action::MarkAllUnread
                } else {
                    Action::Nothing
                }
            } else {
                Action::Nothing
            },
            KeyCode::Tab => {
                if self.is_manga_list_focused {
                    self.focus_chapters();
                } else {
                    self.focus_mangas();
                }
                Action::Nothing
            },
            KeyCode::Left => {
                self.focus_mangas();
                Action::Nothing
            },
            KeyCode::Right => {
                self.focus_chapters();
                Action::Nothing
            },
            KeyCode::Up => self.handle_move_key(false),
            KeyCode::Down => self.handle_move_key(true),
            KeyCode::Enter => if self.is_manga_list_focused {
                self.focus_chapters();
                Action::Nothing
            } else {
                Action::OpenChapter
            },
            KeyCode::Backspace => {
                if !self.is_manga_list_focused {
                    self.focus_mangas();
                    self.selected_chapter = None;
                }
                Action::Nothing
            },
            _ => Action::Nothing,
        }
    }

    /// Whether the cell lies where the source of the selected series is
    /// drawn.
    pub fn is_on_source(&self, column: u16, row: u16) -> (on: bool)
        ensures
            on == self@.on_source(column, row),
    {
        match self.source_link_area {
            Some(area) => area.contains(column, row),
            None => false,
        }
    }

    /// The source of the selected series.
    pub fn selected_source(&self) -> (source: Option<String>)
        ensures
            text_of(source) == self@.source(),
    {
        match self.current_position() {
            Some(i) => crate::manga::copy_text(&self.mangas[i].source_url),
            None => None,
        }
    }

    /// Takes a turn of the mouse wheel at the time `now`.
    pub fn handle_wheel(&mut self, down: bool, now: u64) -> (action: Action)
        ensures
            (final(self)@, action) == wheel(old(self)@, down, now),
    {
        let due = match self.last_mouse_scroll {
            Some(t) => now >= t && now - t >= WHEEL_PAUSE,
            None => true,
        };
        if due {
            self.last_mouse_scroll = Some(now);
            self.move_by_wheel(down)
        } else {
            Action::Nothing
        }
    }

    /// Takes a mouse event in the list of series and chapters.
    pub fn handle_browse_mouse(&mut self, mouse: MouseEvent, now: u64) -> (action: Action)
        ensures
            (final(self)@, action) == browse_mouse(old(self)@, mouse, now),
    {
        match mouse.kind {
            MouseEventKind::LeftDown => {
                if self.is_on_source(mouse.column, mouse.row) {
                    match self.selected_source() {
                        Some(url) => {
                            self.state = AppState::DownloadInput;
                            self.input_mode = true;
                            self.input_field = InputField::Url;
                            self.download_url = url;
                            self.status = owned(
                                "URL filled from source. Press Tab to select chapters.",
                            );
                        },
                        None => {},
                    }
                }
                Action::Nothing
            },
            MouseEventKind::RightDown => {
                if self.is_on_source(mouse.column, mouse.row) {
                    match self.selected_source() {
                        Some(_) => Action::OpenSource,
                        None => {
                            self.status = owned("No source URL available");
                            Action::Nothing
                        },
                    }
                } else {
                    Action::Nothing
                }
            },
            MouseEventKind::ScrollDown => self.handle_wheel(true, now),
            MouseEventKind::ScrollUp => self.handle_wheel(false, now),
            MouseEventKind::Other => Action::Nothing,
        }
    }

    /// Takes an event in the list of series and chapters. While the filter
    /// is typed, keys go to the filter and everything else is ignored.
    pub fn handle_browse_input(&mut self, event: &Event, now: u64) -> (action: Action)
        ensures
            (final(self)@, action) == browse_event(old(self)@, *event, now),
    {
        if self.input_mode && self.input_field != InputField::MangaDir {
            match event {
                Event::Key(key) => {
                    self.handle_filter_key(*key);
                    Action::Nothing
                },
                _ => Action::Nothing,
            }
        } else {
            match event {
                Event::Key(key) => self.handle_browse_key(*key),
                Event::Mouse(mouse) => self.handle_browse_mouse(*mouse, now),
                _ => Action::Nothing,
            }
        }
    }
}

/// The state with the list of series on show again.
pub open spec fn back_to_list(a: AppView) -> AppView {
    AppView { state: AppState::BrowseManga, status: "Returned to manga list"@, ..a }
}

/// What a key does while the details of a series are on show.
pub open spec fn details_key(a: AppView, key: KeyEvent) -> (AppView, Action) {
    match key.code {
        KeyCode::Char(c) => if c == 'q' {
            (back_to_list(a), Action::Nothing)
        } else if c == 'k' {
            (a.chapter_moved(false), Action::Nothing)
        } else if c == 'j' {
            (a.chapter_moved(true), Action::Nothing)
        } else if c == 'o' {
            (a, Action::OpenChapter)
        } else if c == 'm' {
            mark_key(a)
        } else if c == 'M' && key.shift {
            (a, Action::MarkAllUnread)
        } else if c == 'd' {
            (a.download_form(), Action::Nothing)
        } else {
            (a, Action::Nothing)
        },
        KeyCode::Esc => (back_to_list(a), Action::Nothing),
        KeyCode::Enter => (a, Action::OpenChapter),
        _ => (a, Action::Nothing),
    }
}

/// What the mouse does while the details of a series are on show: the wheel
/// moves the selected chapter.
pub open spec fn details_mouse(a: AppView, mouse: MouseEvent) -> AppView {
    match mouse.kind {
        MouseEventKind::ScrollUp => a.chapter_moved(false),
        MouseEventKind::ScrollDown => a.chapter_moved(true),
        _ => a,
    }
}

/// The field that the tab key moves to in the download form.
pub open spec fn next_field(field: InputField) -> InputField {
    match field {
        InputField::Url => InputField::Chapters,
        _ => InputField::Url,
    }
}

/// What a key does in the download form.
pub open spec fn download_key(a: AppView, key: KeyEvent) -> (AppView, Action) {
    match key.code {
        KeyCode::Esc => (
            AppView {
                state: AppState::BrowseManga,
                input_mode: false,
                input_field: InputField::NoField,
                status: "Returned to manga list"@,
                is_downloading: false,
                download_logs: Seq::empty(),
                ..a
            },
            Action::DropDownload,
        ),
        KeyCode::Tab => (
            AppView {
                input_field: next_field(a.input_field),
                status: if next_field(a.input_field) == InputField::Url {
                    "Editing URL"@
                } else {
                    "Editing chapters (e.g., 1,2,3 or 1-3)"@
                },
                ..a
            },
            Action::Nothing,
        ),
        KeyCode::Enter => (a, Action::StartDownload),
        KeyCode::Char(c) => if a.input_mode && a.input_field == InputField::Url {
            (AppView { download_url: a.download_url.push(c), ..a }, Action::Nothing)
        } else if a.input_mode && a.input_field == InputField::Chapters {
            (
                AppView { selected_chapters_input: a.selected_chapters_input.push(c), ..a },
                Action::Nothing,
            )
        } else {
            (a, Action::Nothing)
        },
        KeyCode::Backspace => if a.input_mode && a.input_field == InputField::Url {
            (AppView { download_url: without_last(a.download_url), ..a }, Action::Nothing)
        } else if a.input_mode && a.input_field == InputField::Chapters {
            (
                AppView { selected_chapters_input: without_last(a.selected_chapters_input), ..a },
                Action::Nothing,
            )
        } else {
            (a, Action::Nothing)
        },
        _ => (a, Action::Nothing),
    }
}

/// The state once a download was left: the list of series on show and in
/// focus, the log back at its start.
pub open spec fn download_left(a: AppView) -> AppView {
    AppView {
        is_downloading: false,
        download_finished: false,
        state: AppState::BrowseManga,
        is_manga_list_focused: true,
        scroll_offset: 0,
        has_user_scrolled: false,
        ..a
    }
}

/// The last line that the log can be scrolled to, as far as the offset can
/// count.
pub open spec fn last_line(lines: nat) -> u16 {
    if lines == 0 {
        0
    } else {
        ((lines - 1) % 0x1_0000) as u16
    }
}

/// What a key does while the download log is on show.
pub open spec fn downloading_key(a: AppView, key: KeyEvent) -> (AppView, Action) {
    match key.code {
        KeyCode::Esc => (
            AppView {
                download_logs: a.download_logs.push("Download cancelled."@),
                status: "Download cancelled. Manga list refreshed and focused."@,
                ..download_left(a)
            },
            Action::Refresh(RefreshCause::DownloadCancelled),
        ),
        KeyCode::Char(c) => if c == 'r' {
            (download_left(a), Action::Refresh(RefreshCause::DownloadLeft))
        } else if c == 'k' {
            (scrolled(a, false), Action::Nothing)
        } else if c == 'j' {
            (scrolled(a, true), Action::Nothing)
        } else {
            (a, Action::Nothing)
        },
        KeyCode::Up => (scrolled(a, false), Action::Nothing),
        KeyCode::Down => (scrolled(a, true), Action::Nothing),
        _ => (a, Action::Nothing),
    }
}

/// The state once the log was scrolled one line down or up, between its
/// first and its last line.
pub open spec fn scrolled(a: AppView, down: bool) -> AppView {
    AppView {
        scroll_offset: if down {
            if a.scroll_offset < last_line(a.download_logs.len()) {
                (a.scroll_offset + 1) as u16
            } else {
                a.scroll_offset
            }
        } else if a.scroll_offset > 0 {
            (a.scroll_offset - 1) as u16
        } else {
            0
        },
        has_user_scrolled: true,
        ..a
    }
}

/// What a key does while the library root is typed.
pub open spec fn settings_key(a: AppView, key: KeyEvent) -> (AppView, Action) {
    match key.code {
        KeyCode::Esc => (
            AppView {
                state: AppState::BrowseManga,
                input_mode: false,
                input_field: InputField::NoField,
                status: "Liste des mangas"@,
                ..a
            },
            Action::Nothing,
        ),
        KeyCode::Enter => if a.input_mode && a.input_field == InputField::MangaDir {
            (a, Action::ChangeDirectory)
        } else {
            (a, Action::Nothing)
        },
        KeyCode::Char(c) => if a.input_mode && a.input_field == InputField::MangaDir {
            (AppView { filter: a.filter.push(c), ..a }, Action::Nothing)
        } else {
            (a, Action::Nothing)
        },
        KeyCode::Backspace => if a.input_mode && a.input_field == InputField::MangaDir {
            (AppView { filter: without_last(a.filter), ..a }, Action::Nothing)
        } else {
            (a, Action::Nothing)
        },
        _ => (a, Action::Nothing),
    }
}

/// What an event does, on whichever screen is on show, at the time `now`.
/// Ticks and resizes are not handled here.
pub open spec fn key_step(a: AppView, event: Event, now: u64) -> (AppView, Action) {
    match a.state {
        AppState::BrowseManga => browse_event(a, event, now),
        AppState::ViewMangaDetails => match event {
            Event::Key(key) => details_key(a, key),
            Event::Mouse(mouse) => (details_mouse(a, mouse), Action::Nothing),
            _ => (a, Action::Nothing),
        },
        AppState::DownloadInput => match event {
            Event::Key(key) => download_key(a, key),
            _ => (a, Action::Nothing),
        },
        AppState::Downloading => match event {
            Event::Key(key) => downloading_key(a, key),
            _ => (a, Action::Nothing),
        },
        AppState::Settings => match event {
            Event::Key(key) => settings_key(a, key),
            _ => (a, Action::Nothing),
        },
    }
}

impl App {
    /// Shows the list of series again.
    pub fn show_list(&mut self)
        ensures
            final(self)@ == back_to_list(old(self)@),
    {
        self.state = AppState::BrowseManga;
        self.status = owned("Returned to manga list");
    }

    /// Takes a key while the details of a series are on show.
    pub fn handle_details_input(&mut self, key: KeyEvent) -> (action: Action)
        ensures
            (final(self)@, action) == details_key(old(self)@, key),
    {
        match key.code {
            KeyCode::Char(c) => if c == 'q' {
                self.show_list();
                Action::Nothing
            } else if c == 'k' {
                self.move_chapter(false);
                Action::Nothing
            } else if c == 'j' {
                self.move_chapter(true);
                Action::Nothing
            } else if c == 'o' {
                Action::OpenChapter
            } else if c == 'm' {
                self.handle_mark_key()
            } else if c == 'M' && key.shift {
                Action::MarkAllUnread
            } else if c == 'd' {
                self.show_download_form();
                Action::Nothing
            } else {
                Action::Nothing
            },
            KeyCode::Esc => {
                self.show_list();
                Action::Nothing
            },
            KeyCode::Enter => Action::OpenChapter,
            _ => Action::Nothing,
        }
    }

    /// Takes a mouse event while the details of a series are on show.
    pub fn handle_details_mouse(&mut self, mouse: MouseEvent)
        ensures
            final(self)@ == details_mouse(old(self)@, mouse),
    {
        match mouse.kind {
            MouseEventKind::ScrollUp => self.move_chapter(false),
            MouseEventKind::ScrollDown => self.move_chapter(true),
            _ => {},
        }
    }

    /// Takes a key in the download form.
    pub fn handle_download_input(&mut self, key: KeyEvent) -> (action: Action)
        ensures
            (final(self)@, action) == download_key(old(self)@, key),
    {
        match key.code {
            KeyCode::Esc => {
                self.state = AppState::BrowseManga;
                self.input_mode = false;
                self.input_field = InputField::NoField;
                self.status = owned("Returned to manga list");
                self.is_downloading = false;
                self.download_logs = Vec::new();
                assert(self@.download_logs =~= Seq::empty());
                Action::DropDownload
            },
            KeyCode::Tab => {
                self.input_field = match self.input_field {
                    InputField::Url => InputField::Chapters,
                    _ => InputField::Url,
                };
                self.status = if self.input_field == InputField::Url {
                    owned("Editing URL")
                } else {
                    owned("Editing chapters (e.g., 1,2,3 or 1-3)")
                };
                Action::Nothing
            },
            KeyCode::Enter => Action::StartDownload,
            KeyCode::Char(c) => {
                if self.input_mode && self.input_field == InputField::Url {
                    self.download_url.push(c);
                } else if self.input_mode && self.input_field == InputField::Chapters {
                    self.selected_chapters_input.push(c);
                }
                Action::Nothing
            },
            KeyCode::Backspace => {
                if self.input_mode && self.input_field == InputField::Url {
                    let _ = self.download_url.pop();
                } else if self.input_mode && self.input_field == InputField::Chapters {
                    let _ = self.selected_chapters_input.pop();
                }
                Action::Nothing
            },
            _ => Action::Nothing,
        }
    }

    /// Leaves the download log for the list of series.
    pub fn leave_download(&mut self)
        ensures
            final(self)@ == download_left(old(self)@),
    {
        self.is_downloading = false;
        self.download_finished = false;
        self.state = AppState::BrowseManga;
        self.is_manga_list_focused = true;
        self.scroll_offset = 0;
        self.has_user_scrolled = false;
    }

    /// Scrolls the download log one line down or up.
    pub fn scroll_log(&mut self, down: bool)
        ensures
            final(self)@ == scrolled(old(self)@, down),
    {
        if down {
            let n: usize = self.download_logs.len();
            let last: u16 = if n == 0 {
                0
            } else {
                ((n - 1) % 0x1_0000) as u16
            };
            if self.scroll_offset < last {
                self.scroll_offset = self.scroll_offset + 1;
            }
        } else if self.scroll_offset > 0 {
            self.scroll_offset = self.scroll_offset - 1;
        }
        self.has_user_scrolled = true;
    }

    /// Takes a key while the download log is on show.
    pub fn handle_downloading_input(&mut self, key: KeyEvent) -> (action: Action)
        ensures
            (final(self)@, action) == downloading_key(old(self)@, key),
    {
        match key.code {
            KeyCode::Esc => {
                self.leave_download();
                self.download_logs.push(owned("Download cancelled."));
                self.status = owned("Download cancelled. Manga list refreshed and focused.");
                assert(self@.download_logs =~= old(self)@.download_logs.push(
                    "Download cancelled."@,
                ));
                Action::Refresh(RefreshCause::DownloadCancelled)
            },
            KeyCode::Char(c) => if c == 'r' {
                self.leave_download();
                Action::Refresh(RefreshCause::DownloadLeft)
            } else if c == 'k' {
                self.scroll_log(false);
                Action::Nothing
            } else if c == 'j' {
                self.scroll_log(true);
                Action::Nothing
            } else {
                Action::Nothing
            },
            KeyCode::Up => {
                self.scroll_log(false);
                Action::Nothing
            },
            KeyCode::Down => {
                self.scroll_log(true);
                Action::Nothing
            },
            _ => Action::Nothing,
        }
    }

    /// Takes a key while the library root is typed.
    pub fn handle_settings_input(&mut self, key: KeyEvent) -> (action: Action)
        ensures
            (final(self)@, action) == settings_key(old(self)@, key),
    {
        let typing = self.input_mode && self.input_field == InputField::MangaDir;
        match key.code {
            KeyCode::Esc => {
                self.state = AppState::BrowseManga;
                self.input_mode = false;
                self.input_field = InputField::NoField;
                self.status = owned("Liste des mangas");
                Action::Nothing
            },
            KeyCode::Enter => if typing {
                Action::ChangeDirectory
            } else {
                Action::Nothing
            },
            KeyCode::Char(c) => {
                if typing {
                    self.filter.push(c);
                }
                Action::Nothing
            },
            KeyCode::Backspace => {
                if typing {
                    let _ = self.filter.pop();
                }
                Action::Nothing
            },
            _ => Action::Nothing,
        }
    }

    /// Takes an event on whichever screen is on show, at the time `now` in
    /// milliseconds, and returns what is asked of the surroundings.
    pub fn handle_key(&mut self, event: &Event, now: u64) -> (action: Action)
        ensures
            (final(self)@, action) == key_step(old(self)@, *event, now),
    {
        match self.state {
            AppState::BrowseManga => self.handle_browse_input(event, now),
            AppState::ViewMangaDetails => match event {
                Event::Key(key) => self.handle_details_input(*key),
                Event::Mouse(mouse) => {
                    self.handle_details_mouse(*mouse);
                    Action::Nothing
                },
                _ => Action::Nothing,
            },
            AppState::DownloadInput => match event {
                Event::Key(key) => self.handle_download_input(*key),
                _ => Action::Nothing,
            },
            AppState::Downloading => match event {
                Event::Key(key) => self.handle_downloading_input(*key),
                _ => Action::Nothing,
            },
            AppState::Settings => match event {
                Event::Key(key) => self.handle_settings_input(*key),
                _ => Action::Nothing,
            },
        }
    }
}

} // verus!
