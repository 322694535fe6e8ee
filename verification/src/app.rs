//! The state of the reader interface: what is loaded, what is selected, and
//! what the screen says.
//!
//! The interface itself, the terminal and the programs it starts live outside
//! this library. Here is only what they decide on: plain values, and the
//! rules by which a selection moves.

use vstd::prelude::*;
use vstd::arithmetic::div_mod::{lemma_add_mod_noop, lemma_small_mod};
use crate::catalog::{page_or, or_page, name_set, Catalog, ChapterView, DEFAULT_PAGE_COUNT};
use crate::config::Config;
use crate::event::Area;
use crate::manga::{lowercase, lowercase_of, shows_catalog, Chapter, Manga};
use crate::text::{chars_of, find, first_occurrence, owned, same_text};

verus! {

/// The text field that takes the keys.
#[derive(Debug, PartialEq, Eq, Clone, Copy, Structural)]
pub enum InputField {
    Url,
    Chapters,
    MangaDir,
    /// No field takes the keys.
    NoField,
}

/// The screen that is on show.
#[derive(Debug, PartialEq, Eq, Clone, Copy, Structural)]
pub enum AppState {
    BrowseManga,
    ViewMangaDetails,
    Settings,
    DownloadInput,
    Downloading,
}

/// The state of the reader interface.
pub struct App {
    pub state: AppState,
    pub manga_dir: String,
    pub config: Config,
    pub mangas: Vec<Manga>,
    pub selected_manga: Option<usize>,
    pub selected_chapter: Option<usize>,
    pub current_page: usize,
    pub status: String,
    pub term_width: u16,
    pub term_height: u16,
    pub show_help: bool,
    pub filter: String,
    pub input_mode: bool,
    pub is_manga_list_focused: bool,
    pub download_url: String,
    pub selected_chapters_input: String,
    pub input_field: InputField,
    pub download_logs: Vec<String>,
    pub is_downloading: bool,
    pub scroll_offset: u16,
    pub download_finished: bool,
    pub has_user_scrolled: bool,
    pub current_download_manga_name: String,
    pub needs_refresh: bool,
    pub should_quit: bool,
    /// Where the source of the selected series is drawn, once it was drawn.
    pub source_link_area: Option<Area>,
    /// When the mouse wheel last moved a selection, in milliseconds.
    pub last_mouse_scroll: Option<u64>,
}

/// The state of the interface as contracts see it: every text as its
/// characters.
pub ghost struct AppView {
    pub state: AppState,
    pub manga_dir: Seq<char>,
    pub config: Config,
    pub mangas: Seq<Manga>,
    pub selected_manga: Option<usize>,
    pub selected_chapter: Option<usize>,
    pub current_page: usize,
    pub status: Seq<char>,
    pub term_width: u16,
    pub term_height: u16,
    pub show_help: bool,
    pub filter: Seq<char>,
    pub input_mode: bool,
    pub is_manga_list_focused: bool,
    pub download_url: Seq<char>,
    pub selected_chapters_input: Seq<char>,
    pub input_field: InputField,
    pub download_logs: Seq<Seq<char>>,
    pub is_downloading: bool,
    pub scroll_offset: u16,
    pub download_finished: bool,
    pub has_user_scrolled: bool,
    pub current_download_manga_name: Seq<char>,
    pub needs_refresh: bool,
    pub should_quit: bool,
    pub source_link_area: Option<Area>,
    pub last_mouse_scroll: Option<u64>,
}

impl View for App {
    type V = AppView;

    open spec fn view(&self) -> AppView {
        AppView {
            state: self.state,
            manga_dir: self.manga_dir@,
            config: self.config,
            mangas: self.mangas@,
            selected_manga: self.selected_manga,
            selected_chapter: self.selected_chapter,
            current_page: self.current_page,
            status: self.status@,
            term_width: self.term_width,
            term_height: self.term_height,
            show_help: self.show_help,
            filter: self.filter@,
            input_mode: self.input_mode,
            is_manga_list_focused: self.is_manga_list_focused,
            download_url: self.download_url@,
            selected_chapters_input: self.selected_chapters_input@,
            input_field: self.input_field,
            download_logs: self.download_logs@.map_values(|line: String| line@),
            is_downloading: self.is_downloading,
            scroll_offset: self.scroll_offset,
            download_finished: self.download_finished,
            has_user_scrolled: self.has_user_scrolled,
            current_download_manga_name: self.current_download_manga_name@,
            needs_refresh: self.needs_refresh,
            should_quit: self.should_quit,
            source_link_area: self.source_link_area,
            last_mouse_scroll: self.last_mouse_scroll,
        }
    }
}

/// The position of the first series called `name` at or after `from`.
pub open spec fn named_from(mangas: Seq<Manga>, name: Seq<char>, from: int) -> Option<int>
    decreases mangas.len() - from,
{
    if from < 0 || from >= mangas.len() {
        None
    } else if mangas[from].name@ == name {
        Some(from)
    } else {
        named_from(mangas, name, from + 1)
    }
}

/// The position of the first unread chapter at or after `from`.
pub open spec fn unread_from(chapters: Seq<Chapter>, from: int) -> Option<int>
    decreases chapters.len() - from,
{
    if from < 0 || from >= chapters.len() {
        None
    } else if !chapters[from].read {
        Some(from)
    } else {
        unread_from(chapters, from + 1)
    }
}

/// The series that is selected after a reload: the one that was selected
/// before, found by its name; failing that, the first series; none if there
/// is no series.
pub open spec fn restored_manga(mangas: Seq<Manga>, previous: Option<Seq<char>>) -> Option<usize> {
    let found = match previous {
        Some(name) => named_from(mangas, name, 0),
        None => None,
    };
    match found {
        Some(i) => Some(i as usize),
        None => if mangas.len() > 0 {
            Some(0usize)
        } else {
            None
        },
    }
}

/// The chapter that is selected with a series: its first unread chapter, or
/// its first chapter if all are read; none if no series is selected.
pub open spec fn restored_chapter(mangas: Seq<Manga>, selected: Option<usize>) -> Option<usize> {
    match selected {
        Some(i) => if i < mangas.len() {
            match unread_from(mangas[i as int].chapters@, 0) {
                Some(k) => Some(k as usize),
                None => Some(0usize),
            }
        } else {
            None
        },
        None => None,
    }
}

/// The number of read chapters among the first `upto`.
pub open spec fn count_read(chapters: Seq<Chapter>, upto: int) -> int
    decreases upto,
{
    if upto <= 0 {
        0
    } else {
        count_read(chapters, upto - 1) + if chapters[upto - 1].read {
            1int
        } else {
            0int
        }
    }
}

/// Whether a series called `name` passes the filter: the filter is empty, or
/// it occurs in the name when case is ignored.
pub open spec fn passes_filter(name: Seq<char>, filter: Seq<char>) -> bool {
    filter.len() == 0 || first_occurrence(lowercase_of(name), lowercase_of(filter)) is Some
}

/// The positions, among the first `upto` series, of those that pass the
/// filter, in ascending order.
pub open spec fn filtered_positions(mangas: Seq<Manga>, filter: Seq<char>, upto: int) -> Seq<usize>
    decreases upto,
{
    if upto <= 0 {
        Seq::empty()
    } else {
        let rest = filtered_positions(mangas, filter, upto - 1);
        if passes_filter(mangas[upto - 1].name@, filter) {
            rest.push((upto - 1) as usize)
        } else {
            rest
        }
    }
}

/// The characters of an optional name.
pub open spec fn name_of(name: Option<&str>) -> Option<Seq<char>> {
    match name {
        Some(name) => Some(name@),
        None => None,
    }
}

/// Finds the first series called `name`.
pub fn position_of(mangas: &Vec<Manga>, name: &str) -> (found: Option<usize>)
    ensures
        match found {
            Some(i) => named_from(mangas@, name@, 0) == Some(i as int) && i < mangas@.len(),
            None => named_from(mangas@, name@, 0) is None,
        },
{
    let n: usize = mangas.len();
    let mut i: usize = 0;
    while i < n
        invariant
            n == mangas@.len(),
            i <= n,
            named_from(mangas@, name@, 0) == named_from(mangas@, name@, i as int),
        decreases n - i,
    {
        if same_text(mangas[i].name.as_str(), name) {
            return Some(i);
        }
        i += 1;
    }
    None
}

/// Finds the first unread chapter.
pub fn first_unread(chapters: &Vec<Chapter>) -> (found: Option<usize>)
    ensures
        match found {
            Some(i) => unread_from(chapters@, 0) == Some(i as int) && i < chapters@.len(),
            None => unread_from(chapters@, 0) is None,
        },
{
    let n: usize = chapters.len();
    let mut i: usize = 0;
    while i < n
        invariant
            n == chapters@.len(),
            i <= n,
            unread_from(chapters@, 0) == unread_from(chapters@, i as int),
        decreases n - i,
    {
        if !chapters[i].read {
            return Some(i);
        }
        i += 1;
    }
    None
}

impl App {
    /// The state in which the interface starts: the list of series on show
    /// and in focus, nothing loaded, nothing selected.
    pub fn new(manga_dir: String, config: Config) -> (app: App)
        ensures
            app.state == AppState::BrowseManga,
            app.manga_dir == manga_dir,
            app.config == config,
            app.mangas@.len() == 0,
            app.selected_manga is None,
            app.selected_chapter is None,
            app.term_width == 120,
            app.term_height == 30,
            app.is_manga_list_focused,
            app.input_field == InputField::NoField,
            !app.input_mode && !app.show_help && !app.is_downloading && !app.download_finished
                && !app.has_user_scrolled && !app.needs_refresh && !app.should_quit,
            app.download_logs@.len() == 0,
            app.scroll_offset == 0,
            app.current_page == 0,
            app.source_link_area is None,
            app.last_mouse_scroll is None,
            app.status@.len() == 0,
            app.filter@.len() == 0,
            app.download_url@.len() == 0,
            app.selected_chapters_input@.len() == 0,
            app.current_download_manga_name@.len() == 0,
    {
        App {
            state: AppState::BrowseManga,
            manga_dir,
            config,
            mangas: Vec::new(),
            selected_manga: None,
            selected_chapter: None,
            current_page: 0,
            status: String::new(),
            term_width: 120,
            term_height: 30,
            show_help: false,
            filter: String::new(),
            input_mode: false,
            is_manga_list_focused: true,
            download_url: String::new(),
            selected_chapters_input: String::new(),
            input_field: InputField::NoField,
            download_logs: Vec::new(),
            is_downloading: false,
            scroll_offset: 0,
            download_finished: false,
            has_user_scrolled: false,
            current_download_manga_name: String::new(),
            needs_refresh: false,
            should_quit: false,
            source_link_area: None,
            last_mouse_scroll: None,
        }
    }

    /// Selects a series and a chapter after the series were loaded anew: the
    /// series called `previous` if there is one, else the first series, else
    /// none; and of that series the first unread chapter, or the first
    /// chapter if all are read.
    pub fn restore_selection(&mut self, previous: Option<&str>)
        ensures
            *final(self) == (App {
                selected_manga: restored_manga(old(self).mangas@, name_of(previous)),
                selected_chapter: restored_chapter(
                    old(self).mangas@,
                    restored_manga(old(self).mangas@, name_of(previous)),
                ),
                ..*old(self)
            }),
    {
        let found = match previous {
            Some(name) => position_of(&self.mangas, name),
            None => None,
        };
        self.selected_manga = match found {
            Some(i) => Some(i),
            None => if self.mangas.len() > 0 {
                Some(0)
            } else {
                None
            },
        };
        self.selected_chapter = match self.selected_manga {
            Some(i) => match first_unread(&self.mangas[i].chapters) {
                Some(k) => Some(k),
                None => Some(0),
            },
            None => None,
        };
    }

    /// Loads the catalogue anew and selects again what was selected: the
    /// series by its name, and of it the first unread chapter. The catalogue
    /// is only read.
    pub fn reload(&mut self, catalog: &Catalog)
        requires
            catalog.wf(),
        ensures
            shows_catalog(catalog@, final(self).mangas@),
            final(self).selected_manga == restored_manga(
                final(self).mangas@,
                match old(self).selected_manga {
                    Some(i) => if i < old(self).mangas@.len() {
                        Some(old(self).mangas@[i as int].name@)
                    } else {
                        None
                    },
                    None => None,
                },
            ),
            final(self).selected_chapter == restored_chapter(
                final(self).mangas@,
                final(self).selected_manga,
            ),
            final(self).needs_refresh,
            final(self).state == old(self).state,
            final(self).config == old(self).config,
    {
        let previous: Option<String> = match self.selected_manga {
            Some(i) => if i < self.mangas.len() {
                Some(self.mangas[i].name.clone())
            } else {
                None
            },
            None => None,
        };
        self.mangas = Manga::load_all_from_db(catalog);
        self.needs_refresh = true;
        match previous {
            Some(name) => self.restore_selection(Some(name.as_str())),
            None => self.restore_selection(None),
        }
    }

    /// The series that is selected, if the selection names one.
    pub fn current_manga(&self) -> (manga: Option<&Manga>)
        ensures
            match self.selected_manga {
                Some(i) => if i < self.mangas@.len() {
                    manga == Some(&self.mangas@[i as int])
                } else {
                    manga is None
                },
                None => manga is None,
            },
    {
        match self.selected_manga {
            Some(i) => if i < self.mangas.len() {
                Some(&self.mangas[i])
            } else {
                None
            },
            None => None,
        }
    }

    /// The chapter that is selected, if the selection names a series and one
    /// of its chapters.
    pub fn current_chapter(&self) -> (chapter: Option<&Chapter>)
        ensures
            chapter == match self.selected_place() {
                Some((i, j)) => Some(&self.mangas@[i as int].chapters@[j as int]),
                None => None,
            },
    {
        match self.current_manga() {
            Some(manga) => match self.selected_chapter {
                Some(j) => if j < manga.chapters.len() {
                    Some(&manga.chapters[j])
                } else {
                    None
                },
                None => None,
            },
            None => None,
        }
    }

    /// Where the selected chapter stands: the position of its series and its
    /// own position in the series, if the selection names both.
    pub open spec fn selected_place(&self) -> Option<(usize, usize)> {
        match (self.selected_manga, self.selected_chapter) {
            (Some(i), Some(j)) => if i < self.mangas@.len() && j
                < self.mangas@[i as int].chapters@.len() {
                Some((i, j))
            } else {
                None
            },
            _ => None,
        }
    }

    /// Says that the screen was drawn.
    pub fn reset_refresh(&mut self)
        ensures
            *final(self) == (App { needs_refresh: false, ..*old(self) }),
    {
        self.needs_refresh = false;
    }

    /// Takes the new size of the terminal.
    pub fn on_resize(&mut self, width: u16, height: u16)
        ensures
            *final(self) == (App { term_width: width, term_height: height, ..*old(self) }),
    {
        self.term_width = width;
        self.term_height = height;
    }

    /// How far a series is read: the number of its read chapters and the
    /// number of its chapters.
    pub fn manga_progress(manga: &Manga) -> (progress: (usize, usize))
        ensures
            progress.0 == count_read(manga.chapters@, manga.chapters@.len() as int),
            progress.1 == manga.chapters@.len(),
            progress.0 <= progress.1,
    {
        let n: usize = manga.chapters.len();
        let mut read: usize = 0;
        let mut i: usize = 0;
        while i < n
            invariant
                n == manga.chapters@.len(),
                i <= n,
                read == count_read(manga.chapters@, i as int),
                read <= i,
            decreases n - i,
        {
            if manga.chapters[i].read {
                read += 1;
            }
            i += 1;
        }
        (read, n)
    }

    /// The positions of the series that pass the filter, in ascending order.
    /// An empty filter lets every series pass; any other filter lets pass the
    /// series in whose name it occurs, case ignored.
    pub fn filtered_mangas(&self) -> (positions: Vec<usize>)
        ensures
            positions@ == filtered_positions(
                self.mangas@,
                self.filter@,
                self.mangas@.len() as int,
            ),
    {
        let n: usize = self.mangas.len();
        let empty = self.filter.as_str().unicode_len() == 0;
        let needle = chars_of(lowercase(self.filter.as_str()).as_str());
        let mut positions: Vec<usize> = Vec::new();
        let mut i: usize = 0;
        while i < n
            invariant
                n == self.mangas@.len(),
                i <= n,
                empty == (self.filter@.len() == 0),
                needle@ == lowercase_of(self.filter@),
                positions@ == filtered_positions(self.mangas@, self.filter@, i as int),
            decreases n - i,
        {
            let passes = empty || {
                let name = chars_of(lowercase(self.mangas[i].name.as_str()).as_str());
                find(&name, &needle).is_some()
            };
            if passes {
                positions.push(i);
            }
            i += 1;
        }
        positions
    }
}

/// What the screen says after a chapter was marked as read.
pub open spec fn marked_read_text() -> Seq<char> {
    "Chapitre marqué comme lu"@
}

/// What the screen says after a chapter was marked as unread.
pub open spec fn marked_unread_text() -> Seq<char> {
    "Chapitre marqué comme non lu (progression réinitialisée)"@
}

/// The chapter `ch` after it was marked as read or unread: marked as read it
/// keeps the last page read, or gets page 0 if it had none; marked as unread
/// it goes back to page 0. Either way it keeps its page count, or gets
/// `DEFAULT_PAGE_COUNT` if it had none.
pub open spec fn toggled(ch: ChapterView, read: bool) -> ChapterView {
    ChapterView {
        read,
        last_page_read: Some(
            if read {
                page_or(ch.last_page_read, 0)
            } else {
                0
            },
        ),
        full_pages_read: Some(page_or(ch.full_pages_read, DEFAULT_PAGE_COUNT)),
        ..ch
    }
}

/// The position that follows `current` in a list of `len` entries, the first
/// following the last; the first position if nothing is selected.
pub open spec fn next_position(current: Option<usize>, len: usize) -> usize {
    match current {
        Some(i) => ((i + 1) % (len as int)) as usize,
        None => 0,
    }
}

/// The position before `current` in a list of `len` entries, the last coming
/// before the first; the first position if nothing is selected.
pub open spec fn previous_position(current: Option<usize>, len: usize) -> usize {
    match current {
        Some(i) => if i == 0 {
            (len - 1) as usize
        } else {
            (i - 1) as usize
        },
        None => 0,
    }
}

/// The position of the last read chapter among the first `upto`.
pub open spec fn last_read(chapters: Seq<Chapter>, upto: int) -> Option<int>
    decreases upto,
{
    if upto <= 0 {
        None
    } else if chapters[upto - 1].read {
        Some(upto - 1)
    } else {
        last_read(chapters, upto - 1)
    }
}

/// The chapter to go on with: the one after the last read chapter; if the
/// last chapter is the last read, the one before it; the first chapter if
/// none is read or there is only one.
pub open spec fn chapter_to_resume(chapters: Seq<Chapter>) -> usize {
    match last_read(chapters, chapters.len() as int) {
        Some(i) => if i + 1 < chapters.len() {
            (i + 1) as usize
        } else if i > 0 {
            (i - 1) as usize
        } else {
            0
        },
        None => 0,
    }
}

/// The chapter that is selected once the chapter at `opened` was opened: the
/// next unread chapter after it; failing that, the last read chapter; failing
/// that, the first chapter.
pub open spec fn chapter_after_opening(chapters: Seq<Chapter>, opened: int) -> usize {
    match unread_from(chapters, opened + 1) {
        Some(i) => i as usize,
        None => match last_read(chapters, chapters.len() as int) {
            Some(i) => i as usize,
            None => 0,
        },
    }
}

/// Moves a selection one entry down a list of `len` entries.
pub fn step_down(current: Option<usize>, len: usize) -> (next: usize)
    requires
        len > 0,
    ensures
        next == next_position(current, len),
        current matches Some(i) && i < len ==> next < len,
{
    match current {
        Some(i) => {
            proof {
                lemma_add_mod_noop(i as int, 1, len as int);
                if len > 1 {
                    lemma_small_mod(1, len as nat);
                }
            }
            (i % len + 1) % len
        },
        None => 0,
    }
}

/// Moves a selection one entry up a list of `len` entries.
pub fn step_up(current: Option<usize>, len: usize) -> (previous: usize)
    requires
        len > 0,
    ensures
        previous == previous_position(current, len),
        current matches Some(i) && i < len ==> previous < len,
{
    match current {
        Some(i) => if i == 0 {
            len - 1
        } else {
            i - 1
        },
        None => 0,
    }
}

/// Finds the last read chapter.
pub fn find_last_read(chapters: &Vec<Chapter>) -> (found: Option<usize>)
    ensures
        match found {
            Some(i) => last_read(chapters@, chapters@.len() as int) == Some(i as int) && i
                < chapters@.len(),
            None => last_read(chapters@, chapters@.len() as int) is None,
        },
{
    let n: usize = chapters.len();
    let mut upto: usize = n;
    while upto > 0
        invariant
            n == chapters@.len(),
            upto <= n,
            last_read(chapters@, n as int) == last_read(chapters@, upto as int),
        decreases upto,
    {
        if chapters[upto - 1].read {
            return Some(upto - 1);
        }
        upto -= 1;
    }
    None
}

/// Picks the chapter to go on with.
pub fn resume_chapter(chapters: &Vec<Chapter>) -> (pick: usize)
    ensures
        pick == chapter_to_resume(chapters@),
{
    let n: usize = chapters.len();
    match find_last_read(chapters) {
        Some(i) => if i + 1 < n {
            i + 1
        } else if i > 0 {
            i - 1
        } else {
            0
        },
        None => 0,
    }
}

/// Finds the first unread chapter at or after `from`.
pub fn first_unread_from(chapters: &Vec<Chapter>, from: usize) -> (found: Option<usize>)
    ensures
        match found {
            Some(i) => unread_from(chapters@, from as int) == Some(i as int) && i < chapters@.len(),
            None => unread_from(chapters@, from as int) is None,
        },
{
    let n: usize = chapters.len();
    if from >= n {
        return None;
    }
    let mut i: usize = from;
    while i < n
        invariant
            n == chapters@.len(),
            from <= i <= n,
            unread_from(chapters@, from as int) == unread_from(chapters@, i as int),
        decreases n - i,
    {
        if !chapters[i].read {
            return Some(i);
        }
        i += 1;
    }
    None
}

impl App {
    /// Marks the selected chapter as read or as unread, on the chapter
    /// itself, in the settings and in the catalogue, and says so on the
    /// screen. Returns whether a chapter was selected; if none was, nothing
    /// changes.
    pub fn toggle_chapter_read_state(&mut self, catalog: &mut Catalog, read: bool) -> (done: bool)
        requires
            old(self).config.wf(),
            old(catalog).wf(),
        ensures
            final(self).config.wf(),
            final(catalog).wf(),
            done == old(self).selected_place() is Some,
            !done ==> *final(self) == *old(self) && final(catalog)@ == old(catalog)@,
            old(self).selected_place() matches Some((i, j)) ==> {
                let before = old(self).mangas@[i as int].chapters@[j as int];
                let after = final(self).mangas@[i as int].chapters@[j as int];
                &&& after@ == toggled(before@, read)
                &&& after.title == before.title
                &&& final(self).mangas@.len() == old(self).mangas@.len()
                &&& final(self).mangas@[i as int].chapters@.len() == old(self).mangas@[i as int].chapters@.len()
                &&& forall|k: int|
                    0 <= k < old(self).mangas@.len() && k != i ==> final(self).mangas@[k] == old(self).mangas@[k]
                &&& forall|l: int|
                    0 <= l < old(self).mangas@[i as int].chapters@.len() && l != j ==> final(self).mangas@[i as int].chapters@[l] == old(self).mangas@[i as int].chapters@[l]
                &&& name_set(final(self).config.read_chapters@) == if read {
                    name_set(old(self).config.read_chapters@).insert(before.path@)
                } else {
                    name_set(old(self).config.read_chapters@).remove(before.path@)
                }
                &&& final(self).status@ == if read {
                    marked_read_text()
                } else {
                    marked_unread_text()
                }
                &&& final(catalog)@ == if old(catalog)@.has_chapter_id(before.id as int) {
                    old(catalog)@.with_progress(
                        before.id as int,
                        read,
                        toggled(before@, read).last_page_read,
                        toggled(before@, read).full_pages_read,
                    )
                } else {
                    old(catalog)@
                }
                &&& final(self).selected_manga == old(self).selected_manga
                &&& final(self).selected_chapter == old(self).selected_chapter
                &&& final(self).state == old(self).state
            },
    {
        let (i, j) = match (self.selected_manga, self.selected_chapter) {
            (Some(i), Some(j)) => (i, j),
            _ => {
                return false;
            },
        };
        if i >= self.mangas.len() || j >= self.mangas[i].chapters.len() {
            return false;
        }
        let path = self.mangas[i].chapters[j].path.clone();
        let id = self.mangas[i].chapters[j].id;
        let last_page = if read {
            or_page(self.mangas[i].chapters[j].last_page_read, 0)
        } else {
            0
        };
        let total = or_page(self.mangas[i].chapters[j].full_pages_read, DEFAULT_PAGE_COUNT);
        if read {
            self.config.mark_chapter_as_read(path.as_str());
        } else {
            self.config.mark_chapter_as_unread(path.as_str());
        }
        self.mangas[i].chapters[j].read = read;
        self.mangas[i].chapters[j].last_page_read = Some(last_page);
        self.mangas[i].chapters[j].full_pages_read = Some(total);
        let _ = catalog.update_progress(id, last_page, total, read);
        self.status = if read {
            owned("Chapitre marqué comme lu")
        } else {
            owned("Chapitre marqué comme non lu (progression réinitialisée)")
        };
        true
    }
}

} // verus!
