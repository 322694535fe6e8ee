//! What the interface does once what it asked for was done: a download was
//! started, a chapter was opened, the library was loaded anew, the library
//! root was changed.

use vstd::prelude::*;
use crate::app::{
    chapter_after_opening, find_last_read, first_unread_from, toggled, App, AppState, AppView,
    InputField,
};
use crate::catalog::{name_set, or_page, page_or, Catalog, CatalogView, DEFAULT_PAGE_COUNT};
use crate::download::{parse_count, trimmed_count};
use crate::event::RefreshCause;
use crate::extract::text_of;
use crate::manga::{shows_catalog, Chapter};
use crate::scanner::trim;
use crate::text::{
    chars_of, decimal_digits, owned, push_decimal, push_text, same_text, string_of,
};

verus! {

/// The chapter number that the piece `s[from..to]` of a list names, if it
/// writes a number of 32 bits, white space aside.
pub open spec fn piece_number(s: Seq<char>, from: int, to: int) -> Seq<u32> {
    match trimmed_count(s, from, to) {
        Some(n) => if n <= u32::MAX {
            seq![n as u32]
        } else {
            Seq::empty()
        },
        None => Seq::empty(),
    }
}

/// The chapter numbers named by the pieces of a list from the piece that
/// starts at `start` on, read from `at` on.
pub open spec fn pieces(s: Seq<char>, start: int, at: int) -> Seq<u32>
    decreases s.len() - at,
{
    if at < 0 || at >= s.len() {
        piece_number(s, start, s.len() as int)
    } else if s[at] == ',' {
        piece_number(s, start, at) + pieces(s, at + 1, at + 1)
    } else {
        pieces(s, start, at + 1)
    }
}

/// The chapter numbers that a list such as "1, 2,x,5" names: of the pieces
/// between its commas, those that write a number of 32 bits, white space
/// aside.
pub open spec fn chapter_numbers(s: Seq<char>) -> Seq<u32> {
    pieces(s, 0, 0)
}

/// Reads the chapter number that a piece of a list names.
fn read_piece(chars: &Vec<char>, from: usize, to: usize) -> (number: Option<u32>)
    requires
        from <= to <= chars@.len(),
    ensures
        piece_number(chars@, from as int, to as int) == match number {
            Some(n) => seq![n],
            None => Seq::empty(),
        },
{
    let (a, b) = trim(chars, from, to);
    match parse_count(chars, a, b) {
        Some(v) => if v <= 0xffff_ffff {
            Some(v as u32)
        } else {
            None
        },
        None => None,
    }
}

/// Reads the chapter numbers that a list names.
pub fn read_chapter_numbers(list: &str) -> (numbers: Vec<u32>)
    ensures
        numbers@ == chapter_numbers(list@),
{
    let chars = chars_of(list);
    let n: usize = chars.len();
    let mut numbers: Vec<u32> = Vec::new();
    let mut start: usize = 0;
    let mut at: usize = 0;
    assert(numbers@ + pieces(list@, 0, 0) =~= pieces(list@, 0, 0));
    while at < n
        invariant
            n == chars@.len(),
            chars@ == list@,
            start <= at <= n,
            numbers@ + pieces(list@, start as int, at as int) == chapter_numbers(list@),
        decreases n - at,
    {
        if chars[at] == ',' {
            let ghost before = numbers@;
            match read_piece(&chars, start, at) {
                Some(v) => {
                    numbers.push(v);
                },
                None => {},
            }
            proof {
                let item = piece_number(list@, start as int, at as int);
                assert(numbers@ =~= before + item);
                assert(before + (item + pieces(list@, at + 1, at + 1)) =~= (before + item) + pieces(
                    list@,
                    at + 1,
                    at + 1,
                ));
            }
            start = at + 1;
        }
        at += 1;
    }
    let ghost before = numbers@;
    match read_piece(&chars, start, n) {
        Some(v) => {
            numbers.push(v);
        },
        None => {},
    }
    assert(numbers@ =~= before + piece_number(list@, start as int, n as int));
    numbers
}

/// The kind of system the program runs on.
#[derive(Debug, Clone, Copy, PartialEq, Eq, Structural)]
pub enum Platform {
    Windows,
    MacOs,
    Linux,
    /// Any other system.
    Other,
}

/// A program to start, with its arguments.
#[derive(Debug)]
pub struct Launch {
    pub program: String,
    pub args: Vec<String>,
}

/// The arguments of a launch, as their characters.
pub open spec fn arg_texts(args: Seq<String>) -> Seq<Seq<char>> {
    args.map_values(|a: String| a@)
}

/// The program that opens a file or an address on a system.
pub open spec fn opener_of(platform: Platform) -> Seq<char> {
    match platform {
        Platform::Windows => "start"@,
        Platform::MacOs => "open"@,
        _ => "xdg-open"@,
    }
}

/// The program that opens a chapter: the one named in the settings, or the
/// opener of the system if the settings name none.
pub open spec fn reader_of(open_command: Option<Seq<char>>, platform: Platform) -> Seq<char> {
    match open_command {
        Some(command) => command,
        None => opener_of(platform),
    }
}

/// The page at which a chapter is opened, as an argument: the last page
/// read, or page 0.
pub open spec fn page_arg(last_page: Option<usize>) -> Seq<char> {
    decimal_digits(page_or(last_page, 0) as nat)
}

/// How a chapter is opened. On Linux the reader "manga-live" is started at
/// the last page read if the launcher script of the desktop is installed;
/// failing that, a launcher script in the working directory is run; failing
/// that, and on every other system, the reader of the settings is started,
/// at the last page read if it is "manga-live" on Linux.
pub open spec fn reader_launch(
    open_command: Option<Seq<char>>,
    platform: Platform,
    has_launcher: bool,
    has_local_script: bool,
    path: Seq<char>,
    last_page: Option<usize>,
) -> (Seq<char>, Seq<Seq<char>>) {
    let reader = reader_of(open_command, platform);
    if platform == Platform::Linux && has_launcher {
        ("manga-live"@, seq![path, "--page"@, page_arg(last_page)])
    } else if platform == Platform::Linux && has_local_script {
        ("sh"@, seq!["mupdf-launcher.sh"@, path])
    } else if platform == Platform::Linux && reader == "manga-live"@ {
        (reader, seq![path, "--page"@, page_arg(last_page)])
    } else {
        (reader, seq![path])
    }
}

/// The program that opens a file or an address on a system.
pub fn opener(platform: Platform) -> (program: &'static str)
    ensures
        program@ == opener_of(platform),
{
    match platform {
        Platform::Windows => "start",
        Platform::MacOs => "open",
        _ => "xdg-open",
    }
}

/// Decides how a chapter is opened, from the reader named in the settings,
/// the system, whether the launcher script of the desktop and a launcher
/// script in the working directory exist, the path of the chapter and the
/// last page read.
pub fn reader_command(
    open_command: &Option<String>,
    platform: Platform,
    has_launcher: bool,
    has_local_script: bool,
    path: &str,
    last_page: Option<usize>,
) -> (launch: Launch)
    ensures
        (launch.program@, arg_texts(launch.args@)) == reader_launch(
            text_of(*open_command),
            platform,
            has_launcher,
            has_local_script,
            path@,
            last_page,
        ),
{
    let reader = match open_command {
        Some(command) => command.clone(),
        None => owned(opener(platform)),
    };
    let mut page: Vec<char> = Vec::new();
    push_decimal(&mut page, or_page(last_page, 0) as u64);
    assert(page@ =~= page_arg(last_page));
    let on_linux = platform == Platform::Linux;
    let mut args: Vec<String> = Vec::new();
    if on_linux && has_launcher {
        args.push(owned(path));
        args.push(owned("--page"));
        args.push(string_of(&page));
        assert(arg_texts(args@) =~= seq![path@, "--page"@, page_arg(last_page)]);
        Launch { program: owned("manga-live"), args }
    } else if on_linux && has_local_script {
        args.push(owned("mupdf-launcher.sh"));
        args.push(owned(path));
        assert(arg_texts(args@) =~= seq!["mupdf-launcher.sh"@, path@]);
        Launch { program: owned("sh"), args }
    } else if on_linux && same_text(reader.as_str(), "manga-live") {
        args.push(owned(path));
        args.push(owned("--page"));
        args.push(string_of(&page));
        assert(arg_texts(args@) =~= seq![path@, "--page"@, page_arg(last_page)]);
        Launch { program: reader, args }
    } else {
        args.push(owned(path));
        assert(arg_texts(args@) =~= seq![path@]);
        Launch { program: reader, args }
    }
}

/// What is written to the screen once the library was loaded.
pub open spec fn loaded_text(count: nat, rescanned: bool) -> Seq<char> {
    "Loaded "@ + decimal_digits(count) + if rescanned {
        " mangas from SQLite database"@
    } else {
        " mangas from SQLite (no rescan needed)"@
    }
}

/// What is written to the screen once the library was loaded anew, by the
/// cause of the refresh.
pub open spec fn refreshed_text(count: nat, rescanned: bool, cause: RefreshCause) -> Seq<char> {
    match cause {
        RefreshCause::Asked => "Liste des mangas actualisée"@,
        RefreshCause::DownloadCancelled => loaded_text(count, rescanned),
        RefreshCause::DownloadLeft => "Manga list refreshed."@,
        RefreshCause::ReaderClosed => "Manga list refreshed after closing external reader."@,
    }
}

/// The catalogue once the first `upto` of the chapters were marked as unread
/// in it, those that it stores.
pub open spec fn all_unread(c: CatalogView, chapters: Seq<Chapter>, upto: int) -> CatalogView
    decreases upto,
{
    if upto <= 0 {
        c
    } else {
        let before = all_unread(c, chapters, upto - 1);
        let ch = chapters[upto - 1];
        if before.has_chapter_id(ch.id as int) {
            before.with_progress(
                ch.id as int,
                false,
                Some(0),
                Some(page_or(ch.full_pages_read, DEFAULT_PAGE_COUNT)),
            )
        } else {
            before
        }
    }
}

/// Whether `path` is the path of one of the first `upto` chapters.
pub open spec fn is_path_of(chapters: Seq<Chapter>, upto: int, path: Seq<char>) -> bool {
    exists|j: int| 0 <= j < upto && (#[trigger] chapters[j]).path@ == path
}

/// The paths that stay marked as read once the first `upto` chapters were
/// marked as unread.
pub open spec fn still_read(marked: Set<Seq<char>>, chapters: Seq<Chapter>, upto: int) -> Set<
    Seq<char>,
> {
    Set::new(|p: Seq<char>| marked.contains(p) && !is_path_of(chapters, upto, p))
}

impl App {
    /// Gets a download going: remembers the address and the chapters in the
    /// settings, empties the log and shows it. Returns the list of chapters
    /// to hand to the downloader, which is "1" if none was typed.
    ///
    /// Without an address nothing is started, and the screen says so.
    pub fn start_download(&mut self) -> (chapters: Option<String>)
        ensures
            match chapters {
                None => old(self)@.download_url.len() == 0 && final(self)@ == (AppView {
                    status: "Error: URL is required"@,
                    ..old(self)@
                }),
                Some(list) => {
                    &&& old(self)@.download_url.len() > 0
                    &&& list@ == if old(self)@.selected_chapters_input.len() == 0 {
                        "1"@
                    } else {
                        old(self)@.selected_chapters_input
                    }
                    &&& text_of(final(self).config.last_download_url) == Some(
                        old(self)@.download_url,
                    )
                    &&& final(self).config.last_downloaded_chapters@ == chapter_numbers(
                        old(self)@.selected_chapters_input,
                    )
                    &&& final(self).config.last_manga_dir == old(self).config.last_manga_dir
                    &&& final(self).config.read_chapters == old(self).config.read_chapters
                    &&& final(self).config.open_command == old(self).config.open_command
                    &&& final(self).config.settings == old(self).config.settings
                    &&& final(self)@ == (AppView {
                        config: final(self).config,
                        download_logs: Seq::empty(),
                        is_downloading: true,
                        download_finished: false,
                        has_user_scrolled: false,
                        state: AppState::Downloading,
                        status: "Download started. Showing logs below..."@,
                        ..old(self)@
                    })
                },
            },
    {
        if self.download_url.as_str().unicode_len() == 0 {
            self.status = owned("Error: URL is required");
            return None;
        }
        let list = if self.selected_chapters_input.as_str().unicode_len() == 0 {
            owned("1")
        } else {
            self.selected_chapters_input.clone()
        };
        self.config.last_download_url = Some(self.download_url.clone());
        self.config.last_downloaded_chapters = read_chapter_numbers(
            self.selected_chapters_input.as_str(),
        );
        self.download_logs = Vec::new();
        self.is_downloading = true;
        self.download_finished = false;
        self.has_user_scrolled = false;
        self.state = AppState::Downloading;
        self.status = owned("Download started. Showing logs below...");
        assert(self@.download_logs =~= Seq::empty());
        Some(list)
    }

    /// Says on the screen that something went wrong.
    pub fn report_error(&mut self, message: &str)
        ensures
            final(self)@ == (AppView { status: "Erreur: "@ + message@, ..old(self)@ }),
    {
        let mut text: Vec<char> = Vec::new();
        push_text(&mut text, "Erreur: ");
        push_text(&mut text, message);
        self.status = string_of(&text);
    }

    /// Takes note that the selected chapter was opened in the external
    /// reader: a chapter that was never opened is now at page 0, and the
    /// selection moves to the next unread chapter after it, failing that to
    /// the last read chapter, failing that to the first chapter. The screen
    /// says "Chapter opened" in the list, and which chapter was opened
    /// elsewhere.
    ///
    /// Returns whether a chapter was selected; if none was, nothing changes.
    pub fn chapter_opened(&mut self, in_list: bool) -> (done: bool)
        ensures
            done == old(self).selected_place() is Some,
            !done ==> *final(self) == *old(self),
            old(self).selected_place() matches Some((i, j)) ==> {
                let before = old(self).mangas@[i as int].chapters@[j as int];
                let after = final(self).mangas@[i as int].chapters@[j as int];
                &&& after == (Chapter {
                    last_page_read: Some(page_or(before.last_page_read, 0)),
                    ..before
                })
                &&& final(self).mangas@.len() == old(self).mangas@.len()
                &&& final(self).mangas@[i as int].chapters@.len() == old(self).mangas@[i as int].chapters@.len()
                &&& forall|k: int|
                    0 <= k < old(self).mangas@.len() && k != i ==> final(self).mangas@[k] == old(self).mangas@[k]
                &&& forall|l: int|
                    0 <= l < old(self).mangas@[i as int].chapters@.len() && l != j ==> final(self).mangas@[i as int].chapters@[l] == old(self).mangas@[i as int].chapters@[l]
                &&& final(self).selected_manga == old(self).selected_manga
                &&& final(self).selected_chapter == Some(
                    chapter_after_opening(old(self).mangas@[i as int].chapters@, j as int),
                )
                &&& final(self).needs_refresh
                &&& final(self).status@ == if in_list {
                    "Chapter opened"@
                } else {
                    "Opened "@ + before.title@ + " with external reader"@
                }
                &&& final(self).state == old(self).state
                &&& final(self).config == old(self).config
            },
    {
        let (i, j) = match (self.selected_manga, self.selected_chapter) {
            (Some(i), Some(j)) => (i, j),
            _ => {
                return false;
            },
        };
        if i >= self.mangas.len() || j >= self.mangas[i].chapters.len() {
            return false;
        }
        let next = match if j < usize::MAX {
            first_unread_from(&self.mangas[i].chapters, j + 1)
        } else {
            None
        } {
            Some(k) => k,
            None => match find_last_read(&self.mangas[i].chapters) {
                Some(k) => k,
                None => 0,
            },
        };
        let page = or_page(self.mangas[i].chapters[j].last_page_read, 0);
        if in_list {
            self.status = owned("Chapter opened");
        } else {
            let mut text: Vec<char> = Vec::new();
            push_text(&mut text, "Opened ");
            push_text(&mut text, self.mangas[i].chapters[j].title.as_str());
            push_text(&mut text, " with external reader");
            self.status = string_of(&text);
        }
        self.mangas[i].chapters[j].last_page_read = Some(page);
        self.selected_chapter = Some(next);
        self.needs_refresh = true;
        true
    }

    /// Loads the catalogue anew after a refresh and says on the screen what
    /// happened, by the cause of the refresh.
    pub fn refresh_done(&mut self, catalog: &Catalog, rescanned: bool, cause: RefreshCause)
        requires
            catalog.wf(),
        ensures
            shows_catalog(catalog@, final(self).mangas@),
            final(self).needs_refresh,
            final(self).status@ == refreshed_text(final(self).mangas@.len(), rescanned, cause),
            final(self).state == old(self).state,
            final(self).config == old(self).config,
            final(self).selected_manga == crate::app::restored_manga(
                final(self).mangas@,
                match old(self).selected_manga {
                    Some(i) => if i < old(self).mangas@.len() {
                        Some(old(self).mangas@[i as int].name@)
                    } else {
                        None
                    },
                    None => None,
                },
            ),
            final(self).selected_chapter == crate::app::restored_chapter(
                final(self).mangas@,
                final(self).selected_manga,
            ),
    {
        self.reload(catalog);
        match cause {
            RefreshCause::Asked => {
                self.status = owned("Liste des mangas actualisée");
            },
            RefreshCause::DownloadCancelled => {
                let mut text: Vec<char> = Vec::new();
                push_text(&mut text, "Loaded ");
                push_decimal(&mut text, self.mangas.len() as u64);
                if rescanned {
                    push_text(&mut text, " mangas from SQLite database");
                } else {
                    push_text(&mut text, " mangas from SQLite (no rescan needed)");
                }
                self.status = string_of(&text);
            },
            RefreshCause::DownloadLeft => {
                self.status = owned("Manga list refreshed.");
            },
            RefreshCause::ReaderClosed => {
                self.status = owned("Manga list refreshed after closing external reader.");
            },
        }
    }

    /// Takes the path that was typed as the library root, in the state and
    /// in the settings.
    pub fn set_directory(&mut self)
        ensures
            final(self).manga_dir@ == old(self).filter@,
            text_of(final(self).config.last_manga_dir) == Some(old(self).filter@),
            final(self).config.read_chapters == old(self).config.read_chapters,
            final(self).config.open_command == old(self).config.open_command,
            final(self).config.settings == old(self).config.settings,
            final(self).config.last_download_url == old(self).config.last_download_url,
            final(self).config.last_downloaded_chapters == old(self).config.last_downloaded_chapters,
            final(self)@ == (AppView {
                manga_dir: old(self).filter@,
                config: final(self).config,
                ..old(self)@
            }),
    {
        self.manga_dir = self.filter.clone();
        self.config.last_manga_dir = Some(self.filter.clone());
    }

    /// Goes back to the list of series once the library root was changed and
    /// the library loaded from it. `created` says whether the directory had
    /// to be created.
    pub fn directory_changed(&mut self, created: bool)
        ensures
            final(self)@ == (AppView {
                state: AppState::BrowseManga,
                input_mode: false,
                input_field: InputField::NoField,
                filter: Seq::empty(),
                status: if created {
                    "Manga folder created and updated"@
                } else {
                    "Manga folder updated"@
                },
                ..old(self)@
            }),
    {
        self.state = AppState::BrowseManga;
        self.input_mode = false;
        self.input_field = InputField::NoField;
        self.filter = String::new();
        self.status = if created {
            owned("Manga folder created and updated")
        } else {
            owned("Manga folder updated")
        };
    }

    /// Says on the screen that the path that was typed cannot be the library
    /// root.
    pub fn directory_refused(&mut self)
        ensures
            final(self)@ == (AppView {
                status: "Error: Invalid or impossible path"@,
                ..old(self)@
            }),
    {
        self.status = owned("Error: Invalid or impossible path");
    }

    /// Marks every chapter of the selected series as unread, on the chapters
    /// themselves, in the settings and in the catalogue, and says so on the
    /// screen. Returns whether a series was selected; if none was, nothing
    /// changes.
    pub fn mark_all_unread(&mut self, catalog: &mut Catalog) -> (done: bool)
        requires
            old(self).config.wf(),
            old(catalog).wf(),
        ensures
            final(self).config.wf(),
            final(catalog).wf(),
            done == old(self)@.current() is Some,
            !done ==> *final(self) == *old(self) && final(catalog)@ == old(catalog)@,
            old(self)@.current() matches Some(i) ==> {
                let before = old(self).mangas@[i].chapters@;
                let after = final(self).mangas@[i].chapters@;
                &&& after.len() == before.len()
                &&& forall|j: int|
                    0 <= j < before.len() ==> (#[trigger] after[j])@ == toggled(before[j]@, false)
                        && after[j].title == before[j].title && after[j].path == before[j].path
                &&& final(self).mangas@.len() == old(self).mangas@.len()
                &&& forall|k: int|
                    0 <= k < old(self).mangas@.len() && k != i ==> final(self).mangas@[k] == old(self).mangas@[k]
                &&& final(self).mangas@[i].name == old(self).mangas@[i].name
                &&& final(catalog)@ == all_unread(old(catalog)@, before, before.len() as int)
                &&& name_set(final(self).config.read_chapters@) == still_read(
                    name_set(old(self).config.read_chapters@),
                    before,
                    before.len() as int,
                )
                &&& final(self).status@ == "Tous les chapitres marqués comme non lus"@
                &&& final(self).selected_manga == old(self).selected_manga
                &&& final(self).selected_chapter == old(self).selected_chapter
                &&& final(self).state == old(self).state
            },
    {
        let i = match self.current_position() {
            Some(i) => i,
            None => {
                return false;
            },
        };
        let n: usize = self.mangas[i].chapters.len();
        let ghost before = self.mangas@[i as int].chapters@;
        let mut j: usize = 0;
        assert(name_set(self.config.read_chapters@) =~= still_read(
            name_set(self.config.read_chapters@),
            before,
            0,
        ));
        while j < n
            invariant
                i < self.mangas@.len(),
                self.mangas@.len() == old(self).mangas@.len(),
                before == old(self).mangas@[i as int].chapters@,
                n == before.len(),
                self.mangas@[i as int].chapters@.len() == n,
                j <= n,
                self.config.wf(),
                catalog.wf(),
                forall|l: int|
                    0 <= l < j ==> (#[trigger] self.mangas@[i as int].chapters@[l])@ == toggled(
                        before[l]@,
                        false,
                    ) && self.mangas@[i as int].chapters@[l].title == before[l].title
                        && self.mangas@[i as int].chapters@[l].path == before[l].path,
                forall|l: int|
                    j <= l < n ==> #[trigger] self.mangas@[i as int].chapters@[l] == before[l],
                forall|k: int|
                    0 <= k < old(self).mangas@.len() && k != i ==> self.mangas@[k] == old(self).mangas@[k],
                self.mangas@[i as int].name == old(self).mangas@[i as int].name,
                catalog@ == all_unread(old(catalog)@, before, j as int),
                name_set(self.config.read_chapters@) == still_read(
                    name_set(old(self).config.read_chapters@),
                    before,
                    j as int,
                ),
                (AppView { mangas: Seq::empty(), config: old(self).config, ..self@ }) == (AppView {
                    mangas: Seq::empty(),
                    ..old(self)@
                }),
            decreases n - j,
        {
            let path = self.mangas[i].chapters[j].path.clone();
            let id = self.mangas[i].chapters[j].id;
            let total = or_page(self.mangas[i].chapters[j].full_pages_read, DEFAULT_PAGE_COUNT);
            let ghost marked = name_set(self.config.read_chapters@);
            self.config.mark_chapter_as_unread(path.as_str());
            self.mangas[i].chapters[j].read = false;
            self.mangas[i].chapters[j].last_page_read = Some(0);
            self.mangas[i].chapters[j].full_pages_read = Some(total);
            let _ = catalog.update_progress(id, 0, total, false);
            proof {
                let start = name_set(old(self).config.read_chapters@);
                let now = name_set(self.config.read_chapters@);
                assert(now == marked.remove(path@));
                assert(marked == still_read(start, before, j as int));
                assert forall|p: Seq<char>| now.contains(p) <==> still_read(
                    start,
                    before,
                    j + 1,
                ).contains(p) by {
                    if is_path_of(before, j + 1, p) {
                        let w = choose|w: int| 0 <= w < j + 1 && (#[trigger] before[w]).path@ == p;
                        if w < j {
                            assert(is_path_of(before, j as int, p));
                        }
                    }
                    if is_path_of(before, j as int, p) {
                        let w = choose|w: int| 0 <= w < j && (#[trigger] before[w]).path@ == p;
                        assert(before[w].path@ == p);
                    }
                    if p == path@ {
                        assert(before[j as int].path@ == p);
                    }
                }
                assert(now =~= still_read(start, before, j + 1));
            }
            j += 1;
        }
        self.status = owned("Tous les chapitres marqués comme non lus");
        true
    }
}

} // verus!
