//! The settings that a reader keeps between runs.

use vstd::prelude::*;
use crate::catalog::{holds_name, name_set};
use crate::text::{owned, same_text};

verus! {

/// What is kept between runs.
#[derive(Debug)]
pub struct Config {
    /// The library root that was used last.
    pub last_manga_dir: Option<String>,
    /// The paths of the chapters marked as read; no path occurs twice.
    pub read_chapters: Vec<String>,
    /// The command that opens a chapter.
    pub open_command: Option<String>,
    pub settings: Settings,
    pub last_download_url: Option<String>,
    pub last_downloaded_chapters: Vec<u32>,
}

/// The reader's preferences.
#[derive(Debug, Clone)]
pub struct Settings {
    pub prefer_external: bool,
    pub auto_mark_read: bool,
    pub default_provider: String,
    pub enable_image_rendering: bool,
    /// Options handed to the reader, by name; no name occurs twice.
    pub reader_options: Vec<(String, String)>,
}

/// Whether no text occurs twice in `paths`.
pub open spec fn no_duplicates(paths: Seq<String>) -> bool {
    forall|i: int, j: int|
        0 <= i < paths.len() && 0 <= j < paths.len() && (#[trigger] paths[i])@ == (
        #[trigger] paths[j])@ ==> i == j
}

impl Default for Settings {
    fn default() -> (s: Settings)
        ensures
            !s.prefer_external,
            s.auto_mark_read,
            s.default_provider@ == seq!['m', 'a', 'n', 'u', 'a', 'l'],
            s.enable_image_rendering,
            s.reader_options@.len() == 1,
            s.reader_options@[0].0@ == seq!['m', 'o', 'd', 'e'],
            s.reader_options@[0].1@ == seq!['w', 'e', 'b', 't', 'o', 'o', 'n'],
    {
        proof {
            reveal_strlit("manual");
            reveal_strlit("mode");
            reveal_strlit("webtoon");
        }
        let mut reader_options: Vec<(String, String)> = Vec::new();
        reader_options.push((owned("mode"), owned("webtoon")));
        let s = Settings {
            prefer_external: false,
            auto_mark_read: true,
            default_provider: owned("manual"),
            enable_image_rendering: true,
            reader_options,
        };
        assert(s.default_provider@ =~= seq!['m', 'a', 'n', 'u', 'a', 'l']);
        assert(s.reader_options@[0].0@ =~= seq!['m', 'o', 'd', 'e']);
        assert(s.reader_options@[0].1@ =~= seq!['w', 'e', 'b', 't', 'o', 'o', 'n']);
        s
    }
}

impl Default for Config {
    fn default() -> (c: Config)
        ensures
            c.wf(),
            c.last_manga_dir is None,
            c.read_chapters@.len() == 0,
            c.open_command is None,
            c.last_download_url is None,
            c.last_downloaded_chapters@.len() == 0,
            c.settings.enable_image_rendering,
            c.settings.auto_mark_read,
            !c.settings.prefer_external,
            c.settings.default_provider@ == seq!['m', 'a', 'n', 'u', 'a', 'l'],
            c.settings.reader_options@.len() == 1,
            c.settings.reader_options@[0].0@ == seq!['m', 'o', 'd', 'e'],
            c.settings.reader_options@[0].1@ == seq!['w', 'e', 'b', 't', 'o', 'o', 'n'],
    {
        Config {
            last_manga_dir: None,
            read_chapters: Vec::new(),
            open_command: None,
            settings: Settings::default(),
            last_download_url: None,
            last_downloaded_chapters: Vec::new(),
        }
    }
}

impl Config {
    /// Whether no chapter is listed twice as read.
    pub open spec fn wf(&self) -> bool {
        no_duplicates(self.read_chapters@)
    }

    /// Whether the chapter at `path` is marked as read.
    pub fn is_chapter_read(&self, path: &str) -> (read: bool)
        ensures
            read == name_set(self.read_chapters@).contains(path@),
    {
        holds_name(&self.read_chapters, path)
    }

    /// Marks the chapter at `path` as read: the path joins the read chapters
    /// unless it is among them already. Nothing else changes.
    pub fn mark_chapter_as_read(&mut self, path: &str)
        requires
            old(self).wf(),
        ensures
            final(self).wf(),
            name_set(final(self).read_chapters@) == name_set(old(self).read_chapters@).insert(
                path@,
            ),
            name_set(old(self).read_chapters@).contains(path@) ==> final(self).read_chapters@
                == old(self).read_chapters@,
            !name_set(old(self).read_chapters@).contains(path@) ==> final(self).read_chapters@.len()
                == old(self).read_chapters@.len() + 1,
            final(self).last_manga_dir == old(self).last_manga_dir,
            final(self).open_command == old(self).open_command,
            final(self).settings == old(self).settings,
            final(self).last_download_url == old(self).last_download_url,
            final(self).last_downloaded_chapters == old(self).last_downloaded_chapters,
    {
        if !holds_name(&self.read_chapters, path) {
            let ghost before = self.read_chapters@;
            self.read_chapters.push(owned(path));
            proof {
                let after = self.read_chapters@;
                assert forall|t: Seq<char>| name_set(after).contains(t) <==> name_set(
                    before,
                ).insert(path@).contains(t) by {
                    if name_set(after).contains(t) {
                        let k = choose|k: int| 0 <= k < after.len() && (#[trigger] after[k])@ == t;
                        if k < before.len() {
                            assert(before[k]@ == t);
                        }
                    }
                    if name_set(before).contains(t) {
                        let k = choose|k: int| 0 <= k < before.len() && (#[trigger] before[k])@ == t;
                        assert(after[k]@ == t);
                    }
                    if t == path@ {
                        assert(after[before.len() as int]@ == t);
                    }
                }
                assert(name_set(after) =~= name_set(before).insert(path@));
                assert forall|i: int, j: int|
                    0 <= i < after.len() && 0 <= j < after.len() && (#[trigger] after[i])@ == (
                    #[trigger] after[j])@ implies i == j by {
                    if i < before.len() && j < before.len() {
                        assert(before[i]@ == before[j]@);
                    } else if i < before.len() {
                        assert(before[i]@ == path@);
                    } else if j < before.len() {
                        assert(before[j]@ == path@);
                    }
                }
            }
        } else {
            assert(name_set(self.read_chapters@) =~= name_set(self.read_chapters@).insert(path@));
        }
    }

    /// Marks the chapter at `path` as unread: the path leaves the read
    /// chapters, and the others stay in their order. Nothing else changes.
    pub fn mark_chapter_as_unread(&mut self, path: &str)
        requires
            old(self).wf(),
        ensures
            final(self).wf(),
            name_set(final(self).read_chapters@) == name_set(old(self).read_chapters@).remove(
                path@,
            ),
            !name_set(old(self).read_chapters@).contains(path@) ==> final(self).read_chapters@
                == old(self).read_chapters@,
            name_set(old(self).read_chapters@).contains(path@) ==> final(self).read_chapters@.len()
                + 1 == old(self).read_chapters@.len(),
            final(self).last_manga_dir == old(self).last_manga_dir,
            final(self).open_command == old(self).open_command,
            final(self).settings == old(self).settings,
            final(self).last_download_url == old(self).last_download_url,
            final(self).last_downloaded_chapters == old(self).last_downloaded_chapters,
    {
        let n: usize = self.read_chapters.len();
        let mut i: usize = 0;
        while i < n
            invariant
                n == self.read_chapters@.len(),
                i <= n,
                *self == *old(self),
                no_duplicates(self.read_chapters@),
                forall|j: int| 0 <= j < i ==> (#[trigger] self.read_chapters@[j])@ != path@,
            decreases n - i,
        {
            if same_text(self.read_chapters[i].as_str(), path) {
                let ghost before = self.read_chapters@;
                self.read_chapters.remove(i);
                proof {
                    let after = self.read_chapters@;
                    assert(after =~= before.remove(i as int));
                    assert forall|a: int, b: int|
                        0 <= a < after.len() && 0 <= b < after.len() && (#[trigger] after[a])@ == (
                        #[trigger] after[b])@ implies a == b by {
                        let x = if a < i { a } else { a + 1 };
                        let y = if b < i { b } else { b + 1 };
                        assert(before[x]@ == before[y]@);
                    }
                    assert forall|t: Seq<char>| name_set(after).contains(t) <==> name_set(
                        before,
                    ).remove(path@).contains(t) by {
                        if name_set(after).contains(t) {
                            let k = choose|k: int| 0 <= k < after.len() && (#[trigger] after[k])@ == t;
                            let x = if k < i { k } else { k + 1 };
                            assert(before[x]@ == t);
                            if t == path@ {
                                assert(before[x]@ == before[i as int]@);
                            }
                        }
                        if name_set(before).contains(t) && t != path@ {
                            let k = choose|k: int| 0 <= k < before.len() && (#[trigger] before[k])@ == t;
                            let x = if k < i { k } else { k - 1 };
                            assert(after[x]@ == t);
                        }
                    }
                    assert(name_set(after) =~= name_set(before).remove(path@));
                }
                return;
            }
            i += 1;
        }
        assert(name_set(self.read_chapters@) =~= name_set(self.read_chapters@).remove(path@));
    }
}

} // verus!
