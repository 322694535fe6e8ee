//! The colours and signs of the interface.

use vstd::prelude::*;
use crate::theme::{Color, Theme};

verus! {

/// The palette of the interface.
pub struct ModernColors;

/// The colours of the interface, taken from a theme.
pub struct WallustColors {
    pub primary: Color,
    pub accent: Color,
    pub error: Color,
    pub background: Color,
    pub border: Color,
    pub border_focus: Color,
    pub text_primary: Color,
    pub text_secondary: Color,
    pub text_muted: Color,
    pub success: Color,
}

/// How a progress bar is drawn.
#[derive(Clone, Copy)]
pub enum ProgressStyle {
    /// Filled and hollow dots.
    Dots,
    /// Full and shaded blocks.
    Blocks,
    /// Filled and hollow bars.
    Minimal,
}

/// The signs of the interface.
pub struct Icons;

impl Icons {
    pub const READ: &'static str = "✓";

    pub const IN_PROGRESS: &'static str = "⏯";

    pub const UNREAD: &'static str = "➤";

    pub const BOOKMARK: &'static str = "⟢";

    pub const FOLDER: &'static str = "📁";

    pub const FILE: &'static str = "📄";

    pub const DOWNLOAD: &'static str = "⬇️";

    pub const REFRESH: &'static str = "↺";

    pub const SETTINGS: &'static str = "⚙️";

    pub const HELP: &'static str = "❓";

    pub const MANGA: &'static str = "📖";

    pub const CHAPTER: &'static str = "";

    pub const IMAGE: &'static str = "🖼️";

    pub const LINK: &'static str = "🔗";

    pub const ARROW_RIGHT: &'static str = "▶";

    pub const DOT: &'static str = "•";
}

/// The sign and the colour that show how far something is read.
#[derive(Debug, Clone, Copy, PartialEq, Eq, Structural)]
pub enum ReadState {
    /// Nothing is read.
    Unread,
    /// Something is read, not all.
    Started,
    /// All is read.
    Finished,
}

/// How far a series is read, from the number of its read chapters and the
/// number of its chapters. A series without chapters counts as unread.
pub open spec fn read_state(read: usize, total: usize) -> ReadState {
    if total > 0 && read >= total {
        ReadState::Finished
    } else if total > 0 && read > 0 {
        ReadState::Started
    } else {
        ReadState::Unread
    }
}

/// How far a chapter is read, from its read flag, the last page read and the
/// number of its pages: a read chapter is finished, and an unread one is
/// started if the last page read lies strictly between the first page and
/// the number of pages.
pub open spec fn page_state(read: bool, last_page: Option<usize>, pages: Option<usize>) -> ReadState {
    if read {
        ReadState::Finished
    } else {
        match (last_page, pages) {
            (Some(last), Some(total)) => if last > 0 && last < total {
                ReadState::Started
            } else {
                ReadState::Unread
            },
            _ => ReadState::Unread,
        }
    }
}

impl ReadState {
    /// The state of a series with `read` read chapters out of `total`.
    pub fn of_series(read: usize, total: usize) -> (state: ReadState)
        ensures
            state == read_state(read, total),
    {
        if total > 0 && read >= total {
            ReadState::Finished
        } else if total > 0 && read > 0 {
            ReadState::Started
        } else {
            ReadState::Unread
        }
    }

    /// The state of a chapter.
    pub fn of_chapter(read: bool, last_page: Option<usize>, pages: Option<usize>) -> (state:
        ReadState)
        ensures
            state == page_state(read, last_page, pages),
    {
        if read {
            ReadState::Finished
        } else {
            match (last_page, pages) {
                (Some(last), Some(total)) => if last > 0 && last < total {
                    ReadState::Started
                } else {
                    ReadState::Unread
                },
                _ => ReadState::Unread,
            }
        }
    }

    /// The sign of the state.
    pub fn icon(&self) -> (sign: &'static str)
        ensures
            sign@ == match *self {
                ReadState::Finished => Icons::READ@,
                ReadState::Started => Icons::IN_PROGRESS@,
                ReadState::Unread => Icons::UNREAD@,
            },
    {
        match self {
            ReadState::Finished => Icons::READ,
            ReadState::Started => Icons::IN_PROGRESS,
            ReadState::Unread => Icons::UNREAD,
        }
    }
}

impl WallustColors {
    /// The colour of a state: the colour of success for what is finished,
    /// the primary colour for what is started, the muted colour for what is
    /// not.
    pub fn state_color(&self, state: ReadState) -> (color: Color)
        ensures
            color == match state {
                ReadState::Finished => self.success,
                ReadState::Started => self.primary,
                ReadState::Unread => self.text_muted,
            },
    {
        match state {
            ReadState::Finished => self.success,
            ReadState::Started => self.primary,
            ReadState::Unread => self.text_muted,
        }
    }
}

impl ModernColors {
    /// The primary colour used when no theme gives one.
    pub fn primary() -> (c: Color)
        ensures
            c == Color::Rgb(129, 140, 248),
    {
        Color::Rgb(129, 140, 248)
    }

    /// The secondary colour.
    pub fn secondary() -> (c: Color)
        ensures
            c == Color::Rgb(139, 92, 246),
    {
        Color::Rgb(139, 92, 246)
    }

    /// The accent colour.
    pub fn accent() -> (c: Color)
        ensures
            c == Color::Rgb(34, 197, 94),
    {
        Color::Rgb(34, 197, 94)
    }

    /// The colour of warnings.
    pub fn warning() -> (c: Color)
        ensures
            c == Color::Rgb(251, 191, 36),
    {
        Color::Rgb(251, 191, 36)
    }

    /// The colour of errors.
    pub fn error() -> (c: Color)
        ensures
            c == Color::Rgb(239, 68, 68),
    {
        Color::Rgb(239, 68, 68)
    }

    /// The colour of the background.
    pub fn background() -> (c: Color)
        ensures
            c == Color::Rgb(15, 23, 42),
    {
        Color::Rgb(15, 23, 42)
    }

    /// The colour of raised surfaces.
    pub fn surface() -> (c: Color)
        ensures
            c == Color::Rgb(30, 41, 59),
    {
        Color::Rgb(30, 41, 59)
    }

    /// The colour of borders.
    pub fn border() -> (c: Color)
        ensures
            c == Color::Rgb(71, 85, 105),
    {
        Color::Rgb(71, 85, 105)
    }

    /// The colour of the border of what is in focus.
    pub fn border_focus() -> (c: Color)
        ensures
            c == Color::Rgb(129, 140, 248),
    {
        Color::Rgb(129, 140, 248)
    }

    /// The colour of text.
    pub fn text_primary() -> (c: Color)
        ensures
            c == Color::Rgb(248, 250, 252),
    {
        Color::Rgb(248, 250, 252)
    }

    /// The colour of lesser text.
    pub fn text_secondary() -> (c: Color)
        ensures
            c == Color::Rgb(148, 163, 184),
    {
        Color::Rgb(148, 163, 184)
    }

    /// The colour of the least text.
    pub fn text_muted() -> (c: Color)
        ensures
            c == Color::Rgb(100, 116, 139),
    {
        Color::Rgb(100, 116, 139)
    }

    /// The colour of success.
    pub fn success() -> (c: Color)
        ensures
            c == Color::Rgb(34, 197, 94),
    {
        Color::Rgb(34, 197, 94)
    }

    /// Picks the colours of the interface out of a theme.
    pub fn get_colors(theme: &Theme) -> (colors: WallustColors)
        ensures
            colors.primary == theme.colors@[4],
            colors.accent == theme.colors@[2],
            colors.error == theme.colors@[1],
            colors.background == theme.background,
            colors.border == theme.colors@[8],
            colors.border_focus == theme.colors@[12],
            colors.text_primary == theme.foreground,
            colors.text_secondary == theme.colors@[7],
            colors.text_muted == theme.colors@[15],
            colors.success == theme.colors@[10],
    {
        WallustColors {
            primary: theme.colors[4],
            accent: theme.colors[2],
            error: theme.colors[1],
            background: theme.background,
            border: theme.colors[8],
            border_focus: theme.colors[12],
            text_primary: theme.foreground,
            text_secondary: theme.colors[7],
            text_muted: theme.colors[15],
            success: theme.colors[10],
        }
    }
}

} // verus!
