//! What the interface is told: keys, mouse clicks, ticks and resizes, as
//! plain values; and what it asks for in return.

use vstd::prelude::*;

verus! {

/// A key.
#[derive(Debug, Clone, Copy, PartialEq, Eq, Structural)]
pub enum KeyCode {
    Char(char),
    Esc,
    Enter,
    Tab,
    Backspace,
    Left,
    Right,
    Up,
    Down,
    /// Any other key.
    Other,
}

/// A key press.
#[derive(Debug, Clone, Copy, PartialEq, Eq, Structural)]
pub struct KeyEvent {
    pub code: KeyCode,
    /// Whether shift was held.
    pub shift: bool,
}

/// What the mouse did.
#[derive(Debug, Clone, Copy, PartialEq, Eq, Structural)]
pub enum MouseEventKind {
    LeftDown,
    RightDown,
    ScrollUp,
    ScrollDown,
    /// Anything else.
    Other,
}

/// A mouse event at a cell of the terminal.
#[derive(Debug, Clone, Copy, PartialEq, Eq, Structural)]
pub struct MouseEvent {
    pub kind: MouseEventKind,
    pub column: u16,
    pub row: u16,
}

/// An event of the interface.
#[derive(Debug, Clone, Copy, PartialEq, Eq, Structural)]
pub enum Event {
    /// The timer went off.
    Tick,
    Key(KeyEvent),
    /// The terminal has a new width and height.
    Resize(u16, u16),
    Mouse(MouseEvent),
}

/// Why the library is loaded anew.
#[derive(Debug, Clone, Copy, PartialEq, Eq, Structural)]
pub enum RefreshCause {
    /// The refresh key was pressed in the list of series.
    Asked,
    /// A download was cancelled.
    DownloadCancelled,
    /// The refresh key was pressed while the download log was on show.
    DownloadLeft,
    /// The external reader was closed.
    ReaderClosed,
}

/// What the interface asks of its surroundings after an event. The state
/// has changed already as far as it can without them.
#[derive(Debug, Clone, Copy, PartialEq, Eq, Structural)]
pub enum Action {
    /// Nothing is asked.
    Nothing,
    /// The program ends.
    Quit,
    /// The library is refreshed from disk and loaded anew.
    Refresh(RefreshCause),
    /// The cover of the selected series is loaded.
    LoadCover,
    /// The selected chapter is opened in the external reader.
    OpenChapter,
    /// The source of the selected series is opened in the browser.
    OpenSource,
    /// The selected chapter is marked as read, or as unread.
    ToggleRead(bool),
    /// Every chapter of the selected series is marked as unread.
    MarkAllUnread,
    /// The download is started.
    StartDownload,
    /// The channel of a running download is dropped.
    DropDownload,
    /// The library root becomes the path that was typed.
    ChangeDirectory,
}

/// A rectangle of cells of the terminal.
#[derive(Debug, Clone, Copy, PartialEq, Eq, Structural)]
pub struct Area {
    pub x: u16,
    pub y: u16,
    pub width: u16,
    pub height: u16,
}

impl Area {
    /// Whether the cell at `column` and `row` lies in the rectangle. The
    /// right and the lower edge stop at the last cell a terminal can have.
    pub open spec fn holds(self, column: u16, row: u16) -> bool {
        &&& self.x <= column
        &&& column < edge(self.x, self.width)
        &&& self.y <= row
        &&& row < edge(self.y, self.height)
    }

    /// Tests whether the cell at `column` and `row` lies in the rectangle.
    pub fn contains(&self, column: u16, row: u16) -> (inside: bool)
        ensures
            inside == self.holds(column, row),
    {
        let right: u32 = self.x as u32 + self.width as u32;
        let bottom: u32 = self.y as u32 + self.height as u32;
        let right: u32 = if right > 0xffff {
            0xffff
        } else {
            right
        };
        let bottom: u32 = if bottom > 0xffff {
            0xffff
        } else {
            bottom
        };
        self.x <= column && (column as u32) < right && self.y <= row && (row as u32) < bottom
    }
}

/// Where a stretch of `length` cells that starts at `start` ends, at most at
/// the last cell.
pub open spec fn edge(start: u16, length: u16) -> int {
    if start + length > 0xffff {
        0xffff
    } else {
        start + length
    }
}

} // verus!
