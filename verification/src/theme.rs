//! Colour themes read from a palette of hexadecimal colours.

use vstd::prelude::*;
use crate::text::{chars_of, string_of_range};

verus! {

/// The error of the `hex` crate's decoder. Nothing is read from it here.
#[verifier::external_type_specification]
#[verifier::external_body]
pub struct ExFromHexError(hex::FromHexError);

/// A palette as a theme generator writes it: every colour as a hexadecimal
/// text such as "#1a2b3c".
pub struct WalColors {
    pub special: SpecialColors,
    pub colors: ColorMap,
}

/// The three special colours of a palette.
pub struct SpecialColors {
    pub background: String,
    pub foreground: String,
    pub cursor: String,
}

/// The sixteen numbered colours of a palette.
pub struct ColorMap {
    pub color0: String,
    pub color1: String,
    pub color2: String,
    pub color3: String,
    pub color4: String,
    pub color5: String,
    pub color6: String,
    pub color7: String,
    pub color8: String,
    pub color9: String,
    pub color10: String,
    pub color11: String,
    pub color12: String,
    pub color13: String,
    pub color14: String,
    pub color15: String,
}

/// A colour of the interface: one of the sixteen terminal colours, or a
/// colour given by its red, green and blue parts.
#[derive(Debug, Clone, Copy, PartialEq, Eq, Structural)]
pub enum Color {
    Black,
    Red,
    Green,
    Yellow,
    Blue,
    Magenta,
    Cyan,
    Gray,
    DarkGray,
    LightRed,
    LightGreen,
    LightYellow,
    LightBlue,
    LightMagenta,
    LightCyan,
    White,
    Rgb(u8, u8, u8),
}

/// The colours of the interface.
pub struct Theme {
    pub background: Color,
    pub foreground: Color,
    pub cursor: Color,
    pub colors: [Color; 16],
}

/// Why a text is no colour.
#[derive(Debug, Clone, Copy, PartialEq, Eq, Structural)]
pub enum ThemeError {
    /// The text is not an even number of hexadecimal digits.
    NotHex,
    /// The text does not give exactly three bytes.
    WrongLength,
}

/// The value of a hexadecimal digit, in either case.
pub open spec fn hex_value(c: char) -> Option<int> {
    if '0' <= c && c <= '9' {
        Some(c as int - '0' as int)
    } else if 'a' <= c && c <= 'f' {
        Some(c as int - 'a' as int + 10)
    } else if 'A' <= c && c <= 'F' {
        Some(c as int - 'A' as int + 10)
    } else {
        None
    }
}

/// The bytes that a text of hexadecimal digits writes, two digits to a byte;
/// nothing if the text has an odd length or holds anything but hexadecimal
/// digits.
pub open spec fn hex_decoded(s: Seq<char>) -> Option<Seq<u8>> {
    if s.len() % 2 == 0 && (forall|i: int| 0 <= i < s.len() ==> hex_value(#[trigger] s[i]) is Some) {
        Some(
            Seq::new(
                s.len() / 2,
                |i: int| (16 * hex_value(s[2 * i])->0 + hex_value(s[2 * i + 1])->0) as u8,
            ),
        )
    } else {
        None
    }
}

/// The number of hash signs at the start of `s`.
pub open spec fn leading_hashes(s: Seq<char>) -> int
    decreases s.len(),
{
    if s.len() > 0 && s[0] == '#' {
        1 + leading_hashes(s.drop_first())
    } else {
        0
    }
}

/// The colour that a hexadecimal text writes: the hash signs at its start are
/// dropped, and the rest must write exactly three bytes, for red, green and
/// blue.
pub open spec fn color_of(s: Seq<char>) -> Result<Color, ThemeError> {
    let digits = s.subrange(leading_hashes(s), s.len() as int);
    match hex_decoded(digits) {
        Some(bytes) => if bytes.len() == 3 {
            Ok(Color::Rgb(bytes[0], bytes[1], bytes[2]))
        } else {
            Err(ThemeError::WrongLength)
        },
        None => Err(ThemeError::NotHex),
    }
}

/// Calls `hex::decode`, which turns each pair of hexadecimal digits, of
/// either case, into one byte, and fails on a text of odd length or with any
/// other character.
#[verifier::external_body]
fn decode_hex(text: &str) -> (bytes: Result<Vec<u8>, hex::FromHexError>)
    ensures
        match bytes {
            Ok(b) => hex_decoded(text@) == Some(b@),
            Err(_) => hex_decoded(text@) is None,
        },
{
    hex::decode(text)
}

/// Reads a colour from a hexadecimal text such as "#1a2b3c" or "1A2B3C".
pub fn hex_to_color(hex: &str) -> (color: Result<Color, ThemeError>)
    ensures
        color == color_of(hex@),
{
    let chars = chars_of(hex);
    let n: usize = chars.len();
    let mut start: usize = 0;
    assert(chars@.subrange(0, n as int) =~= chars@);
    while start < n && chars[start] == '#'
        invariant
            n == chars@.len(),
            start <= n,
            leading_hashes(chars@) == start + leading_hashes(
                chars@.subrange(start as int, n as int),
            ),
        decreases n - start,
    {
        proof {
            let rest = chars@.subrange(start as int, n as int);
            assert(rest.drop_first() =~= chars@.subrange(start + 1, n as int));
        }
        start += 1;
    }
    let digits = string_of_range(&chars, start, n);
    match decode_hex(digits.as_str()) {
        Ok(bytes) => {
            if bytes.len() != 3 {
                Err(ThemeError::WrongLength)
            } else {
                Ok(Color::Rgb(bytes[0], bytes[1], bytes[2]))
            }
        },
        Err(_) => Err(ThemeError::NotHex),
    }
}

/// The hexadecimal text of the `i`-th numbered colour of a palette.
pub open spec fn numbered(wal: WalColors, i: int) -> Seq<char> {
    if i == 0 {
        wal.colors.color0@
    } else if i == 1 {
        wal.colors.color1@
    } else if i == 2 {
        wal.colors.color2@
    } else if i == 3 {
        wal.colors.color3@
    } else if i == 4 {
        wal.colors.color4@
    } else if i == 5 {
        wal.colors.color5@
    } else if i == 6 {
        wal.colors.color6@
    } else if i == 7 {
        wal.colors.color7@
    } else if i == 8 {
        wal.colors.color8@
    } else if i == 9 {
        wal.colors.color9@
    } else if i == 10 {
        wal.colors.color10@
    } else if i == 11 {
        wal.colors.color11@
    } else if i == 12 {
        wal.colors.color12@
    } else if i == 13 {
        wal.colors.color13@
    } else if i == 14 {
        wal.colors.color14@
    } else {
        wal.colors.color15@
    }
}

/// The texts of a palette that must be colours, in the order in which they
/// are read: the background, the foreground, then the sixteen numbered
/// colours.
pub open spec fn required(wal: WalColors, k: int) -> Seq<char> {
    if k == 0 {
        wal.special.background@
    } else if k == 1 {
        wal.special.foreground@
    } else {
        numbered(wal, k - 2)
    }
}

/// Whether the `k`-th required text is the first that is no colour.
pub open spec fn first_failure(wal: WalColors, k: int) -> bool {
    &&& 0 <= k < 18
    &&& color_of(required(wal, k)) is Err
    &&& forall|j: int| 0 <= j < k ==> color_of(#[trigger] required(wal, j)) is Ok
}

impl Theme {
    /// Builds the theme of a palette. The background, the foreground and the
    /// sixteen numbered colours must all be colours: the first of them that is
    /// not gives the error. A cursor text that is no colour falls back to
    /// white.
    pub fn from_wal(wal: &WalColors) -> (theme: Result<Theme, ThemeError>)
        ensures
            match theme {
                Ok(t) => {
                    &&& color_of(wal.special.background@) == Ok::<Color, ThemeError>(t.background)
                    &&& color_of(wal.special.foreground@) == Ok::<Color, ThemeError>(t.foreground)
                    &&& t.cursor == match color_of(wal.special.cursor@) {
                        Ok(c) => c,
                        Err(_) => Color::White,
                    }
                    &&& forall|i: int|
                        0 <= i < 16 ==> color_of(numbered(*wal, i)) == Ok::<Color, ThemeError>(
                            #[trigger] t.colors@[i],
                        )
                },
                Err(e) => exists|k: int|
                    #[trigger] first_failure(*wal, k) && color_of(required(*wal, k)) == Err::<
                        Color,
                        ThemeError,
                    >(e),
            },
    {
        let background = match hex_to_color(wal.special.background.as_str()) {
            Ok(c) => c,
            Err(e) => {
                assert(first_failure(*wal, 0));
                return Err(e);
            },
        };
        let foreground = match hex_to_color(wal.special.foreground.as_str()) {
            Ok(c) => c,
            Err(e) => {
                assert(required(*wal, 0) == wal.special.background@);
                assert(first_failure(*wal, 1));
                return Err(e);
            },
        };
        let cursor = match hex_to_color(wal.special.cursor.as_str()) {
            Ok(c) => c,
            Err(_) => Color::White,
        };
        let mut colors: [Color; 16] = [Color::Black; 16];
        let mut i: usize = 0;
        while i < 16
            invariant
                i <= 16,
                color_of(required(*wal, 0)) is Ok,
                color_of(required(*wal, 1)) is Ok,
                forall|j: int|
                    0 <= j < i ==> color_of(numbered(*wal, j)) == Ok::<Color, ThemeError>(
                        #[trigger] colors@[j],
                    ),
            decreases 16 - i,
        {
            let text = numbered_text(wal, i);
            match hex_to_color(text) {
                Ok(c) => {
                    colors[i] = c;
                },
                Err(e) => {
                    proof {
                        assert forall|j: int| 0 <= j < i + 2 implies color_of(
                            #[trigger] required(*wal, j),
                        ) is Ok by {
                            if j >= 2 {
                                assert(color_of(numbered(*wal, j - 2)) == Ok::<Color, ThemeError>(
                                    colors@[j - 2],
                                ));
                            }
                        }
                        assert(first_failure(*wal, i + 2));
                    }
                    return Err(e);
                },
            }
            i += 1;
        }
        Ok(Theme { background, foreground, cursor, colors })
    }

    /// The theme used when no palette can be read: the sixteen terminal
    /// colours in their usual order, black as the background, white as the
    /// foreground and the cursor.
    pub fn fallback() -> (t: Theme)
        ensures
            t.background == Color::Black,
            t.foreground == Color::White,
            t.cursor == Color::White,
            t.colors@ == seq![
                Color::Black,
                Color::Red,
                Color::Green,
                Color::Yellow,
                Color::Blue,
                Color::Magenta,
                Color::Cyan,
                Color::Gray,
                Color::DarkGray,
                Color::LightRed,
                Color::LightGreen,
                Color::LightYellow,
                Color::LightBlue,
                Color::LightMagenta,
                Color::LightCyan,
                Color::White,
            ],
    {
        let colors = [
            Color::Black,
            Color::Red,
            Color::Green,
            Color::Yellow,
            Color::Blue,
            Color::Magenta,
            Color::Cyan,
            Color::Gray,
            Color::DarkGray,
            Color::LightRed,
            Color::LightGreen,
            Color::LightYellow,
            Color::LightBlue,
            Color::LightMagenta,
            Color::LightCyan,
            Color::White,
        ];
        let t = Theme {
            background: Color::Black,
            foreground: Color::White,
            cursor: Color::White,
            colors,
        };
        assert(t.colors@ =~= seq![
            Color::Black,
            Color::Red,
            Color::Green,
            Color::Yellow,
            Color::Blue,
            Color::Magenta,
            Color::Cyan,
            Color::Gray,
            Color::DarkGray,
            Color::LightRed,
            Color::LightGreen,
            Color::LightYellow,
            Color::LightBlue,
            Color::LightMagenta,
            Color::LightCyan,
            Color::White,
        ]);
        t
    }
}

/// The hexadecimal text of the `i`-th numbered colour of a palette.
pub fn numbered_text(wal: &WalColors, i: usize) -> (text: &str)
    requires
        i < 16,
    ensures
        text@ == numbered(*wal, i as int),
{
    if i == 0 {
        wal.colors.color0.as_str()
    } else if i == 1 {
        wal.colors.color1.as_str()
    } else if i == 2 {
        wal.colors.color2.as_str()
    } else if i == 3 {
        wal.colors.color3.as_str()
    } else if i == 4 {
        wal.colors.color4.as_str()
    } else if i == 5 {
        wal.colors.color5.as_str()
    } else if i == 6 {
        wal.colors.color6.as_str()
    } else if i == 7 {
        wal.colors.color7.as_str()
    } else if i == 8 {
        wal.colors.color8.as_str()
    } else if i == 9 {
        wal.colors.color9.as_str()
    } else if i == 10 {
        wal.colors.color10.as_str()
    } else if i == 11 {
        wal.colors.color11.as_str()
    } else if i == 12 {
        wal.colors.color12.as_str()
    } else if i == 13 {
        wal.colors.color13.as_str()
    } else if i == 14 {
        wal.colors.color14.as_str()
    } else {
        wal.colors.color15.as_str()
    }
}

} // verus!
