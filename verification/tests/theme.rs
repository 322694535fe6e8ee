use manga_reader::theme::{hex_to_color, Color, ColorMap, SpecialColors, Theme, ThemeError, WalColors};
use manga_reader::ui_modern::ModernColors;

fn palette() -> WalColors {
    let c = |n: u8| format!("#{:02x}{:02x}{:02x}", n, n, n);
    WalColors {
        special: SpecialColors {
            background: "#000102".to_string(),
            foreground: "#fFeEdD".to_string(),
            cursor: String::new(),
        },
        colors: ColorMap {
            color0: c(0),
            color1: c(1),
            color2: c(2),
            color3: c(3),
            color4: c(4),
            color5: c(5),
            color6: c(6),
            color7: c(7),
            color8: c(8),
            color9: c(9),
            color10: c(10),
            color11: c(11),
            color12: c(12),
            color13: c(13),
            color14: c(14),
            color15: c(15),
        },
    }
}

#[test]
fn hex_colours() {
    assert_eq!(hex_to_color("#1a2b3c"), Ok(Color::Rgb(0x1a, 0x2b, 0x3c)));
    assert_eq!(hex_to_color("1A2B3C"), Ok(Color::Rgb(0x1a, 0x2b, 0x3c)));
    assert_eq!(hex_to_color("##ff0080"), Ok(Color::Rgb(255, 0, 128)));
    assert_eq!(hex_to_color("#000000"), Ok(Color::Rgb(0, 0, 0)));
}

#[test]
fn hex_errors() {
    assert_eq!(hex_to_color("#12345"), Err(ThemeError::NotHex));
    assert_eq!(hex_to_color("#12345g"), Err(ThemeError::NotHex));
    assert_eq!(hex_to_color("12#456"), Err(ThemeError::NotHex));
    assert_eq!(hex_to_color("#éé"), Err(ThemeError::NotHex));
    assert_eq!(hex_to_color("#1234"), Err(ThemeError::WrongLength));
    assert_eq!(hex_to_color("#12345678"), Err(ThemeError::WrongLength));
    assert_eq!(hex_to_color(""), Err(ThemeError::WrongLength));
    assert_eq!(hex_to_color("#"), Err(ThemeError::WrongLength));
}

#[test]
fn theme_of_a_palette() {
    let theme = Theme::from_wal(&palette()).ok().unwrap();
    assert_eq!(theme.background, Color::Rgb(0, 1, 2));
    assert_eq!(theme.foreground, Color::Rgb(0xff, 0xee, 0xdd));
    assert_eq!(theme.cursor, Color::White);
    for i in 0..16u8 {
        assert_eq!(theme.colors[i as usize], Color::Rgb(i, i, i));
    }
    let colors = ModernColors::get_colors(&theme);
    assert_eq!(colors.primary, Color::Rgb(4, 4, 4));
    assert_eq!(colors.accent, Color::Rgb(2, 2, 2));
    assert_eq!(colors.error, Color::Rgb(1, 1, 1));
    assert_eq!(colors.background, Color::Rgb(0, 1, 2));
    assert_eq!(colors.border, Color::Rgb(8, 8, 8));
    assert_eq!(colors.border_focus, Color::Rgb(12, 12, 12));
    assert_eq!(colors.text_primary, Color::Rgb(0xff, 0xee, 0xdd));
    assert_eq!(colors.text_secondary, Color::Rgb(7, 7, 7));
    assert_eq!(colors.text_muted, Color::Rgb(15, 15, 15));
    assert_eq!(colors.success, Color::Rgb(10, 10, 10));
}

#[test]
fn theme_with_a_cursor() {
    let mut wal = palette();
    wal.special.cursor = "#0a0b0c".to_string();
    assert_eq!(Theme::from_wal(&wal).ok().unwrap().cursor, Color::Rgb(10, 11, 12));
}

#[test]
fn first_bad_colour_gives_the_error() {
    let mut wal = palette();
    wal.colors.color3 = "#12".to_string();
    wal.colors.color9 = "zz".to_string();
    assert_eq!(Theme::from_wal(&wal).err(), Some(ThemeError::WrongLength));
    wal.special.foreground = "nope".to_string();
    assert_eq!(Theme::from_wal(&wal).err(), Some(ThemeError::NotHex));
}

#[test]
fn fallback_theme() {
    let t = Theme::fallback();
    assert_eq!(t.background, Color::Black);
    assert_eq!(t.foreground, Color::White);
    assert_eq!(t.colors[1], Color::Red);
    assert_eq!(t.colors[8], Color::DarkGray);
    assert_eq!(t.colors[15], Color::White);
}
