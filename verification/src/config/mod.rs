//! The colours and key bindings of the configuration, and how a colour is
//! written: `#RRGGBB` or `#RRGGBBAA` in hexadecimal digits.

use vstd::prelude::*;

verus! {

/// A colour with an alpha channel, eight bits each.
#[derive(Debug, Clone, Copy, PartialEq, Eq, Structural)]
pub struct Rgba {
    pub r: u8,
    pub g: u8,
    pub b: u8,
    pub a: u8,
}

/// The value of a hexadecimal digit, and `None` for any other character.
pub open spec fn hex_digit(c: char) -> Option<int> {
    if '0' <= c <= '9' {
        Some((c as u32) - 0x30)
    } else if 'a' <= c <= 'f' {
        Some((c as u32) - 0x61 + 10)
    } else if 'A' <= c <= 'F' {
        Some((c as u32) - 0x41 + 10)
    } else {
        None
    }
}

/// `text` without the `#` signs at its start.
pub open spec fn without_hashes(text: Seq<char>) -> Seq<char>
    decreases text.len(),
{
    if text.len() > 0 && text[0] == '#' {
        without_hashes(text.drop_first())
    } else {
        text
    }
}

/// Every character of `digits` is a hexadecimal digit.
pub open spec fn all_hex(digits: Seq<char>) -> bool {
    forall|i: int| 0 <= i < digits.len() ==> hex_digit(#[trigger] digits[i]) is Some
}

/// The byte that the two digits at `at` and `at + 1` write.
pub open spec fn hex_byte(digits: Seq<char>, at: int) -> u8 {
    (16 * hex_digit(digits[at])->0 + hex_digit(digits[at + 1])->0) as u8
}

/// The colour that `text` writes: six hexadecimal digits for red, green and
/// blue, or eight with the alpha channel behind them; `#` signs before the
/// digits are skipped. Any other text writes no colour.
pub open spec fn hex_color(text: Seq<char>) -> Option<Rgba> {
    let digits = without_hashes(text);
    if digits.len() == 6 && all_hex(digits) {
        Some(
            Rgba { r: hex_byte(digits, 0), g: hex_byte(digits, 2), b: hex_byte(digits, 4), a: 255 },
        )
    } else if digits.len() == 8 && all_hex(digits) {
        Some(
            Rgba {
                r: hex_byte(digits, 0),
                g: hex_byte(digits, 2),
                b: hex_byte(digits, 4),
                a: hex_byte(digits, 6),
            },
        )
    } else {
        None
    }
}

/// A thousand times the luminance of a colour on the scale of its
/// channels: `299 r + 587 g + 114 b`.
pub open spec fn luminance(color: Rgba) -> int {
    299 * color.r + 587 * color.g + 114 * color.b
}

/// Whether a background written as `text` is dark: its luminance is below
/// one half. A text that writes no colour counts as dark.
pub open spec fn is_dark(text: Seq<char>) -> bool {
    match hex_color(text) {
        Some(color) => luminance(color) < 127500,
        None => true,
    }
}

/// The value of a hexadecimal digit.
fn digit_value(c: char) -> (v: Option<u8>)
    ensures
        match v {
            Some(d) => hex_digit(c) == Some(d as int) && d < 16,
            None => hex_digit(c) is None,
        },
{
    let u = c as u32;
    if 0x30 <= u && u <= 0x39 {
        Some((u - 0x30) as u8)
    } else if 0x61 <= u && u <= 0x66 {
        Some((u - 0x61 + 10) as u8)
    } else if 0x41 <= u && u <= 0x46 {
        Some((u - 0x41 + 10) as u8)
    } else {
        None
    }
}

/// Reads a colour, see [`hex_color`]: `#RRGGBB` or `#RRGGBBAA`, with or
/// without the `#`; without an alpha channel the colour is opaque.
pub fn parse_hex_color(hex: &str) -> (color: Option<Rgba>)
    ensures
        color == hex_color(hex@),
{
    let len = hex.unicode_len();
    let mut start: usize = 0;
    assert(hex@.subrange(0, len as int) =~= hex@);
    while start < len && hex.get_char(start) == '#'
        invariant
            start <= len,
            len == hex@.len(),
            without_hashes(hex@.subrange(start as int, len as int)) == without_hashes(hex@),
        decreases len - start,
    {
        assert(hex@.subrange(start as int, len as int).drop_first() =~= hex@.subrange(
            start + 1,
            len as int,
        ));
        start += 1;
    }
    let ghost digits = hex@.subrange(start as int, len as int);
    assert(without_hashes(hex@) == digits);
    let count = len - start;
    if count != 6 && count != 8 {
        return None;
    }
    let mut values: Vec<u8> = Vec::new();
    let mut i: usize = 0;
    while i < count
        invariant
            i <= count,
            count == digits.len(),
            start + count == len,
            len == hex@.len(),
            digits == hex@.subrange(start as int, len as int),
            without_hashes(hex@) == digits,
            values@.len() == i,
            forall|j: int|
                0 <= j < i ==> hex_digit(#[trigger] digits[j]) == Some(values@[j] as int)
                    && values@[j] < 16,
        decreases count - i,
    {
        match digit_value(hex.get_char(start + i)) {
            Some(v) => {
                values.push(v);
            },
            None => {
                assert(hex_digit(digits[i as int]) is None);
                return None;
            },
        }
        i += 1;
    }
    let r = values[0] * 16 + values[1];
    let g = values[2] * 16 + values[3];
    let b = values[4] * 16 + values[5];
    let a = if count == 8 {
        values[6] * 16 + values[7]
    } else {
        255
    };
    Some(Rgba { r, g, b, a })
}

/// Whether a background written as `hex` is dark, see [`is_dark`].
pub fn is_dark_background(hex: &str) -> (dark: bool)
    ensures
        dark == is_dark(hex@),
{
    match parse_hex_color(hex) {
        Some(color) => {
            let lum: u32 = 299 * (color.r as u32) + 587 * (color.g as u32) + 114 * (color.b as u32);
            lum < 127500
        },
        None => true,
    }
}

/// The colours of the terminal, each written as [`hex_color`] reads it:
/// background, foreground and cursor, and the sixteen colours of the ANSI
/// palette.
#[derive(Debug, Clone, PartialEq, Eq)]
pub struct ColorsConfig {
    pub background: String,
    pub foreground: String,
    pub cursor: String,
    pub black: String,
    pub red: String,
    pub green: String,
    pub yellow: String,
    pub blue: String,
    pub magenta: String,
    pub cyan: String,
    pub white: String,
    pub bright_black: String,
    pub bright_red: String,
    pub bright_green: String,
    pub bright_yellow: String,
    pub bright_blue: String,
    pub bright_magenta: String,
    pub bright_cyan: String,
    pub bright_white: String,
}

/// The mathematical model of a [`ColorsConfig`].
pub struct ColorsModel {
    pub background: Seq<char>,
    pub foreground: Seq<char>,
    pub cursor: Seq<char>,
    /// The sixteen colours of the palette, from black to bright white.
    pub palette: Seq<Seq<char>>,
}

impl View for ColorsConfig {
    type V = ColorsModel;

    open spec fn view(&self) -> ColorsModel {
        ColorsModel {
            background: self.background@,
            foreground: self.foreground@,
            cursor: self.cursor@,
            palette: Seq::new(16, |i: int| self.entry_text(i)),
        }
    }
}

/// The colours of the dark theme.
pub open spec fn dark_theme() -> ColorsModel {
    ColorsModel {
        background: "#000000"@,
        foreground: "#ffffff"@,
        cursor: "#bf00ff"@,
        palette: seq![
            "#45475a"@,
            "#f38ba8"@,
            "#a6e3a1"@,
            "#f9e2af"@,
            "#89b4fa"@,
            "#f5c2e7"@,
            "#94e2d5"@,
            "#bac2de"@,
            "#585b70"@,
            "#f38ba8"@,
            "#a6e3a1"@,
            "#f9e2af"@,
            "#89b4fa"@,
            "#f5c2e7"@,
            "#94e2d5"@,
            "#a6adc8"@,
        ],
    }
}

/// The colours of the light theme.
pub open spec fn light_theme() -> ColorsModel {
    ColorsModel {
        background: "#eff1f5"@,
        foreground: "#4c4f69"@,
        cursor: "#7c3aed"@,
        palette: seq![
            "#5c5f77"@,
            "#d20f39"@,
            "#40a02b"@,
            "#df8e1d"@,
            "#1e66f5"@,
            "#ea76cb"@,
            "#179299"@,
            "#acb0be"@,
            "#6c6f85"@,
            "#d20f39"@,
            "#40a02b"@,
            "#df8e1d"@,
            "#1e66f5"@,
            "#ea76cb"@,
            "#179299"@,
            "#bcc0cc"@,
        ],
    }
}

/// The black of the palette where the configuration names none.
pub fn default_black() -> (s: String)
    ensures
        s@ == "#45475a"@,
{
    String::from_str("#45475a")
}

/// The red of the palette where the configuration names none.
pub fn default_red() -> (s: String)
    ensures
        s@ == "#f38ba8"@,
{
    String::from_str("#f38ba8")
}

/// The green of the palette where the configuration names none.
pub fn default_green() -> (s: String)
    ensures
        s@ == "#a6e3a1"@,
{
    String::from_str("#a6e3a1")
}

/// The yellow of the palette where the configuration names none.
pub fn default_yellow() -> (s: String)
    ensures
        s@ == "#f9e2af"@,
{
    String::from_str("#f9e2af")
}

/// The blue of the palette where the configuration names none.
pub fn default_blue() -> (s: String)
    ensures
        s@ == "#89b4fa"@,
{
    String::from_str("#89b4fa")
}

/// The magenta of the palette where the configuration names none.
pub fn default_magenta() -> (s: String)
    ensures
        s@ == "#f5c2e7"@,
{
    String::from_str("#f5c2e7")
}

/// The cyan of the palette where the configuration names none.
pub fn default_cyan() -> (s: String)
    ensures
        s@ == "#94e2d5"@,
{
    String::from_str("#94e2d5")
}

/// The white of the palette where the configuration names none.
pub fn default_white() -> (s: String)
    ensures
        s@ == "#bac2de"@,
{
    String::from_str("#bac2de")
}

/// The bright black of the palette where the configuration names none.
pub fn default_bright_black() -> (s: String)
    ensures
        s@ == "#585b70"@,
{
    String::from_str("#585b70")
}

/// The bright red of the palette where the configuration names none.
pub fn default_bright_red() -> (s: String)
    ensures
        s@ == "#f38ba8"@,
{
    String::from_str("#f38ba8")
}

/// The bright green of the palette where the configuration names none.
pub fn default_bright_green() -> (s: String)
    ensures
        s@ == "#a6e3a1"@,
{
    String::from_str("#a6e3a1")
}

/// The bright yellow of the palette where the configuration names none.
pub fn default_bright_yellow() -> (s: String)
    ensures
        s@ == "#f9e2af"@,
{
    String::from_str("#f9e2af")
}

/// The bright blue of the palette where the configuration names none.
pub fn default_bright_blue() -> (s: String)
    ensures
        s@ == "#89b4fa"@,
{
    String::from_str("#89b4fa")
}

/// The bright magenta of the palette where the configuration names none.
pub fn default_bright_magenta() -> (s: String)
    ensures
        s@ == "#f5c2e7"@,
{
    String::from_str("#f5c2e7")
}

/// The bright cyan of the palette where the configuration names none.
pub fn default_bright_cyan() -> (s: String)
    ensures
        s@ == "#94e2d5"@,
{
    String::from_str("#94e2d5")
}

/// The bright white of the palette where the configuration names none.
pub fn default_bright_white() -> (s: String)
    ensures
        s@ == "#a6adc8"@,
{
    String::from_str("#a6adc8")
}

/// The colours of the dark theme: white on black with a violet cursor.
pub fn dark_colors() -> (colors: ColorsConfig)
    ensures
        colors@ == dark_theme(),
{
    let colors = ColorsConfig {
        background: String::from_str("#000000"),
        foreground: String::from_str("#ffffff"),
        cursor: String::from_str("#bf00ff"),
        black: default_black(),
        red: default_red(),
        green: default_green(),
        yellow: default_yellow(),
        blue: default_blue(),
        magenta: default_magenta(),
        cyan: default_cyan(),
        white: default_white(),
        bright_black: default_bright_black(),
        bright_red: default_bright_red(),
        bright_green: default_bright_green(),
        bright_yellow: default_bright_yellow(),
        bright_blue: default_bright_blue(),
        bright_magenta: default_bright_magenta(),
        bright_cyan: default_bright_cyan(),
        bright_white: default_bright_white(),
    };
    assert(colors@.palette =~= dark_theme().palette);
    colors
}

/// The colours of the light theme.
pub fn light_colors() -> (colors: ColorsConfig)
    ensures
        colors@ == light_theme(),
{
    let colors = ColorsConfig {
        background: String::from_str("#eff1f5"),
        foreground: String::from_str("#4c4f69"),
        cursor: String::from_str("#7c3aed"),
        black: String::from_str("#5c5f77"),
        red: String::from_str("#d20f39"),
        green: String::from_str("#40a02b"),
        yellow: String::from_str("#df8e1d"),
        blue: String::from_str("#1e66f5"),
        magenta: String::from_str("#ea76cb"),
        cyan: String::from_str("#179299"),
        white: String::from_str("#acb0be"),
        bright_black: String::from_str("#6c6f85"),
        bright_red: String::from_str("#d20f39"),
        bright_green: String::from_str("#40a02b"),
        bright_yellow: String::from_str("#df8e1d"),
        bright_blue: String::from_str("#1e66f5"),
        bright_magenta: String::from_str("#ea76cb"),
        bright_cyan: String::from_str("#179299"),
        bright_white: String::from_str("#bcc0cc"),
    };
    assert(colors@.palette =~= light_theme().palette);
    colors
}

impl Default for ColorsConfig {
    fn default() -> (colors: Self)
        ensures
            colors@ == dark_theme(),
    {
        dark_colors()
    }
}

/// Opaque white, the colour of a palette entry that cannot be read.
pub open spec fn white() -> Rgba {
    Rgba { r: 255, g: 255, b: 255, a: 255 }
}

/// The colour that `text` writes, and white where it writes none.
pub open spec fn color_or_white(text: Seq<char>) -> Rgba {
    match hex_color(text) {
        Some(color) => color,
        None => white(),
    }
}

/// Reads a palette entry.
fn palette_entry(hex: &String) -> (color: Rgba)
    ensures
        color == color_or_white(hex@),
{
    match parse_hex_color(hex.as_str()) {
        Some(color) => color,
        None => Rgba { r: 255, g: 255, b: 255, a: 255 },
    }
}

impl ColorsConfig {
    /// The text of the palette entry `i`, from black (0) to bright white
    /// (15).
    pub open spec fn entry_text(&self, i: int) -> Seq<char> {
        if i == 0 {
            self.black@
        } else if i == 1 {
            self.red@
        } else if i == 2 {
            self.green@
        } else if i == 3 {
            self.yellow@
        } else if i == 4 {
            self.blue@
        } else if i == 5 {
            self.magenta@
        } else if i == 6 {
            self.cyan@
        } else if i == 7 {
            self.white@
        } else if i == 8 {
            self.bright_black@
        } else if i == 9 {
            self.bright_red@
        } else if i == 10 {
            self.bright_green@
        } else if i == 11 {
            self.bright_yellow@
        } else if i == 12 {
            self.bright_blue@
        } else if i == 13 {
            self.bright_magenta@
        } else if i == 14 {
            self.bright_cyan@
        } else {
            self.bright_white@
        }
    }

    /// The palette entry `i`.
    fn entry(&self, i: usize) -> (text: &String)
        requires
            i < 16,
        ensures
            text@ == self.entry_text(i as int),
    {
        if i == 0 {
            &self.black
        } else if i == 1 {
            &self.red
        } else if i == 2 {
            &self.green
        } else if i == 3 {
            &self.yellow
        } else if i == 4 {
            &self.blue
        } else if i == 5 {
            &self.magenta
        } else if i == 6 {
            &self.cyan
        } else if i == 7 {
            &self.white
        } else if i == 8 {
            &self.bright_black
        } else if i == 9 {
            &self.bright_red
        } else if i == 10 {
            &self.bright_green
        } else if i == 11 {
            &self.bright_yellow
        } else if i == 12 {
            &self.bright_blue
        } else if i == 13 {
            &self.bright_magenta
        } else if i == 14 {
            &self.bright_cyan
        } else {
            &self.bright_white
        }
    }

    /// The sixteen colours of the ANSI palette, from black to bright white;
    /// an entry that cannot be read is white.
    pub fn ansi_palette(&self) -> (palette: [Rgba; 16])
        ensures
            forall|i: int| 0 <= i < 16 ==> #[trigger] palette@[i] == color_or_white(self@.palette[i]),
    {
        let mut palette: [Rgba; 16] = [Rgba { r: 255, g: 255, b: 255, a: 255 }; 16];
        let mut i: usize = 0;
        while i < 16
            invariant
                i <= 16,
                forall|j: int|
                    0 <= j < i ==> #[trigger] palette@[j] == color_or_white(self.entry_text(j)),
            decreases 16 - i,
        {
            palette[i] = palette_entry(self.entry(i));
            i += 1;
        }
        palette
    }

    /// The other theme: the light colours for a dark background, the dark
    /// colours for a light one.
    pub fn toggled(&self) -> (colors: ColorsConfig)
        ensures
            colors@ == if is_dark(self@.background) {
                light_theme()
            } else {
                dark_theme()
            },
    {
        if is_dark_background(self.background.as_str()) {
            light_colors()
        } else {
            dark_colors()
        }
    }
}

/// The shortcuts of the pane commands, written as `Mod+Key`.
#[derive(Debug, Clone, PartialEq, Eq)]
pub struct KeybindingsConfig {
    pub split_horizontal: String,
    pub split_vertical: String,
    pub close_pane: String,
    pub focus_next: String,
    pub focus_prev: String,
}

impl Default for KeybindingsConfig {
    fn default() -> (keys: Self)
        ensures
            keys.split_horizontal@ == "Cmd+D"@,
            keys.split_vertical@ == "Cmd+Shift+D"@,
            keys.close_pane@ == "Cmd+W"@,
            keys.focus_next@ == "Cmd+]"@,
            keys.focus_prev@ == "Cmd+["@,
    {
        KeybindingsConfig {
            split_horizontal: String::from_str("Cmd+D"),
            split_vertical: String::from_str("Cmd+Shift+D"),
            close_pane: String::from_str("Cmd+W"),
            focus_next: String::from_str("Cmd+]"),
            focus_prev: String::from_str("Cmd+["),
        }
    }
}

} // verus!
