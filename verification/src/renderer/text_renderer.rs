//! The colour of the text of a cell.

use vstd::prelude::*;
use crate::config::{hex_digit, Rgba};
use crate::terminal::cell::{Cell, Color};
use crate::terminal::parser::{columns_of, display_width, is_control_char};

verus! {

/// The intensity of the level `v` of the 6 × 6 × 6 colour cube: 0, 95, 135,
/// 175, 215, 255.
pub open spec fn cube_level(v: int) -> int {
    if v == 0 {
        0
    } else {
        55 + 40 * v
    }
}

/// The colour of the entry `i` of the 256-colour palette that the
/// configuration does not set: 16 to 231 are a 6 × 6 × 6 cube, 232 to 255
/// a ramp of 24 greys from black to white. The entries below 16 are read
/// from the configuration; here they are white.
pub open spec fn xterm256(i: u8) -> Rgba {
    if i < 16 {
        Rgba { r: 255, g: 255, b: 255, a: 255 }
    } else if i >= 232 {
        let grey = ((i - 232) * 255 / 23) as u8;
        Rgba { r: grey, g: grey, b: grey, a: 255 }
    } else {
        let n = i - 16;
        Rgba {
            r: cube_level((n / 36) % 6) as u8,
            g: cube_level((n / 6) % 6) as u8,
            b: cube_level(n % 6) as u8,
            a: 255,
        }
    }
}

/// The colour that `color` stands for: the default foreground, an entry of
/// the palette (the first sixteen from the configuration), or the direct
/// colour, opaque.
pub open spec fn resolved(color: Color, default_fg: Rgba, palette: Seq<Rgba>) -> Rgba {
    match color {
        Color::Default => default_fg,
        Color::Indexed(i) => if i < 16 {
            palette[i as int]
        } else {
            xterm256(i)
        },
        Color::Rgb(r, g, b) => Rgba { r, g, b, a: 255 },
    }
}

/// The intensity of a level of the colour cube.
fn level(v: u8) -> (l: u8)
    requires
        v < 6,
    ensures
        l == cube_level(v as int),
{
    if v == 0 {
        0
    } else {
        55 + 40 * v
    }
}

/// The colour of an entry of the 256-colour palette, see [`xterm256`].
pub fn xterm256_to_rgba(i: u8) -> (color: Rgba)
    ensures
        color == xterm256(i),
{
    if i < 16 {
        return Rgba { r: 255, g: 255, b: 255, a: 255 };
    }
    if i >= 232 {
        let grey = ((i - 232) as u32 * 255 / 23) as u8;
        return Rgba { r: grey, g: grey, b: grey, a: 255 };
    }
    let n = i - 16;
    Rgba { r: level((n / 36) % 6), g: level((n / 6) % 6), b: level(n % 6), a: 255 }
}

/// The colour that `color` stands for, see [`resolved`].
pub fn resolve_color(color: &Color, default_fg: Rgba, palette: &[Rgba; 16]) -> (rgba: Rgba)
    ensures
        rgba == resolved(*color, default_fg, palette@),
{
    match color {
        Color::Default => default_fg,
        Color::Indexed(i) => {
            if *i < 16 {
                palette[*i as usize]
            } else {
                xterm256_to_rgba(*i)
            }
        },
        Color::Rgb(r, g, b) => Rgba { r: *r, g: *g, b: *b, a: 255 },
    }
}

/// Whether a colour code `#RRGGBB` starts at `col`: a `#`, six hexadecimal
/// digits, and no seventh behind them.
pub open spec fn is_hex_code_at(row: Seq<Cell>, col: int) -> bool {
    &&& 0 <= col
    &&& col + 6 < row.len()
    &&& row[col].ch == '#'
    &&& forall|k: int| 1 <= k <= 6 ==> hex_digit((#[trigger] row[col + k]).ch) is Some
    &&& !(col + 7 < row.len() && hex_digit(row[col + 7].ch) is Some)
}

/// The colour that the code at `col` writes.
pub open spec fn hex_code_color(row: Seq<Cell>, col: int) -> Rgba {
    Rgba {
        r: (16 * hex_digit(row[col + 1].ch)->0 + hex_digit(row[col + 2].ch)->0) as u8,
        g: (16 * hex_digit(row[col + 3].ch)->0 + hex_digit(row[col + 4].ch)->0) as u8,
        b: (16 * hex_digit(row[col + 5].ch)->0 + hex_digit(row[col + 6].ch)->0) as u8,
        a: 255,
    }
}

/// The seven cells of a colour code at `col`, each with the colour that the
/// code writes.
pub open spec fn code_cells(col: int, color: Rgba) -> Seq<(int, Rgba)> {
    Seq::new(7, |k: int| (col + k, color))
}

/// The cells of `row` from `col` on that belong to a colour code, each with
/// the colour that its code writes.
pub open spec fn hex_overrides_from(row: Seq<Cell>, col: int) -> Seq<(int, Rgba)>
    decreases row.len() - col,
{
    if col < 0 || col + 6 >= row.len() {
        Seq::empty()
    } else if is_hex_code_at(row, col) {
        code_cells(col, hex_code_color(row, col)) + hex_overrides_from(row, col + 7)
    } else {
        hex_overrides_from(row, col + 1)
    }
}

/// What a list of overrides holds.
pub open spec fn overrides_view(overrides: Seq<(usize, Rgba)>) -> Seq<(int, Rgba)> {
    Seq::new(overrides.len(), |i: int| (overrides[i].0 as int, overrides[i].1))
}

/// The value of the hexadecimal digit in a cell.
fn cell_digit(cell: &Cell) -> (v: Option<u8>)
    ensures
        match v {
            Some(d) => hex_digit(cell.ch) == Some(d as int) && d < 16,
            None => hex_digit(cell.ch) is None,
        },
{
    let u = cell.ch as u32;
    if 0x30 <= u && u <= 0x39 {
        Some((u - 0x30) as u8)
    } else if 0x61 <= u && u <= 0x66 {
        Some((u - 0x61 + 10) as u8)
    } else if 0x41 <= u && u <= 0x46 {
        Some((u - 0x41 + 10) as u8)
    } else {
        None
    }
}

/// The colour of the code that starts at `col`, if one does.
fn hex_code_at(row: &[Cell], col: usize) -> (color: Option<Rgba>)
    requires
        col + 6 < row@.len(),
    ensures
        match color {
            Some(c) => is_hex_code_at(row@, col as int) && c == hex_code_color(row@, col as int),
            None => !is_hex_code_at(row@, col as int),
        },
{
    if row[col].ch != '#' {
        return None;
    }
    let mut values: Vec<u8> = Vec::new();
    let mut k: usize = 1;
    while k <= 6
        invariant
            1 <= k <= 7,
            col + 6 < row@.len(),
            col + 7 <= usize::MAX,
            values@.len() == k - 1,
            forall|j: int|
                1 <= j < k ==> hex_digit((#[trigger] row@[col + j]).ch) == Some(
                    values@[j - 1] as int,
                ) && values@[j - 1] < 16,
        decreases 7 - k,
    {
        match cell_digit(&row[col + k]) {
            Some(v) => {
                values.push(v);
            },
            None => {
                return None;
            },
        }
        k += 1;
    }
    if col + 7 < row.len() && cell_digit(&row[col + 7]).is_some() {
        return None;
    }
    proof {
        assert(hex_digit(row@[col + 1].ch) == Some(values@[0] as int) && values@[0] < 16);
        assert(hex_digit(row@[col + 2].ch) == Some(values@[1] as int) && values@[1] < 16);
        assert(hex_digit(row@[col + 3].ch) == Some(values@[2] as int) && values@[2] < 16);
        assert(hex_digit(row@[col + 4].ch) == Some(values@[3] as int) && values@[3] < 16);
        assert(hex_digit(row@[col + 5].ch) == Some(values@[4] as int) && values@[4] < 16);
        assert(hex_digit(row@[col + 6].ch) == Some(values@[5] as int) && values@[5] < 16);
    }
    Some(
        Rgba {
            r: values[0] * 16 + values[1],
            g: values[2] * 16 + values[3],
            b: values[4] * 16 + values[5],
            a: 255,
        },
    )
}

/// Finds the colour codes of a row: a `#` with six hexadecimal digits
/// behind it and no seventh. Each of the seven cells of a code is listed
/// with the colour that the code writes, so that the code is shown in its
/// own colour.
pub fn detect_hex_colors(row: &[Cell]) -> (overrides: Vec<(usize, Rgba)>)
    ensures
        overrides_view(overrides@) == hex_overrides_from(row@, 0),
{
    let mut overrides: Vec<(usize, Rgba)> = Vec::new();
    let len = row.len();
    let mut col: usize = 0;
    assert(overrides_view(overrides@) + hex_overrides_from(row@, 0) =~= hex_overrides_from(row@, 0));
    while len > 6 && col < len - 6
        invariant
            len == row@.len(),
            overrides_view(overrides@) + hex_overrides_from(row@, col as int)
                == hex_overrides_from(row@, 0),
        decreases len - col,
    {
        match hex_code_at(row, col) {
            Some(color) => {
                let ghost before = overrides_view(overrides@);
                let mut k: usize = 0;
                while k < 7
                    invariant
                        k <= 7,
                        col + 6 < len,
                        overrides_view(overrides@) == before + code_cells(
                            col as int,
                            color,
                        ).subrange(0, k as int),
                    decreases 7 - k,
                {
                    let ghost so_far = overrides_view(overrides@);
                    overrides.push((col + k, color));
                    assert(overrides_view(overrides@) =~= so_far.push((col + k, color)));
                    assert(overrides_view(overrides@) =~= before + code_cells(
                        col as int,
                        color,
                    ).subrange(0, k + 1));
                    k += 1;
                }
                assert(code_cells(col as int, color).subrange(0, 7) =~= code_cells(
                    col as int,
                    color,
                ));
                assert((before + code_cells(col as int, color)) + hex_overrides_from(row@, col + 7)
                    =~= before + (code_cells(col as int, color) + hex_overrides_from(
                    row@,
                    col + 7,
                )));
                col += 7;
            },
            None => {
                col += 1;
            },
        }
    }
    assert(overrides_view(overrides@) + Seq::<(int, Rgba)>::empty() =~= overrides_view(
        overrides@,
    ));
    overrides
}

/// The colour in which the text of the cell `col` of `row` is drawn: that
/// of the colour code the cell belongs to, if it belongs to one; else the
/// background of the cell if the cell is in reverse video, and its
/// foreground if it is not.
pub open spec fn text_color(
    cell: Cell,
    col: int,
    overrides: Seq<(int, Rgba)>,
    default_fg: Rgba,
    palette: Seq<Rgba>,
) -> Rgba {
    if exists|i: int| 0 <= i < overrides.len() && (#[trigger] overrides[i]).0 == col {
        let i = choose|i: int|
            0 <= i < overrides.len() && (#[trigger] overrides[i]).0 == col && forall|j: int|
                0 <= j < i ==> (#[trigger] overrides[j]).0 != col;
        overrides[i].1
    } else if cell.attrs.reverse {
        resolved(cell.attrs.bg, default_fg, palette)
    } else {
        resolved(cell.attrs.fg, default_fg, palette)
    }
}

/// The colour in which the text of a cell is drawn, see [`text_color`].
pub fn cell_text_color(
    cell: &Cell,
    col: usize,
    overrides: &Vec<(usize, Rgba)>,
    default_fg: Rgba,
    palette: &[Rgba; 16],
) -> (color: Rgba)
    ensures
        color == text_color(*cell, col as int, overrides_view(overrides@), default_fg, palette@),
{
    let ghost list = overrides_view(overrides@);
    let mut i: usize = 0;
    while i < overrides.len()
        invariant
            i <= overrides@.len(),
            list == overrides_view(overrides@),
            forall|j: int| 0 <= j < i ==> (#[trigger] list[j]).0 != col,
        decreases overrides@.len() - i,
    {
        if overrides[i].0 == col {
            proof {
                assert(list[i as int].0 == col);
                let found = choose|k: int|
                    0 <= k < list.len() && (#[trigger] list[k]).0 == col && forall|j: int|
                        0 <= j < k ==> (#[trigger] list[j]).0 != col;
                assert(found == i) by {
                    if found < i {
                        assert(list[found].0 != col);
                    }
                    if i < found {
                        assert(list[i as int].0 != col);
                    }
                }
            }
            return overrides[i].1;
        }
        i += 1;
    }
    if cell.attrs.reverse {
        resolve_color(&cell.attrs.bg, default_fg, palette)
    } else {
        resolve_color(&cell.attrs.fg, default_fg, palette)
    }
}

/// One character to shape and draw: the column of its cell, the
/// character, its colour, and the columns it takes.
#[derive(Debug, Clone, Copy, PartialEq, Eq)]
pub struct Glyph {
    pub col: usize,
    pub ch: char,
    pub color: Rgba,
    pub columns: usize,
}

/// Whether a cell is drawn as text: it is not empty and holds no control
/// character.
pub open spec fn is_drawn(cell: Cell) -> bool {
    !cell.spec_is_empty() && !is_control_char(cell.ch)
}

/// The characters to draw of the first `upto` cells of `row`, from left to
/// right.
pub open spec fn glyphs_upto(
    row: Seq<Cell>,
    upto: int,
    overrides: Seq<(int, Rgba)>,
    default_fg: Rgba,
    palette: Seq<Rgba>,
) -> Seq<Glyph>
    decreases upto,
{
    if upto <= 0 {
        Seq::empty()
    } else {
        let before = glyphs_upto(row, upto - 1, overrides, default_fg, palette);
        let cell = row[upto - 1];
        if is_drawn(cell) {
            before.push(
                Glyph {
                    col: (upto - 1) as usize,
                    ch: cell.ch,
                    color: text_color(cell, upto - 1, overrides, default_fg, palette),
                    columns: display_width(cell.ch) as usize,
                },
            )
        } else {
            before
        }
    }
}

/// The characters to shape for a row: one for each cell that is neither
/// empty nor a control character, each with its own column, so that text
/// and cursor cannot drift apart; with the colour of [`text_color`], colour
/// codes shown in their own colour; and with the columns that the
/// character takes.
pub fn row_glyphs(row: &[Cell], default_fg: Rgba, palette: &[Rgba; 16]) -> (glyphs: Vec<Glyph>)
    ensures
        glyphs@ == glyphs_upto(
            row@,
            row@.len() as int,
            hex_overrides_from(row@, 0),
            default_fg,
            palette@,
        ),
{
    let overrides = detect_hex_colors(row);
    let mut glyphs: Vec<Glyph> = Vec::new();
    let mut col: usize = 0;
    while col < row.len()
        invariant
            col <= row@.len(),
            overrides_view(overrides@) == hex_overrides_from(row@, 0),
            glyphs@ == glyphs_upto(
                row@,
                col as int,
                hex_overrides_from(row@, 0),
                default_fg,
                palette@,
            ),
        decreases row@.len() - col,
    {
        let cell = row[col];
        let u = cell.ch as u32;
        if !cell.is_empty() && !(u <= 0x1f || (0x7f <= u && u <= 0x9f)) {
            let color = cell_text_color(&cell, col, &overrides, default_fg, palette);
            glyphs.push(Glyph { col, ch: cell.ch, color, columns: columns_of(cell.ch) });
        }
        col += 1;
    }
    glyphs
}

} // verus!
