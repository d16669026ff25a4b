//! Unicode placeholders: how tmux shows an image, cell by cell.

use vstd::prelude::*;
use vstd::utf8::encode_scalar;
use vstd::utf8::encode_utf8;
use vstd::utf8::encode_utf8_decode_utf8;
use vstd::utf8::is_scalar;

use crate::kitty::display::CursorMovementPolicy;
use crate::kitty::display::DisplayConfig;
use crate::kitty::display::DisplayLocation;
use crate::kitty::id::ImageId;
use crate::text::decimal;
use crate::text::digits;
use crate::text::push_text;
use crate::text::text;

verus! {

broadcast use {crate::text::lemma_append, crate::text::lemma_append_nothing};

/// The character that stands for a cell of an image.
pub const KITTY_PLACEHOLDER_CODEPOINT: u32 = 0x10EEEE;

/// The combining characters that number the rows and columns of an image, from zero on.
pub const DIACRITIC_CODEPOINTS: [u32; 297] = [
    0x0305, 0x030D, 0x030E, 0x0310, 0x0312, 0x033D, 0x033E, 0x033F, 0x0346, 0x034A, 0x034B, 0x034C,
    0x0350, 0x0351, 0x0352, 0x0357, 0x035B, 0x0363, 0x0364, 0x0365, 0x0366, 0x0367, 0x0368, 0x0369,
    0x036A, 0x036B, 0x036C, 0x036D, 0x036E, 0x036F, 0x0483, 0x0484, 0x0485, 0x0486, 0x0487, 0x0592,
    0x0593, 0x0594, 0x0595, 0x0597, 0x0598, 0x0599, 0x059C, 0x059D, 0x059E, 0x059F, 0x05A0, 0x05A1,
    0x05A8, 0x05A9, 0x05AB, 0x05AC, 0x05AF, 0x05C4, 0x0610, 0x0611, 0x0612, 0x0613, 0x0614, 0x0615,
    0x0616, 0x0617, 0x0657, 0x0658, 0x0659, 0x065A, 0x065B, 0x065D, 0x065E, 0x06D6, 0x06D7, 0x06D8,
    0x06D9, 0x06DA, 0x06DB, 0x06DC, 0x06DF, 0x06E0, 0x06E1, 0x06E2, 0x06E4, 0x06E7, 0x06E8, 0x06EB,
    0x06EC, 0x0730, 0x0732, 0x0733, 0x0735, 0x0736, 0x073A, 0x073D, 0x073F, 0x0740, 0x0741, 0x0743,
    0x0745, 0x0747, 0x0749, 0x074A, 0x07EB, 0x07EC, 0x07ED, 0x07EE, 0x07EF, 0x07F0, 0x07F1, 0x07F3,
    0x0816, 0x0817, 0x0818, 0x0819, 0x081B, 0x081C, 0x081D, 0x081E, 0x081F, 0x0820, 0x0821, 0x0822,
    0x0823, 0x0825, 0x0826, 0x0827, 0x0829, 0x082A, 0x082B, 0x082C, 0x082D, 0x0951, 0x0953, 0x0954,
    0x0F82, 0x0F83, 0x0F86, 0x0F87, 0x135D, 0x135E, 0x135F, 0x17DD, 0x193A, 0x1A17, 0x1A75, 0x1A76,
    0x1A77, 0x1A78, 0x1A79, 0x1A7A, 0x1A7B, 0x1A7C, 0x1B6B, 0x1B6D, 0x1B6E, 0x1B6F, 0x1B70, 0x1B71,
    0x1B72, 0x1B73, 0x1CD0, 0x1CD1, 0x1CD2, 0x1CDA, 0x1CDB, 0x1CE0, 0x1DC0, 0x1DC1, 0x1DC3, 0x1DC4,
    0x1DC5, 0x1DC6, 0x1DC7, 0x1DC8, 0x1DC9, 0x1DCB, 0x1DCC, 0x1DD1, 0x1DD2, 0x1DD3, 0x1DD4, 0x1DD5,
    0x1DD6, 0x1DD7, 0x1DD8, 0x1DD9, 0x1DDA, 0x1DDB, 0x1DDC, 0x1DDD, 0x1DDE, 0x1DDF, 0x1DE0, 0x1DE1,
    0x1DE2, 0x1DE3, 0x1DE4, 0x1DE5, 0x1DE6, 0x1DFE, 0x20D0, 0x20D1, 0x20D4, 0x20D5, 0x20D6, 0x20D7,
    0x20DB, 0x20DC, 0x20E1, 0x20E7, 0x20E9, 0x20F0, 0x2CEF, 0x2CF0, 0x2CF1, 0x2DE0, 0x2DE1, 0x2DE2,
    0x2DE3, 0x2DE4, 0x2DE5, 0x2DE6, 0x2DE7, 0x2DE8, 0x2DE9, 0x2DEA, 0x2DEB, 0x2DEC, 0x2DED, 0x2DEE,
    0x2DEF, 0x2DF0, 0x2DF1, 0x2DF2, 0x2DF3, 0x2DF4, 0x2DF5, 0x2DF6, 0x2DF7, 0x2DF8, 0x2DF9, 0x2DFA,
    0x2DFB, 0x2DFC, 0x2DFD, 0x2DFE, 0x2DFF, 0xA66F, 0xA67C, 0xA67D, 0xA6F0, 0xA6F1, 0xA8E0, 0xA8E1,
    0xA8E2, 0xA8E3, 0xA8E4, 0xA8E5, 0xA8E6, 0xA8E7, 0xA8E8, 0xA8E9, 0xA8EA, 0xA8EB, 0xA8EC, 0xA8ED,
    0xA8EE, 0xA8EF, 0xA8F0, 0xA8F1, 0xAAB0, 0xAAB2, 0xAAB3, 0xAAB7, 0xAAB8, 0xAABE, 0xAABF, 0xAAC1,
    0xFE20, 0xFE21, 0xFE22, 0xFE23, 0xFE24, 0xFE25, 0xFE26, 0x10A0F, 0x10A38, 0x1D185, 0x1D186,
    0x1D187, 0x1D188, 0x1D189, 0x1D1AA, 0x1D1AB, 0x1D1AC, 0x1D1AD, 0x1D242, 0x1D243, 0x1D244,
];

/// The combining character that numbers a row or column.
#[verifier::opaque]
pub open spec fn diacritic(i: int) -> u32 {
    DIACRITIC_CODEPOINTS@[i]
}

/// A position of the cursor in cells.
#[derive(Clone, Copy, Debug, PartialEq, Eq, Structural)]
pub struct Pos {
    pub x: u16,
    pub y: u16,
}

/// The nearest number of cells that the combining characters can number, and no less than one.
pub open spec fn capped_cells(n: u16) -> u16 {
    if n < 1 {
        1
    } else if n > 297 {
        297
    } else {
        n
    }
}

/// The numbers of columns and rows that placeholders can show.
pub fn tmux_placeholder_cells(cols: u16, rows: u16) -> (r: (u16, u16))
    ensures
        r.0 == capped_cells(cols),
        r.1 == capped_cells(rows),
{
    let max: u16 = DIACRITIC_CODEPOINTS.len() as u16;
    let capped_cols: u16 = if cols < 1 {
        1
    } else if cols > max {
        max
    } else {
        cols
    };
    let capped_rows: u16 = if rows < 1 {
        1
    } else if rows > max {
        max
    } else {
        rows
    };
    (capped_cols, capped_rows)
}

/// The UTF-8 bytes of a code point; nothing for a number that is no character.
pub open spec fn codepoint_bytes(codepoint: u32) -> Seq<u8> {
    if is_scalar(codepoint) {
        encode_scalar(codepoint)
    } else {
        Seq::empty()
    }
}

/// Appends the UTF-8 bytes of a code point; nothing for a number that is no character.
pub fn append_codepoint(buf: &mut Vec<u8>, codepoint: u32)
    ensures
        final(buf)@ == old(buf)@ + codepoint_bytes(codepoint),
{
    let c: u32 = codepoint;
    if c <= 0x7F {
        buf.push((c & 0x7F) as u8);
    } else if c <= 0x7FF {
        buf.push(0xC0 | ((c >> 6) & 0x1F) as u8);
        buf.push(0x80 | (c & 0x3F) as u8);
    } else if c <= 0xFFFF {
        if c < 0xD800 || c > 0xDFFF {
            buf.push(0xE0 | ((c >> 12) & 0x0F) as u8);
            buf.push(0x80 | ((c >> 6) & 0x3F) as u8);
            buf.push(0x80 | (c & 0x3F) as u8);
        }
    } else if c <= 0x10FFFF {
        buf.push(0xF0 | ((c >> 18) & 0x7) as u8);
        buf.push(0x80 | ((c >> 12) & 0x3F) as u8);
        buf.push(0x80 | ((c >> 6) & 0x3F) as u8);
        buf.push(0x80 | (c & 0x3F) as u8);
    }
    assert(buf@ =~= old(buf)@ + codepoint_bytes(codepoint));
}

/// The bytes of the combining character for a row or column; nothing beyond the last one.
pub open spec fn diacritic_bytes(value: u16) -> Seq<u8> {
    if value < 297 {
        codepoint_bytes(diacritic(value as int))
    } else {
        Seq::empty()
    }
}

/// Appends the combining character for a row or column; nothing beyond the last one.
pub fn append_diacritic(buf: &mut Vec<u8>, value: u16)
    ensures
        final(buf)@ == old(buf)@ + diacritic_bytes(value),
{
    if (value as usize) < DIACRITIC_CODEPOINTS.len() {
        reveal(diacritic);
        append_codepoint(buf, DIACRITIC_CODEPOINTS[value as usize]);
    }
}

/// The sequence that sets a colour, of the text or of the underline, to an identifier: its lower
/// three bytes are the red, green and blue parts.
pub open spec fn color_bytes(sgr_key: u8, id: ImageId) -> Seq<u8> {
    text("\x1b[") + encode_utf8(digits(sgr_key as nat)) + text(":2:") + encode_utf8(
        digits((id@ / 65536 % 256) as nat),
    ) + text(":") + encode_utf8(digits((id@ / 256 % 256) as nat)) + text(":") + encode_utf8(
        digits((id@ % 256) as nat),
    ) + text("m")
}

/// Appends the sequence that sets a colour to an identifier.
pub fn append_tmux_image_color(buf: &mut Vec<u8>, sgr_key: u8, id: ImageId)
    ensures
        final(buf)@ == old(buf)@ + color_bytes(sgr_key, id),
{
    let id: u32 = id.get();
    push_text(buf, "\x1b[");
    push_text(buf, decimal(sgr_key as u128).as_str());
    push_text(buf, ":2:");
    push_text(buf, decimal((id / 65536 % 256) as u128).as_str());
    push_text(buf, ":");
    push_text(buf, decimal((id / 256 % 256) as u128).as_str());
    push_text(buf, ":");
    push_text(buf, decimal((id % 256) as u128).as_str());
    push_text(buf, "m");
}

/// The colours that name an image and, where there is one, its placement.
pub open spec fn placeholder_colors(image_id: ImageId, placement_id: Option<ImageId>) -> Seq<u8> {
    color_bytes(38, image_id) + (match placement_id {
        Some(p) => color_bytes(58, p),
        None => Seq::empty(),
    })
}

/// Appends the colours that name an image and, where there is one, its placement.
pub fn append_tmux_placeholder_colors(
    buf: &mut Vec<u8>,
    image_id: ImageId,
    placement_id: Option<ImageId>,
)
    ensures
        final(buf)@ == old(buf)@ + placeholder_colors(image_id, placement_id),
{
    append_tmux_image_color(buf, 38, image_id);
    if let Some(placement_id) = placement_id {
        append_tmux_image_color(buf, 58, placement_id);
    }
}

/// The bytes that take the colours back.
pub open spec fn plain_colors(placement_id: Option<ImageId>) -> Seq<u8> {
    text("\x1b[39m") + (if placement_id is Some {
        text("\x1b[59m")
    } else {
        Seq::empty()
    })
}

/// Appends the bytes that take the colours back.
fn append_plain_colors(buf: &mut Vec<u8>, placement_id: Option<ImageId>)
    ensures
        final(buf)@ == old(buf)@ + plain_colors(placement_id),
{
    push_text(buf, "\x1b[39m");
    if placement_id.is_some() {
        push_text(buf, "\x1b[59m");
    }
}

/// The placeholder for the cell at a row and column of an image.
pub open spec fn cell_bytes(row: u16, col: u16) -> Seq<u8> {
    codepoint_bytes(KITTY_PLACEHOLDER_CODEPOINT) + diacritic_bytes(row) + diacritic_bytes(col)
}

/// The placeholders for the first `n` columns of a row.
pub open spec fn row_cells(row: u16, n: nat) -> Seq<u8>
    decreases n,
{
    if n == 0 {
        Seq::empty()
    } else {
        row_cells(row, (n - 1) as nat) + cell_bytes(row, (n - 1) as u16)
    }
}

/// One row of an image: past the cells left of it, its placeholders, and on to the next row
/// where there is one.
pub open spec fn row_bytes(
    row: u16,
    image_id: ImageId,
    placement_id: Option<ImageId>,
    x: u16,
    cols: u16,
    rows: u16,
) -> Seq<u8> {
    (if x > 0 {
        text("\x1b[") + encode_utf8(digits(x as nat)) + text("C")
    } else {
        Seq::empty()
    }) + row_cells(row, cols as nat) + (if row + 1 < rows {
        plain_colors(placement_id) + text("\n\r") + placeholder_colors(image_id, placement_id)
    } else {
        Seq::empty()
    })
}

/// The first `n` rows of an image.
pub open spec fn rows_bytes(
    n: nat,
    image_id: ImageId,
    placement_id: Option<ImageId>,
    x: u16,
    cols: u16,
    rows: u16,
) -> Seq<u8>
    decreases n,
{
    if n == 0 {
        Seq::empty()
    } else {
        rows_bytes((n - 1) as nat, image_id, placement_id, x, cols, rows) + row_bytes(
            (n - 1) as u16,
            image_id,
            placement_id,
            x,
            cols,
            rows,
        )
    }
}

/// The placeholders of an image at a position, in as many columns and rows as can be numbered;
/// the cursor is put back behind them if asked for.
pub open spec fn placeholders(
    image_id: ImageId,
    placement_id: Option<ImageId>,
    pos: Pos,
    cols: u16,
    rows: u16,
    restore_cursor: bool,
) -> Seq<u8> {
    (if restore_cursor {
        text("\x1b7")
    } else {
        Seq::empty()
    }) + text("\x1b[") + encode_utf8(digits((pos.y + 1) as nat)) + text(";1H")
        + placeholder_colors(image_id, placement_id) + rows_bytes(
        capped_cells(rows) as nat,
        image_id,
        placement_id,
        pos.x,
        capped_cells(cols),
        capped_cells(rows),
    ) + plain_colors(placement_id) + (if restore_cursor {
        text("\x1b8")
    } else {
        Seq::empty()
    })
}

/// Appends the placeholder for a cell.
fn append_cell(buf: &mut Vec<u8>, row: u16, col: u16)
    ensures
        final(buf)@ == old(buf)@ + cell_bytes(row, col),
{
    append_codepoint(buf, KITTY_PLACEHOLDER_CODEPOINT);
    append_diacritic(buf, row);
    append_diacritic(buf, col);
}

/// Appends one row of an image.
fn append_row(
    buf: &mut Vec<u8>,
    row: u16,
    image_id: ImageId,
    placement_id: Option<ImageId>,
    x: u16,
    cols: u16,
    rows: u16,
)
    requires
        row < rows,
    ensures
        final(buf)@ == old(buf)@ + row_bytes(row, image_id, placement_id, x, cols, rows),
{
    if x > 0 {
        push_text(buf, "\x1b[");
        push_text(buf, decimal(x as u128).as_str());
        push_text(buf, "C");
    }
    let ghost start = buf@;
    let mut col: u16 = 0;
    while col < cols
        invariant
            col <= cols,
            buf@ == start + row_cells(row, col as nat),
        decreases cols - col,
    {
        append_cell(buf, row, col);
        col += 1;
    }
    if row + 1 < rows {
        append_plain_colors(buf, placement_id);
        push_text(buf, "\n\r");
        append_tmux_placeholder_colors(buf, image_id, placement_id);
    }
}

/// Appends the placeholders of an image.
pub fn append_tmux_placeholders(
    buf: &mut Vec<u8>,
    image_id: ImageId,
    placement_id: Option<ImageId>,
    pos: Pos,
    cols: u16,
    rows: u16,
    restore_cursor: bool,
)
    ensures
        final(buf)@ == old(buf)@ + placeholders(
            image_id,
            placement_id,
            pos,
            cols,
            rows,
            restore_cursor,
        ),
{
    let (capped_cols, capped_rows) = tmux_placeholder_cells(cols, rows);
    if restore_cursor {
        push_text(buf, "\x1b7");
    }
    push_text(buf, "\x1b[");
    push_text(buf, decimal(pos.y as u128 + 1).as_str());
    push_text(buf, ";1H");
    append_tmux_placeholder_colors(buf, image_id, placement_id);
    let ghost start = buf@;
    let mut row: u16 = 0;
    while row < capped_rows
        invariant
            row <= capped_rows,
            buf@ == start + rows_bytes(
                row as nat,
                image_id,
                placement_id,
                pos.x,
                capped_cols,
                capped_rows,
            ),
        decreases capped_rows - row,
    {
        append_row(buf, row, image_id, placement_id, pos.x, capped_cols, capped_rows);
        row += 1;
    }
    append_plain_colors(buf, placement_id);
    if restore_cursor {
        push_text(buf, "\x1b8");
    }
}

/// How an image is shown at a location: the cursor stays, and inside tmux the placement is a
/// virtual one with as many cells as can be numbered.
pub open spec fn spec_display_config_for(
    display_loc: DisplayLocation,
    tmux_passthrough: bool,
) -> DisplayConfig {
    DisplayConfig {
        location: if tmux_passthrough {
            DisplayLocation {
                columns: capped_cells(display_loc.columns),
                rows: capped_cells(display_loc.rows),
                ..display_loc
            }
        } else {
            display_loc
        },
        cursor_movement: CursorMovementPolicy::DontMove,
        create_virtual_placement: tmux_passthrough,
        parent_id: None,
        parent_placement: None,
    }
}

/// How an image is shown at a location.
pub fn display_config_for(display_loc: DisplayLocation, tmux_passthrough: bool) -> (r:
    DisplayConfig)
    ensures
        r == spec_display_config_for(display_loc, tmux_passthrough),
{
    let mut location = display_loc;
    if tmux_passthrough {
        let (cols, rows) = tmux_placeholder_cells(location.columns, location.rows);
        location.columns = cols;
        location.rows = rows;
    }
    DisplayConfig {
        location,
        cursor_movement: CursorMovementPolicy::DontMove,
        create_virtual_placement: tmux_passthrough,
        ..DisplayConfig::default()
    }
}

/// The combining characters come in order: a later one is greater.
pub proof fn lemma_diacritics_increase(i: int, j: int)
    requires
        0 <= i < j < 297,
    ensures
        diacritic(i) < diacritic(j),
    decreases j - i,
{
    lemma_next_diacritic(i);
    if i + 1 < j {
        lemma_diacritics_increase(i + 1, j);
    }
}

/// Each combining character is greater than the one before.
proof fn lemma_next_diacritic(i: int)
    requires
        0 <= i < 296,
    ensures
        diacritic(i) < diacritic(i + 1),
{
    reveal(diacritic);
}

/// Every row and column up to the last has a combining character.
pub proof fn lemma_diacritics_are_characters(i: int)
    requires
        0 <= i < 297,
    ensures
        is_scalar(diacritic(i)),
{
    reveal(diacritic);
}

/// Every cell that is written has its number: rows and columns are capped to those that have a
/// combining character.
pub proof fn lemma_cells_are_numbered(cells: u16, i: u16)
    requires
        i < capped_cells(cells),
    ensures
        1 <= capped_cells(cells) <= 297,
        is_scalar(diacritic(i as int)),
        diacritic_bytes(i).len() > 0,
{
    lemma_diacritics_are_characters(i as int);
}

/// The cells of an image are told apart: two cells with the same placeholder are the same cell.
pub proof fn lemma_cells_differ(row: u16, col: u16, other_row: u16, other_col: u16)
    requires
        row < 297,
        col < 297,
        other_row < 297,
        other_col < 297,
        cell_bytes(row, col) == cell_bytes(other_row, other_col),
    ensures
        row == other_row,
        col == other_col,
{
    let a = cell_chars(row, col);
    let b = cell_chars(other_row, other_col);
    lemma_cell_chars(row, col);
    lemma_cell_chars(other_row, other_col);
    encode_utf8_decode_utf8(a);
    encode_utf8_decode_utf8(b);
    assert(a == b);
    assert(a[1] == b[1] && a[2] == b[2]);
    lemma_same_diacritic(row, other_row);
    lemma_same_diacritic(col, other_col);
}

/// The characters of a placeholder.
pub open spec fn cell_chars(row: u16, col: u16) -> Seq<char> {
    seq![
        KITTY_PLACEHOLDER_CODEPOINT as char,
        diacritic(row as int) as char,
        diacritic(col as int) as char,
    ]
}

/// The bytes of a placeholder are those of its characters.
pub proof fn lemma_cell_chars(row: u16, col: u16)
    requires
        row < 297,
        col < 297,
    ensures
        encode_utf8(cell_chars(row, col)) == cell_bytes(row, col),
{
    let c = cell_chars(row, col);
    lemma_diacritics_are_characters(row as int);
    lemma_diacritics_are_characters(col as int);
    reveal_with_fuel(encode_utf8, 4);
    assert(c.drop_first() =~= seq![c[1], c[2]]);
    assert(c.drop_first().drop_first() =~= seq![c[2]]);
    assert(c.drop_first().drop_first().drop_first() =~= Seq::empty());
    assert(encode_utf8(c) =~= cell_bytes(row, col));
}

/// Rows or columns with the same combining character are the same.
proof fn lemma_same_diacritic(i: u16, j: u16)
    requires
        i < 297,
        j < 297,
        diacritic(i as int) as char == diacritic(j as int) as char,
    ensures
        i == j,
{
    lemma_diacritics_are_characters(i as int);
    lemma_diacritics_are_characters(j as int);
    if i < j {
        lemma_diacritics_increase(i as int, j as int);
    } else if j < i {
        lemma_diacritics_increase(j as int, i as int);
    }
}

} // verus!
