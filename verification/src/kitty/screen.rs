//! What a terminal shows of the placeholders of an image: every cell in its place.

use vstd::prelude::*;
use vstd::utf8::decode_utf8;
use vstd::utf8::encode_utf8;
use vstd::utf8::encode_utf8_decode_utf8;

use crate::kitty::id::ImageId;
use crate::kitty::placeholder::capped_cells;
use crate::kitty::placeholder::cell_bytes;
use crate::kitty::placeholder::cell_chars;
use crate::kitty::placeholder::color_bytes;
use crate::kitty::placeholder::diacritic;
use crate::kitty::placeholder::lemma_cell_chars;
use crate::kitty::placeholder::lemma_diacritics_are_characters;
use crate::kitty::placeholder::placeholder_colors;
use crate::kitty::placeholder::placeholders;
use crate::kitty::placeholder::plain_colors;
use crate::kitty::placeholder::row_bytes;
use crate::kitty::placeholder::row_cells;
use crate::kitty::placeholder::rows_bytes;
use crate::kitty::placeholder::Pos;
use crate::kitty::placeholder::KITTY_PLACEHOLDER_CODEPOINT;
use crate::text::digits;
use crate::text::digits_value;
use crate::text::is_digit;
use crate::text::lemma_digits_are_digits;
use crate::text::lemma_digits_value;
use crate::text::lemma_encode_concat;
use crate::text::lemma_pieces_concat;
use crate::text::lemma_pieces_single;
use crate::text::pieces;
use crate::text::text;

verus! {

/// A cell of the screen: its characters, and the colours that it was written in, where they were
/// set.
pub struct Cell {
    pub chars: Seq<char>,
    pub foreground: Option<nat>,
    pub underline: Option<nat>,
}

/// Where a terminal is within an escape sequence.
pub enum Mode {
    Ground,
    Escape,
    /// Behind an escape and a bracket, with what has followed them.
    Control(Seq<char>),
}

/// A terminal with an unbounded screen: its cells by column and row, the cursor, the cursor that
/// was saved, and the colours that text is written in.
pub struct Terminal {
    pub mode: Mode,
    pub col: int,
    pub row: int,
    pub saved: (int, int),
    pub foreground: Option<nat>,
    pub underline: Option<nat>,
    pub cells: Map<(int, int), Cell>,
}

/// Whether a character is added to the cell before it.
pub open spec fn is_combining(c: char) -> bool {
    exists|i: int| 0 <= i < 297 && c as u32 == #[trigger] diacritic(i)
}

/// The colour that three numbers between colons stand for.
pub open spec fn color_value(parts: Seq<Seq<char>>) -> nat {
    digits_value(parts[2]) * 65536 + digits_value(parts[3]) * 256 + digits_value(parts[4])
}

impl Terminal {
    /// Behind a control sequence: `H` puts the cursor at a row and column, counted from one, `C`
    /// moves it to the right, `m` sets or takes back a colour.
    pub open spec fn controlled(self, p: Seq<char>, last: char) -> Terminal {
        let t = Terminal { mode: Mode::Ground, ..self };
        if last == 'H' {
            let parts = pieces(p, ';');
            Terminal { row: digits_value(parts[0]) - 1, col: digits_value(parts[1]) - 1, ..t }
        } else if last == 'C' {
            Terminal { col: self.col + digits_value(p), ..t }
        } else if last == 'm' {
            let parts = pieces(p, ':');
            if p == seq!['3', '9'] {
                Terminal { foreground: None, ..t }
            } else if p == seq!['5', '9'] {
                Terminal { underline: None, ..t }
            } else if parts.len() == 5 && parts[1] == seq!['2'] && parts[0] == seq!['3', '8'] {
                Terminal { foreground: Some(color_value(parts)), ..t }
            } else if parts.len() == 5 && parts[1] == seq!['2'] && parts[0] == seq!['5', '8'] {
                Terminal { underline: Some(color_value(parts)), ..t }
            } else {
                t
            }
        } else {
            t
        }
    }

    /// Behind a character outside of escape sequences: a line feed goes down and a carriage
    /// return to the left edge, a combining character is added to the cell to the left of the
    /// cursor, and any other character is written where the cursor is.
    pub open spec fn printed(self, c: char) -> Terminal {
        if c == '\n' {
            Terminal { row: self.row + 1, ..self }
        } else if c == '\r' {
            Terminal { col: 0, ..self }
        } else if is_combining(c) {
            let at = (self.col - 1, self.row);
            let cell = self.cells[at];
            Terminal {
                cells: self.cells.insert(at, Cell { chars: cell.chars.push(c), ..cell }),
                ..self
            }
        } else {
            Terminal {
                cells: self.cells.insert(
                    (self.col, self.row),
                    Cell {
                        chars: seq![c],
                        foreground: self.foreground,
                        underline: self.underline,
                    },
                ),
                col: self.col + 1,
                ..self
            }
        }
    }

    /// Behind a character.
    pub open spec fn fed(self, c: char) -> Terminal {
        match self.mode {
            Mode::Ground => if c == '\x1b' {
                Terminal { mode: Mode::Escape, ..self }
            } else {
                self.printed(c)
            },
            Mode::Escape => if c == '[' {
                Terminal { mode: Mode::Control(Seq::empty()), ..self }
            } else if c == '7' {
                Terminal { mode: Mode::Ground, saved: (self.col, self.row), ..self }
            } else if c == '8' {
                Terminal { mode: Mode::Ground, col: self.saved.0, row: self.saved.1, ..self }
            } else {
                Terminal { mode: Mode::Ground, ..self }
            },
            Mode::Control(p) => if '@' <= c <= '~' {
                self.controlled(p, c)
            } else {
                Terminal { mode: Mode::Control(p.push(c)), ..self }
            },
        }
    }

    /// Behind a text.
    pub open spec fn after(self, chars: Seq<char>) -> Terminal
        decreases chars.len(),
    {
        if chars.len() == 0 {
            self
        } else {
            self.after(chars.drop_last()).fed(chars.last())
        }
    }

    /// Behind some bytes.
    pub open spec fn shown(self, bytes: Seq<u8>) -> Terminal {
        self.after(decode_utf8(bytes))
    }
}

/// Text is taken in one part after the other.
proof fn lemma_after_parts(t: Terminal, a: Seq<char>, b: Seq<char>)
    ensures
        t.after(a + b) == t.after(a).after(b),
    decreases b.len(),
{
    if b.len() == 0 {
        assert(a + b =~= a);
    } else {
        lemma_after_parts(t, a, b.drop_last());
        assert((a + b).drop_last() =~= a + b.drop_last());
        assert((a + b).last() == b.last());
    }
}

/// Whether bytes are a text that leads from one state to another.
#[verifier::opaque]
spec fn leads(bytes: Seq<u8>, from: Terminal, to: Terminal) -> bool {
    exists|chars: Seq<char>| bytes == encode_utf8(chars) && #[trigger] from.after(chars) == to
}

/// The text leads where it leads.
proof fn lemma_leads(chars: Seq<char>, from: Terminal)
    ensures
        leads(encode_utf8(chars), from, from.after(chars)),
{
    reveal(leads);
}

/// Bytes that lead to a state, and bytes that lead on from it.
proof fn lemma_leads_on(a: Seq<u8>, b: Seq<u8>, s: Terminal, t: Terminal, u: Terminal)
    requires
        leads(a, s, t),
        leads(b, t, u),
    ensures
        leads(a + b, s, u),
{
    reveal(leads);
    let x = choose|chars: Seq<char>| a == encode_utf8(chars) && #[trigger] s.after(chars) == t;
    let y = choose|chars: Seq<char>| b == encode_utf8(chars) && #[trigger] t.after(chars) == u;
    lemma_encode_concat(x, y);
    lemma_after_parts(s, x, y);
    assert(s.after(x + y) == u);
}

/// No bytes lead nowhere.
proof fn lemma_leads_nowhere(s: Terminal)
    ensures
        leads(Seq::empty(), s, s),
{
    reveal(leads);
    let none = Seq::<char>::empty();
    assert(encode_utf8(none) =~= Seq::<u8>::empty());
    assert(s.after(none) == s);
}

/// Bytes that lead to a state show it.
proof fn lemma_leads_shown(bytes: Seq<u8>, s: Terminal, t: Terminal)
    requires
        leads(bytes, s, t),
    ensures
        s.shown(bytes) == t,
{
    reveal(leads);
    let x = choose|chars: Seq<char>| bytes == encode_utf8(chars) && #[trigger] s.after(chars) == t;
    encode_utf8_decode_utf8(x);
}

/// Whether a text can stand inside of a control sequence: digits, colons and semicolons.
spec fn is_inside(p: Seq<char>) -> bool {
    forall|i: int| 0 <= i < p.len() ==> is_digit(#[trigger] p[i]) || p[i] == ':' || p[i] == ';'
}

/// What stands inside of a control sequence is kept until its end.
proof fn lemma_inside(t: Terminal, p: Seq<char>)
    requires
        t.mode == Mode::Control(Seq::empty()),
        is_inside(p),
    ensures
        t.after(p) == (Terminal { mode: Mode::Control(p), ..t }),
    decreases p.len(),
{
    if p.len() > 0 {
        let q = p.drop_last();
        assert forall|i: int| 0 <= i < q.len() implies is_digit(#[trigger] q[i]) || q[i] == ':'
            || q[i] == ';' by {
            assert(q[i] == p[i]);
        }
        lemma_inside(t, q);
        let c = p[p.len() - 1];
        assert(is_digit(c) || c == ':' || c == ';');
        assert(q.push(c) =~= p);
    } else {
        assert(p =~= Seq::<char>::empty());
    }
}

/// A control sequence as a whole.
proof fn lemma_control(t: Terminal, p: Seq<char>, last: char)
    requires
        t.mode == Mode::Ground,
        is_inside(p),
        '@' <= last <= '~',
    ensures
        t.after(seq!['\x1b', '['] + p + seq![last]) == t.controlled(p, last),
{
    let start = seq!['\x1b', '['];
    let open = Terminal { mode: Mode::Control(Seq::empty()), ..t };
    assert(start.drop_last() =~= seq!['\x1b']);
    assert(seq!['\x1b'].drop_last() =~= Seq::<char>::empty());
    reveal_with_fuel(Terminal::after, 3);
    assert(t.after(start) == open);
    lemma_after_parts(t, start, p);
    lemma_inside(open, p);
    let all = start + p + seq![last];
    assert(all.drop_last() =~= start + p);
    assert(all.last() == last);
}

/// Digits are fit for the inside of a control sequence, and hold no separator.
proof fn lemma_digits_inside(n: nat)
    ensures
        is_inside(digits(n)),
        !digits(n).contains(':'),
        !digits(n).contains(';'),
        digits_value(digits(n)) == n,
{
    lemma_digits_are_digits(n);
    lemma_digits_value(n);
    let d = digits(n);
    assert forall|i: int| 0 <= i < d.len() implies is_digit(#[trigger] d[i]) || d[i] == ':' || d[i]
        == ';' by {
        assert(is_digit(d[i]));
    }
    assert forall|i: int| 0 <= i < d.len() implies d[i] != ':' && d[i] != ';' by {
        assert(is_digit(d[i]));
    }
}

/// Texts that are fit for the inside of a control sequence are so together.
proof fn lemma_inside_parts(a: Seq<char>, b: Seq<char>)
    requires
        is_inside(a),
        is_inside(b),
    ensures
        is_inside(a + b),
{
    let s = a + b;
    assert forall|i: int| 0 <= i < s.len() implies is_digit(#[trigger] s[i]) || s[i] == ':' || s[i]
        == ';' by {
        if i < a.len() {
            assert(s[i] == a[i]);
        } else {
            assert(s[i] == b[i - a.len()]);
        }
    }
}

/// The part of an identifier that a colour holds.
pub open spec fn color_of(id: ImageId) -> nat {
    (id@ % 0x100_0000) as nat
}

/// What stands inside of the sequence that sets a colour.
spec fn color_inside(key: nat, r: nat, g: nat, b: nat) -> Seq<char> {
    (digits(key).push(':') + seq!['2']).push(':') + (digits(r).push(':') + (digits(g).push(':')
        + digits(b)))
}

/// The sequence that sets a colour, taken apart.
proof fn lemma_color_inside(key: nat, r: nat, g: nat, b: nat)
    ensures
        is_inside(color_inside(key, r, g, b)),
        pieces(color_inside(key, r, g, b), ':') == seq![
            digits(key),
            seq!['2'],
            digits(r),
            digits(g),
            digits(b),
        ],
{
    let two = seq!['2'];
    let colon = seq![':'];
    lemma_digits_inside(key);
    lemma_digits_inside(r);
    lemma_digits_inside(g);
    lemma_digits_inside(b);
    lemma_pieces_single(digits(key), ':');
    lemma_pieces_single(two, ':');
    lemma_pieces_single(digits(r), ':');
    lemma_pieces_single(digits(g), ':');
    lemma_pieces_single(digits(b), ':');
    let last = digits(g).push(':') + digits(b);
    let rgb = digits(r).push(':') + last;
    let head = digits(key).push(':') + two;
    lemma_pieces_concat(digits(g), digits(b), ':');
    lemma_pieces_concat(digits(r), last, ':');
    lemma_pieces_concat(digits(key), two, ':');
    lemma_pieces_concat(head, rgb, ':');
    assert(pieces(color_inside(key, r, g, b), ':') =~= seq![
        digits(key),
        two,
        digits(r),
        digits(g),
        digits(b),
    ]);
    assert(is_inside(colon) && is_inside(two));
    lemma_inside_parts(digits(g), colon);
    lemma_inside_parts(digits(g) + colon, digits(b));
    assert(digits(g) + colon + digits(b) =~= last);
    lemma_inside_parts(digits(r), colon);
    lemma_inside_parts(digits(r) + colon, last);
    assert(digits(r) + colon + last =~= rgb);
    lemma_inside_parts(digits(key), colon);
    lemma_inside_parts(digits(key) + colon, two);
    assert(digits(key) + colon + two =~= head);
    lemma_inside_parts(head, colon);
    lemma_inside_parts(head + colon, rgb);
    assert(head + colon + rgb =~= color_inside(key, r, g, b));
}

/// The bytes of the sequence that sets a colour are those of its text.
proof fn lemma_color_text(sgr_key: u8, id: ImageId)
    ensures
        color_bytes(sgr_key, id) == encode_utf8(
            seq!['\x1b', '['] + color_inside(
                sgr_key as nat,
                (id@ / 65536 % 256) as nat,
                (id@ / 256 % 256) as nat,
                (id@ % 256) as nat,
            ) + seq!['m'],
        ),
{
    let k = digits(sgr_key as nat);
    let r = digits((id@ / 65536 % 256) as nat);
    let g = digits((id@ / 256 % 256) as nat);
    let b = digits((id@ % 256) as nat);
    reveal_strlit("\x1b[");
    reveal_strlit(":2:");
    reveal_strlit(":");
    reveal_strlit("m");
    let p1 = "\x1b["@;
    let p2 = p1 + k;
    let p3 = p2 + ":2:"@;
    let p4 = p3 + r;
    let p5 = p4 + ":"@;
    let p6 = p5 + g;
    let p7 = p6 + ":"@;
    let p8 = p7 + b;
    let p9 = p8 + "m"@;
    lemma_encode_concat(p1, k);
    lemma_encode_concat(p2, ":2:"@);
    lemma_encode_concat(p3, r);
    lemma_encode_concat(p4, ":"@);
    lemma_encode_concat(p5, g);
    lemma_encode_concat(p6, ":"@);
    lemma_encode_concat(p7, b);
    lemma_encode_concat(p8, "m"@);
    assert(color_bytes(sgr_key, id) == encode_utf8(p9));
    assert(p9 =~= seq!['\x1b', '['] + color_inside(
        sgr_key as nat,
        (id@ / 65536 % 256) as nat,
        (id@ / 256 % 256) as nat,
        (id@ % 256) as nat,
    ) + seq!['m']);
}

/// The two keys that set a colour, as text.
proof fn lemma_color_keys()
    ensures
        digits(38) == seq!['3', '8'],
        digits(58) == seq!['5', '8'],
        seq!['3', '8'] != seq!['5', '8'],
{
    reveal_with_fuel(digits, 3);
    assert(digits(38) =~= seq!['3', '8']);
    assert(digits(58) =~= seq!['5', '8']);
    assert(seq!['3', '8'][0] != seq!['5', '8'][0]);
}

/// A text with a colon is none of those that take a colour back.
proof fn lemma_sets_color(p: Seq<char>, at: int)
    requires
        0 <= at < p.len(),
        p[at] == ':',
    ensures
        p.contains(':'),
        p != seq!['3', '9'],
        p != seq!['5', '9'],
{
    if p == seq!['3', '9'] {
        assert(p[at] == '3' || p[at] == '9');
    }
    if p == seq!['5', '9'] {
        assert(p[at] == '5' || p[at] == '9');
    }
}

/// Setting a colour.
#[verifier::rlimit(40)]
proof fn lemma_color(t: Terminal, sgr_key: u8, id: ImageId)
    requires
        t.mode == Mode::Ground,
        sgr_key == 38 || sgr_key == 58,
    ensures
        leads(
            color_bytes(sgr_key, id),
            t,
            if sgr_key == 38 {
                Terminal { foreground: Some(color_of(id)), ..t }
            } else {
                Terminal { underline: Some(color_of(id)), ..t }
            },
        ),
{
    let r = (id@ / 65536 % 256) as nat;
    let g = (id@ / 256 % 256) as nat;
    let b = (id@ % 256) as nat;
    let p = color_inside(sgr_key as nat, r, g, b);
    let chars = seq!['\x1b', '['] + p + seq!['m'];
    lemma_color_text(sgr_key, id);
    lemma_color_inside(sgr_key as nat, r, g, b);
    lemma_control(t, p, 'm');
    lemma_leads(chars, t);
    lemma_digits_value(r);
    lemma_digits_value(g);
    lemma_digits_value(b);
    lemma_color_keys();
    let parts = pieces(p, ':');
    assert(parts.len() == 5 && parts[0] == digits(sgr_key as nat) && parts[1] == seq!['2']);
    assert(parts[2] == digits(r) && parts[3] == digits(g) && parts[4] == digits(b));
    assert(p[digits(sgr_key as nat).len() as int] == ':');
    lemma_sets_color(p, digits(sgr_key as nat).len() as int);
    assert(r * 65536 + g * 256 + b == color_of(id));
}

/// The state with the colours that name an image and, where there is one, its placement.
spec fn colored(t: Terminal, image_id: ImageId, placement_id: Option<ImageId>) -> Terminal {
    Terminal {
        foreground: Some(color_of(image_id)),
        underline: match placement_id {
            Some(p) => Some(color_of(p)),
            None => t.underline,
        },
        ..t
    }
}

/// The state with the colours taken back.
spec fn uncolored(t: Terminal, placement_id: Option<ImageId>) -> Terminal {
    Terminal {
        foreground: None,
        underline: match placement_id {
            Some(_) => None,
            None => t.underline,
        },
        ..t
    }
}

/// Setting the colours of an image.
proof fn lemma_colored(t: Terminal, image_id: ImageId, placement_id: Option<ImageId>)
    requires
        t.mode == Mode::Ground,
    ensures
        leads(
            placeholder_colors(image_id, placement_id),
            t,
            colored(t, image_id, placement_id),
        ),
{
    let first = Terminal { foreground: Some(color_of(image_id)), ..t };
    lemma_color(t, 38, image_id);
    match placement_id {
        Some(p) => {
            lemma_color(first, 58, p);
            lemma_leads_on(
                color_bytes(38, image_id),
                color_bytes(58, p),
                t,
                first,
                colored(t, image_id, placement_id),
            );
        },
        None => {
            lemma_leads_nowhere(first);
            lemma_leads_on(color_bytes(38, image_id), Seq::empty(), t, first, first);
        },
    }
}

/// Taking the colours back.
proof fn lemma_uncolored(t: Terminal, placement_id: Option<ImageId>)
    requires
        t.mode == Mode::Ground,
    ensures
        leads(plain_colors(placement_id), t, uncolored(t, placement_id)),
{
    reveal_strlit("\x1b[39m");
    reveal_strlit("\x1b[59m");
    let first = Terminal { foreground: None, ..t };
    let p = seq!['3', '9'];
    let q = seq!['5', '9'];
    assert("\x1b[39m"@ =~= seq!['\x1b', '['] + p + seq!['m']);
    assert("\x1b[59m"@ =~= seq!['\x1b', '['] + q + seq!['m']);
    lemma_control(t, p, 'm');
    lemma_control(first, q, 'm');
    assert(q[0] != p[0]);
    lemma_leads("\x1b[39m"@, t);
    lemma_leads("\x1b[59m"@, first);
    match placement_id {
        Some(_) => {
            lemma_leads_on(
                text("\x1b[39m"),
                text("\x1b[59m"),
                t,
                first,
                uncolored(t, placement_id),
            );
        },
        None => {
            lemma_leads_nowhere(first);
            lemma_leads_on(text("\x1b[39m"), Seq::empty(), t, first, first);
        },
    }
}

/// The placeholder is no combining character, and the numbers of rows and columns are.
proof fn lemma_cell_characters(i: u16)
    requires
        i < 297,
    ensures
        !is_combining(KITTY_PLACEHOLDER_CODEPOINT as char),
        is_combining(diacritic(i as int) as char),
        diacritic(i as int) as char != '\x1b',
        diacritic(i as int) as char != '\n',
        diacritic(i as int) as char != '\r',
        (KITTY_PLACEHOLDER_CODEPOINT as char) as u32 == 0x10EEEE,
{
    lemma_diacritics_are_characters(i as int);
    let c = diacritic(i as int) as char;
    assert(c as u32 == diacritic(i as int));
    assert forall|j: int| 0 <= j < 297 implies 0x300 < #[trigger] diacritic(j) < 0x10EEEE by {
        lemma_diacritic_range(j);
    }
}

/// The numbers of rows and columns lie between the letters and the placeholder.
proof fn lemma_diacritic_range(j: int)
    requires
        0 <= j < 297,
    ensures
        0x300 < diacritic(j) < 0x10EEEE,
{
    reveal(diacritic);
}

/// What a cell of an image is: the placeholder with the numbers of its row and column, in the
/// colours of the image.
pub open spec fn image_cell(row: int, col: int, foreground: Option<nat>, underline: Option<nat>) -> Cell {
    Cell {
        chars: seq![
            KITTY_PLACEHOLDER_CODEPOINT as char,
            diacritic(row) as char,
            diacritic(col) as char,
        ],
        foreground,
        underline,
    }
}

/// Writing one cell.
proof fn lemma_cell(t: Terminal, row: u16, col: u16)
    requires
        t.mode == Mode::Ground,
        row < 297,
        col < 297,
    ensures
        leads(
            cell_bytes(row, col),
            t,
            Terminal {
                col: t.col + 1,
                cells: t.cells.insert(
                    (t.col, t.row),
                    image_cell(row as int, col as int, t.foreground, t.underline),
                ),
                ..t
            },
        ),
{
    let chars = cell_chars(row, col);
    lemma_cell_chars(row, col);
    lemma_cell_characters(row);
    lemma_cell_characters(col);
    lemma_leads(chars, t);
    reveal_with_fuel(Terminal::after, 4);
    assert(chars.drop_last() =~= seq![chars[0], chars[1]]);
    assert(chars.drop_last().drop_last() =~= seq![chars[0]]);
    assert(chars.drop_last().drop_last().drop_last() =~= Seq::<char>::empty());
    let at = (t.col, t.row);
    let one = t.after(seq![chars[0]]);
    let two = t.after(seq![chars[0], chars[1]]);
    let three = t.after(chars);
    assert(one == t.printed(chars[0]));
    assert(one.cells[at].chars =~= seq![chars[0]]);
    assert(two == one.printed(chars[1]));
    assert(two.cells[at].chars =~= seq![chars[0], chars[1]]);
    assert(three == two.printed(chars[2]));
    assert(three.cells[at].chars =~= chars);
    assert(three.cells =~= t.cells.insert(
        at,
        image_cell(row as int, col as int, t.foreground, t.underline),
    ));
}

/// Whether a cell is one of the first `rows` rows of a block of `cols` columns, or of the first
/// `more` columns of the row behind them.
pub open spec fn in_block(at: (int, int), x: int, y: int, cols: int, rows: int, more: int) -> bool {
    ||| x <= at.0 < x + cols && y <= at.1 < y + rows
    ||| x <= at.0 < x + more && at.1 == y + rows
}

/// A screen on which these cells show an image, and all others what they showed before.
spec fn covered(
    cells: Map<(int, int), Cell>,
    x: int,
    y: int,
    cols: int,
    rows: int,
    more: int,
    foreground: Option<nat>,
    underline: Option<nat>,
) -> Map<(int, int), Cell> {
    Map::new(
        |at: (int, int)| cells.dom().contains(at) || in_block(at, x, y, cols, rows, more),
        |at: (int, int)|
            if in_block(at, x, y, cols, rows, more) {
                image_cell(at.1 - y, at.0 - x, foreground, underline)
            } else {
                cells[at]
            },
    )
}

/// Writing the first cells of a row, behind the rows before it.
proof fn lemma_row_cells(
    t: Terminal,
    cells: Map<(int, int), Cell>,
    x: int,
    y: int,
    cols: int,
    row: u16,
    n: nat,
)
    requires
        t.mode == Mode::Ground,
        row < 297,
        n <= cols <= 297,
        t.col == x,
        t.row == y + row,
        t.cells == covered(cells, x, y, cols, row as int, 0, t.foreground, t.underline),
    ensures
        leads(
            row_cells(row, n),
            t,
            Terminal {
                col: x + n,
                cells: covered(cells, x, y, cols, row as int, n as int, t.foreground, t.underline),
                ..t
            },
        ),
    decreases n,
{
    let end = Terminal {
        col: x + n,
        cells: covered(cells, x, y, cols, row as int, n as int, t.foreground, t.underline),
        ..t
    };
    if n == 0 {
        lemma_leads_nowhere(t);
        assert(end.cells =~= t.cells);
    } else {
        let m = (n - 1) as nat;
        let mid = Terminal {
            col: x + m,
            cells: covered(cells, x, y, cols, row as int, m as int, t.foreground, t.underline),
            ..t
        };
        lemma_row_cells(t, cells, x, y, cols, row, m);
        lemma_cell(mid, row, m as u16);
        assert(end.cells =~= mid.cells.insert(
            (mid.col, mid.row),
            image_cell(row as int, m as int, t.foreground, t.underline),
        ));
        lemma_leads_on(row_cells(row, m), cell_bytes(row, m as u16), t, mid, end);
    }
}

/// Moving to the right.
proof fn lemma_forward(t: Terminal, x: u16)
    requires
        t.mode == Mode::Ground,
    ensures
        leads(
            text("\x1b[") + encode_utf8(digits(x as nat)) + text("C"),
            t,
            Terminal { col: t.col + x, ..t },
        ),
{
    let d = digits(x as nat);
    reveal_strlit("\x1b[");
    reveal_strlit("C");
    lemma_digits_inside(x as nat);
    lemma_control(t, d, 'C');
    lemma_encode_concat("\x1b["@, d);
    lemma_encode_concat("\x1b["@ + d, "C"@);
    let chars = "\x1b["@ + d + "C"@;
    assert(chars =~= seq!['\x1b', '['] + d + seq!['C']);
    lemma_leads(chars, t);
}

/// Going to the start of the next row.
proof fn lemma_next_line(t: Terminal)
    requires
        t.mode == Mode::Ground,
    ensures
        leads(text("\n\r"), t, Terminal { col: 0, row: t.row + 1, ..t }),
{
    reveal_strlit("\n\r");
    let chars = "\n\r"@;
    lemma_leads(chars, t);
    reveal_with_fuel(Terminal::after, 3);
    assert(chars.drop_last() =~= seq!['\n']);
    assert(seq!['\n'].drop_last() =~= Seq::<char>::empty());
}

/// The state before a row, or behind the last one.
spec fn at_row(
    t: Terminal,
    image_id: ImageId,
    placement_id: Option<ImageId>,
    x: int,
    cols: int,
    rows: int,
    n: int,
) -> Terminal {
    let c = colored(t, image_id, placement_id);
    Terminal {
        col: if n < rows {
            0
        } else {
            x + cols
        },
        row: if n < rows {
            t.row + n
        } else {
            t.row + rows - 1
        },
        cells: covered(t.cells, x, t.row, cols, n, 0, c.foreground, c.underline),
        ..c
    }
}

/// Writing one row.
#[verifier::rlimit(40)]
proof fn lemma_row(
    t: Terminal,
    row: u16,
    image_id: ImageId,
    placement_id: Option<ImageId>,
    x: u16,
    cols: u16,
    rows: u16,
)
    requires
        t.mode == Mode::Ground,
        row < rows <= 297,
        cols <= 297,
    ensures
        leads(
            row_bytes(row, image_id, placement_id, x, cols, rows),
            at_row(t, image_id, placement_id, x as int, cols as int, rows as int, row as int),
            at_row(t, image_id, placement_id, x as int, cols as int, rows as int, row + 1),
        ),
{
    let s = at_row(t, image_id, placement_id, x as int, cols as int, rows as int, row as int);
    let e = at_row(t, image_id, placement_id, x as int, cols as int, rows as int, row + 1);
    let moved = Terminal { col: x as int, ..s };
    let forward = if x > 0 {
        text("\x1b[") + encode_utf8(digits(x as nat)) + text("C")
    } else {
        Seq::empty()
    };
    if x > 0 {
        lemma_forward(s, x);
    } else {
        lemma_leads_nowhere(s);
    }
    assert(leads(forward, s, moved));
    lemma_row_cells(moved, t.cells, x as int, t.row, cols as int, row, cols as nat);
    let filled = Terminal {
        col: x + cols,
        cells: covered(
            t.cells,
            x as int,
            t.row,
            cols as int,
            row as int,
            cols as int,
            s.foreground,
            s.underline,
        ),
        ..moved
    };
    lemma_leads_on(forward, row_cells(row, cols as nat), s, moved, filled);
    assert(filled.cells =~= e.cells);
    let sofar = forward + row_cells(row, cols as nat);
    if row + 1 < rows {
        let plain = uncolored(filled, placement_id);
        let below = Terminal { col: 0, row: plain.row + 1, ..plain };
        lemma_uncolored(filled, placement_id);
        lemma_next_line(plain);
        lemma_colored(below, image_id, placement_id);
        lemma_leads_on(plain_colors(placement_id), text("\n\r"), filled, plain, below);
        lemma_leads_on(
            plain_colors(placement_id) + text("\n\r"),
            placeholder_colors(image_id, placement_id),
            filled,
            below,
            colored(below, image_id, placement_id),
        );
        assert(colored(below, image_id, placement_id) == e);
        lemma_leads_on(
            sofar,
            plain_colors(placement_id) + text("\n\r") + placeholder_colors(image_id, placement_id),
            s,
            filled,
            e,
        );
    } else {
        lemma_leads_nowhere(filled);
        assert(filled == e);
        lemma_leads_on(sofar, Seq::empty(), s, filled, e);
    }
}

/// Writing the first rows.
#[verifier::rlimit(40)]
proof fn lemma_rows(
    t: Terminal,
    n: nat,
    image_id: ImageId,
    placement_id: Option<ImageId>,
    x: u16,
    cols: u16,
    rows: u16,
)
    requires
        t.mode == Mode::Ground,
        n <= rows <= 297,
        cols <= 297,
    ensures
        leads(
            rows_bytes(n, image_id, placement_id, x, cols, rows),
            at_row(t, image_id, placement_id, x as int, cols as int, rows as int, 0),
            at_row(t, image_id, placement_id, x as int, cols as int, rows as int, n as int),
        ),
    decreases n,
{
    let s = at_row(t, image_id, placement_id, x as int, cols as int, rows as int, 0);
    if n == 0 {
        lemma_leads_nowhere(s);
    } else {
        let m = (n - 1) as nat;
        lemma_rows(t, m, image_id, placement_id, x, cols, rows);
        lemma_row(t, m as u16, image_id, placement_id, x, cols, rows);
        lemma_leads_on(
            rows_bytes(m, image_id, placement_id, x, cols, rows),
            row_bytes(m as u16, image_id, placement_id, x, cols, rows),
            s,
            at_row(t, image_id, placement_id, x as int, cols as int, rows as int, m as int),
            at_row(t, image_id, placement_id, x as int, cols as int, rows as int, n as int),
        );
    }
}

/// Going to the start of a row.
proof fn lemma_go_to_row(t: Terminal, y: u16)
    requires
        t.mode == Mode::Ground,
    ensures
        leads(
            text("\x1b[") + encode_utf8(digits((y + 1) as nat)) + text(";1H"),
            t,
            Terminal { col: 0, row: y as int, ..t },
        ),
{
    let d = digits((y + 1) as nat);
    let one = seq!['1'];
    reveal_strlit("\x1b[");
    reveal_strlit(";1H");
    lemma_digits_inside((y + 1) as nat);
    let p = d.push(';') + one;
    assert(is_inside(seq![';', '1']));
    lemma_inside_parts(d, seq![';', '1']);
    assert(d + seq![';', '1'] =~= p);
    lemma_control(t, p, 'H');
    lemma_pieces_concat(d, one, ';');
    lemma_pieces_single(d, ';');
    lemma_pieces_single(one, ';');
    assert(pieces(p, ';') =~= seq![d, one]);
    assert(one.drop_last() =~= Seq::<char>::empty());
    reveal_with_fuel(digits_value, 2);
    assert(digits_value(one) == 1);
    lemma_encode_concat("\x1b["@, d);
    lemma_encode_concat("\x1b["@ + d, ";1H"@);
    let chars = "\x1b["@ + d + ";1H"@;
    assert(chars =~= seq!['\x1b', '['] + p + seq!['H']);
    lemma_leads(chars, t);
}

/// Saving the cursor, and putting it back.
proof fn lemma_save_and_restore(t: Terminal)
    requires
        t.mode == Mode::Ground,
    ensures
        leads(text("\x1b7"), t, Terminal { saved: (t.col, t.row), ..t }),
        leads(text("\x1b8"), t, Terminal { col: t.saved.0, row: t.saved.1, ..t }),
{
    reveal_strlit("\x1b7");
    reveal_strlit("\x1b8");
    lemma_leads("\x1b7"@, t);
    lemma_leads("\x1b8"@, t);
    reveal_with_fuel(Terminal::after, 3);
    assert("\x1b7"@.drop_last() =~= seq!['\x1b']);
    assert("\x1b8"@.drop_last() =~= seq!['\x1b']);
    assert(seq!['\x1b'].drop_last() =~= Seq::<char>::empty());
}

/// The placeholders of an image as a whole.
proof fn lemma_placeholders(
    t: Terminal,
    image_id: ImageId,
    placement_id: Option<ImageId>,
    pos: Pos,
    cols: u16,
    rows: u16,
    restore_cursor: bool,
) -> (end: Terminal)
    requires
        t.mode == Mode::Ground,
    ensures
        leads(
            placeholders(image_id, placement_id, pos, cols, rows, restore_cursor),
            t,
            end,
        ),
        end.mode == Mode::Ground,
        end.cells == covered(
            t.cells,
            pos.x as int,
            pos.y as int,
            capped_cells(cols) as int,
            capped_cells(rows) as int,
            0,
            Some(color_of(image_id)),
            match placement_id {
                Some(p) => Some(color_of(p)),
                None => t.underline,
            },
        ),
        restore_cursor ==> end.col == t.col && end.row == t.row,
        end.foreground is None,
        placement_id is Some ==> end.underline is None,
        placement_id is None ==> end.underline == t.underline,
{
    let c = capped_cells(cols);
    let r = capped_cells(rows);
    let b0 = if restore_cursor {
        text("\x1b7")
    } else {
        Seq::empty()
    };
    let t0 = if restore_cursor {
        Terminal { saved: (t.col, t.row), ..t }
    } else {
        t
    };
    lemma_save_and_restore(t);
    lemma_leads_nowhere(t);
    let d = encode_utf8(digits((pos.y + 1) as nat));
    let go = text("\x1b[") + d + text(";1H");
    let t1 = Terminal { col: 0, row: pos.y as int, ..t0 };
    lemma_go_to_row(t0, pos.y);
    lemma_leads_on(b0, go, t, t0, t1);
    let colors = placeholder_colors(image_id, placement_id);
    let t2 = colored(t1, image_id, placement_id);
    lemma_colored(t1, image_id, placement_id);
    lemma_leads_on(b0 + go, colors, t, t1, t2);
    let body = rows_bytes(r as nat, image_id, placement_id, pos.x, c, r);
    let s = at_row(t1, image_id, placement_id, pos.x as int, c as int, r as int, 0);
    let t3 = at_row(t1, image_id, placement_id, pos.x as int, c as int, r as int, r as int);
    assert(s.cells =~= t2.cells);
    assert(s == t2);
    lemma_rows(t1, r as nat, image_id, placement_id, pos.x, c, r);
    lemma_leads_on(b0 + go + colors, body, t, t2, t3);
    let plain = plain_colors(placement_id);
    let t4 = uncolored(t3, placement_id);
    lemma_uncolored(t3, placement_id);
    lemma_leads_on(b0 + go + colors + body, plain, t, t3, t4);
    let b5 = if restore_cursor {
        text("\x1b8")
    } else {
        Seq::empty()
    };
    let t5 = if restore_cursor {
        Terminal { col: t4.saved.0, row: t4.saved.1, ..t4 }
    } else {
        t4
    };
    lemma_save_and_restore(t4);
    lemma_leads_nowhere(t4);
    lemma_leads_on(b0 + go + colors + body + plain, b5, t, t4, t5);
    assert(b0 + go =~= b0 + text("\x1b[") + d + text(";1H"));
    t5
}

/// The placeholders of an image cover the cells from its position on, to the right and below,
/// each with the number of its row and column and in the colours of the image; no other cell is
/// written. The colours are taken back, and the cursor is where it was if that is asked for.
#[verifier::rlimit(40)]
pub proof fn lemma_every_cell_in_place(
    t: Terminal,
    image_id: ImageId,
    placement_id: Option<ImageId>,
    pos: Pos,
    cols: u16,
    rows: u16,
    restore_cursor: bool,
    at: (int, int),
)
    requires
        t.mode == Mode::Ground,
        t.underline is None,
    ensures
        ({
            let bytes = placeholders(image_id, placement_id, pos, cols, rows, restore_cursor);
            let end = t.shown(bytes);
            let width = if cols == 0 {
                1
            } else if cols > 297 {
                297
            } else {
                cols as int
            };
            let height = if rows == 0 {
                1
            } else if rows > 297 {
                297
            } else {
                rows as int
            };
            let col = at.0 - pos.x;
            let row = at.1 - pos.y;
            &&& if 0 <= col < width && 0 <= row < height {
                &&& end.cells.dom().contains(at)
                &&& end.cells[at].chars == seq![
                    '\u{10EEEE}',
                    diacritic(row) as char,
                    diacritic(col) as char,
                ]
                &&& end.cells[at].foreground == Some((image_id@ % 0x100_0000) as nat)
                &&& end.cells[at].underline == (match placement_id {
                    Some(p) => Some((p@ % 0x100_0000) as nat),
                    None => None,
                })
            } else {
                &&& end.cells.dom().contains(at) == t.cells.dom().contains(at)
                &&& t.cells.dom().contains(at) ==> end.cells[at] == t.cells[at]
            }
            &&& end.mode == Mode::Ground
            &&& end.foreground is None
            &&& end.underline is None
            &&& restore_cursor ==> end.col == t.col && end.row == t.row
        }),
{
    let bytes = placeholders(image_id, placement_id, pos, cols, rows, restore_cursor);
    let end = lemma_placeholders(t, image_id, placement_id, pos, cols, rows, restore_cursor);
    lemma_leads_shown(bytes, t, end);
    lemma_cell_characters(0);
    let c = capped_cells(cols) as int;
    let r = capped_cells(rows) as int;
    let inside = in_block(at, pos.x as int, pos.y as int, c, r, 0);
    assert(inside <==> 0 <= at.0 - pos.x < c && 0 <= at.1 - pos.y < r);
    if inside {
        assert('\u{10EEEE}' == KITTY_PLACEHOLDER_CODEPOINT as char);
        assert(end.cells[at].chars =~= seq![
            '\u{10EEEE}',
            diacritic(at.1 - pos.y) as char,
            diacritic(at.0 - pos.x) as char,
        ]);
    }
}

} // verus!
