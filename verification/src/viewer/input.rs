//! Keys and clicks.

use vstd::prelude::*;

verus! {

/// A key, by what it is used for.
#[derive(Clone, Copy, Debug, PartialEq, Eq, Structural)]
pub enum KeyCode {
    Char(char),
    Enter,
    Esc,
    Backspace,
    Left,
    Right,
    Up,
    Down,
    PageUp,
    PageDown,
    F(u8),
    Other,
}

/// What the mouse did.
#[derive(Clone, Copy, Debug, PartialEq, Eq, Structural)]
pub enum MouseKind {
    LeftDown,
    LeftUp,
    Other,
}

/// What the user did: pressed a key, with or without Control, used the mouse at a row of the
/// screen, resized the terminal, or anything else.
#[derive(Clone, Copy, Debug, PartialEq, Eq, Structural)]
pub enum Event {
    Key { code: KeyCode, control: bool },
    Mouse { kind: MouseKind, row: u16 },
    Resize,
    Other,
}

/// What a horizontal key does.
#[derive(Clone, Copy, Debug, PartialEq, Eq, Structural)]
pub enum HorizontalAction {
    NextPage,
    PrevPage,
    PanRight,
    PanLeft,
}

/// What a horizontal key does: the arrows turn pages, and the letters do so too unless zoomed
/// in, where they pan. Other keys are not horizontal.
pub open spec fn spec_horizontal_action(key: KeyCode, zoom_mode: bool) -> Option<HorizontalAction> {
    if key == KeyCode::Right || key == KeyCode::Char('l') && !zoom_mode {
        Some(HorizontalAction::NextPage)
    } else if key == KeyCode::Left || key == KeyCode::Char('h') && !zoom_mode {
        Some(HorizontalAction::PrevPage)
    } else if key == KeyCode::Char('l') {
        Some(HorizontalAction::PanRight)
    } else if key == KeyCode::Char('h') {
        Some(HorizontalAction::PanLeft)
    } else {
        None
    }
}

/// What a horizontal key does.
pub fn horizontal_action(key: KeyCode, zoom_mode: bool) -> (r: Option<HorizontalAction>)
    ensures
        r == spec_horizontal_action(key, zoom_mode),
{
    match key {
        KeyCode::Right => Some(HorizontalAction::NextPage),
        KeyCode::Left => Some(HorizontalAction::PrevPage),
        KeyCode::Char('l') => Some(
            if zoom_mode {
                HorizontalAction::PanRight
            } else {
                HorizontalAction::NextPage
            },
        ),
        KeyCode::Char('h') => Some(
            if zoom_mode {
                HorizontalAction::PanLeft
            } else {
                HorizontalAction::PrevPage
            },
        ),
        _ => None,
    }
}

/// Whether the left button was pressed or let go.
pub open spec fn spec_is_left_click(kind: MouseKind) -> bool {
    kind == MouseKind::LeftDown || kind == MouseKind::LeftUp
}

/// Whether the left button was pressed or let go.
pub fn is_left_click(kind: MouseKind) -> (r: bool)
    ensures
        r == spec_is_left_click(kind),
{
    matches!(kind, MouseKind::LeftDown | MouseKind::LeftUp)
}

/// The entry of the table of contents that is shown at a row: the rows show the entries from
/// `scroll` on, as far as there are entries and visible rows.
pub open spec fn entry_at_row(toc_len: usize, scroll: usize, row: u16, visible_rows: u16) -> Option<
    usize,
> {
    if row < visible_rows && scroll + row < toc_len {
        Some((scroll + row) as usize)
    } else {
        None
    }
}

/// The entry of the table of contents that is shown at a row.
pub fn toc_entry_at_row(toc_len: usize, scroll: usize, row: u16, visible_rows: u16) -> (r: Option<
    usize,
>)
    ensures
        r == entry_at_row(toc_len, scroll, row, visible_rows),
{
    if row >= visible_rows {
        return None;
    }
    match scroll.checked_add(row as usize) {
        Some(entry_index) => if entry_index < toc_len {
            Some(entry_index)
        } else {
            None
        },
        None => None,
    }
}

/// Different rows show different entries, in order: a lower row shows a later entry.
pub proof fn lemma_rows_in_order(
    toc_len: usize,
    scroll: usize,
    row: u16,
    lower: u16,
    visible_rows: u16,
)
    requires
        row < lower,
    ensures
        entry_at_row(toc_len, scroll, lower, visible_rows) matches Some(later) ==> entry_at_row(
            toc_len,
            scroll,
            row,
            visible_rows,
        ) matches Some(entry) && entry < later,
{
}

/// The first row shows the entry that was scrolled to, and scrolling on by one shows at each row
/// what the row below it showed; nothing is shown below the visible rows or behind the last
/// entry.
pub proof fn lemma_rows_follow_scroll(toc_len: usize, scroll: usize, row: u16, visible_rows: u16)
    ensures
        scroll < toc_len && visible_rows > 0 ==> entry_at_row(toc_len, scroll, 0, visible_rows)
            == Some(scroll),
        scroll < usize::MAX && row + 1 < visible_rows ==> entry_at_row(
            toc_len,
            (scroll + 1) as usize,
            row,
            visible_rows,
        ) == entry_at_row(toc_len, scroll, (row + 1) as u16, visible_rows),
        entry_at_row(toc_len, scroll, row, visible_rows) matches Some(entry) ==> entry < toc_len
            && entry >= scroll && row < visible_rows,
{
}

/// The arrows turn pages whether zoomed or not; the letters for the same directions turn pages
/// too, and move the page where it is zoomed. Every direction has its opposite.
pub proof fn lemma_horizontal_keys(zoom_mode: bool, key: KeyCode)
    ensures
        spec_horizontal_action(KeyCode::Right, zoom_mode) == Some(HorizontalAction::NextPage),
        spec_horizontal_action(KeyCode::Left, zoom_mode) == Some(HorizontalAction::PrevPage),
        spec_horizontal_action(KeyCode::Char('l'), false) == spec_horizontal_action(
            KeyCode::Right,
            false,
        ),
        spec_horizontal_action(KeyCode::Char('h'), false) == spec_horizontal_action(
            KeyCode::Left,
            false,
        ),
        spec_horizontal_action(KeyCode::Char('l'), true) == Some(HorizontalAction::PanRight),
        spec_horizontal_action(KeyCode::Char('h'), true) == Some(HorizontalAction::PanLeft),
        spec_horizontal_action(key, zoom_mode) is Some <==> key == KeyCode::Right || key
            == KeyCode::Left || key == KeyCode::Char('h') || key == KeyCode::Char('l'),
{
}

} // verus!
