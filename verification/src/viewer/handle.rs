//! What the viewer does on an event.
//!
//! The document itself (which page follows which, how far a page scrolls, what a search found)
//! belongs to whoever runs the viewer. Where the reaction to an event depends on it, the reaction
//! ends in a question, and goes on with the answer.

use vstd::prelude::*;
use vstd::slice::slice_subrange;

use crate::text::chars_of;
use crate::text::is_ascii_digit;
use crate::text::is_digit;
use crate::text::parse_unsigned;
use crate::text::parsed_unsigned;
use crate::text::string_of;
use crate::viewer::command::commands_view;
use crate::viewer::command::emit;
use crate::viewer::command::no_commands;
use crate::viewer::command::Command;
use crate::viewer::command::ConverterMsg;
use crate::viewer::command::InputMode;
use crate::viewer::command::RenderNotif;
use crate::viewer::command::StatusMsg;
use crate::viewer::input::entry_at_row;
use crate::viewer::input::horizontal_action;
use crate::viewer::input::is_left_click;
use crate::viewer::input::spec_horizontal_action;
use crate::viewer::input::spec_is_left_click;
use crate::viewer::input::toc_entry_at_row;
use crate::viewer::input::Event;
use crate::viewer::input::HorizontalAction;
use crate::viewer::input::KeyCode;
use crate::viewer::input::MouseKind;

verus! {

/// What an event comes to.
#[derive(Clone, Copy, Debug, PartialEq, Eq, Structural)]
pub enum EventOutcome {
    Quit,
    Redraw,
    RedrawStatus,
    Nothing,
}

/// A turn to another page.
#[derive(Clone, Copy, Debug, PartialEq, Eq, Structural)]
pub enum PageTurn {
    Next,
    Prev,
    /// To the bottom of the page before.
    PrevAtBottom,
    To(usize),
}

/// What follows a turn.
#[derive(Clone, Copy, Debug, PartialEq, Eq, Structural)]
pub enum AfterTurn {
    Nothing,
    /// The status bar goes back to the hint.
    Hint,
    /// The screen is drawn anew where the page stayed the same.
    RedrawIfStill,
}

/// A way to scroll within a page.
#[derive(Clone, Copy, Debug, PartialEq, Eq, Structural)]
pub enum ScrollCall {
    Down(u32),
    Up(u32),
    PageDown,
    PageUp,
}

/// What came of scrolling: it moved, there was nothing to scroll, or the end of the page asks
/// for the next or the previous one.
#[derive(Clone, Copy, Debug, PartialEq, Eq, Structural)]
pub enum ScrollAction {
    Scrolled,
    Nothing,
    TurnNext,
    TurnPrev,
}

/// The direction of a zoom.
#[derive(Clone, Copy, Debug, PartialEq, Eq, Structural)]
pub enum ZoomStep {
    In,
    Out,
}

/// The direction in which search results are walked.
#[derive(Clone, Copy, Debug, PartialEq, Eq, Structural)]
pub enum SearchStep {
    Next,
    Prev,
}

/// What follows the commands of a reaction: it is finished, or it asks for something to be done
/// and goes on with what came of it.
#[derive(Clone, Copy, Debug, PartialEq, Eq, Structural)]
pub enum Next {
    Finish(EventOutcome),
    Turn(PageTurn, AfterTurn),
    Scroll(ScrollCall),
    ToggleZoom,
    Zoom(ZoomStep),
    Search(SearchStep),
    ExportPath,
}

/// A link of a page: to another page, or to somewhere else.
#[derive(Debug, PartialEq)]
pub struct Link<S = String> {
    pub page: Option<usize>,
    pub uri: S,
}

impl View for Link {
    type V = Link<Seq<char>>;

    open spec fn view(&self) -> Link<Seq<char>> {
        Link { page: self.page, uri: self.uri@ }
    }
}

/// What the reactions of normal mode depend on.
#[derive(Clone, Copy, Debug, PartialEq, Eq, Structural)]
pub struct PageView {
    pub page: usize,
    pub zoom_mode: bool,
    pub supports_zoom: bool,
    /// Whether the document has no fixed layout.
    pub reflowable: bool,
    pub has_metadata: bool,
    pub auto_crop: bool,
    pub inverted: bool,
    pub tinted: bool,
    pub rotation: u32,
    pub cell_width_px: u16,
    pub cell_height_px: u16,
    pub page_rows: u16,
}

/// What reactions depend on.
#[derive(Debug)]
pub struct AppView<'a> {
    pub input_mode: &'a InputMode,
    pub links: &'a [Link],
    /// The pages of the entries of the table of contents.
    pub toc: &'a [usize],
    pub pages: PageView,
}

/// Links with texts for strings.
pub open spec fn links_view(links: Seq<Link>) -> Seq<Link<Seq<char>>> {
    links.map_values(|l: Link| l@)
}

/// The commands of a reaction, and what follows them.
pub type Reaction = (Seq<Command<Seq<char>>>, Next);

/// A reaction of these commands, with this outcome.
pub open spec fn finished(commands: Seq<Command<Seq<char>>>, outcome: EventOutcome) -> Reaction {
    (commands, Next::Finish(outcome))
}

/// A reaction that does nothing.
pub open spec fn ignored() -> Reaction {
    finished(Seq::empty(), EventOutcome::Nothing)
}

/// A text without its last character.
pub open spec fn shortened(s: Seq<char>) -> Seq<char> {
    if s.len() == 0 {
        s
    } else {
        s.drop_last()
    }
}

/// A text without its last character.
fn shorten(s: &str) -> (r: String)
    ensures
        r@ == shortened(s@),
{
    let chars = chars_of(s);
    if chars.len() == 0 {
        string_of(chars.as_slice())
    } else {
        let part = slice_subrange(chars.as_slice(), 0, chars.len() - 1);
        assert(part@ =~= s@.drop_last());
        string_of(part)
    }
}

/// A text with one more character.
fn extend(s: &str, c: char) -> (r: String)
    ensures
        r@ == s@.push(c),
{
    let mut out = s.to_owned();
    out.push(c);
    out
}

/// The page whose number, counted from one, is typed.
pub open spec fn page_before(number: nat) -> usize {
    if number == 0 {
        0
    } else {
        (number - 1) as usize
    }
}

/// Back to normal mode, with the hint in the status bar.
pub open spec fn back_to_normal() -> Seq<Command<Seq<char>>> {
    seq![Command::SetInputMode(InputMode::Normal), Command::SetMsg(StatusMsg::Hint)]
}

/// On a use of the mouse: a click on an entry of the table of contents goes to its page.
pub open spec fn on_mouse(
    kind: MouseKind,
    row: u16,
    mode: InputMode<Seq<char>>,
    toc: Seq<usize>,
    page_rows: u16,
) -> Reaction {
    match mode {
        InputMode::Toc { scroll } => match entry_at_row(
            toc.len() as usize,
            scroll,
            row,
            page_rows,
        ) {
            Some(entry) => if spec_is_left_click(kind) {
                (back_to_normal(), Next::Turn(PageTurn::To(toc[entry as int]), AfterTurn::Nothing))
            } else {
                ignored()
            },
            None => ignored(),
        },
        _ => ignored(),
    }
}

/// The commands that show a page number as it is typed.
pub open spec fn typing_page(buf: Seq<char>) -> Seq<Command<Seq<char>>> {
    seq![
        Command::SetMsg(StatusMsg::Info("go to page: "@ + buf)),
        Command::SetInputMode(InputMode::GoToPage(buf)),
    ]
}

/// On a key while the number of a page is typed.
pub open spec fn on_page_key(code: KeyCode, buf: Seq<char>) -> Reaction {
    match code {
        KeyCode::Enter => match parsed_unsigned(buf, usize::MAX as nat) {
            Some(n) => (
                seq![Command::SetInputMode(InputMode::Normal)],
                Next::Turn(PageTurn::To(page_before(n)), AfterTurn::Hint),
            ),
            None => finished(
                seq![
                    Command::SetInputMode(InputMode::Normal),
                    Command::ShowInfo("invalid page number"@),
                ],
                EventOutcome::Redraw,
            ),
        },
        KeyCode::Esc => finished(back_to_normal(), EventOutcome::Redraw),
        KeyCode::Backspace => finished(typing_page(shortened(buf)), EventOutcome::RedrawStatus),
        KeyCode::Char(c) => if is_digit(c) {
            finished(typing_page(buf.push(c)), EventOutcome::RedrawStatus)
        } else {
            ignored()
        },
        _ => ignored(),
    }
}

/// On a key while the table of contents is shown from the entry `scroll` on.
pub open spec fn on_toc_key(code: KeyCode, scroll: usize, toc: Seq<usize>) -> Reaction {
    match code {
        KeyCode::Esc | KeyCode::Char('t') | KeyCode::Char('q') => finished(
            back_to_normal().push(Command::NeedsRedraw),
            EventOutcome::Redraw,
        ),
        KeyCode::Down | KeyCode::Char('j') => finished(
            if scroll + 1 < toc.len() {
                seq![Command::SetInputMode(InputMode::Toc { scroll: (scroll + 1) as usize })]
            } else {
                Seq::empty()
            },
            EventOutcome::Redraw,
        ),
        KeyCode::Up | KeyCode::Char('k') => finished(
            seq![
                Command::SetInputMode(
                    InputMode::Toc {
                        scroll: if scroll == 0 {
                            0
                        } else {
                            (scroll - 1) as usize
                        },
                    },
                ),
            ],
            EventOutcome::Redraw,
        ),
        KeyCode::Enter => if scroll < toc.len() {
            (
                back_to_normal(),
                Next::Turn(PageTurn::To(toc[scroll as int]), AfterTurn::Nothing),
            )
        } else {
            finished(Seq::empty(), EventOutcome::Redraw)
        },
        _ => ignored(),
    }
}

/// The commands that show a text to search for as it is typed.
pub open spec fn typing_search(buf: Seq<char>) -> Seq<Command<Seq<char>>> {
    seq![
        Command::SetMsg(StatusMsg::Info("/"@ + buf)),
        Command::SetInputMode(InputMode::Search(buf)),
    ]
}

/// On a key while a text to search for is typed: an empty text ends the search.
pub open spec fn on_search_key(code: KeyCode, buf: Seq<char>, page: usize) -> Reaction {
    match code {
        KeyCode::Enter => finished(
            if buf.len() == 0 {
                seq![
                    Command::SetInputMode(InputMode::Normal),
                    Command::SetSearchTerm(None),
                    Command::SetPendingSearchJump(None),
                    Command::Render(RenderNotif::Search(buf)),
                    Command::SetMsg(StatusMsg::Hint),
                ]
            } else {
                seq![
                    Command::SetInputMode(InputMode::Normal),
                    Command::SetSearchTerm(Some(buf)),
                    Command::ClearSearchResults,
                    Command::SetPendingSearchJump(Some(page)),
                    Command::Render(RenderNotif::Search(buf)),
                    Command::ShowInfo("searching..."@),
                ]
            },
            EventOutcome::Redraw,
        ),
        KeyCode::Esc => finished(back_to_normal(), EventOutcome::Redraw),
        KeyCode::Backspace => finished(typing_search(shortened(buf)), EventOutcome::RedrawStatus),
        KeyCode::Char(c) => finished(typing_search(buf.push(c)), EventOutcome::RedrawStatus),
        _ => ignored(),
    }
}

/// On a key while what is known of the document is shown.
pub open spec fn on_metadata_key(code: KeyCode) -> Reaction {
    match code {
        KeyCode::Esc | KeyCode::Char('M') | KeyCode::Char('q') => finished(
            back_to_normal().push(Command::NeedsRedraw),
            EventOutcome::Redraw,
        ),
        _ => ignored(),
    }
}

/// On a key while the links of a page are shown and the number of one is typed, counted from
/// one: a link to a page goes there, any other is opened.
pub open spec fn on_links_key(code: KeyCode, input: Seq<char>, links: Seq<Link<Seq<char>>>) -> Reaction {
    match code {
        KeyCode::Esc => finished(back_to_normal(), EventOutcome::Redraw),
        KeyCode::Backspace => finished(
            seq![Command::SetInputMode(InputMode::Links { input: shortened(input) })],
            EventOutcome::Redraw,
        ),
        KeyCode::Char(c) => if is_digit(c) {
            finished(
                seq![Command::SetInputMode(InputMode::Links { input: input.push(c) })],
                EventOutcome::Redraw,
            )
        } else {
            ignored()
        },
        KeyCode::Enter => match parsed_unsigned(input, usize::MAX as nat) {
            None => finished(back_to_normal(), EventOutcome::Redraw),
            Some(n) => if 1 <= n <= links.len() {
                let link = links[n - 1];
                match link.page {
                    Some(page) => (
                        seq![Command::SetInputMode(InputMode::Normal)],
                        Next::Turn(PageTurn::To(page), AfterTurn::Hint),
                    ),
                    None => finished(
                        seq![
                            Command::SetInputMode(InputMode::Normal),
                            Command::OpenUrl(link.uri),
                            Command::ShowInfo("opened: "@ + link.uri),
                        ],
                        EventOutcome::Redraw,
                    ),
                }
            } else {
                finished(
                    seq![
                        Command::SetInputMode(InputMode::Normal),
                        Command::ShowInfo("invalid link number"@),
                    ],
                    EventOutcome::Redraw,
                )
            },
        },
        _ => ignored(),
    }
}

/// A quarter turn further.
pub open spec fn next_rotation(rotation: u32) -> u32 {
    ((rotation + 90) % 360) as u32
}

/// A message that something is on or off.
pub open spec fn switched(what: Seq<char>, on: bool) -> Seq<char> {
    what + (if on {
        "on"@
    } else {
        "off"@
    })
}

/// The summary of the keys.
pub open spec fn help_text() -> Seq<char> {
    "Space next  PgUp/PgDn page  ←/→ page  ↑/↓ scroll  j/k page  g goto  t toc  / search  n/N result  z zoom  o/O +/-  i invert  r rotate  c crop  d tint  M meta  f links  e export  q quit"@
}

/// On a key that asks for another size of the text, which only a document without a fixed layout
/// has.
pub open spec fn on_font_key(amount: i32, message: Seq<char>, v: PageView) -> Reaction {
    if v.reflowable {
        finished(
            seq![
                Command::InvalidateAllPages,
                Command::Render(RenderNotif::AdjustFontSize(amount)),
                Command::ShowInfo(message),
            ],
            EventOutcome::Redraw,
        )
    } else {
        ignored()
    }
}

/// A turn with nothing after it.
pub open spec fn turning(turn: PageTurn) -> Reaction {
    (Seq::empty(), Next::Turn(turn, AfterTurn::Nothing))
}

/// On a key that moves about.
pub open spec fn on_move_key(code: KeyCode, v: PageView) -> Option<Reaction> {
    match code {
        KeyCode::Char(' ') => Some(turning(PageTurn::Next)),
        KeyCode::Char('j') => Some(turning(PageTurn::Next)),
        KeyCode::Char('k') => Some(turning(PageTurn::Prev)),
        KeyCode::Right | KeyCode::Left | KeyCode::Char('h') | KeyCode::Char('l') => {
            match spec_horizontal_action(code, v.zoom_mode) {
                Some(HorizontalAction::NextPage) => Some(turning(PageTurn::Next)),
                Some(HorizontalAction::PrevPage) => Some(turning(PageTurn::Prev)),
                Some(HorizontalAction::PanRight) => Some(
                    finished(
                        seq![Command::PanRight((v.cell_width_px * 3) as u32)],
                        EventOutcome::Redraw,
                    ),
                ),
                Some(HorizontalAction::PanLeft) => Some(
                    finished(
                        seq![Command::PanLeft((v.cell_width_px * 3) as u32)],
                        EventOutcome::Redraw,
                    ),
                ),
                None => None,
            }
        },
        KeyCode::PageDown => Some(
            if v.zoom_mode {
                (Seq::empty(), Next::Scroll(ScrollCall::PageDown))
            } else {
                turning(PageTurn::Next)
            },
        ),
        KeyCode::PageUp => Some(
            if v.zoom_mode {
                (Seq::empty(), Next::Scroll(ScrollCall::PageUp))
            } else {
                turning(PageTurn::Prev)
            },
        ),
        KeyCode::Down => Some(
            (Seq::empty(), Next::Scroll(ScrollCall::Down((v.cell_height_px * 3) as u32))),
        ),
        KeyCode::Up => Some(
            (Seq::empty(), Next::Scroll(ScrollCall::Up((v.cell_height_px * 3) as u32))),
        ),
        _ => None,
    }
}

/// On a key that changes how pages are shown.
pub open spec fn on_show_key(code: KeyCode, v: PageView) -> Option<Reaction> {
    match code {
        KeyCode::Char('z') => Some(
            if v.supports_zoom {
                (Seq::empty(), Next::ToggleZoom)
            } else {
                finished(
                    seq![Command::ShowInfo("zoom is only available for fixed-layout documents"@)],
                    EventOutcome::Redraw,
                )
            },
        ),
        KeyCode::Char('o') => Some(
            if v.zoom_mode {
                (Seq::empty(), Next::Zoom(ZoomStep::In))
            } else {
                ignored()
            },
        ),
        KeyCode::Char('O') => Some(
            if v.zoom_mode {
                (Seq::empty(), Next::Zoom(ZoomStep::Out))
            } else {
                ignored()
            },
        ),
        KeyCode::Char('<') => Some(on_font_key((-1) as i32, "EPUB font smaller"@, v)),
        KeyCode::Char('>') => Some(on_font_key(1, "EPUB font larger"@, v)),
        KeyCode::Char('i') => Some(
            finished(
                seq![
                    Command::Render(RenderNotif::Invert),
                    Command::SetInverted(!v.inverted),
                    Command::InvalidateAllPages,
                    Command::ShowInfo("invert toggled"@),
                ],
                EventOutcome::Redraw,
            ),
        ),
        KeyCode::Char('r') => Some(
            finished(
                seq![
                    Command::Render(RenderNotif::Rotate),
                    Command::SetRotation(next_rotation(v.rotation)),
                    Command::InvalidateAllPages,
                    Command::ShowInfo("rotated"@),
                ],
                EventOutcome::Redraw,
            ),
        ),
        KeyCode::Char('c') => Some(
            finished(
                seq![
                    Command::SetAutoCrop(!v.auto_crop),
                    Command::Convert(ConverterMsg::AutoCrop(!v.auto_crop)),
                    Command::Render(RenderNotif::Refresh),
                    Command::InvalidateAllPages,
                    Command::ShowInfo(switched("auto-crop "@, !v.auto_crop)),
                ],
                EventOutcome::Redraw,
            ),
        ),
        KeyCode::Char('d') => Some(
            finished(
                seq![
                    Command::Render(RenderNotif::Tint),
                    Command::SetTinted(!v.tinted),
                    Command::InvalidateAllPages,
                    Command::ShowInfo(switched("tint "@, !v.tinted)),
                ],
                EventOutcome::Redraw,
            ),
        ),
        _ => None,
    }
}

/// On a key that asks for something of the document.
pub open spec fn on_ask_key(code: KeyCode, toc_len: nat, v: PageView) -> Option<Reaction> {
    match code {
        KeyCode::Char('t') => Some(
            finished(
                if toc_len == 0 {
                    seq![Command::ShowInfo("no table of contents"@)]
                } else {
                    seq![Command::SetInputMode(InputMode::Toc { scroll: 0 })]
                },
                EventOutcome::Redraw,
            ),
        ),
        KeyCode::Char('g') => Some(
            finished(
                seq![
                    Command::SetInputMode(InputMode::GoToPage(Seq::empty())),
                    Command::SetMsg(StatusMsg::Info("go to page: "@)),
                ],
                EventOutcome::Redraw,
            ),
        ),
        KeyCode::Char('/') => Some(
            finished(
                seq![
                    Command::SetInputMode(InputMode::Search(Seq::empty())),
                    Command::SetMsg(StatusMsg::Info("/"@)),
                ],
                EventOutcome::Redraw,
            ),
        ),
        KeyCode::Char('n') => Some((Seq::empty(), Next::Search(SearchStep::Next))),
        KeyCode::Char('N') => Some((Seq::empty(), Next::Search(SearchStep::Prev))),
        KeyCode::Char('M') => Some(
            finished(
                if v.has_metadata {
                    seq![Command::SetInputMode(InputMode::Metadata)]
                } else {
                    seq![Command::ShowInfo("no metadata available"@)]
                },
                EventOutcome::Redraw,
            ),
        ),
        KeyCode::Char('f') => Some(
            finished(
                seq![
                    Command::Render(RenderNotif::GetLinks(v.page)),
                    Command::ShowInfo("extracting links..."@),
                ],
                EventOutcome::Redraw,
            ),
        ),
        KeyCode::Char('e') => Some((Seq::empty(), Next::ExportPath)),
        KeyCode::Char('R') | KeyCode::F(5) => Some(
            finished(
                seq![
                    Command::Render(RenderNotif::Refresh),
                    Command::ShowInfo("refreshing..."@),
                ],
                EventOutcome::Redraw,
            ),
        ),
        KeyCode::Char('?') => Some(
            finished(seq![Command::ShowInfo(help_text())], EventOutcome::Redraw),
        ),
        _ => None,
    }
}

/// Whether a key ends the viewer: `q`, Escape, or `c` with Control.
pub open spec fn is_quit_key(code: KeyCode, control: bool) -> bool {
    code == KeyCode::Char('q') || code == KeyCode::Esc || (code == KeyCode::Char('c') && control)
}

/// On a key in normal mode.
pub open spec fn on_normal_key(code: KeyCode, control: bool, toc_len: nat, v: PageView) -> Reaction {
    if is_quit_key(code, control) {
        finished(Seq::empty(), EventOutcome::Quit)
    } else {
        match on_move_key(code, v) {
            Some(r) => r,
            None => match on_show_key(code, v) {
                Some(r) => r,
                None => match on_ask_key(code, toc_len, v) {
                    Some(r) => r,
                    None => ignored(),
                },
            },
        }
    }
}

/// The reaction to an event.
pub open spec fn reaction(
    event: Event,
    mode: InputMode<Seq<char>>,
    links: Seq<Link<Seq<char>>>,
    toc: Seq<usize>,
    v: PageView,
) -> Reaction {
    match event {
        Event::Mouse { kind, row } => on_mouse(kind, row, mode, toc, v.page_rows),
        Event::Resize => finished(Seq::empty(), EventOutcome::Redraw),
        Event::Other => ignored(),
        Event::Key { code, control } => match mode {
            InputMode::GoToPage(buf) => on_page_key(code, buf),
            InputMode::Toc { scroll } => on_toc_key(code, scroll, toc),
            InputMode::Search(buf) => on_search_key(code, buf, v.page),
            InputMode::Metadata => on_metadata_key(code),
            InputMode::Links { input } => on_links_key(code, input, links),
            InputMode::Normal => on_normal_key(code, control, toc.len(), v),
        },
    }
}

/// Commands of a reaction, and what follows them.
type Done = (Vec<Command>, Next);

/// Whether commands and what follows them are a reaction.
pub open spec fn is_reaction(done: (Vec<Command>, Next), r: Reaction) -> bool {
    commands_view(done.0@) =~= r.0 && done.1 == r.1
}

/// No commands, and an outcome.
fn finish(outcome: EventOutcome) -> (r: Done)
    ensures
        is_reaction(r, finished(Seq::empty(), outcome)),
{
    (no_commands(), Next::Finish(outcome))
}

/// The commands that go back to normal mode.
fn normal_commands() -> (r: Vec<Command>)
    ensures
        commands_view(r@) == back_to_normal(),
{
    let mut out = no_commands();
    emit(&mut out, Command::SetInputMode(InputMode::Normal));
    emit(&mut out, Command::SetMsg(StatusMsg::Hint));
    out
}

/// One command, and an outcome.
fn one(command: Command, outcome: EventOutcome) -> (r: Done)
    ensures
        is_reaction(r, finished(seq![command@], outcome)),
{
    let mut out = no_commands();
    emit(&mut out, command);
    (out, Next::Finish(outcome))
}

/// On a use of the mouse.
fn handle_mouse(kind: MouseKind, row: u16, mode: &InputMode, toc: &[usize], page_rows: u16) -> (r:
    Done)
    ensures
        is_reaction(r, on_mouse(kind, row, mode@, toc@, page_rows)),
{
    if let InputMode::Toc { scroll } = mode {
        if is_left_click(kind) {
            if let Some(entry) = toc_entry_at_row(toc.len(), *scroll, row, page_rows) {
                return (
                    normal_commands(),
                    Next::Turn(PageTurn::To(toc[entry]), AfterTurn::Nothing),
                );
            }
        }
    }
    finish(EventOutcome::Nothing)
}

/// Shows a page number as it is typed.
fn type_page(buf: String) -> (r: Done)
    ensures
        is_reaction(r, finished(typing_page(buf@), EventOutcome::RedrawStatus)),
{
    let mut out = no_commands();
    emit(
        &mut out,
        Command::SetMsg(StatusMsg::Info("go to page: ".to_owned().concat(buf.as_str()))),
    );
    emit(&mut out, Command::SetInputMode(InputMode::GoToPage(buf)));
    (out, Next::Finish(EventOutcome::RedrawStatus))
}

/// On a key while the number of a page is typed.
fn handle_page_key(code: KeyCode, buf: &String) -> (r: Done)
    ensures
        is_reaction(r, on_page_key(code, buf@)),
{
    match code {
        KeyCode::Enter => {
            let chars = chars_of(buf.as_str());
            let mut out = no_commands();
            emit(&mut out, Command::SetInputMode(InputMode::Normal));
            match parse_unsigned(chars.as_slice(), usize::MAX as u64) {
                Some(n) => {
                    let target: usize = if n == 0 {
                        0
                    } else {
                        (n - 1) as usize
                    };
                    (out, Next::Turn(PageTurn::To(target), AfterTurn::Hint))
                },
                None => {
                    emit(&mut out, Command::ShowInfo("invalid page number".to_owned()));
                    (out, Next::Finish(EventOutcome::Redraw))
                },
            }
        },
        KeyCode::Esc => (normal_commands(), Next::Finish(EventOutcome::Redraw)),
        KeyCode::Backspace => type_page(shorten(buf.as_str())),
        KeyCode::Char(c) => if is_ascii_digit(c) {
            type_page(extend(buf.as_str(), c))
        } else {
            finish(EventOutcome::Nothing)
        },
        _ => finish(EventOutcome::Nothing),
    }
}

/// Closes what is shown in place of the page.
fn close_overlay() -> (r: Done)
    ensures
        is_reaction(
            r,
            finished(back_to_normal().push(Command::NeedsRedraw), EventOutcome::Redraw),
        ),
{
    let mut out = normal_commands();
    emit(&mut out, Command::NeedsRedraw);
    (out, Next::Finish(EventOutcome::Redraw))
}

/// On a key while the table of contents is shown.
fn handle_toc_key(code: KeyCode, scroll: usize, toc: &[usize]) -> (r: Done)
    ensures
        is_reaction(r, on_toc_key(code, scroll, toc@)),
{
    match code {
        KeyCode::Esc | KeyCode::Char('t') | KeyCode::Char('q') => close_overlay(),
        KeyCode::Down | KeyCode::Char('j') => {
            if toc.len() > 1 && scroll < toc.len() - 1 {
                one(
                    Command::SetInputMode(InputMode::Toc { scroll: scroll + 1 }),
                    EventOutcome::Redraw,
                )
            } else {
                finish(EventOutcome::Redraw)
            }
        },
        KeyCode::Up | KeyCode::Char('k') => {
            let up: usize = if scroll == 0 {
                0
            } else {
                scroll - 1
            };
            one(Command::SetInputMode(InputMode::Toc { scroll: up }), EventOutcome::Redraw)
        },
        KeyCode::Enter => {
            if scroll < toc.len() {
                (normal_commands(), Next::Turn(PageTurn::To(toc[scroll]), AfterTurn::Nothing))
            } else {
                finish(EventOutcome::Redraw)
            }
        },
        _ => finish(EventOutcome::Nothing),
    }
}

/// Shows a text to search for as it is typed.
fn type_search(buf: String) -> (r: Done)
    ensures
        is_reaction(r, finished(typing_search(buf@), EventOutcome::RedrawStatus)),
{
    let mut out = no_commands();
    emit(&mut out, Command::SetMsg(StatusMsg::Info("/".to_owned().concat(buf.as_str()))));
    emit(&mut out, Command::SetInputMode(InputMode::Search(buf)));
    (out, Next::Finish(EventOutcome::RedrawStatus))
}

/// On a key while a text to search for is typed.
fn handle_search_key(code: KeyCode, buf: &String, page: usize) -> (r: Done)
    ensures
        is_reaction(r, on_search_key(code, buf@, page)),
{
    match code {
        KeyCode::Enter => {
            let mut out = no_commands();
            emit(&mut out, Command::SetInputMode(InputMode::Normal));
            if chars_of(buf.as_str()).len() == 0 {
                emit(&mut out, Command::SetSearchTerm(None));
                emit(&mut out, Command::SetPendingSearchJump(None));
                emit(&mut out, Command::Render(RenderNotif::Search(buf.clone())));
                emit(&mut out, Command::SetMsg(StatusMsg::Hint));
            } else {
                emit(&mut out, Command::SetSearchTerm(Some(buf.clone())));
                emit(&mut out, Command::ClearSearchResults);
                emit(&mut out, Command::SetPendingSearchJump(Some(page)));
                emit(&mut out, Command::Render(RenderNotif::Search(buf.clone())));
                emit(&mut out, Command::ShowInfo("searching...".to_owned()));
            }
            (out, Next::Finish(EventOutcome::Redraw))
        },
        KeyCode::Esc => (normal_commands(), Next::Finish(EventOutcome::Redraw)),
        KeyCode::Backspace => type_search(shorten(buf.as_str())),
        KeyCode::Char(c) => type_search(extend(buf.as_str(), c)),
        _ => finish(EventOutcome::Nothing),
    }
}

/// On a key while what is known of the document is shown.
fn handle_metadata_key(code: KeyCode) -> (r: Done)
    ensures
        is_reaction(r, on_metadata_key(code)),
{
    match code {
        KeyCode::Esc | KeyCode::Char('M') | KeyCode::Char('q') => close_overlay(),
        _ => finish(EventOutcome::Nothing),
    }
}

/// On a key while the links of a page are shown.
fn handle_links_key(code: KeyCode, input: &String, links: &[Link]) -> (r: Done)
    ensures
        is_reaction(r, on_links_key(code, input@, links_view(links@))),
{
    match code {
        KeyCode::Esc => (normal_commands(), Next::Finish(EventOutcome::Redraw)),
        KeyCode::Backspace => one(
            Command::SetInputMode(InputMode::Links { input: shorten(input.as_str()) }),
            EventOutcome::Redraw,
        ),
        KeyCode::Char(c) => if is_ascii_digit(c) {
            one(
                Command::SetInputMode(InputMode::Links { input: extend(input.as_str(), c) }),
                EventOutcome::Redraw,
            )
        } else {
            finish(EventOutcome::Nothing)
        },
        KeyCode::Enter => {
            let chars = chars_of(input.as_str());
            match parse_unsigned(chars.as_slice(), usize::MAX as u64) {
                None => (normal_commands(), Next::Finish(EventOutcome::Redraw)),
                Some(n) => {
                    let mut out = no_commands();
                    emit(&mut out, Command::SetInputMode(InputMode::Normal));
                    if n >= 1 && n as usize <= links.len() {
                        let link = &links[n as usize - 1];
                        assert(links_view(links@)[n - 1] == link@);
                        match link.page {
                            Some(page) => (out, Next::Turn(PageTurn::To(page), AfterTurn::Hint)),
                            None => {
                                emit(&mut out, Command::OpenUrl(link.uri.clone()));
                                emit(
                                    &mut out,
                                    Command::ShowInfo(
                                        "opened: ".to_owned().concat(link.uri.as_str()),
                                    ),
                                );
                                (out, Next::Finish(EventOutcome::Redraw))
                            },
                        }
                    } else {
                        emit(&mut out, Command::ShowInfo("invalid link number".to_owned()));
                        (out, Next::Finish(EventOutcome::Redraw))
                    }
                },
            }
        },
        _ => finish(EventOutcome::Nothing),
    }
}

/// A turn with nothing after it.
fn ask_turn(turn: PageTurn) -> (r: Option<Done>)
    ensures
        r matches Some(d) && is_reaction(d, turning(turn)),
{
    Some((no_commands(), Next::Turn(turn, AfterTurn::Nothing)))
}

/// No commands, and what follows.
fn ask(next: Next) -> (r: Option<Done>)
    ensures
        r matches Some(d) && is_reaction(d, (Seq::empty(), next)),
{
    Some((no_commands(), next))
}

/// Whether an optional reaction is what was computed.
pub open spec fn is_optional_reaction(
    done: Option<(Vec<Command>, Next)>,
    r: Option<Reaction>,
) -> bool {
    match done {
        Some(d) => r matches Some(reaction) && is_reaction(d, reaction),
        None => r is None,
    }
}

/// On a key that moves about.
fn handle_move_key(code: KeyCode, v: PageView) -> (r: Option<Done>)
    ensures
        is_optional_reaction(r, on_move_key(code, v)),
{
    match code {
        KeyCode::Char(' ') => ask_turn(PageTurn::Next),
        KeyCode::Char('j') => ask_turn(PageTurn::Next),
        KeyCode::Char('k') => ask_turn(PageTurn::Prev),
        KeyCode::Right | KeyCode::Left | KeyCode::Char('h') | KeyCode::Char('l') => {
            let pan_step: u32 = v.cell_width_px as u32 * 3;
            match horizontal_action(code, v.zoom_mode) {
                Some(HorizontalAction::NextPage) => ask_turn(PageTurn::Next),
                Some(HorizontalAction::PrevPage) => ask_turn(PageTurn::Prev),
                Some(HorizontalAction::PanRight) => Some(
                    one(Command::PanRight(pan_step), EventOutcome::Redraw),
                ),
                Some(HorizontalAction::PanLeft) => Some(
                    one(Command::PanLeft(pan_step), EventOutcome::Redraw),
                ),
                None => None,
            }
        },
        KeyCode::PageDown => if v.zoom_mode {
            ask(Next::Scroll(ScrollCall::PageDown))
        } else {
            ask_turn(PageTurn::Next)
        },
        KeyCode::PageUp => if v.zoom_mode {
            ask(Next::Scroll(ScrollCall::PageUp))
        } else {
            ask_turn(PageTurn::Prev)
        },
        KeyCode::Down => ask(Next::Scroll(ScrollCall::Down(v.cell_height_px as u32 * 3))),
        KeyCode::Up => ask(Next::Scroll(ScrollCall::Up(v.cell_height_px as u32 * 3))),
        _ => None,
    }
}

/// On a key that asks for another size of the text.
fn handle_font_key(amount: i32, message: &str, v: PageView) -> (r: Option<Done>)
    ensures
        is_optional_reaction(r, Some(on_font_key(amount, message@, v))),
{
    if v.reflowable {
        let mut out = no_commands();
        emit(&mut out, Command::InvalidateAllPages);
        emit(&mut out, Command::Render(RenderNotif::AdjustFontSize(amount)));
        emit(&mut out, Command::ShowInfo(message.to_owned()));
        Some((out, Next::Finish(EventOutcome::Redraw)))
    } else {
        Some(finish(EventOutcome::Nothing))
    }
}

/// A message that something is on or off.
fn switched_text(what: &str, on: bool) -> (r: String)
    ensures
        r@ == switched(what@, on),
{
    what.to_owned().concat(
        if on {
            "on"
        } else {
            "off"
        },
    )
}

/// On a key that changes how pages are shown.
fn handle_show_key(code: KeyCode, v: PageView) -> (r: Option<Done>)
    ensures
        is_optional_reaction(r, on_show_key(code, v)),
{
    let mut out = no_commands();
    match code {
        KeyCode::Char('z') => {
            if v.supports_zoom {
                return ask(Next::ToggleZoom);
            }
            emit(
                &mut out,
                Command::ShowInfo("zoom is only available for fixed-layout documents".to_owned()),
            );
        },
        KeyCode::Char('o') => {
            return if v.zoom_mode {
                ask(Next::Zoom(ZoomStep::In))
            } else {
                Some(finish(EventOutcome::Nothing))
            };
        },
        KeyCode::Char('O') => {
            return if v.zoom_mode {
                ask(Next::Zoom(ZoomStep::Out))
            } else {
                Some(finish(EventOutcome::Nothing))
            };
        },
        KeyCode::Char('<') => {
            return handle_font_key(-1, "EPUB font smaller", v);
        },
        KeyCode::Char('>') => {
            return handle_font_key(1, "EPUB font larger", v);
        },
        KeyCode::Char('i') => {
            emit(&mut out, Command::Render(RenderNotif::Invert));
            emit(&mut out, Command::SetInverted(!v.inverted));
            emit(&mut out, Command::InvalidateAllPages);
            emit(&mut out, Command::ShowInfo("invert toggled".to_owned()));
        },
        KeyCode::Char('r') => {
            emit(&mut out, Command::Render(RenderNotif::Rotate));
            let rotation: u32 = ((v.rotation as u64 + 90) % 360) as u32;
            emit(&mut out, Command::SetRotation(rotation));
            emit(&mut out, Command::InvalidateAllPages);
            emit(&mut out, Command::ShowInfo("rotated".to_owned()));
        },
        KeyCode::Char('c') => {
            let auto_crop = !v.auto_crop;
            emit(&mut out, Command::SetAutoCrop(auto_crop));
            emit(&mut out, Command::Convert(ConverterMsg::AutoCrop(auto_crop)));
            emit(&mut out, Command::Render(RenderNotif::Refresh));
            emit(&mut out, Command::InvalidateAllPages);
            emit(&mut out, Command::ShowInfo(switched_text("auto-crop ", auto_crop)));
        },
        KeyCode::Char('d') => {
            let tinted = !v.tinted;
            emit(&mut out, Command::Render(RenderNotif::Tint));
            emit(&mut out, Command::SetTinted(tinted));
            emit(&mut out, Command::InvalidateAllPages);
            emit(&mut out, Command::ShowInfo(switched_text("tint ", tinted)));
        },
        _ => {
            return None;
        },
    }
    Some((out, Next::Finish(EventOutcome::Redraw)))
}

/// On a key that asks for something of the document.
fn handle_ask_key(code: KeyCode, toc_len: usize, v: PageView) -> (r: Option<Done>)
    ensures
        is_optional_reaction(r, on_ask_key(code, toc_len as nat, v)),
{
    let mut out = no_commands();
    match code {
        KeyCode::Char('t') => {
            if toc_len == 0 {
                emit(&mut out, Command::ShowInfo("no table of contents".to_owned()));
            } else {
                emit(&mut out, Command::SetInputMode(InputMode::Toc { scroll: 0 }));
            }
        },
        KeyCode::Char('g') => {
            let empty = String::new();
            assert(empty@ =~= Seq::empty());
            emit(&mut out, Command::SetInputMode(InputMode::GoToPage(empty)));
            emit(&mut out, Command::SetMsg(StatusMsg::Info("go to page: ".to_owned())));
        },
        KeyCode::Char('/') => {
            let empty = String::new();
            assert(empty@ =~= Seq::empty());
            emit(&mut out, Command::SetInputMode(InputMode::Search(empty)));
            emit(&mut out, Command::SetMsg(StatusMsg::Info("/".to_owned())));
        },
        KeyCode::Char('n') => {
            return ask(Next::Search(SearchStep::Next));
        },
        KeyCode::Char('N') => {
            return ask(Next::Search(SearchStep::Prev));
        },
        KeyCode::Char('M') => {
            if v.has_metadata {
                emit(&mut out, Command::SetInputMode(InputMode::Metadata));
            } else {
                emit(&mut out, Command::ShowInfo("no metadata available".to_owned()));
            }
        },
        KeyCode::Char('f') => {
            emit(&mut out, Command::Render(RenderNotif::GetLinks(v.page)));
            emit(&mut out, Command::ShowInfo("extracting links...".to_owned()));
        },
        KeyCode::Char('e') => {
            return ask(Next::ExportPath);
        },
        KeyCode::Char('R') | KeyCode::F(5) => {
            emit(&mut out, Command::Render(RenderNotif::Refresh));
            emit(&mut out, Command::ShowInfo("refreshing...".to_owned()));
        },
        KeyCode::Char('?') => {
            emit(
                &mut out,
                Command::ShowInfo(
                    "Space next  PgUp/PgDn page  ←/→ page  ↑/↓ scroll  j/k page  g goto  t toc  / search  n/N result  z zoom  o/O +/-  i invert  r rotate  c crop  d tint  M meta  f links  e export  q quit".to_owned(),
                ),
            );
        },
        _ => {
            return None;
        },
    }
    Some((out, Next::Finish(EventOutcome::Redraw)))
}

/// On a key in normal mode.
fn handle_normal_key(code: KeyCode, control: bool, toc_len: usize, v: PageView) -> (r: Done)
    ensures
        is_reaction(r, on_normal_key(code, control, toc_len as nat, v)),
{
    match code {
        KeyCode::Char('q') | KeyCode::Esc => {
            return finish(EventOutcome::Quit);
        },
        KeyCode::Char('c') => {
            if control {
                return finish(EventOutcome::Quit);
            }
        },
        _ => {},
    }
    if let Some(r) = handle_move_key(code, v) {
        return r;
    }
    if let Some(r) = handle_show_key(code, v) {
        return r;
    }
    if let Some(r) = handle_ask_key(code, toc_len, v) {
        return r;
    }
    finish(EventOutcome::Nothing)
}

/// The reaction to an event: commands, and what follows them.
pub fn handle_event(event: &Event, app: &AppView) -> (r: (Vec<Command>, Next))
    ensures
        is_reaction(
            r,
            reaction(*event, app.input_mode@, links_view(app.links@), app.toc@, app.pages),
        ),
{
    match *event {
        Event::Mouse { kind, row } => handle_mouse(
            kind,
            row,
            app.input_mode,
            app.toc,
            app.pages.page_rows,
        ),
        Event::Resize => finish(EventOutcome::Redraw),
        Event::Other => finish(EventOutcome::Nothing),
        Event::Key { code, control } => match app.input_mode {
            InputMode::GoToPage(buf) => handle_page_key(code, buf),
            InputMode::Toc { scroll } => handle_toc_key(code, *scroll, app.toc),
            InputMode::Search(buf) => handle_search_key(code, buf, app.pages.page),
            InputMode::Metadata => handle_metadata_key(code),
            InputMode::Links { input } => handle_links_key(code, input, app.links),
            InputMode::Normal => handle_normal_key(code, control, app.toc.len(), app.pages),
        },
    }
}

} // verus!
