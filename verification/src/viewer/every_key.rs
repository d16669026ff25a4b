//! What holds of a session whatever key is pressed.

use vstd::prelude::*;

use crate::viewer::answer::final_outcome;
use crate::viewer::command::Command;
use crate::viewer::command::ConverterMsg;
use crate::viewer::command::InputMode;
use crate::viewer::command::RenderNotif;
use crate::viewer::command::StatusMsg;
use crate::viewer::event_loop::LoopState;
use crate::viewer::handle::EventOutcome;
use crate::viewer::handle::Link;
use crate::viewer::handle::Next;
use crate::viewer::handle::PageView;
use crate::viewer::input::Event;
use crate::viewer::input::KeyCode;
use crate::viewer::keys::agrees;
use crate::viewer::keys::lemma_crop_key;
use crate::viewer::keys::lemma_invert_key;
use crate::viewer::keys::lemma_rotate_key;
use crate::viewer::keys::lemma_tint_key;
use crate::viewer::keys::pressed;
use crate::viewer::keys::reacted;
use crate::viewer::react::answered;
use crate::viewer::react::lemma_on_links;
use crate::viewer::react::lemma_on_metadata;
use crate::viewer::react::lemma_on_mouse_event;
use crate::viewer::react::lemma_on_normal;
use crate::viewer::react::lemma_on_page;
use crate::viewer::react::lemma_on_rest;
use crate::viewer::react::lemma_on_search;
use crate::viewer::react::lemma_on_toc;
use crate::viewer::session::leaves_look;
use crate::viewer::session::lemma_look_stays;
use crate::viewer::session::Session;

verus! {

/// Whether an event is a key in normal mode.
pub open spec fn is_normal_key(event: Event, mode: InputMode<Seq<char>>, c: char) -> bool {
    mode is Normal && (event matches Event::Key { code, .. } && code == KeyCode::Char(c))
}

/// Whether a command may come of an event: each thing is changed by its own key alone, and to
/// nothing but what that key stands for.
pub open spec fn is_of_key(
    command: Command<Seq<char>>,
    event: Event,
    mode: InputMode<Seq<char>>,
    links: Seq<Link<Seq<char>>>,
    v: PageView,
) -> bool {
    match command {
        Command::SetInverted(b) => is_normal_key(event, mode, 'i') && b != v.inverted,
        Command::SetTinted(b) => is_normal_key(event, mode, 'd') && b != v.tinted,
        Command::SetAutoCrop(b) => is_normal_key(event, mode, 'c') && b != v.auto_crop,
        Command::SetRotation(_) => is_normal_key(event, mode, 'r'),
        Command::PanLeft(step) => is_normal_key(event, mode, 'h') && v.zoom_mode && step
            == 3 * v.cell_width_px,
        Command::PanRight(step) => is_normal_key(event, mode, 'l') && v.zoom_mode && step
            == 3 * v.cell_width_px,
        Command::SetSearchTerm(_) | Command::SetPendingSearchJump(_)
        | Command::ClearSearchResults => mode is Search,
        Command::OpenUrl(uri) => mode is Links && exists|k: int|
            0 <= k < links.len() && (#[trigger] links[k]).uri == uri,
        Command::InvalidateAllPages => is_normal_key(event, mode, 'i') || is_normal_key(
            event,
            mode,
            'd',
        ) || is_normal_key(event, mode, 'c') || is_normal_key(event, mode, 'r')
            || is_normal_key(event, mode, '<') || is_normal_key(event, mode, '>'),
        Command::Convert(ConverterMsg::AutoCrop(b)) => is_normal_key(event, mode, 'c') && b
            != v.auto_crop,
        Command::Convert(_) => false,
        Command::Render(RenderNotif::Invert) => is_normal_key(event, mode, 'i'),
        Command::Render(RenderNotif::Tint) => is_normal_key(event, mode, 'd'),
        Command::Render(RenderNotif::Rotate) => is_normal_key(event, mode, 'r'),
        Command::Render(RenderNotif::Search(_)) => mode is Search,
        Command::Render(RenderNotif::GetLinks(page)) => is_normal_key(event, mode, 'f')
            && page == v.page,
        Command::Render(RenderNotif::AdjustFontSize(amount)) => v.reflowable && if amount
            > 0 {
            amount == 1 && is_normal_key(event, mode, '>')
        } else {
            amount == -1 && is_normal_key(event, mode, '<')
        },
        Command::Render(RenderNotif::Refresh) => is_normal_key(event, mode, 'c')
            || is_normal_key(event, mode, 'R') || mode is Normal && (
        event matches Event::Key { code, .. } && code == KeyCode::F(5)),
        Command::Render(_) => false,
        Command::ClampPan | Command::ShowZoom | Command::PageDisplayFailed(_)
        | Command::SetNumPages(_) => false,
        _ => true,
    }
}

/// What comes of keys in normal mode.
#[verifier::rlimit(40)]
proof fn lemma_normal_keys_keep_apart(
    event: Event,
    mode: InputMode<Seq<char>>,
    links: Seq<Link<Seq<char>>>,
    toc: Seq<usize>,
    v: PageView,
    i: int,
)
    requires
        0 <= i < answered(event, mode, links, toc, v).0.len(),
        mode is Normal,
    ensures
        is_of_key(answered(event, mode, links, toc, v).0[i], event, mode, links, v),
{
    lemma_on_mouse_event(links, toc, v);
    lemma_on_rest(links, toc, v);
    lemma_on_normal(links, toc, v);
}

/// What comes of keys where a page number, a text or the number of a link is typed.
#[verifier::rlimit(40)]
proof fn lemma_typed_keys_keep_apart(
    event: Event,
    mode: InputMode<Seq<char>>,
    links: Seq<Link<Seq<char>>>,
    toc: Seq<usize>,
    v: PageView,
    i: int,
)
    requires
        0 <= i < answered(event, mode, links, toc, v).0.len(),
        mode is GoToPage || mode is Search || mode is Links,
    ensures
        is_of_key(answered(event, mode, links, toc, v).0[i], event, mode, links, v),
{
    lemma_on_mouse_event(links, toc, v);
    lemma_on_rest(links, toc, v);
    lemma_on_page(links, toc, v);
    lemma_on_search(links, toc, v);
    lemma_on_links(links, toc, v);
}

/// Each thing is changed by its own key alone, and to nothing but what that key stands for.
pub proof fn lemma_keys_keep_apart(
    event: Event,
    mode: InputMode<Seq<char>>,
    links: Seq<Link<Seq<char>>>,
    toc: Seq<usize>,
    v: PageView,
    i: int,
)
    requires
        0 <= i < answered(event, mode, links, toc, v).0.len(),
    ensures
        is_of_key(answered(event, mode, links, toc, v).0[i], event, mode, links, v),
{
    lemma_on_mouse_event(links, toc, v);
    lemma_on_rest(links, toc, v);
    match mode {
        InputMode::Normal => {
            lemma_normal_keys_keep_apart(event, mode, links, toc, v, i);
        },
        InputMode::Toc { .. } | InputMode::Metadata => {
            lemma_on_toc(links, toc, v);
            lemma_on_metadata(links, toc, v);
        },
        _ => {
            lemma_typed_keys_keep_apart(event, mode, links, toc, v, i);
        },
    }
}

/// With Control a key does what it does without, but for `c` in normal mode.
pub proof fn lemma_control(
    code: KeyCode,
    control: bool,
    mode: InputMode<Seq<char>>,
    links: Seq<Link<Seq<char>>>,
    toc: Seq<usize>,
    v: PageView,
)
    requires
        !(mode is Normal && code == KeyCode::Char('c')),
    ensures
        answered(Event::Key { code, control }, mode, links, toc, v) == answered(
            pressed(code),
            mode,
            links,
            toc,
            v,
        ),
{
    reveal(answered);
}

/// Whatever happens, renderer and converter know how pages are shown.
#[verifier::rlimit(40)]
pub proof fn lemma_stays_in_step(
    s: Session<()>,
    event: Event,
    links: Seq<Link<Seq<char>>>,
    toc: Seq<usize>,
    v: PageView,
)
    requires
        s.in_step(),
        agrees(s, v),
    ensures
        reacted(s, event, links, toc, v).in_step(),
{
    let c = answered(event, s.mode, links, toc, v).0;
    let quits = event == (Event::Key { code: KeyCode::Char('c'), control: true });
    if is_normal_key(event, s.mode, 'i') {
        lemma_control(KeyCode::Char('i'), event->control, s.mode, links, toc, v);
        lemma_invert_key(s, links, toc, v);
    } else if is_normal_key(event, s.mode, 'd') {
        lemma_control(KeyCode::Char('d'), event->control, s.mode, links, toc, v);
        lemma_tint_key(s, links, toc, v);
    } else if is_normal_key(event, s.mode, 'r') {
        lemma_control(KeyCode::Char('r'), event->control, s.mode, links, toc, v);
        lemma_rotate_key(s, links, toc, v);
    } else if is_normal_key(event, s.mode, 'c') && !quits {
        assert(event == pressed(KeyCode::Char('c')));
        lemma_crop_key(s, links, toc, v);
    } else if is_normal_key(event, s.mode, 'c') {
        lemma_on_normal(links, toc, v);
        lemma_look_stays(s, c);
    } else {
        assert forall|i: int| 0 <= i < c.len() implies leaves_look(#[trigger] c[i]) by {
            lemma_keys_keep_apart(event, s.mode, links, toc, v, i);
        }
        lemma_look_stays(s, c);
    }
}

/// No other key leads out of normal mode, and from anywhere else the way leads back to normal
/// mode or stays where it is.
#[verifier::rlimit(40)]
pub proof fn lemma_ways_between_modes(
    event: Event,
    mode: InputMode<Seq<char>>,
    links: Seq<Link<Seq<char>>>,
    toc: Seq<usize>,
    v: PageView,
    i: int,
)
    requires
        0 <= i < answered(event, mode, links, toc, v).0.len(),
    ensures
        answered(event, mode, links, toc, v).0[i] matches Command::SetInputMode(next) ==> match next {
            InputMode::Normal => !(mode is Normal),
            InputMode::Toc { .. } => mode is Toc || is_normal_key(event, mode, 't') && toc.len()
                > 0,
            InputMode::GoToPage(_) => mode is GoToPage || is_normal_key(event, mode, 'g'),
            InputMode::Search(_) => mode is Search || is_normal_key(event, mode, '/'),
            InputMode::Metadata => is_normal_key(event, mode, 'M') && v.has_metadata,
            InputMode::Links { .. } => mode is Links,
        },
{
    lemma_on_mouse_event(links, toc, v);
    lemma_on_rest(links, toc, v);
    lemma_on_page(links, toc, v);
    lemma_on_toc(links, toc, v);
    lemma_on_search(links, toc, v);
    lemma_on_metadata(links, toc, v);
    lemma_on_links(links, toc, v);
    lemma_on_normal(links, toc, v);
}

/// What changes is drawn: an event that does or asks for anything does not come to nothing, and
/// one that changes what takes the place of the page, or how the page is shown, draws the whole
/// screen.
#[verifier::rlimit(40)]
pub proof fn lemma_changes_are_drawn(
    event: Event,
    mode: InputMode<Seq<char>>,
    links: Seq<Link<Seq<char>>>,
    toc: Seq<usize>,
    v: PageView,
    i: int,
)
    ensures
        ({
            let r = answered(event, mode, links, toc, v);
            let outcome = final_outcome(r.1);
            &&& outcome == EventOutcome::Nothing || outcome == EventOutcome::Quit ==> r.0.len()
                == 0 && r.1 is Finish
            &&& event is Resize ==> outcome == EventOutcome::Redraw
            &&& r.1 is Turn || r.1 is Scroll || r.1 is ToggleZoom || r.1 is Zoom || r.1 is Search
                ==> outcome == EventOutcome::Redraw
            &&& r.1 is ExportPath ==> outcome == EventOutcome::RedrawStatus
            &&& 0 <= i < r.0.len() ==> match r.0[i] {
                Command::SetInputMode(InputMode::GoToPage(_)) => outcome == EventOutcome::Redraw
                    || outcome == EventOutcome::RedrawStatus,
                Command::SetInputMode(InputMode::Search(_)) => outcome == EventOutcome::Redraw
                    || outcome == EventOutcome::RedrawStatus,
                Command::SetMsg(StatusMsg::Info(_)) => outcome == EventOutcome::Redraw || outcome
                    == EventOutcome::RedrawStatus,
                _ => outcome == EventOutcome::Redraw,
            }
        }),
{
    lemma_on_mouse_event(links, toc, v);
    lemma_on_rest(links, toc, v);
    lemma_on_page(links, toc, v);
    lemma_on_toc(links, toc, v);
    lemma_on_search(links, toc, v);
    lemma_on_metadata(links, toc, v);
    lemma_on_links(links, toc, v);
    lemma_on_normal(links, toc, v);
}

/// The viewer ends on `q`, on Escape and on `c` with Control, in normal mode and nowhere else.
pub proof fn lemma_ending_keys(
    mode: InputMode<Seq<char>>,
    code: KeyCode,
    control: bool,
    links: Seq<Link<Seq<char>>>,
    toc: Seq<usize>,
    v: PageView,
)
    ensures
        LoopState::ends_on(
            final_outcome(answered(Event::Key { code, control }, mode, links, toc, v).1),
        ) <==> mode is Normal && (code == KeyCode::Char('q') || code == KeyCode::Esc || control
            && code == KeyCode::Char('c')),
{
    lemma_on_mouse_event(links, toc, v);
    lemma_on_rest(links, toc, v);
    lemma_on_page(links, toc, v);
    lemma_on_toc(links, toc, v);
    lemma_on_search(links, toc, v);
    lemma_on_metadata(links, toc, v);
    lemma_on_links(links, toc, v);
    lemma_on_normal(links, toc, v);
}

/// Whether a key means something in normal mode.
pub open spec fn has_meaning(code: KeyCode) -> bool {
    match code {
        KeyCode::Right | KeyCode::Left | KeyCode::Up | KeyCode::Down => true,
        KeyCode::PageUp | KeyCode::PageDown | KeyCode::Esc => true,
        KeyCode::F(n) => n == 5,
        KeyCode::Char(c) => {
            ||| c == ' ' || c == 'j' || c == 'k' || c == 'h' || c == 'l' || c == 'q'
            ||| c == 'z' || c == 'o' || c == 'O' || c == '<' || c == '>'
            ||| c == 'i' || c == 'r' || c == 'c' || c == 'd'
            ||| c == 't' || c == 'g' || c == '/' || c == 'n' || c == 'N'
            ||| c == 'M' || c == 'f' || c == 'e' || c == 'R' || c == '?'
        },
        _ => false,
    }
}

/// A key without a meaning does nothing: any other than those above in normal mode, and where
/// something is typed or shown in place of the page, any that neither types, confirms, takes
/// back, moves nor closes.
pub proof fn lemma_other_keys(
    code: KeyCode,
    control: bool,
    mode: InputMode<Seq<char>>,
    links: Seq<Link<Seq<char>>>,
    toc: Seq<usize>,
    v: PageView,
)
    requires
        match mode {
            InputMode::Normal => !has_meaning(code),
            InputMode::GoToPage(_) | InputMode::Links { .. } => !(code == KeyCode::Enter || code
                == KeyCode::Esc || code == KeyCode::Backspace || (code matches KeyCode::Char(c)
                && '0' <= c <= '9')),
            InputMode::Search(_) => !(code == KeyCode::Enter || code == KeyCode::Esc || code
                == KeyCode::Backspace || code is Char),
            InputMode::Toc { .. } => !(code == KeyCode::Enter || code == KeyCode::Esc || code
                == KeyCode::Up || code == KeyCode::Down || code == KeyCode::Char('j') || code
                == KeyCode::Char('k') || code == KeyCode::Char('t') || code == KeyCode::Char('q')),
            InputMode::Metadata => !(code == KeyCode::Esc || code == KeyCode::Char('M') || code
                == KeyCode::Char('q')),
        },
    ensures
        ({
            let r = answered(Event::Key { code, control }, mode, links, toc, v);
            r.0.len() == 0 && r.1 == Next::Finish(EventOutcome::Nothing)
        }),
{
    match mode {
        InputMode::Normal => {
            lemma_on_normal(links, toc, v);
        },
        InputMode::GoToPage(_) => {
            lemma_on_page(links, toc, v);
        },
        InputMode::Links { .. } => {
            lemma_on_links(links, toc, v);
        },
        InputMode::Search(_) => {
            lemma_on_search(links, toc, v);
        },
        InputMode::Toc { .. } => {
            lemma_on_toc(links, toc, v);
        },
        InputMode::Metadata => {
            lemma_on_metadata(links, toc, v);
        },
    }
}

} // verus!
