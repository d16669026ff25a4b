//! What holds of every reaction of the viewer.

use vstd::prelude::*;

use crate::text::all_digits;
use crate::text::is_digit;
use crate::viewer::answer::turned;
use crate::viewer::command::page_jump;
use crate::viewer::command::Command;
use crate::viewer::command::ConverterMsg;
use crate::viewer::command::InputMode;
use crate::viewer::command::RenderNotif;
use crate::viewer::handle::is_quit_key;
use crate::viewer::handle::next_rotation;
use crate::viewer::handle::reaction;
use crate::viewer::handle::shortened;
use crate::viewer::handle::AfterTurn;
use crate::viewer::handle::EventOutcome;
use crate::viewer::handle::Link;
use crate::viewer::handle::Next;
use crate::viewer::handle::PageTurn;
use crate::viewer::handle::PageView;
use crate::viewer::input::Event;
use crate::viewer::input::KeyCode;

verus! {

/// The viewer ends exactly on a key that ends it, pressed in normal mode.
pub proof fn lemma_quits(
    event: Event,
    mode: InputMode<Seq<char>>,
    links: Seq<Link<Seq<char>>>,
    toc: Seq<usize>,
    v: PageView,
)
    ensures
        reaction(event, mode, links, toc, v).1 == Next::Finish(EventOutcome::Quit) <==> mode
            == InputMode::<Seq<char>>::Normal && (event matches Event::Key { code, control }
            && is_quit_key(code, control)),
{
}

/// An event that comes to nothing changes nothing.
pub proof fn lemma_nothing_is_done(
    event: Event,
    mode: InputMode<Seq<char>>,
    links: Seq<Link<Seq<char>>>,
    toc: Seq<usize>,
    v: PageView,
)
    ensures
        reaction(event, mode, links, toc, v).1 == Next::Finish(EventOutcome::Nothing) ==> reaction(
            event,
            mode,
            links,
            toc,
            v,
        ).0.len() == 0,
{
}

/// Escape leads back to normal mode from everywhere else.
pub proof fn lemma_escape_goes_back(
    mode: InputMode<Seq<char>>,
    links: Seq<Link<Seq<char>>>,
    toc: Seq<usize>,
    v: PageView,
    control: bool,
)
    requires
        mode != InputMode::<Seq<char>>::Normal,
    ensures
        ({
            let r = reaction(Event::Key { code: KeyCode::Esc, control }, mode, links, toc, v);
            &&& r.1 == Next::Finish(EventOutcome::Redraw)
            &&& r.0.len() > 0
            &&& r.0[0] == Command::<Seq<char>>::SetInputMode(InputMode::Normal)
        }),
{
}

/// Whether what is typed in a mode is a row of digits, and the entry that a mode shows first is
/// one of `toc_len`.
pub open spec fn mode_is_sound(mode: InputMode<Seq<char>>, toc_len: nat) -> bool {
    match mode {
        InputMode::GoToPage(buf) => all_digits(buf),
        InputMode::Links { input } => all_digits(input),
        InputMode::Toc { scroll } => scroll < toc_len,
        _ => true,
    }
}

/// Whatever the user does, a page number or the number of a link that is typed consists of
/// digits, and the table of contents is shown from one of its entries on.
pub proof fn lemma_modes_stay_sound(
    event: Event,
    mode: InputMode<Seq<char>>,
    links: Seq<Link<Seq<char>>>,
    toc: Seq<usize>,
    v: PageView,
    i: int,
)
    requires
        mode_is_sound(mode, toc.len()),
        0 <= i < reaction(event, mode, links, toc, v).0.len(),
    ensures
        reaction(event, mode, links, toc, v).0[i] matches Command::SetInputMode(next)
            ==> mode_is_sound(next, toc.len()),
{
    if let Event::Key { code, control } = event {
        match mode {
            InputMode::GoToPage(buf) => {
                lemma_typed_digits(buf, code);
            },
            InputMode::Links { input } => {
                lemma_typed_digits(input, code);
            },
            _ => {},
        }
    }
}

/// Taking a character off a row of digits, or adding a digit, leaves a row of digits.
proof fn lemma_typed_digits(s: Seq<char>, code: KeyCode)
    requires
        all_digits(s),
    ensures
        all_digits(shortened(s)),
        code matches KeyCode::Char(c) ==> is_digit(c) ==> all_digits(s.push(c)),
{
    assert forall|i: int| 0 <= i < shortened(s).len() implies is_digit(
        #[trigger] shortened(s)[i],
    ) by {
        assert(is_digit(s[i]));
    }
    if let KeyCode::Char(c) = code {
        if is_digit(c) {
            assert forall|i: int| 0 <= i < s.push(c).len() implies is_digit(
                #[trigger] s.push(c)[i],
            ) by {
                if i < s.len() {
                    assert(is_digit(s[i]));
                }
            }
        }
    }
}

/// From the table of contents the viewer turns only to pages of its entries.
pub proof fn lemma_toc_turns_to_entries(
    event: Event,
    scroll: usize,
    links: Seq<Link<Seq<char>>>,
    toc: Seq<usize>,
    v: PageView,
)
    requires
        toc.len() <= usize::MAX,
    ensures
        reaction(event, InputMode::Toc { scroll }, links, toc, v).1 matches Next::Turn(turn, after)
            ==> after == AfterTurn::Nothing && (turn matches PageTurn::To(page) && toc.contains(
            page,
        )),
{
}

/// From the links of a page the viewer turns only to pages that they lead to.
pub proof fn lemma_links_turn_to_targets(
    event: Event,
    input: Seq<char>,
    links: Seq<Link<Seq<char>>>,
    toc: Seq<usize>,
    v: PageView,
)
    ensures
        reaction(event, InputMode::Links { input }, links, toc, v).1 matches Next::Turn(turn, after)
            ==> turn matches PageTurn::To(page) && exists|i: int|
            0 <= i < links.len() && (#[trigger] links[i]).page == Some(page),
{
}

/// A page number that is typed is counted from one: the page turned to is one less.
pub proof fn lemma_typed_page_is_counted_from_one(
    page: usize,
    links: Seq<Link<Seq<char>>>,
    toc: Seq<usize>,
    v: PageView,
    control: bool,
)
    requires
        page < usize::MAX,
    ensures
        reaction(
            Event::Key { code: KeyCode::Enter, control },
            InputMode::GoToPage(crate::text::digits((page + 1) as nat)),
            links,
            toc,
            v,
        ).1 == Next::Turn(PageTurn::To(page), AfterTurn::Hint),
{
    crate::text::lemma_decimal_round_trip((page + 1) as nat, usize::MAX as nat);
}

/// The renderer and the task that prepares images are always told of the same page, and only
/// where the page changed.
pub proof fn lemma_told_of_same_page(after: AfterTurn, moved: bool, page: usize, ready: bool)
    ensures
        moved <==> turned(after, moved, page, ready).contains(
            Command::Render(RenderNotif::JumpToPage(page)),
        ),
        moved <==> turned(after, moved, page, ready).contains(
            Command::Convert(ConverterMsg::GoToPage(page)),
        ),
        moved && !ready <==> turned(after, moved, page, ready).contains(
            Command::Render(RenderNotif::PageNeedsReRender(page)),
        ),
{
    let jump = page_jump(page, ready);
    let all = turned(after, moved, page, ready);
    if moved {
        assert(all[0] == jump[0] && all[1] == jump[1]);
        if !ready {
            assert(all[2] == jump[2]);
        }
    }
}

/// Four quarter turns lead back to where they began.
pub proof fn lemma_four_rotations(rotation: u32)
    requires
        rotation < 360,
    ensures
        next_rotation(next_rotation(next_rotation(next_rotation(rotation)))) == rotation,
        next_rotation(rotation) < 360,
        rotation % 90 == 0 ==> next_rotation(rotation) % 90 == 0,
{
}

} // verus!
