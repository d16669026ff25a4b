//! How a reaction goes on once it is known what came of what it asked for.

use vstd::prelude::*;

use crate::text::decimal;
use crate::text::digits;
use crate::viewer::command::commands_view;
use crate::viewer::command::emit;
use crate::viewer::command::no_commands;
use crate::viewer::command::page_jump;
use crate::viewer::command::send_page_jump_commands;
use crate::viewer::command::Command;
use crate::viewer::command::RenderNotif;
use crate::viewer::command::StatusMsg;
use crate::viewer::handle::switched;
use crate::viewer::handle::AfterTurn;
use crate::viewer::handle::EventOutcome;
use crate::viewer::handle::Next;
use crate::viewer::handle::PageTurn;
use crate::viewer::handle::ScrollAction;
use crate::viewer::handle::ScrollCall;
use crate::viewer::handle::ZoomStep;

verus! {

/// What an event comes to in the end, once all that it asked for is answered: an export shows in
/// the status bar, everything else on the screen.
pub open spec fn final_outcome(next: Next) -> EventOutcome {
    match next {
        Next::Finish(outcome) => outcome,
        Next::ExportPath => EventOutcome::RedrawStatus,
        _ => EventOutcome::Redraw,
    }
}

/// What an event comes to in the end, once all that it asked for is answered.
pub fn outcome_after(next: Next) -> (r: EventOutcome)
    ensures
        r == final_outcome(next),
{
    match next {
        Next::Finish(outcome) => outcome,
        Next::ExportPath => EventOutcome::RedrawStatus,
        _ => EventOutcome::Redraw,
    }
}

/// After a turn: where the page changed, the jump to it; then the hint where it was asked for.
pub open spec fn turned(after: AfterTurn, moved: bool, page: usize, ready: bool) -> Seq<
    Command<Seq<char>>,
> {
    let jump = if moved {
        page_jump(page, ready)
    } else if after == AfterTurn::RedrawIfStill {
        seq![Command::NeedsRedraw]
    } else {
        Seq::empty()
    };
    if after == AfterTurn::Hint {
        jump.push(Command::SetMsg(StatusMsg::Hint))
    } else {
        jump
    }
}

/// After a turn: `moved` says whether the page changed, `page` is the page that is current now
/// and `ready` whether its image is there.
pub fn after_turn(after: AfterTurn, moved: bool, page: usize, ready: bool) -> (r: Vec<Command>)
    ensures
        commands_view(r@) == turned(after, moved, page, ready),
{
    let mut out = no_commands();
    if moved {
        send_page_jump_commands(&mut out, page, ready);
        assert(commands_view(out@) =~= page_jump(page, ready));
    } else if after == AfterTurn::RedrawIfStill {
        emit(&mut out, Command::NeedsRedraw);
    }
    if after == AfterTurn::Hint {
        emit(&mut out, Command::SetMsg(StatusMsg::Hint));
    }
    out
}

/// After scrolling: the end of the page on the way turns to the next page or to the bottom of
/// the one before; anything else is drawn.
pub open spec fn scrolled(call: ScrollCall, action: ScrollAction) -> Next {
    match (call, action) {
        (ScrollCall::Down(_), ScrollAction::TurnNext) => Next::Turn(
            PageTurn::Next,
            AfterTurn::Nothing,
        ),
        (ScrollCall::PageDown, ScrollAction::TurnNext) => Next::Turn(
            PageTurn::Next,
            AfterTurn::Nothing,
        ),
        (ScrollCall::Up(_), ScrollAction::TurnPrev) => Next::Turn(
            PageTurn::PrevAtBottom,
            AfterTurn::Nothing,
        ),
        (ScrollCall::PageUp, ScrollAction::TurnPrev) => Next::Turn(
            PageTurn::PrevAtBottom,
            AfterTurn::Nothing,
        ),
        _ => Next::Finish(EventOutcome::Redraw),
    }
}

/// After scrolling.
pub fn after_scroll(call: ScrollCall, action: ScrollAction) -> (r: Next)
    ensures
        r == scrolled(call, action),
{
    let down = matches!(call, ScrollCall::Down(_) | ScrollCall::PageDown);
    match action {
        ScrollAction::TurnNext => if down {
            Next::Turn(PageTurn::Next, AfterTurn::Nothing)
        } else {
            Next::Finish(EventOutcome::Redraw)
        },
        ScrollAction::TurnPrev => if down {
            Next::Finish(EventOutcome::Redraw)
        } else {
            Next::Turn(PageTurn::PrevAtBottom, AfterTurn::Nothing)
        },
        ScrollAction::Scrolled | ScrollAction::Nothing => Next::Finish(EventOutcome::Redraw),
    }
}

/// After a zoom that changed something: the pages are rendered anew, zooming out keeps the pan
/// within bounds, and the zoom is shown.
pub open spec fn zoomed(step: ZoomStep, changed: bool) -> Seq<Command<Seq<char>>> {
    if !changed {
        Seq::empty()
    } else if step == ZoomStep::In {
        seq![Command::InvalidateAllPages, Command::Render(RenderNotif::Area), Command::ShowZoom]
    } else {
        seq![
            Command::InvalidateAllPages,
            Command::Render(RenderNotif::Area),
            Command::ClampPan,
            Command::ShowZoom,
        ]
    }
}

/// After a zoom; `changed` says whether it changed anything.
pub fn after_zoom(step: ZoomStep, changed: bool) -> (r: Vec<Command>)
    ensures
        commands_view(r@) == zoomed(step, changed),
{
    let mut out = no_commands();
    if changed {
        emit(&mut out, Command::InvalidateAllPages);
        emit(&mut out, Command::Render(RenderNotif::Area));
        if step == ZoomStep::Out {
            emit(&mut out, Command::ClampPan);
        }
        emit(&mut out, Command::ShowZoom);
    }
    assert(commands_view(out@) =~= zoomed(step, changed));
    out
}

/// After zoom mode was switched: the pages are rendered anew, and the mode is shown.
pub open spec fn zoom_toggled(zoom_mode: bool) -> Seq<Command<Seq<char>>> {
    seq![
        Command::InvalidateAllPages,
        Command::Render(RenderNotif::Area),
        Command::ShowInfo(switched("zoom mode "@, zoom_mode)),
    ]
}

/// After zoom mode was switched: the pages are rendered anew, and the mode is shown.
pub fn after_zoom_toggle(zoom_mode: bool) -> (r: Vec<Command>)
    ensures
        commands_view(r@) == zoom_toggled(zoom_mode),
{
    let mut out = no_commands();
    emit(&mut out, Command::InvalidateAllPages);
    emit(&mut out, Command::Render(RenderNotif::Area));
    let mode = if zoom_mode {
        "on"
    } else {
        "off"
    };
    emit(&mut out, Command::ShowInfo("zoom mode ".to_owned().concat(mode)));
    assert(commands_view(out@) =~= zoom_toggled(zoom_mode));
    out
}

/// After a step through the search results: the jump to the page of the result, or a message
/// where there is none and something is searched for.
pub open spec fn stepped(found: bool, searching: bool, page: usize, ready: bool) -> Seq<
    Command<Seq<char>>,
> {
    if found {
        page_jump(page, ready)
    } else if searching {
        seq![Command::ShowInfo("no more results"@)]
    } else {
        Seq::empty()
    }
}

/// After a step through the search results; `page` is the page that is current now and `ready`
/// whether its image is there.
pub fn after_search(found: bool, searching: bool, page: usize, ready: bool) -> (r: Vec<Command>)
    ensures
        commands_view(r@) == stepped(found, searching, page, ready),
{
    let mut out = no_commands();
    if found {
        send_page_jump_commands(&mut out, page, ready);
    } else if searching {
        emit(&mut out, Command::ShowInfo("no more results".to_owned()));
    }
    assert(commands_view(out@) =~= stepped(found, searching, page, ready));
    out
}

/// Once the path for an export is known: the renderer is told to export the page, and the number
/// of the page, counted from one, is shown.
pub open spec fn export_asked(output_path: Seq<char>, page: usize, auto_crop: bool) -> Seq<
    Command<Seq<char>>,
> {
    seq![
        Command::Render(RenderNotif::ExportPage { page_num: page, output_path, auto_crop }),
        Command::ShowInfo("exporting page "@ + digits((page + 1) as nat) + "..."@),
    ]
}

/// Once the path for an export is known.
pub fn after_export_path(output_path: String, page: usize, auto_crop: bool) -> (r: Vec<Command>)
    ensures
        commands_view(r@) == export_asked(output_path@, page, auto_crop),
{
    let ghost path = output_path@;
    let mut out = no_commands();
    emit(
        &mut out,
        Command::Render(RenderNotif::ExportPage { page_num: page, output_path, auto_crop }),
    );
    emit(
        &mut out,
        Command::ShowInfo(
            "exporting page ".to_owned().concat(decimal(page as u128 + 1).as_str()).concat("..."),
        ),
    );
    assert(commands_view(out@) =~= export_asked(path, page, auto_crop));
    out
}

/// What is known of the next page with a search result: not yet, the page, or that there is
/// none.
#[derive(Clone, Copy, Debug, PartialEq, Eq, Structural)]
pub enum SearchJumpResolution {
    Pending,
    Found(usize),
    NoResult,
}

/// What a search that is waited for comes to: commands, the turn that follows them, and whether
/// the screen is drawn anew.
pub open spec fn search_resolved(resolution: SearchJumpResolution) -> (
    Seq<Command<Seq<char>>>,
    Option<PageTurn>,
    bool,
) {
    match resolution {
        SearchJumpResolution::Pending => (Seq::empty(), None, false),
        SearchJumpResolution::Found(page) => (
            seq![Command::SetPendingSearchJump(None), Command::SetMsg(StatusMsg::Hint)],
            Some(PageTurn::To(page)),
            true,
        ),
        SearchJumpResolution::NoResult => (
            seq![
                Command::SetPendingSearchJump(None),
                Command::ShowInfo("no result"@),
                Command::NeedsRedraw,
            ],
            None,
            true,
        ),
    }
}

/// What a search comes to once it is known where it leads; `resolution` is nothing where no
/// search is waited for. The turn that may follow redraws where the page stays the same.
pub fn advance_pending_search_if_ready(resolution: Option<SearchJumpResolution>) -> (r: (
    Vec<Command>,
    Option<PageTurn>,
    bool,
))
    ensures
        match resolution {
            None => commands_view(r.0@) == Seq::<Command<Seq<char>>>::empty() && r.1 is None
                && !r.2,
            Some(res) => commands_view(r.0@) == search_resolved(res).0 && r.1 == search_resolved(
                res,
            ).1 && r.2 == search_resolved(res).2,
        },
{
    let mut out = no_commands();
    match resolution {
        None => (out, None, false),
        Some(SearchJumpResolution::Pending) => (out, None, false),
        Some(SearchJumpResolution::Found(page)) => {
            emit(&mut out, Command::SetPendingSearchJump(None));
            emit(&mut out, Command::SetMsg(StatusMsg::Hint));
            assert(commands_view(out@) =~= search_resolved(SearchJumpResolution::Found(page)).0);
            (out, Some(PageTurn::To(page)), true)
        },
        Some(SearchJumpResolution::NoResult) => {
            emit(&mut out, Command::SetPendingSearchJump(None));
            emit(&mut out, Command::ShowInfo("no result".to_owned()));
            emit(&mut out, Command::NeedsRedraw);
            assert(commands_view(out@) =~= search_resolved(SearchJumpResolution::NoResult).0);
            (out, None, true)
        },
    }
}

/// Scrolling asks for a turn at most once, and comes to the same in the end either way.
pub proof fn lemma_scroll_asks_once(call: ScrollCall, action: ScrollAction)
    ensures
        scrolled(call, action) is Turn || scrolled(call, action) is Finish,
        final_outcome(scrolled(call, action)) == final_outcome(Next::Scroll(call)),
{
}

} // verus!
