//! What comes of answers, of reports and of starting.

use vstd::prelude::*;

use crate::document::spec_export_options;
use crate::document::startup_message;
use crate::document::ExportGeometry;
use crate::document::SavedState;
use crate::text::digits;
use crate::viewer::answer::export_asked;
use crate::viewer::answer::scrolled;
use crate::viewer::answer::search_resolved;
use crate::viewer::answer::stepped;
use crate::viewer::answer::turned;
use crate::viewer::answer::zoom_toggled;
use crate::viewer::answer::zoomed;
use crate::viewer::answer::SearchJumpResolution;
use crate::viewer::command::page_jump;
use crate::viewer::command::Command;
use crate::viewer::command::ConverterMsg;
use crate::viewer::command::InputMode;
use crate::viewer::command::RenderNotif;
use crate::viewer::draw::retry_commands;
use crate::viewer::event_loop::reported;
use crate::viewer::event_loop::LoopState;
use crate::viewer::event_loop::RenderReport;
use crate::viewer::event_loop::ReportOutcome;
use crate::viewer::handle::AfterTurn;
use crate::viewer::handle::EventOutcome;
use crate::viewer::handle::Next;
use crate::viewer::handle::PageTurn;
use crate::viewer::handle::ScrollAction;
use crate::viewer::handle::ScrollCall;
use crate::viewer::handle::ZoomStep;
use crate::viewer::session::lemma_done_four;
use crate::viewer::session::lemma_done_none;
use crate::viewer::session::lemma_done_one;
use crate::viewer::session::lemma_done_parts;
use crate::viewer::session::lemma_done_three;
use crate::viewer::session::lemma_done_two;
use crate::viewer::session::Converter;
use crate::viewer::session::Renderer;
use crate::viewer::session::Session;
use crate::viewer::session::Status;
use crate::viewer::startup::optional;
use crate::viewer::startup::quarter_turns;
use crate::viewer::startup::start_commands;
use crate::viewer::startup::start_state;
use crate::viewer::startup::told_font_size;

verus! {

/// The session on another page: renderer and converter both know of the page, and it is rendered
/// anew where its image is missing.
pub open spec fn on_page(s: Session<()>, page: usize, ready: bool) -> Session<()> {
    Session {
        renderer: Renderer {
            page,
            anew: if ready {
                s.renderer.anew
            } else {
                s.renderer.anew.insert(page)
            },
            ..s.renderer
        },
        converter: Converter { page, ..s.converter },
        ..s
    }
}

/// Whether commands tell renderer and converter of no page but one, of that one where `told`, and
/// have it rendered anew where `anew`.
pub open spec fn tells_of(
    commands: Seq<Command<Seq<char>>>,
    page: usize,
    told: bool,
    anew: bool,
) -> bool {
    forall|p: usize| #[trigger]
        tells_of_page(commands, p) == (
            told && p == page,
            told && p == page,
            told && anew && p == page,
        )
}

/// Whether commands tell the renderer of a page, the converter of it, and the renderer to make it
/// anew.
pub open spec fn tells_of_page(commands: Seq<Command<Seq<char>>>, page: usize) -> (
    bool,
    bool,
    bool,
) {
    (
        commands.contains(Command::Render(RenderNotif::JumpToPage(page))),
        commands.contains(Command::Convert(ConverterMsg::GoToPage(page))),
        commands.contains(Command::Render(RenderNotif::PageNeedsReRender(page))),
    )
}

/// A jump to a page leads renderer and converter there, and tells them of no other page.
pub proof fn lemma_jump(s: Session<()>, page: usize, ready: bool)
    ensures
        s.done(page_jump(page, ready)) == on_page(s, page, ready),
        tells_of(page_jump(page, ready), page, true, !ready),
{
    let c = page_jump(page, ready);
    if ready {
        lemma_done_two(s, c);
    } else {
        lemma_done_three(s, c);
        assert(c[2] == Command::<Seq<char>>::Render(RenderNotif::PageNeedsReRender(page)));
    }
    assert(c[0] == Command::<Seq<char>>::Render(RenderNotif::JumpToPage(page)));
    assert(c[1] == Command::<Seq<char>>::Convert(ConverterMsg::GoToPage(page)));
}

/// A step through the search results that found one leads to the page that is current then, and
/// to no other; one that found none leads nowhere, and says so where something is searched for.
pub proof fn lemma_search_step(
    s: Session<()>,
    found: bool,
    searching: bool,
    page: usize,
    ready: bool,
)
    ensures
        tells_of(stepped(found, searching, page, ready), page, found, !ready),
        s.done(stepped(found, searching, page, ready)) == (if found {
            on_page(s, page, ready)
        } else if searching {
            Session { status: Status::Passing("no more results"@), ..s }
        } else {
            s
        }),
{
    let c = stepped(found, searching, page, ready);
    if found {
        lemma_jump(s, page, ready);
    } else if searching {
        lemma_done_one(s, c);
    } else {
        lemma_done_none(s, c);
    }
}

/// A turn that moved leads to the page that is current then, and to no other, and one that did
/// not leads nowhere; the hint comes back and the screen is drawn where that was asked for.
#[verifier::rlimit(30)]
pub proof fn lemma_turn(s: Session<()>, after: AfterTurn, moved: bool, page: usize, ready: bool)
    ensures
        tells_of(turned(after, moved, page, ready), page, moved, !ready),
        ({
            let there = if moved {
                on_page(s, page, ready)
            } else {
                s
            };
            s.done(turned(after, moved, page, ready)) == Session {
                status: if after is Hint {
                    Status::Hint
                } else {
                    s.status
                },
                redraw: s.redraw || !moved && after is RedrawIfStill,
                ..there
            }
        }),
{
    let c = turned(after, moved, page, ready);
    if moved {
        lemma_jump(s, page, ready);
        if after is Hint {
            let jump = page_jump(page, ready);
            assert(c.drop_last() =~= jump);
            assert forall|x: Command<Seq<char>>| c.contains(x) implies jump.contains(x) || x == c[c.len()
                - 1] by {
                let i = choose|i: int| 0 <= i < c.len() && c[i] == x;
                if i < jump.len() {
                    assert(jump[i] == x);
                }
            }
            assert forall|x: Command<Seq<char>>| jump.contains(x) implies c.contains(x) by {
                let i = choose|i: int| 0 <= i < jump.len() && jump[i] == x;
                assert(c[i] == x);
            }
            assert forall|p: usize| #[trigger]
                tells_of_page(c, p) == tells_of_page(jump, p) by {
            }
        }
    } else if c.len() == 0 {
        lemma_done_none(s, c);
    } else {
        lemma_done_one(s, c);
    }
}

/// Scrolling turns a page exactly where its end was reached in the direction of the scroll:
/// forward from the end of a page, and backward to the end of the page before.
pub proof fn lemma_scroll(call: ScrollCall, action: ScrollAction)
    ensures
        scrolled(call, action) == Next::Turn(PageTurn::Next, AfterTurn::Nothing) <==> action is TurnNext
            && (call is Down || call is PageDown),
        scrolled(call, action) == Next::Turn(PageTurn::PrevAtBottom, AfterTurn::Nothing)
            <==> action is TurnPrev && (call is Up || call is PageUp),
        !(scrolled(call, action) is Turn) ==> scrolled(call, action) == Next::Finish(
            EventOutcome::Redraw,
        ),
{
}

/// A zoom that changed something has every page made anew for its new area, and is shown; only
/// zooming out holds the page to its place. One that changed nothing does nothing.
pub proof fn lemma_zoom(s: Session<()>, step: ZoomStep, changed: bool)
    ensures
        s.done(zoomed(step, changed)) == (if changed {
            Session {
                images_valid: false,
                renderer: Renderer { areas: s.renderer.areas + 1, ..s.renderer },
                status: Status::Zoom,
                pan_clamped: s.pan_clamped || step is Out,
                ..s
            }
        } else {
            s
        }),
{
    let c = zoomed(step, changed);
    if !changed {
        lemma_done_none(s, c);
    } else if step is In {
        lemma_done_three(s, c);
    } else {
        lemma_done_four(s, c);
    }
}

/// Switching zoom mode has every page made anew for its new area, and says what is the case now.
pub proof fn lemma_zoom_toggle(s: Session<()>, zoom_mode: bool)
    ensures
        s.done(zoom_toggled(zoom_mode)) == (Session {
            images_valid: false,
            renderer: Renderer { areas: s.renderer.areas + 1, ..s.renderer },
            status: Status::Passing(
                if zoom_mode {
                    "zoom mode "@ + "on"@
                } else {
                    "zoom mode "@ + "off"@
                },
            ),
            ..s
        }),
{
    lemma_done_three(s, zoom_toggled(zoom_mode));
}

/// An export is one of the page and to the path that were given, cropped as they are shown; its
/// number is shown, counted from one, and nothing else changes.
pub proof fn lemma_export(s: Session<()>, path: Seq<char>, page: usize, auto_crop: bool)
    ensures
        s.done(export_asked(path, page, auto_crop)) == (Session {
            renderer: Renderer { exported: Some((page, path, auto_crop)), ..s.renderer },
            status: Status::Passing("exporting page "@ + digits((page + 1) as nat) + "..."@),
            ..s
        }),
{
    lemma_done_two(s, export_asked(path, page, auto_crop));
}

/// A search that is waited for is waited for until it is known where it leads: then to the page
/// that was found, or nowhere, with a message and the screen drawn.
pub proof fn lemma_search_resolved(s: Session<()>, resolution: SearchJumpResolution)
    ensures
        ({
            let (c, turn, redraw) = search_resolved(resolution);
            let e = s.done(c);
            match resolution {
                SearchJumpResolution::Pending => e == s && turn is None && !redraw,
                SearchJumpResolution::Found(page) => {
                    &&& e == Session { pending_jump: None, status: Status::Hint, ..s }
                    &&& turn == Some(PageTurn::To(page))
                    &&& redraw
                },
                SearchJumpResolution::NoResult => {
                    &&& e == Session {
                        pending_jump: None,
                        status: Status::Passing("no result"@),
                        redraw: true,
                        ..s
                    }
                    &&& turn is None
                    &&& redraw
                },
            }
        }),
{
    let c = search_resolved(resolution).0;
    match resolution {
        SearchJumpResolution::Pending => {
            lemma_done_none(s, c);
        },
        SearchJumpResolution::Found(_) => {
            lemma_done_two(s, c);
        },
        SearchJumpResolution::NoResult => {
            lemma_done_three(s, c);
        },
    }
}

/// The session and the converter always agree on how many pages there are once the renderer has
/// said so.
pub proof fn lemma_number_of_pages(s: Session<()>, n: usize, n_pages: usize, path: Seq<char>)
    ensures
        reported(RenderReport::NumPages(n), n_pages, path) matches ReportOutcome::Commands(c)
            && s.done(c) == (Session {
            n_pages: n,
            converter: Converter { n_pages: n, ..s.converter },
            ..s
        }),
{
    if let ReportOutcome::Commands(c) = reported(RenderReport::NumPages(n), n_pages, path) {
        lemma_done_two(s, c);
    }
}

/// Links that were asked for are shown with no number typed yet, and the whole screen is drawn.
pub proof fn lemma_links_are_shown(
    s: Session<()>,
    state: LoopState,
    n_pages: usize,
    path: Seq<char>,
)
    ensures
        reported(RenderReport::Links, n_pages, path) matches ReportOutcome::Commands(c) && s.done(c)
            == (Session { mode: InputMode::Links { input: Seq::empty() }, ..s }),
        state.after_report(RenderReport::Links) == (LoopState { needs_redraw: true, ..state }),
{
    if let ReportOutcome::Commands(c) = reported(RenderReport::Links, n_pages, path) {
        lemma_done_one(s, c);
    }
}

/// An export that is done is said in the status bar, with the number of its page, counted from
/// one, and its path.
pub proof fn lemma_export_is_said(
    s: Session<()>,
    state: LoopState,
    page_num: usize,
    output_path: Seq<char>,
    n_pages: usize,
    path: Seq<char>,
)
    ensures
        reported(RenderReport::Exported { page_num, output_path }, n_pages, path) matches ReportOutcome::Commands(
            c,
        ) && s.done(c) == (Session {
            status: Status::Passing(
                "exported page "@ + digits((page_num + 1) as nat) + " to "@ + output_path,
            ),
            ..s
        }),
        state.after_report(RenderReport::Exported { page_num, output_path }) == (LoopState {
            needs_status_redraw: true,
            ..state
        }),
{
    let report = RenderReport::Exported { page_num, output_path };
    if let ReportOutcome::Commands(c) = reported(report, n_pages, path) {
        lemma_done_one(s, c);
    }
}

/// A document that turns out to be reflowable after it was zoomed has its area told again, and
/// nothing else changes; any other kind changes nothing.
pub proof fn lemma_document_kind(
    s: Session<()>,
    state: LoopState,
    reflowable: bool,
    had_zoom: bool,
    n_pages: usize,
    path: Seq<char>,
)
    ensures
        reported(RenderReport::DocumentKind { reflowable, had_zoom }, n_pages, path) matches ReportOutcome::Commands(
            c,
        ) && s.done(c) == (if reflowable && had_zoom {
            Session {
                renderer: Renderer { areas: s.renderer.areas + 1, ..s.renderer },
                ..s
            }
        } else {
            s
        }),
        state.after_report(RenderReport::DocumentKind { reflowable, had_zoom }) == state,
{
    let report: RenderReport<Seq<char>> = RenderReport::DocumentKind { reflowable, had_zoom };
    if let ReportOutcome::Commands(c) = reported(report, n_pages, path) {
        if reflowable && had_zoom {
            lemma_done_one(s, c);
        } else {
            lemma_done_none(s, c);
        }
    }
}

/// A failure ends the viewer exactly where the document was never opened, and is shown otherwise;
/// nothing else that is reported ends it.
pub proof fn lemma_failure(
    report: RenderReport<Seq<char>>,
    state: LoopState,
    n_pages: usize,
    path: Seq<char>,
)
    ensures
        reported(report, n_pages, path) is End <==> report is Failed && n_pages == 0,
        reported(report, n_pages, path) is ShowError <==> report is Failed && n_pages > 0,
        report matches RenderReport::Failed(e) ==> {
            &&& n_pages > 0 ==> reported(report, n_pages, path)
                == ReportOutcome::<Seq<Command<Seq<char>>>, Seq<char>>::ShowError(e)
            &&& n_pages == 0 ==> reported(report, n_pages, path)
                == ReportOutcome::<Seq<Command<Seq<char>>>, Seq<char>>::End(
                startup_message(path, e),
            )
            &&& state.after_report(report) == state
        },
{
}

/// A command that is asked for is carried out, and one that is not is left out.
proof fn lemma_optional<F>(s: Session<F>, wanted: bool, command: Command<Seq<char>, F>)
    ensures
        s.done(optional(wanted, command)) == (if wanted {
            s.did(command)
        } else {
            s
        }),
{
    if wanted {
        lemma_done_one(s, optional(wanted, command));
    } else {
        lemma_done_none(s, optional(wanted, command));
    }
}

/// Quarter turns add up.
proof fn lemma_quarter_turns<F>(s: Session<F>, n: nat)
    requires
        0 <= s.renderer.rotation < 360,
    ensures
        s.done(quarter_turns(n)) == (Session {
            renderer: Renderer {
                rotation: (s.renderer.rotation + 90 * n) % 360,
                ..s.renderer
            },
            ..s
        }),
    decreases n,
{
    let turns = quarter_turns::<F>(n);
    if n == 0 {
        lemma_done_none(s, turns);
    } else {
        lemma_quarter_turns(s, (n - 1) as nat);
        assert(turns.drop_last() =~= quarter_turns::<F>((n - 1) as nat));
        assert(turns[n - 1] == Command::<Seq<char>, F>::Render(RenderNotif::Rotate));
    }
}

/// Whether renderer and converter were just started.
pub open spec fn is_fresh<F>(s: Session<F>) -> bool {
    &&& s.renderer.page == 0
    &&& !s.renderer.inverted
    &&& !s.renderer.tinted
    &&& s.renderer.rotation == 0
    &&& s.renderer.text_size is None
    &&& s.converter.page == 0
    &&& !s.converter.auto_crop
}

/// Renderer and converter that were just started are brought to all of a state: its page, its
/// colours, its rotation, its crop and the size of its text. Nothing else is changed.
#[verifier::rlimit(40)]
pub proof fn lemma_start<F>(s: Session<F>, state: SavedState<F>)
    requires
        is_fresh(s),
        state.rotation < 360,
        state.rotation % 90 == 0,
    ensures
        s.done(start_commands(state)) == (Session {
            renderer: Renderer {
                page: state.page,
                inverted: state.inverted,
                tinted: state.tinted,
                rotation: state.rotation as int,
                text_size: state.epub_font_size,
                ..s.renderer
            },
            converter: Converter {
                page: state.page,
                auto_crop: state.auto_crop,
                ..s.converter
            },
            ..s
        }),
{
    let n = (state.rotation / 90) as nat;
    let p1 = told_font_size(state.epub_font_size);
    let p2 = quarter_turns::<F>(n);
    let c3 = Command::<Seq<char>, F>::Render(RenderNotif::Invert);
    let c4 = Command::<Seq<char>, F>::Render(RenderNotif::Tint);
    let c5 = Command::<Seq<char>, F>::Convert(ConverterMsg::AutoCrop(true));
    let c6 = Command::<Seq<char>, F>::Render(RenderNotif::JumpToPage(state.page));
    let c7 = Command::<Seq<char>, F>::Convert(ConverterMsg::GoToPage(state.page));
    let p3 = optional(state.inverted, c3);
    let p4 = optional(state.tinted, c4);
    let p5 = optional(state.auto_crop, c5);
    let p6 = optional(state.page > 0, c6);
    let p7 = optional(state.page > 0, c7);
    let s1 = s.done(p1);
    if state.epub_font_size is Some {
        lemma_done_one(s, p1);
    } else {
        lemma_done_none(s, p1);
    }
    lemma_quarter_turns(s1, n);
    lemma_done_parts(s, p1, p2);
    let s2 = s.done(p1 + p2);
    lemma_optional(s2, state.inverted, c3);
    lemma_done_parts(s, p1 + p2, p3);
    let s3 = s.done(p1 + p2 + p3);
    lemma_optional(s3, state.tinted, c4);
    lemma_done_parts(s, p1 + p2 + p3, p4);
    let s4 = s.done(p1 + p2 + p3 + p4);
    lemma_optional(s4, state.auto_crop, c5);
    lemma_done_parts(s, p1 + p2 + p3 + p4, p5);
    let s5 = s.done(p1 + p2 + p3 + p4 + p5);
    lemma_optional(s5, state.page > 0, c6);
    lemma_done_parts(s, p1 + p2 + p3 + p4 + p5, p6);
    let s6 = s.done(p1 + p2 + p3 + p4 + p5 + p6);
    lemma_optional(s6, state.page > 0, c7);
    lemma_done_parts(s, p1 + p2 + p3 + p4 + p5 + p6, p7);
}

/// What the command line asks for comes before what was saved, and only that: its page, and
/// inverted colours. A document without a saved state starts on its first page, as it is.
pub proof fn lemma_start_state<F>(
    page: Option<usize>,
    invert_start: bool,
    saved: Option<SavedState<F>>,
)
    ensures
        ({
            let state = start_state(page, invert_start, saved);
            &&& page matches Some(p) ==> state.page == p
            &&& page is None ==> state.page == (match saved {
                Some(old_state) => old_state.page,
                None => 0,
            })
            &&& state.inverted <==> invert_start || (saved matches Some(old_state)
                && old_state.inverted)
            &&& match saved {
                Some(old_state) => state == SavedState {
                    page: state.page,
                    inverted: state.inverted,
                    ..old_state
                },
                None => state.rotation == 0 && !state.auto_crop && !state.tinted
                    && state.epub_font_size is None,
            }
        }),
{
}

/// Of pages that could not be shown, the images are forgotten and made anew; nothing else
/// changes, and no other page is touched.
#[verifier::rlimit(30)]
pub proof fn lemma_retry(s: Session<()>, pages: Seq<usize>)
    ensures
        s.done(retry_commands(pages)) == (Session {
            failed: s.failed.union(pages.to_set()),
            renderer: Renderer { anew: s.renderer.anew.union(pages.to_set()), ..s.renderer },
            ..s
        }),
    decreases pages.len(),
{
    let c = retry_commands(pages);
    if pages.len() == 0 {
        lemma_done_none(s, c);
        assert(s.failed.union(pages.to_set()) =~= s.failed);
        assert(s.renderer.anew.union(pages.to_set()) =~= s.renderer.anew);
    } else {
        let front = pages.drop_last();
        let page = pages.last();
        lemma_retry(s, front);
        let pair = seq![
            Command::<Seq<char>>::PageDisplayFailed(page),
            Command::Render(RenderNotif::PageNeedsReRender(page)),
        ];
        assert(c =~= retry_commands(front) + pair);
        lemma_done_parts(s, retry_commands(front), pair);
        lemma_done_two(s.done(retry_commands(front)), pair);
        assert forall|p: usize| #[trigger] pages.to_set().contains(p) <==> front.to_set().insert(
            page,
        ).contains(p) by {
            if pages.contains(p) {
                let i = pages.index_of(p);
                if i < front.len() {
                    assert(front[i] == p);
                }
            }
            if front.contains(p) {
                let i = front.index_of(p);
                assert(pages[i] == p);
            }
            assert(pages[pages.len() - 1] == page);
        }
        assert(s.failed.union(pages.to_set()) =~= s.failed.union(front.to_set()).insert(page));
        assert(s.renderer.anew.union(pages.to_set()) =~= s.renderer.anew.union(
            front.to_set(),
        ).insert(page));
    }
}

/// A page is exported as the viewer would start to show it: in the same colours, rotation, tint
/// and crop and with text of the same size, and, where the command line names a page, that one.
pub proof fn lemma_export_looks_as_shown<F>(
    page: Option<usize>,
    invert_start: bool,
    black: i32,
    white: i32,
    saved: Option<SavedState<F>>,
    geometry: ExportGeometry,
)
    ensures
        ({
            let o = spec_export_options(page, invert_start, black, white, saved, geometry);
            let shown = start_state(page, invert_start, saved);
            &&& o.invert == shown.inverted
            &&& o.rotation == shown.rotation
            &&& o.tinted == shown.tinted
            &&& o.auto_crop == shown.auto_crop
            &&& o.epub_font_size == shown.epub_font_size
            &&& page is Some ==> o.page_num == shown.page
        }),
{
}

} // verus!
