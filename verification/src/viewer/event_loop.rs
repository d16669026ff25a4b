//! When the screen is drawn: at once, or, for a page whose image is not there yet, after a short
//! delay, so that pages that come quickly do not flicker.

use vstd::prelude::*;

use crate::document::startup_message;
use crate::document::startup_render_error_message;
use crate::error::RenderError;
use crate::text::decimal;
use crate::text::digits;
use crate::viewer::command::commands_view;
use crate::viewer::command::emit;
use crate::viewer::command::no_commands;
use crate::viewer::command::Command;
use crate::viewer::command::ConverterMsg;
use crate::viewer::command::InputMode;
use crate::viewer::command::RenderNotif;
use crate::viewer::handle::EventOutcome;

verus! {

/// How long a page is waited for before the screen says that it is loading, in milliseconds.
pub const LOADING_INDICATOR_DELAY_MS: u64 = 90;

/// What the loop knows of the current page.
#[derive(Clone, Copy, Debug, PartialEq, Eq, Structural)]
pub struct CurrentPage {
    pub page: usize,
    /// Whether keys move about.
    pub normal_mode: bool,
    /// Whether the image of the page is there.
    pub ready: bool,
}

/// What the loop remembers from one turn to the next.
#[derive(Clone, Copy, Debug, PartialEq, Eq, Structural)]
pub struct LoopState {
    pub needs_redraw: bool,
    pub needs_status_redraw: bool,
    pub has_displayed_page: bool,
    /// When to say that a page is loading.
    pub loading_deadline: Option<u64>,
    /// The page that is waited for.
    pub loading_page: Option<usize>,
    /// The page that is said to be loading.
    pub show_loading_for_page: Option<usize>,
}

/// What a turn of the loop ends with.
#[derive(Clone, Copy, Debug, PartialEq, Eq, Structural)]
pub enum LoopStep {
    /// The image of the page is waited for.
    Delay,
    Draw,
    DrawStatus,
    Nothing,
}

/// Whether a page is waited for in place of saying that it is loading: a page was shown before,
/// and the delay for this one has not passed.
pub open spec fn delays_loading(
    current: CurrentPage,
    has_displayed_page: bool,
    show_loading_for_page: Option<usize>,
) -> bool {
    has_displayed_page && current.normal_mode && show_loading_for_page != Some(current.page)
        && !current.ready
}

/// Whether a page is waited for in place of saying that it is loading.
pub fn should_delay_loading_indicator(
    current: CurrentPage,
    has_displayed_page: bool,
    show_loading_for_page: Option<usize>,
) -> (r: bool)
    ensures
        r == delays_loading(current, has_displayed_page, show_loading_for_page),
{
    let shown = match show_loading_for_page {
        Some(page) => page == current.page,
        None => false,
    };
    has_displayed_page && current.normal_mode && !shown && !current.ready
}

impl LoopState {
    /// A page that is waited for either has a deadline or is said to be loading, and not both; a
    /// deadline, and a page that is said to be loading, are those of the page waited for.
    pub open spec fn wf(self) -> bool {
        &&& self.loading_deadline is Some ==> self.loading_page is Some
            && self.show_loading_for_page is None
        &&& self.show_loading_for_page matches Some(page) ==> self.loading_page == Some(page)
        &&& self.loading_page is Some ==> self.loading_deadline is Some
            || self.show_loading_for_page is Some
    }

    /// Nothing is waited for.
    pub open spec fn not_loading(self) -> LoopState {
        LoopState {
            loading_deadline: None,
            loading_page: None,
            show_loading_for_page: None,
            ..self
        }
    }

    /// The state before the first turn.
    pub open spec fn initial() -> LoopState {
        LoopState {
            needs_redraw: false,
            needs_status_redraw: false,
            has_displayed_page: false,
            loading_deadline: None,
            loading_page: None,
            show_loading_for_page: None,
        }
    }

    /// The state before the first turn.
    pub fn new() -> (r: LoopState)
        ensures
            r == LoopState::initial(),
            r.wf(),
    {
        LoopState {
            needs_redraw: false,
            needs_status_redraw: false,
            has_displayed_page: false,
            loading_deadline: None,
            loading_page: None,
            show_loading_for_page: None,
        }
    }

    /// Whether the viewer ends with what an event came to.
    pub open spec fn ends_on(outcome: EventOutcome) -> bool {
        outcome == EventOutcome::Quit
    }

    /// The state once an event came to something.
    pub open spec fn after_outcome(self, outcome: EventOutcome) -> LoopState {
        LoopState {
            needs_redraw: self.needs_redraw || outcome == EventOutcome::Redraw,
            needs_status_redraw: self.needs_status_redraw || outcome
                == EventOutcome::RedrawStatus,
            ..self
        }
    }

    /// Takes in what an event came to; says whether the viewer ends.
    pub fn on_outcome(&mut self, outcome: EventOutcome) -> (quit: bool)
        ensures
            quit == (outcome == EventOutcome::Quit),
            quit == LoopState::ends_on(outcome),
            *final(self) == old(self).after_outcome(outcome),
            *final(self) == (LoopState {
                needs_redraw: old(self).needs_redraw || outcome == EventOutcome::Redraw,
                needs_status_redraw: old(self).needs_status_redraw || outcome
                    == EventOutcome::RedrawStatus,
                ..*old(self)
            }),
    {
        match outcome {
            EventOutcome::Quit => {
                return true;
            },
            EventOutcome::Redraw => {
                self.needs_redraw = true;
            },
            EventOutcome::RedrawStatus => {
                self.needs_status_redraw = true;
            },
            EventOutcome::Nothing => {},
        }
        false
    }

    /// The state once the deadline has passed: where the page that was waited for is still the
    /// current one and still missing, it is said to be loading.
    pub open spec fn after_timer(self, current: CurrentPage) -> LoopState {
        if self.loading_page == Some(current.page) && current.normal_mode && !current.ready {
            LoopState {
                loading_deadline: None,
                show_loading_for_page: Some(current.page),
                needs_redraw: true,
                ..self
            }
        } else {
            LoopState { loading_deadline: None, loading_page: None, ..self }
        }
    }

    /// Takes in that the deadline has passed.
    pub fn on_loading_timer(&mut self, current: CurrentPage)
        requires
            old(self).wf(),
            old(self).loading_deadline is Some,
        ensures
            *final(self) == old(self).after_timer(current),
            final(self).wf(),
    {
        let waited_for = match self.loading_page {
            Some(page) => page == current.page,
            None => false,
        };
        self.loading_deadline = None;
        if waited_for && current.normal_mode && !current.ready {
            self.show_loading_for_page = Some(current.page);
            self.needs_redraw = true;
        } else {
            self.loading_page = None;
        }
    }

    /// The state once it is known what the current page is: nothing is waited for where the
    /// page is there, something else is shown, or another page was waited for.
    pub open spec fn settled(self, current: CurrentPage) -> LoopState {
        if current.ready || !current.normal_mode || (self.loading_page matches Some(page) && page
            != current.page) {
            self.not_loading()
        } else {
            self
        }
    }

    /// Takes in what the current page is.
    pub fn settle(&mut self, current: CurrentPage)
        requires
            old(self).wf(),
        ensures
            *final(self) == old(self).settled(current),
            final(self).wf(),
            final(self).loading_page matches Some(page) ==> page == current.page,
    {
        let other = match self.loading_page {
            Some(page) => page != current.page,
            None => false,
        };
        if current.ready || !current.normal_mode || other {
            self.loading_deadline = None;
            self.loading_page = None;
            self.show_loading_for_page = None;
        }
    }

    /// What a turn ends with. `redraw` says whether something else asks for the screen to be
    /// drawn.
    pub open spec fn step(self, redraw: bool, current: CurrentPage) -> LoopStep {
        if self.needs_redraw || redraw {
            if delays_loading(current, self.has_displayed_page, self.show_loading_for_page) {
                LoopStep::Delay
            } else {
                LoopStep::Draw
            }
        } else if self.needs_status_redraw {
            LoopStep::DrawStatus
        } else {
            LoopStep::Nothing
        }
    }

    /// The state once a turn has ended: nothing is left to be drawn, and a page that is waited
    /// for for the first time gets a deadline.
    pub open spec fn after_step(self, redraw: bool, current: CurrentPage, now: u64) -> LoopState {
        let idle = LoopState { needs_redraw: false, needs_status_redraw: false, ..self };
        if self.step(redraw, current) == LoopStep::Delay && self.loading_page != Some(
            current.page,
        ) {
            LoopState {
                loading_page: Some(current.page),
                loading_deadline: Some((now + LOADING_INDICATOR_DELAY_MS) as u64),
                ..idle
            }
        } else {
            idle
        }
    }

    /// Ends a turn; `now` is the time in milliseconds.
    pub fn next_step(&mut self, redraw: bool, current: CurrentPage, now: u64) -> (r: LoopStep)
        requires
            old(self).wf(),
            old(self).loading_page matches Some(page) ==> page == current.page,
            now + LOADING_INDICATOR_DELAY_MS <= u64::MAX,
        ensures
            r == old(self).step(redraw, current),
            *final(self) == old(self).after_step(redraw, current, now),
            final(self).wf(),
    {
        if self.needs_redraw || redraw {
            self.needs_redraw = false;
            self.needs_status_redraw = false;
            if should_delay_loading_indicator(
                current,
                self.has_displayed_page,
                self.show_loading_for_page,
            ) {
                if self.loading_page.is_none() {
                    self.loading_page = Some(current.page);
                    self.loading_deadline = Some(now + LOADING_INDICATOR_DELAY_MS);
                }
                return LoopStep::Delay;
            }
            return LoopStep::Draw;
        }
        if self.needs_status_redraw {
            self.needs_status_redraw = false;
            return LoopStep::DrawStatus;
        }
        LoopStep::Nothing
    }

    /// The state once the screen was drawn: where it shows the page, nothing is waited for.
    pub open spec fn after_draw(self, current: CurrentPage) -> LoopState {
        if current.normal_mode && current.ready {
            LoopState { has_displayed_page: true, ..self.not_loading() }
        } else {
            self
        }
    }

    /// Takes in that the screen was drawn.
    pub fn drawn(&mut self, current: CurrentPage)
        requires
            old(self).wf(),
        ensures
            *final(self) == old(self).after_draw(current),
            final(self).wf(),
    {
        if current.normal_mode && current.ready {
            self.has_displayed_page = true;
            self.loading_deadline = None;
            self.loading_page = None;
            self.show_loading_for_page = None;
        }
    }
}

/// Whether the terminal has another size in cells.
pub fn size_changed(old_size: (u16, u16), new_size: (u16, u16)) -> (r: bool)
    ensures
        r == (old_size != new_size),
{
    old_size.0 != new_size.0 || old_size.1 != new_size.1
}

/// A page that is missing is said to be loading only after the delay: where a page was shown
/// before, a turn that would draw a missing page for the first time sets a deadline that lies
/// the delay ahead, and does not draw.
pub proof fn lemma_missing_page_is_waited_for(state: LoopState, current: CurrentPage, now: u64)
    requires
        state.wf(),
        state.has_displayed_page,
        state.needs_redraw,
        state.loading_page is None,
        current.normal_mode,
        !current.ready,
        now + LOADING_INDICATOR_DELAY_MS <= u64::MAX,
    ensures
        state.settled(current).step(false, current) == LoopStep::Delay,
        state.settled(current).after_step(false, current, now).loading_deadline == Some(
            (now + 90) as u64,
        ),
{
}

/// Once the deadline has passed with the page still missing, the next turn draws, whatever else
/// happened.
pub proof fn lemma_deadline_is_kept(state: LoopState, current: CurrentPage, redraw: bool)
    requires
        state.wf(),
        state.loading_page == Some(current.page),
        current.normal_mode,
        !current.ready,
    ensures
        state.after_timer(current).settled(current).step(redraw, current) == LoopStep::Draw,
{
}

/// No page is waited for without end: a turn that does not draw a missing page leaves a deadline
/// behind.
pub proof fn lemma_delay_has_deadline(
    state: LoopState,
    current: CurrentPage,
    redraw: bool,
    now: u64,
)
    requires
        state.wf(),
        state.loading_page matches Some(page) ==> page == current.page,
        state.step(redraw, current) == LoopStep::Delay,
    ensures
        state.after_step(redraw, current, now).loading_deadline is Some,
        state.after_step(redraw, current, now).loading_page == Some(current.page),
{
}

/// A page whose image is there is drawn at once.
pub proof fn lemma_ready_page_is_drawn(state: LoopState, current: CurrentPage)
    requires
        state.needs_redraw,
        current.ready,
    ensures
        state.settled(current).step(false, current) == LoopStep::Draw,
{
}

/// What an event asks to be drawn is drawn in the same turn, or waited for where the page is
/// missing; what asked before still asks, and a turn leaves nothing to be drawn again.
pub proof fn lemma_what_is_asked_is_drawn(
    state: LoopState,
    outcome: EventOutcome,
    redraw: bool,
    current: CurrentPage,
    now: u64,
)
    ensures
        ({
            let t = state.after_outcome(outcome);
            let shown = |step: LoopStep| step == LoopStep::Draw || step == LoopStep::Delay;
            &&& outcome == EventOutcome::Redraw ==> shown(t.step(redraw, current))
            &&& state.needs_redraw || redraw ==> shown(t.step(redraw, current))
            &&& outcome == EventOutcome::RedrawStatus || state.needs_status_redraw ==> t.step(
                redraw,
                current,
            ) != LoopStep::Nothing
            &&& shown(t.step(redraw, current)) ==> outcome == EventOutcome::Redraw
                || state.needs_redraw || redraw
            &&& t.step(redraw, current) == LoopStep::DrawStatus ==> outcome
                == EventOutcome::RedrawStatus || state.needs_status_redraw
            &&& outcome == EventOutcome::Nothing || outcome == EventOutcome::Quit ==> t == state
            &&& t.has_displayed_page == state.has_displayed_page
            &&& t.loading_page == state.loading_page
            &&& t.loading_deadline == state.loading_deadline
            &&& t.show_loading_for_page == state.show_loading_for_page
            &&& t.after_step(redraw, current, now).step(false, current) == LoopStep::Nothing
        }),
{
}

/// A page is not waited for before any page was shown, nor where something else is shown, nor
/// where it is there: a turn that draws draws at once.
pub proof fn lemma_no_waiting(state: LoopState, redraw: bool, current: CurrentPage, now: u64)
    requires
        !state.has_displayed_page || !current.normal_mode || current.ready,
    ensures
        state.step(redraw, current) != LoopStep::Delay,
        state.needs_redraw || redraw ==> state.step(redraw, current) == LoopStep::Draw,
        state.after_step(redraw, current, now).loading_deadline == state.loading_deadline,
{
}

/// While a page is waited for, nothing that happens puts its deadline off, and the wait ends
/// where the page comes, something else is shown or another page is turned to.
pub proof fn lemma_deadline_stays(
    state: LoopState,
    outcome: EventOutcome,
    redraw: bool,
    current: CurrentPage,
    now: u64,
)
    requires
        state.wf(),
        state.loading_deadline is Some,
    ensures
        ({
            let t = state.after_outcome(outcome).settled(current);
            let e = t.after_step(redraw, current, now);
            &&& state.loading_page == Some(current.page) && current.normal_mode && !current.ready
                ==> e.loading_deadline == state.loading_deadline && e.loading_page
                == state.loading_page
            &&& current.ready || !current.normal_mode ==> e.loading_deadline is None
                && e.loading_page is None && e.show_loading_for_page is None
            &&& state.loading_page != Some(current.page) ==> t.loading_deadline is None
                && t.loading_page is None && t.show_loading_for_page is None
        }),
{
}

/// A deadline that passes when its page is no longer missing, or no longer the current one, says
/// nothing and draws nothing; one that passes for the current page says that it is loading.
pub proof fn lemma_timer(state: LoopState, current: CurrentPage)
    requires
        state.wf(),
        state.loading_deadline is Some,
    ensures
        ({
            let t = state.after_timer(current);
            &&& t.loading_deadline is None
            &&& t.show_loading_for_page is Some <==> state.loading_page == Some(current.page)
                && current.normal_mode && !current.ready
            &&& t.show_loading_for_page is Some ==> t.show_loading_for_page == state.loading_page
                && t.loading_page == state.loading_page && t.needs_redraw
            &&& t.show_loading_for_page is None ==> t.loading_page is None && t.needs_redraw
                == state.needs_redraw
            &&& t.has_displayed_page == state.has_displayed_page
            &&& t.needs_status_redraw == state.needs_status_redraw
        }),
{
}

/// Once a page was on the screen, a missing page is waited for from the next turn on; a drawing
/// without a page changes nothing.
pub proof fn lemma_drawn(state: LoopState, current: CurrentPage, missing: CurrentPage)
    requires
        missing.normal_mode,
        !missing.ready,
    ensures
        ({
            let t = state.after_draw(current);
            &&& current.normal_mode && current.ready ==> t.has_displayed_page && t.loading_page
                is None && t.loading_deadline is None && t.show_loading_for_page is None
                && t.step(true, missing) == LoopStep::Delay
            &&& !(current.normal_mode && current.ready) ==> t == state
            &&& t.needs_redraw == state.needs_redraw
            &&& t.needs_status_redraw == state.needs_status_redraw
            &&& state.has_displayed_page ==> t.has_displayed_page
        }),
{
}

/// What the renderer reports. `S` is the type of text: `String` at run time, `Seq<char>` in
/// contracts.
#[derive(Debug)]
pub enum RenderReport<S = String> {
    /// The kind of the document, and whether it was zoomed before that was known.
    DocumentKind { reflowable: bool, had_zoom: bool },
    NumPages(usize),
    /// The links of the page are there.
    Links,
    Exported { page_num: usize, output_path: S },
    Failed(RenderError<S>),
}

impl View for RenderReport {
    type V = RenderReport<Seq<char>>;

    open spec fn view(&self) -> RenderReport<Seq<char>> {
        match *self {
            RenderReport::DocumentKind { reflowable, had_zoom } => {
                RenderReport::DocumentKind { reflowable, had_zoom }
            },
            RenderReport::NumPages(n) => RenderReport::NumPages(n),
            RenderReport::Links => RenderReport::Links,
            RenderReport::Exported { page_num, output_path } => {
                RenderReport::Exported { page_num, output_path: output_path@ }
            },
            RenderReport::Failed(e) => RenderReport::Failed(e@),
        }
    }
}

/// What a report comes to: commands, or an error to show, or a message to end with.
#[derive(Debug)]
pub enum ReportOutcome<C = Vec<Command>, S = String> {
    Commands(C),
    ShowError(RenderError<S>),
    End(S),
}

impl View for ReportOutcome {
    type V = ReportOutcome<Seq<Command<Seq<char>>>, Seq<char>>;

    open spec fn view(&self) -> ReportOutcome<Seq<Command<Seq<char>>>, Seq<char>> {
        match *self {
            ReportOutcome::Commands(c) => ReportOutcome::Commands(commands_view(c@)),
            ReportOutcome::ShowError(e) => ReportOutcome::ShowError(e@),
            ReportOutcome::End(s) => ReportOutcome::End(s@),
        }
    }
}

/// What a report comes to. A failure ends the viewer where the document was never opened.
pub open spec fn reported(
    report: RenderReport<Seq<char>>,
    n_pages: usize,
    path: Seq<char>,
) -> ReportOutcome<Seq<Command<Seq<char>>>, Seq<char>> {
    match report {
        RenderReport::DocumentKind { reflowable, had_zoom } => ReportOutcome::Commands(
            if reflowable && had_zoom {
                seq![Command::Render(RenderNotif::Area)]
            } else {
                Seq::empty()
            },
        ),
        RenderReport::NumPages(n) => ReportOutcome::Commands(
            seq![Command::SetNumPages(n), Command::Convert(ConverterMsg::NumPages(n))],
        ),
        RenderReport::Links => ReportOutcome::Commands(
            seq![Command::SetInputMode(InputMode::Links { input: Seq::empty() })],
        ),
        RenderReport::Exported { page_num, output_path } => ReportOutcome::Commands(
            seq![
                Command::ShowInfo(
                    "exported page "@ + digits((page_num + 1) as nat) + " to "@ + output_path,
                ),
            ],
        ),
        RenderReport::Failed(e) => if n_pages == 0 {
            ReportOutcome::End(startup_message(path, e))
        } else {
            ReportOutcome::ShowError(e)
        },
    }
}

impl LoopState {
    /// The state once the renderer reported something.
    pub open spec fn after_report(self, report: RenderReport<Seq<char>>) -> LoopState {
        LoopState {
            needs_redraw: self.needs_redraw || report is Links,
            needs_status_redraw: self.needs_status_redraw || report is Exported,
            ..self
        }
    }

    /// Takes in a report of the renderer: links are drawn, and an export is said in the status
    /// bar.
    pub fn on_report(&mut self, report: RenderReport, n_pages: usize, path: &str) -> (r:
        ReportOutcome)
        ensures
            r@ == reported(report@, n_pages, path@),
            *final(self) == old(self).after_report(report@),
            *final(self) == (LoopState {
                needs_redraw: old(self).needs_redraw || report is Links,
                needs_status_redraw: old(self).needs_status_redraw || report is Exported,
                ..*old(self)
            }),
    {
        let mut out = no_commands();
        match report {
            RenderReport::DocumentKind { reflowable, had_zoom } => {
                if reflowable && had_zoom {
                    emit(&mut out, Command::Render(RenderNotif::Area));
                }
            },
            RenderReport::NumPages(n) => {
                emit(&mut out, Command::SetNumPages(n));
                emit(&mut out, Command::Convert(ConverterMsg::NumPages(n)));
                assert(commands_view(out@) =~= seq![
                    Command::SetNumPages(n),
                    Command::Convert(ConverterMsg::NumPages(n)),
                ]);
            },
            RenderReport::Links => {
                let empty = String::new();
                assert(empty@ =~= Seq::empty());
                emit(&mut out, Command::SetInputMode(InputMode::Links { input: empty }));
                self.needs_redraw = true;
            },
            RenderReport::Exported { page_num, output_path } => {
                emit(
                    &mut out,
                    Command::ShowInfo(
                        "exported page ".to_owned().concat(
                            decimal(page_num as u128 + 1).as_str(),
                        ).concat(" to ").concat(output_path.as_str()),
                    ),
                );
                self.needs_status_redraw = true;
            },
            RenderReport::Failed(e) => {
                return if n_pages == 0 {
                    ReportOutcome::End(startup_render_error_message(path, &e))
                } else {
                    ReportOutcome::ShowError(e)
                };
            },
        }
        ReportOutcome::Commands(out)
    }
}

/// Before the first turn nothing is asked for and nothing is waited for; what asks first is drawn
/// at once, whether its page is there or not.
pub proof fn lemma_first_turn(current: CurrentPage, outcome: EventOutcome)
    ensures
        LoopState::initial().wf(),
        LoopState::initial().step(false, current) == LoopStep::Nothing,
        LoopState::initial().step(true, current) == LoopStep::Draw,
        outcome == EventOutcome::Redraw ==> LoopState::initial().after_outcome(outcome).step(
            false,
            current,
        ) == LoopStep::Draw,
        outcome == EventOutcome::RedrawStatus ==> LoopState::initial().after_outcome(
            outcome,
        ).step(false, current) == LoopStep::DrawStatus,
{
}

} // verus!
