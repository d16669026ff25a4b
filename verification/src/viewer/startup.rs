//! How the viewer starts on a document: as it was last shown, unless the command line says
//! otherwise.

use vstd::prelude::*;

use crate::document::SavedState;
use crate::kitty::error::InputErr;
use crate::kitty::error::TransmitError;
use crate::viewer::command::commands_view;
use crate::viewer::command::emit;
use crate::viewer::command::no_commands;
use crate::viewer::command::Command;
use crate::viewer::command::ConverterMsg;
use crate::viewer::command::RenderNotif;

verus! {

/// How the viewer starts: the state of the document, and what the renderer and the task that
/// prepares images are told, in order.
#[derive(Debug)]
pub struct StartPlan<F> {
    pub state: SavedState<F>,
    pub commands: Vec<Command<String, F>>,
}

/// The state that the viewer starts in. A page on the command line comes before the one that was
/// saved, and colours are inverted where either asks for it.
pub open spec fn start_state<F>(
    page: Option<usize>,
    invert_start: bool,
    saved: Option<SavedState<F>>,
) -> SavedState<F> {
    match saved {
        Some(s) => SavedState {
            page: match page {
                Some(p) => p,
                None => s.page,
            },
            inverted: invert_start || s.inverted,
            ..s
        },
        None => SavedState {
            page: match page {
                Some(p) => p,
                None => 0,
            },
            rotation: 0,
            inverted: invert_start,
            auto_crop: false,
            tinted: false,
            epub_font_size: None,
        },
    }
}

/// One quarter turn after another.
pub open spec fn quarter_turns<F>(n: nat) -> Seq<Command<Seq<char>, F>> {
    Seq::new(n, |i: int| Command::<Seq<char>, F>::Render(RenderNotif::Rotate))
}

/// A command where it is asked for.
pub open spec fn optional<F>(wanted: bool, command: Command<Seq<char>, F>) -> Seq<
    Command<Seq<char>, F>,
> {
    if wanted {
        seq![command]
    } else {
        Seq::empty()
    }
}

/// The size of the text, where there is one.
pub open spec fn told_font_size<F>(size: Option<F>) -> Seq<Command<Seq<char>, F>> {
    match size {
        Some(size) => seq![Command::Render(RenderNotif::SetFontSize(size))],
        None => Seq::empty(),
    }
}

/// What brings renderer and preparing task into a state: the size of its text, the quarter turns
/// of its rotation, the colours, the crop, and the jump to its page unless that is the first.
pub open spec fn start_commands<F>(state: SavedState<F>) -> Seq<Command<Seq<char>, F>> {
    told_font_size(state.epub_font_size) + quarter_turns((state.rotation / 90) as nat) + optional(
        state.inverted,
        Command::Render(RenderNotif::Invert),
    ) + optional(state.tinted, Command::Render(RenderNotif::Tint)) + optional(
        state.auto_crop,
        Command::Convert(ConverterMsg::AutoCrop(true)),
    ) + optional(state.page > 0, Command::Render(RenderNotif::JumpToPage(state.page))) + optional(
        state.page > 0,
        Command::Convert(ConverterMsg::GoToPage(state.page)),
    )
}

/// How the viewer starts.
pub fn plan_start<F: Copy>(
    page: Option<usize>,
    invert_start: bool,
    saved: Option<SavedState<F>>,
) -> (r: StartPlan<F>)
    ensures
        r.state == start_state(page, invert_start, saved),
        commands_view(r.commands@) == start_commands(r.state),
{
    let state = match saved {
        Some(s) => SavedState {
            page: match page {
                Some(p) => p,
                None => s.page,
            },
            rotation: s.rotation,
            inverted: invert_start || s.inverted,
            auto_crop: s.auto_crop,
            tinted: s.tinted,
            epub_font_size: s.epub_font_size,
        },
        None => SavedState {
            page: match page {
                Some(p) => p,
                None => 0,
            },
            rotation: 0,
            inverted: invert_start,
            auto_crop: false,
            tinted: false,
            epub_font_size: None,
        },
    };
    let mut out: Vec<Command<String, F>> = no_commands();
    if let Some(size) = state.epub_font_size {
        emit(&mut out, Command::Render(RenderNotif::SetFontSize(size)));
    }
    let ghost told = told_font_size(state.epub_font_size);
    let turns: u32 = state.rotation / 90;
    let mut i: u32 = 0;
    assert(commands_view(out@) =~= told + quarter_turns(0));
    while i < turns
        invariant
            i <= turns,
            commands_view(out@) == told + quarter_turns(i as nat),
        decreases turns - i,
    {
        emit(&mut out, Command::Render(RenderNotif::Rotate));
        i += 1;
        assert(told + quarter_turns(i as nat) =~= (told + quarter_turns((i - 1) as nat)).push(
            Command::Render(RenderNotif::Rotate),
        ));
    }
    if state.inverted {
        emit(&mut out, Command::Render(RenderNotif::Invert));
    }
    if state.tinted {
        emit(&mut out, Command::Render(RenderNotif::Tint));
    }
    if state.auto_crop {
        emit(&mut out, Command::Convert(ConverterMsg::AutoCrop(true)));
    }
    if state.page > 0 {
        emit(&mut out, Command::Render(RenderNotif::JumpToPage(state.page)));
        emit(&mut out, Command::Convert(ConverterMsg::GoToPage(state.page)));
    }
    assert(commands_view(out@) =~= start_commands(state));
    StartPlan { state, commands: out }
}

/// A document that was closed is shown again as it was, where the command line asks for nothing
/// else.
pub proof fn lemma_state_is_restored<F>(saved: SavedState<F>)
    ensures
        start_state(None, false, Some(saved)) == saved,
{
}

/// Why the viewer cannot start on a terminal.
#[derive(Debug)]
pub enum TerminalFailure {
    /// The terminal does not know the protocol.
    Unsupported,
    /// Images of an earlier session could not be removed.
    ClearFailed(TransmitError<InputErr>),
}

impl TerminalFailure {
    /// The message that is shown for the failure.
    pub open spec fn message(self) -> Seq<char> {
        match self {
            TerminalFailure::Unsupported => {
                "Kitty graphics protocol is not supported by this terminal. Use Kitty, Ghostty, or another compatible terminal."@
            },
            TerminalFailure::ClearFailed(e) => {
                "failed to clear previous Kitty images: "@ + e@.message()
            },
        }
    }

    /// The message that is shown for the failure.
    pub fn to_text(&self) -> (r: String)
        ensures
            r@ == self.message(),
    {
        match self {
            TerminalFailure::Unsupported => {
                "Kitty graphics protocol is not supported by this terminal. Use Kitty, Ghostty, or another compatible terminal.".to_owned()
            },
            TerminalFailure::ClearFailed(e) => {
                "failed to clear previous Kitty images: ".to_owned().concat(e.to_text().as_str())
            },
        }
    }
}

} // verus!
