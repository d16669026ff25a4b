//! What commands do: a session with the renderer and the task that prepares images, and what
//! becomes of it.

use vstd::prelude::*;

use crate::viewer::command::Command;
use crate::viewer::command::ConverterMsg;
use crate::viewer::command::InputMode;
use crate::viewer::command::RenderNotif;
use crate::viewer::command::StatusMsg;

verus! {

/// What the renderer was told. `F` is the type of the size of the text.
pub struct Renderer<F> {
    pub page: usize,
    pub inverted: bool,
    pub tinted: bool,
    pub rotation: int,
    pub search: Seq<char>,
    pub text_size: Option<F>,
    /// How many steps larger the text was made.
    pub text_steps: int,
    /// The pages that are rendered anew.
    pub anew: Set<usize>,
    /// The page whose links were asked for last.
    pub links_of: Option<usize>,
    /// The page that was exported last, to which file, and whether it was cropped.
    pub exported: Option<(usize, Seq<char>, bool)>,
    /// How often everything was asked for again, and how often the area was told.
    pub refreshes: int,
    pub areas: int,
}

/// What the task that prepares images was told.
pub struct Converter {
    pub page: usize,
    pub auto_crop: bool,
    pub n_pages: usize,
}

/// What the status bar shows: the hint, a text, a text that goes away by itself, or the zoom.
pub enum Status {
    Hint,
    Text(Seq<char>),
    Passing(Seq<char>),
    Zoom,
}

/// A session: what is shown, what is searched for, and what renderer and converter know.
pub struct Session<F> {
    pub mode: InputMode<Seq<char>>,
    pub status: Status,
    pub inverted: bool,
    pub auto_crop: bool,
    pub tinted: bool,
    pub rotation: int,
    pub n_pages: usize,
    /// How far the page is moved to the left, and whether that was held to the zoom last.
    pub pan: int,
    pub pan_clamped: bool,
    pub search_term: Option<Seq<char>>,
    pub has_results: bool,
    pub pending_jump: Option<usize>,
    /// Whether the images that there are can still be shown.
    pub images_valid: bool,
    /// The pages whose images could not be shown.
    pub failed: Set<usize>,
    /// The addresses that were opened, in order.
    pub opened: Seq<Seq<char>>,
    pub redraw: bool,
    pub renderer: Renderer<F>,
    pub converter: Converter,
}

impl<F> Renderer<F> {
    /// The renderer once it was told something.
    pub open spec fn told(self, notif: RenderNotif<Seq<char>, F>) -> Renderer<F> {
        match notif {
            RenderNotif::Area => Renderer { areas: self.areas + 1, ..self },
            RenderNotif::JumpToPage(page) => Renderer { page, ..self },
            RenderNotif::PageNeedsReRender(page) => Renderer {
                anew: self.anew.insert(page),
                ..self
            },
            RenderNotif::Search(search) => Renderer { search, ..self },
            RenderNotif::Invert => Renderer { inverted: !self.inverted, ..self },
            RenderNotif::Rotate => Renderer { rotation: (self.rotation + 90) % 360, ..self },
            RenderNotif::Tint => Renderer { tinted: !self.tinted, ..self },
            RenderNotif::Refresh => Renderer { refreshes: self.refreshes + 1, ..self },
            RenderNotif::SetFontSize(size) => Renderer { text_size: Some(size), ..self },
            RenderNotif::AdjustFontSize(amount) => Renderer {
                text_steps: self.text_steps + amount,
                ..self
            },
            RenderNotif::GetLinks(page) => Renderer { links_of: Some(page), ..self },
            RenderNotif::ExportPage { page_num, output_path, auto_crop } => Renderer {
                exported: Some((page_num, output_path, auto_crop)),
                ..self
            },
        }
    }
}

impl<F> Session<F> {
    /// The session once a command was carried out.
    pub open spec fn did(self, command: Command<Seq<char>, F>) -> Session<F> {
        match command {
            Command::SetInputMode(mode) => Session { mode, ..self },
            Command::SetMsg(StatusMsg::Hint) => Session { status: Status::Hint, ..self },
            Command::SetMsg(StatusMsg::Info(s)) => Session { status: Status::Text(s), ..self },
            Command::ShowInfo(s) => Session { status: Status::Passing(s), ..self },
            Command::NeedsRedraw => Session { redraw: true, ..self },
            Command::SetSearchTerm(search_term) => Session { search_term, ..self },
            Command::ClearSearchResults => Session { has_results: false, ..self },
            Command::SetPendingSearchJump(pending_jump) => Session { pending_jump, ..self },
            Command::Render(notif) => Session { renderer: self.renderer.told(notif), ..self },
            Command::Convert(ConverterMsg::NumPages(n_pages)) => Session {
                converter: Converter { n_pages, ..self.converter },
                ..self
            },
            Command::Convert(ConverterMsg::GoToPage(page)) => Session {
                converter: Converter { page, ..self.converter },
                ..self
            },
            Command::Convert(ConverterMsg::AutoCrop(auto_crop)) => Session {
                converter: Converter { auto_crop, ..self.converter },
                ..self
            },
            Command::PanLeft(step) => Session {
                pan: if self.pan < step {
                    0
                } else {
                    self.pan - step
                },
                pan_clamped: false,
                ..self
            },
            Command::PanRight(step) => Session {
                pan: self.pan + step,
                pan_clamped: false,
                ..self
            },
            Command::ClampPan => Session { pan_clamped: true, ..self },
            Command::ShowZoom => Session { status: Status::Zoom, ..self },
            Command::InvalidateAllPages => Session { images_valid: false, ..self },
            Command::PageDisplayFailed(page) => Session {
                failed: self.failed.insert(page),
                ..self
            },
            Command::SetInverted(inverted) => Session { inverted, ..self },
            Command::SetRotation(rotation) => Session { rotation: rotation as int, ..self },
            Command::SetAutoCrop(auto_crop) => Session { auto_crop, ..self },
            Command::SetTinted(tinted) => Session { tinted, ..self },
            Command::SetNumPages(n_pages) => Session { n_pages, ..self },
            Command::OpenUrl(url) => Session { opened: self.opened.push(url), ..self },
        }
    }

    /// The session once commands were carried out, one after another.
    pub open spec fn done(self, commands: Seq<Command<Seq<char>, F>>) -> Session<F>
        decreases commands.len(),
    {
        if commands.len() == 0 {
            self
        } else {
            self.done(commands.drop_last()).did(commands.last())
        }
    }

    /// Whether renderer and converter know how pages are shown.
    pub open spec fn in_step(self) -> bool {
        &&& self.renderer.inverted == self.inverted
        &&& self.renderer.tinted == self.tinted
        &&& self.renderer.rotation == self.rotation
        &&& self.converter.auto_crop == self.auto_crop
    }
}

/// No command does nothing.
pub proof fn lemma_done_none<F>(s: Session<F>, c: Seq<Command<Seq<char>, F>>)
    requires
        c.len() == 0,
    ensures
        s.done(c) == s,
{
}

/// One command.
pub proof fn lemma_done_one<F>(s: Session<F>, c: Seq<Command<Seq<char>, F>>)
    requires
        c.len() == 1,
    ensures
        s.done(c) == s.did(c[0]),
{
    lemma_done_none(s, c.drop_last());
}

/// Two commands, one by one.
pub proof fn lemma_done_two<F>(s: Session<F>, c: Seq<Command<Seq<char>, F>>)
    requires
        c.len() == 2,
    ensures
        s.done(c) == s.did(c[0]).did(c[1]),
{
    lemma_done_one(s, c.drop_last());
}

/// Three commands, one by one.
pub proof fn lemma_done_three<F>(s: Session<F>, c: Seq<Command<Seq<char>, F>>)
    requires
        c.len() == 3,
    ensures
        s.done(c) == s.did(c[0]).did(c[1]).did(c[2]),
{
    lemma_done_two(s, c.drop_last());
}

/// Four commands, one by one.
pub proof fn lemma_done_four<F>(s: Session<F>, c: Seq<Command<Seq<char>, F>>)
    requires
        c.len() == 4,
    ensures
        s.done(c) == s.did(c[0]).did(c[1]).did(c[2]).did(c[3]),
{
    lemma_done_three(s, c.drop_last());
}

/// Five commands, one by one.
pub proof fn lemma_done_five<F>(s: Session<F>, c: Seq<Command<Seq<char>, F>>)
    requires
        c.len() == 5,
    ensures
        s.done(c) == s.did(c[0]).did(c[1]).did(c[2]).did(c[3]).did(c[4]),
{
    lemma_done_four(s, c.drop_last());
}

/// Six commands, one by one.
pub proof fn lemma_done_six<F>(s: Session<F>, c: Seq<Command<Seq<char>, F>>)
    requires
        c.len() == 6,
    ensures
        s.done(c) == s.did(c[0]).did(c[1]).did(c[2]).did(c[3]).did(c[4]).did(c[5]),
{
    lemma_done_five(s, c.drop_last());
}

/// Whether a command says nothing of how pages are shown.
pub open spec fn leaves_look<F>(c: Command<Seq<char>, F>) -> bool {
    match c {
        Command::SetInverted(_) | Command::SetTinted(_) | Command::SetRotation(_)
        | Command::SetAutoCrop(_) => false,
        Command::Convert(ConverterMsg::AutoCrop(_)) => false,
        Command::Render(notif) => !(notif is Invert || notif is Tint || notif is Rotate),
        _ => true,
    }
}

/// Commands that say nothing of how pages are shown change nothing about it, for the session, the
/// renderer and the converter.
pub proof fn lemma_look_stays<F>(s: Session<F>, c: Seq<Command<Seq<char>, F>>)
    requires
        forall|i: int| 0 <= i < c.len() ==> leaves_look(#[trigger] c[i]),
    ensures
        s.in_step() ==> s.done(c).in_step(),
        s.done(c).inverted == s.inverted,
        s.done(c).tinted == s.tinted,
        s.done(c).rotation == s.rotation,
        s.done(c).auto_crop == s.auto_crop,
        s.done(c).renderer.inverted == s.renderer.inverted,
        s.done(c).renderer.tinted == s.renderer.tinted,
        s.done(c).renderer.rotation == s.renderer.rotation,
        s.done(c).converter.auto_crop == s.converter.auto_crop,
    decreases c.len(),
{
    if c.len() > 0 {
        let front = c.drop_last();
        assert forall|i: int| 0 <= i < front.len() implies leaves_look(#[trigger] front[i]) by {
            assert(front[i] == c[i]);
        }
        lemma_look_stays(s, front);
        assert(leaves_look(c[c.len() - 1]));
    }
}

/// Commands are carried out one part after the other.
pub proof fn lemma_done_parts<F>(
    s: Session<F>,
    a: Seq<Command<Seq<char>, F>>,
    b: Seq<Command<Seq<char>, F>>,
)
    ensures
        s.done(a + b) == s.done(a).done(b),
    decreases b.len(),
{
    if b.len() == 0 {
        assert(a + b =~= a);
    } else {
        lemma_done_parts(s, a, b.drop_last());
        assert((a + b).drop_last() =~= a + b.drop_last());
        assert((a + b).last() == b.last());
    }
}

} // verus!
