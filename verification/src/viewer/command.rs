//! What the viewer can be told to do.

use vstd::prelude::*;

verus! {

/// What the keys do. `S` is the type of text: `String` at run time, `Seq<char>` in contracts.
#[derive(Debug, PartialEq)]
pub enum InputMode<S = String> {
    /// Keys move about and change how pages are shown.
    Normal,
    /// The number of a page is typed.
    GoToPage(S),
    /// The table of contents is shown from an entry on.
    Toc { scroll: usize },
    /// A text to search for is typed.
    Search(S),
    /// What is known of the document is shown.
    Metadata,
    /// The links of the page are shown, and the number of one is typed.
    Links { input: S },
}

impl View for InputMode {
    type V = InputMode<Seq<char>>;

    open spec fn view(&self) -> InputMode<Seq<char>> {
        match *self {
            InputMode::Normal => InputMode::Normal,
            InputMode::GoToPage(s) => InputMode::GoToPage(s@),
            InputMode::Toc { scroll } => InputMode::Toc { scroll },
            InputMode::Search(s) => InputMode::Search(s@),
            InputMode::Metadata => InputMode::Metadata,
            InputMode::Links { input } => InputMode::Links { input: input@ },
        }
    }
}

/// What the status bar says: the usual hint, or a message.
#[derive(Debug, PartialEq)]
pub enum StatusMsg<S = String> {
    Hint,
    Info(S),
}

impl View for StatusMsg {
    type V = StatusMsg<Seq<char>>;

    open spec fn view(&self) -> StatusMsg<Seq<char>> {
        match *self {
            StatusMsg::Hint => StatusMsg::Hint,
            StatusMsg::Info(s) => StatusMsg::Info(s@),
        }
    }
}

/// What the renderer is told. `F` is the type of the size of the text; nothing where that size is
/// not told.
#[derive(Debug, PartialEq)]
pub enum RenderNotif<S = String, F = ()> {
    /// The area of a page has a new size.
    Area,
    JumpToPage(usize),
    PageNeedsReRender(usize),
    Search(S),
    Invert,
    Rotate,
    Tint,
    Refresh,
    /// The text has this size.
    SetFontSize(F),
    AdjustFontSize(i32),
    GetLinks(usize),
    ExportPage { page_num: usize, output_path: S, auto_crop: bool },
}

impl<F> View for RenderNotif<String, F> {
    type V = RenderNotif<Seq<char>, F>;

    open spec fn view(&self) -> RenderNotif<Seq<char>, F> {
        match *self {
            RenderNotif::Area => RenderNotif::Area,
            RenderNotif::JumpToPage(p) => RenderNotif::JumpToPage(p),
            RenderNotif::PageNeedsReRender(p) => RenderNotif::PageNeedsReRender(p),
            RenderNotif::Search(s) => RenderNotif::Search(s@),
            RenderNotif::Invert => RenderNotif::Invert,
            RenderNotif::Rotate => RenderNotif::Rotate,
            RenderNotif::Tint => RenderNotif::Tint,
            RenderNotif::Refresh => RenderNotif::Refresh,
            RenderNotif::SetFontSize(size) => RenderNotif::SetFontSize(size),
            RenderNotif::AdjustFontSize(n) => RenderNotif::AdjustFontSize(n),
            RenderNotif::GetLinks(p) => RenderNotif::GetLinks(p),
            RenderNotif::ExportPage { page_num, output_path, auto_crop } => {
                RenderNotif::ExportPage { page_num, output_path: output_path@, auto_crop }
            },
        }
    }
}

/// What the task that prepares images is told.
#[derive(Clone, Copy, Debug, PartialEq, Eq, Structural)]
pub enum ConverterMsg {
    NumPages(usize),
    GoToPage(usize),
    AutoCrop(bool),
}

/// One thing to do. Commands are carried out in order. `F` is the type of the size of the text, as
/// it is for the renderer.
#[derive(Debug, PartialEq)]
pub enum Command<S = String, F = ()> {
    SetInputMode(InputMode<S>),
    SetMsg(StatusMsg<S>),
    /// Show a message that goes away by itself.
    ShowInfo(S),
    NeedsRedraw,
    SetSearchTerm(Option<S>),
    ClearSearchResults,
    SetPendingSearchJump(Option<usize>),
    Render(RenderNotif<S, F>),
    Convert(ConverterMsg),
    PanLeft(u32),
    PanRight(u32),
    /// Keep the pan within what the zoom allows.
    ClampPan,
    /// Show the zoom in percent.
    ShowZoom,
    /// Forget the images of all pages.
    InvalidateAllPages,
    /// Forget the image of a page that could not be shown.
    PageDisplayFailed(usize),
    SetInverted(bool),
    SetRotation(u32),
    SetAutoCrop(bool),
    SetTinted(bool),
    SetNumPages(usize),
    OpenUrl(S),
}

impl<F> View for Command<String, F> {
    type V = Command<Seq<char>, F>;

    open spec fn view(&self) -> Command<Seq<char>, F> {
        match *self {
            Command::SetInputMode(mode) => Command::SetInputMode(mode@),
            Command::SetMsg(msg) => Command::SetMsg(msg@),
            Command::ShowInfo(s) => Command::ShowInfo(s@),
            Command::NeedsRedraw => Command::NeedsRedraw,
            Command::SetSearchTerm(term) => Command::SetSearchTerm(
                match term {
                    Some(s) => Some(s@),
                    None => None,
                },
            ),
            Command::ClearSearchResults => Command::ClearSearchResults,
            Command::SetPendingSearchJump(from) => Command::SetPendingSearchJump(from),
            Command::Render(notif) => Command::Render(notif@),
            Command::Convert(msg) => Command::Convert(msg),
            Command::PanLeft(step) => Command::PanLeft(step),
            Command::PanRight(step) => Command::PanRight(step),
            Command::ClampPan => Command::ClampPan,
            Command::ShowZoom => Command::ShowZoom,
            Command::InvalidateAllPages => Command::InvalidateAllPages,
            Command::PageDisplayFailed(p) => Command::PageDisplayFailed(p),
            Command::SetInverted(b) => Command::SetInverted(b),
            Command::SetRotation(d) => Command::SetRotation(d),
            Command::SetAutoCrop(b) => Command::SetAutoCrop(b),
            Command::SetTinted(b) => Command::SetTinted(b),
            Command::SetNumPages(n) => Command::SetNumPages(n),
            Command::OpenUrl(s) => Command::OpenUrl(s@),
        }
    }
}

/// Commands with texts for strings.
pub open spec fn commands_view<F>(commands: Seq<Command<String, F>>) -> Seq<
    Command<Seq<char>, F>,
> {
    commands.map_values(|c: Command<String, F>| c@)
}

/// No commands.
pub fn no_commands<F>() -> (r: Vec<Command<String, F>>)
    ensures
        commands_view(r@) == Seq::<Command<Seq<char>, F>>::empty(),
{
    let r: Vec<Command<String, F>> = Vec::new();
    assert(commands_view(r@) =~= Seq::<Command<Seq<char>, F>>::empty());
    r
}

/// Adds a command behind the others.
pub fn emit<F>(commands: &mut Vec<Command<String, F>>, command: Command<String, F>)
    ensures
        commands_view(final(commands)@) == commands_view(old(commands)@).push(command@),
{
    commands.push(command);
    assert(commands_view(commands@) =~= commands_view(old(commands)@).push(command@));
}

/// What a jump to a page is made of: the renderer and the preparing task are both told of the
/// page, and the renderer renders it anew where its image is missing.
pub open spec fn page_jump(page: usize, ready: bool) -> Seq<Command<Seq<char>>> {
    let both = seq![
        Command::Render(RenderNotif::JumpToPage(page)),
        Command::Convert(ConverterMsg::GoToPage(page)),
    ];
    if ready {
        both
    } else {
        both.push(Command::Render(RenderNotif::PageNeedsReRender(page)))
    }
}

/// Adds what a jump to a page is made of; `ready` says whether its image is there.
pub fn send_page_jump_commands(commands: &mut Vec<Command>, page: usize, ready: bool)
    ensures
        commands_view(final(commands)@) == commands_view(old(commands)@) + page_jump(page, ready),
{
    emit(commands, Command::Render(RenderNotif::JumpToPage(page)));
    emit(commands, Command::Convert(ConverterMsg::GoToPage(page)));
    if !ready {
        emit(commands, Command::Render(RenderNotif::PageNeedsReRender(page)));
    }
    assert(commands_view(commands@) =~= commands_view(old(commands)@) + page_jump(page, ready));
}

/// Whether the image of a page is there: `converted` says so of each page.
pub open spec fn is_page_ready(converted: Seq<bool>, page: usize) -> bool {
    page < converted.len() && converted[page as int]
}

/// A page is there exactly where it says so of itself: what other pages say does not matter, and
/// a page that nothing is said of is not there.
pub proof fn lemma_page_ready(converted: Seq<bool>, page: usize, other: int, ready: bool)
    ensures
        page >= converted.len() ==> !is_page_ready(converted, page),
        page < converted.len() ==> is_page_ready(converted.update(page as int, ready), page)
            == ready,
        0 <= other < converted.len() && other != page ==> is_page_ready(
            converted.update(other, ready),
            page,
        ) == is_page_ready(converted, page),
{
}

/// Whether the image of a page is there: `converted` says so of each page.
pub fn current_page_is_ready(converted: &[bool], page: usize) -> (r: bool)
    ensures
        r == is_page_ready(converted@, page),
        r == (page < converted@.len() && converted@[page as int]),
{
    page < converted.len() && converted[page]
}

} // verus!
