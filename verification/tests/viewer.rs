use kitpdf::error::RenderError;
use kitpdf::kitty::error::InputErr;
use kitpdf::kitty::error::ParseError;
use kitpdf::kitty::error::TerminalError;
use kitpdf::kitty::error::TransmitError;
use kitpdf::kitty::id::ImageId;
use kitpdf::kitty::placeholder::Pos;
use kitpdf::viewer::answer::advance_pending_search_if_ready;
use kitpdf::viewer::answer::after_export_path;
use kitpdf::viewer::answer::after_scroll;
use kitpdf::viewer::answer::after_search;
use kitpdf::viewer::answer::after_turn;
use kitpdf::viewer::answer::after_zoom;
use kitpdf::viewer::answer::after_zoom_toggle;
use kitpdf::viewer::answer::outcome_after;
use kitpdf::viewer::answer::SearchJumpResolution;
use kitpdf::viewer::command::current_page_is_ready;
use kitpdf::viewer::command::Command;
use kitpdf::viewer::command::ConverterMsg;
use kitpdf::viewer::command::InputMode;
use kitpdf::viewer::command::RenderNotif;
use kitpdf::viewer::command::StatusMsg;
use kitpdf::viewer::draw::plan_draw;
use kitpdf::viewer::draw::plan_lost_page;
use kitpdf::viewer::draw::DrawPlan;
use kitpdf::viewer::draw::Screen;
use kitpdf::viewer::draw::Target;
use kitpdf::viewer::event_loop::should_delay_loading_indicator;
use kitpdf::viewer::event_loop::size_changed;
use kitpdf::viewer::event_loop::CurrentPage;
use kitpdf::viewer::event_loop::LoopState;
use kitpdf::viewer::event_loop::LoopStep;
use kitpdf::viewer::event_loop::RenderReport;
use kitpdf::viewer::event_loop::ReportOutcome;
use kitpdf::viewer::handle::handle_event;
use kitpdf::viewer::handle::AfterTurn;
use kitpdf::viewer::handle::AppView;
use kitpdf::viewer::handle::EventOutcome;
use kitpdf::viewer::handle::Link;
use kitpdf::viewer::handle::Next;
use kitpdf::viewer::handle::PageTurn;
use kitpdf::viewer::handle::PageView;
use kitpdf::viewer::handle::ScrollAction;
use kitpdf::viewer::handle::ScrollCall;
use kitpdf::viewer::handle::SearchStep;
use kitpdf::viewer::handle::ZoomStep;
use kitpdf::viewer::input::horizontal_action;
use kitpdf::viewer::input::is_left_click;
use kitpdf::viewer::input::toc_entry_at_row;
use kitpdf::viewer::input::Event;
use kitpdf::viewer::input::HorizontalAction;
use kitpdf::viewer::input::KeyCode;
use kitpdf::viewer::input::MouseKind;
use kitpdf::viewer::startup::plan_start;
use kitpdf::viewer::startup::TerminalFailure;
use kitpdf::viewer::surface::compute_page_surface;
use kitpdf::viewer::surface::overlay_surface;
use kitpdf::viewer::surface::DrawSurface;
use kitpdf::viewer::surface::OverlaySurface;
use kitpdf::viewer::surface::PageSurface;
use kitpdf::viewer::surface::WindowSize;
use kitpdf::document::SavedState;

fn id(value: u32) -> ImageId {
    ImageId::new(value).unwrap()
}

fn pages() -> PageView {
    PageView {
        page: 4,
        zoom_mode: false,
        supports_zoom: true,
        reflowable: false,
        has_metadata: true,
        auto_crop: false,
        inverted: false,
        tinted: false,
        rotation: 270,
        cell_width_px: 10,
        cell_height_px: 20,
        page_rows: 24,
    }
}

fn react(event: Event, mode: InputMode, pages: PageView) -> (Vec<Command>, Next) {
    let links = [
        Link { page: Some(7), uri: String::new() },
        Link { page: None, uri: "https://example.org".to_string() },
    ];
    let toc = [0, 3, 9];
    let view = AppView { input_mode: &mode, links: &links, toc: &toc, pages };
    handle_event(&event, &view)
}

fn press(code: KeyCode, mode: InputMode) -> (Vec<Command>, Next) {
    react(Event::Key { code, control: false }, mode, pages())
}

fn normal(code: KeyCode, pages: PageView) -> (Vec<Command>, Next) {
    react(Event::Key { code, control: false }, InputMode::Normal, pages)
}

fn redraw(commands: Vec<Command>) -> (Vec<Command>, Next) {
    (commands, Next::Finish(EventOutcome::Redraw))
}

fn nothing() -> (Vec<Command>, Next) {
    (Vec::new(), Next::Finish(EventOutcome::Nothing))
}

fn info(text: &str) -> Command {
    Command::ShowInfo(text.to_string())
}

fn set(mode: InputMode) -> Command {
    Command::SetInputMode(mode)
}

fn back() -> Vec<Command> {
    vec![set(InputMode::Normal), Command::SetMsg(StatusMsg::Hint)]
}

fn turn(turn: PageTurn) -> (Vec<Command>, Next) {
    (Vec::new(), Next::Turn(turn, AfterTurn::Nothing))
}

fn typed(text: &str) -> Command {
    Command::SetMsg(StatusMsg::Info(text.to_string()))
}

#[test]
fn toc_entry_at_row_maps_top_visible_entry() {
    assert_eq!(toc_entry_at_row(10, 3, 0, 20), Some(3));
}

#[test]
fn toc_entry_at_row_maps_scrolled_row() {
    assert_eq!(toc_entry_at_row(10, 3, 4, 20), Some(7));
}

#[test]
fn toc_entry_at_row_rejects_status_bar_row() {
    assert_eq!(toc_entry_at_row(10, 0, 20, 20), None);
}

#[test]
fn toc_entry_at_row_rejects_past_end_of_toc() {
    assert_eq!(toc_entry_at_row(5, 3, 3, 20), None);
}

#[test]
fn toc_entry_at_row_at_the_limit() {
    assert_eq!(toc_entry_at_row(usize::MAX, usize::MAX, 1, 20), None);
    assert_eq!(toc_entry_at_row(6, 3, 2, 20), Some(5));
}

#[test]
fn horizontal_action_keeps_arrow_keys_as_page_turns_in_zoom_mode() {
    assert_eq!(
        horizontal_action(KeyCode::Right, true),
        Some(HorizontalAction::NextPage)
    );
    assert_eq!(
        horizontal_action(KeyCode::Left, true),
        Some(HorizontalAction::PrevPage)
    );
}

#[test]
fn horizontal_action_uses_h_and_l_for_pan_in_zoom_mode() {
    assert_eq!(
        horizontal_action(KeyCode::Char('l'), true),
        Some(HorizontalAction::PanRight)
    );
    assert_eq!(
        horizontal_action(KeyCode::Char('h'), true),
        Some(HorizontalAction::PanLeft)
    );
}

#[test]
fn horizontal_action_turns_pages_outside_zoom_mode() {
    assert_eq!(horizontal_action(KeyCode::Char('l'), false), Some(HorizontalAction::NextPage));
    assert_eq!(horizontal_action(KeyCode::Char('h'), false), Some(HorizontalAction::PrevPage));
    assert_eq!(horizontal_action(KeyCode::Up, false), None);
}

#[test]
fn left_clicks() {
    assert!(is_left_click(MouseKind::LeftDown));
    assert!(is_left_click(MouseKind::LeftUp));
    assert!(!is_left_click(MouseKind::Other));
}

#[test]
fn a_click_on_the_table_of_contents() {
    let click = |row: u16| Event::Mouse { kind: MouseKind::LeftDown, row };
    assert_eq!(
        react(click(1), InputMode::Toc { scroll: 1 }, pages()),
        (back(), Next::Turn(PageTurn::To(9), AfterTurn::Nothing))
    );
    assert_eq!(react(click(2), InputMode::Toc { scroll: 1 }, pages()), nothing());
    assert_eq!(react(click(24), InputMode::Toc { scroll: 0 }, pages()), nothing());
    assert_eq!(react(click(0), InputMode::Normal, pages()), nothing());
    let other = Event::Mouse { kind: MouseKind::Other, row: 0 };
    assert_eq!(react(other, InputMode::Toc { scroll: 0 }, pages()), nothing());
}

#[test]
fn a_resize_draws_and_other_events_do_nothing() {
    assert_eq!(react(Event::Resize, InputMode::Normal, pages()), redraw(Vec::new()));
    assert_eq!(react(Event::Other, InputMode::Normal, pages()), nothing());
}

#[test]
fn keys_that_end_the_viewer() {
    let quit = (Vec::new(), Next::Finish(EventOutcome::Quit));
    assert_eq!(normal(KeyCode::Char('q'), pages()), quit);
    assert_eq!(normal(KeyCode::Esc, pages()), quit);
    let control_c = Event::Key { code: KeyCode::Char('c'), control: true };
    assert_eq!(react(control_c, InputMode::Normal, pages()), quit);
    assert_eq!(
        react(control_c, InputMode::Search("ab".to_string()), pages()),
        (
            vec![typed("/abc"), set(InputMode::Search("abc".to_string()))],
            Next::Finish(EventOutcome::RedrawStatus)
        )
    );
}

#[test]
fn a_page_number_is_typed() {
    let mode = |s: &str| InputMode::GoToPage(s.to_string());
    let status = Next::Finish(EventOutcome::RedrawStatus);
    assert_eq!(
        press(KeyCode::Char('7'), mode("1")),
        (vec![typed("go to page: 17"), set(mode("17"))], status)
    );
    assert_eq!(
        press(KeyCode::Backspace, mode("17")),
        (vec![typed("go to page: 1"), set(mode("1"))], status)
    );
    assert_eq!(
        press(KeyCode::Backspace, mode("")),
        (vec![typed("go to page: "), set(mode(""))], status)
    );
    assert_eq!(press(KeyCode::Char('x'), mode("1")), nothing());
    assert_eq!(press(KeyCode::Esc, mode("1")), redraw(back()));
    assert_eq!(
        press(KeyCode::Enter, mode("17")),
        (vec![set(InputMode::Normal)], Next::Turn(PageTurn::To(16), AfterTurn::Hint))
    );
    assert_eq!(
        press(KeyCode::Enter, mode("0")),
        (vec![set(InputMode::Normal)], Next::Turn(PageTurn::To(0), AfterTurn::Hint))
    );
    assert_eq!(
        press(KeyCode::Enter, mode("")),
        redraw(vec![set(InputMode::Normal), info("invalid page number")])
    );
}

#[test]
fn the_table_of_contents_is_walked() {
    let mode = |scroll: usize| InputMode::Toc { scroll };
    assert_eq!(press(KeyCode::Down, mode(1)), redraw(vec![set(mode(2))]));
    assert_eq!(press(KeyCode::Char('j'), mode(2)), redraw(Vec::new()));
    assert_eq!(press(KeyCode::Up, mode(2)), redraw(vec![set(mode(1))]));
    assert_eq!(press(KeyCode::Char('k'), mode(0)), redraw(vec![set(mode(0))]));
    assert_eq!(
        press(KeyCode::Enter, mode(1)),
        (back(), Next::Turn(PageTurn::To(3), AfterTurn::Nothing))
    );
    assert_eq!(press(KeyCode::Enter, mode(3)), redraw(Vec::new()));
    let mut closed = back();
    closed.push(Command::NeedsRedraw);
    for key in [KeyCode::Esc, KeyCode::Char('t'), KeyCode::Char('q')] {
        let (commands, next) = press(key, mode(1));
        assert_eq!(commands, closed);
        assert_eq!(next, Next::Finish(EventOutcome::Redraw));
    }
    assert_eq!(press(KeyCode::Char('x'), mode(1)), nothing());
}

#[test]
fn a_search_is_typed() {
    let mode = |s: &str| InputMode::Search(s.to_string());
    assert_eq!(
        press(KeyCode::Enter, mode("ab")),
        redraw(vec![
            set(InputMode::Normal),
            Command::SetSearchTerm(Some("ab".to_string())),
            Command::ClearSearchResults,
            Command::SetPendingSearchJump(Some(4)),
            Command::Render(RenderNotif::Search("ab".to_string())),
            info("searching..."),
        ])
    );
    assert_eq!(
        press(KeyCode::Enter, mode("")),
        redraw(vec![
            set(InputMode::Normal),
            Command::SetSearchTerm(None),
            Command::SetPendingSearchJump(None),
            Command::Render(RenderNotif::Search(String::new())),
            Command::SetMsg(StatusMsg::Hint),
        ])
    );
    assert_eq!(press(KeyCode::Esc, mode("ab")), redraw(back()));
    assert_eq!(
        press(KeyCode::Backspace, mode("äb")),
        (
            vec![typed("/ä"), set(mode("ä"))],
            Next::Finish(EventOutcome::RedrawStatus)
        )
    );
    assert_eq!(press(KeyCode::Left, mode("ab")), nothing());
}

#[test]
fn metadata_is_closed() {
    let mut closed = back();
    closed.push(Command::NeedsRedraw);
    for key in [KeyCode::Esc, KeyCode::Char('M'), KeyCode::Char('q')] {
        assert_eq!(press(key, InputMode::Metadata).0, closed);
    }
    assert_eq!(press(KeyCode::Enter, InputMode::Metadata), nothing());
}

#[test]
fn links_are_followed() {
    let mode = |s: &str| InputMode::Links { input: s.to_string() };
    assert_eq!(press(KeyCode::Char('2'), mode("1")), redraw(vec![set(mode("12"))]));
    assert_eq!(press(KeyCode::Backspace, mode("12")), redraw(vec![set(mode("1"))]));
    assert_eq!(press(KeyCode::Char('x'), mode("1")), nothing());
    assert_eq!(press(KeyCode::Esc, mode("1")), redraw(back()));
    assert_eq!(
        press(KeyCode::Enter, mode("1")),
        (vec![set(InputMode::Normal)], Next::Turn(PageTurn::To(7), AfterTurn::Hint))
    );
    assert_eq!(
        press(KeyCode::Enter, mode("2")),
        redraw(vec![
            set(InputMode::Normal),
            Command::OpenUrl("https://example.org".to_string()),
            info("opened: https://example.org"),
        ])
    );
    for bad in ["0", "3"] {
        assert_eq!(
            press(KeyCode::Enter, mode(bad)),
            redraw(vec![set(InputMode::Normal), info("invalid link number")])
        );
    }
    assert_eq!(press(KeyCode::Enter, mode("")), redraw(back()));
}

#[test]
fn pages_are_turned() {
    for key in [KeyCode::Char(' '), KeyCode::Char('j'), KeyCode::Right, KeyCode::Char('l'), KeyCode::PageDown] {
        assert_eq!(normal(key, pages()), turn(PageTurn::Next));
    }
    for key in [KeyCode::Char('k'), KeyCode::Left, KeyCode::Char('h'), KeyCode::PageUp] {
        assert_eq!(normal(key, pages()), turn(PageTurn::Prev));
    }
}

#[test]
fn zoomed_pages_are_panned_and_scrolled() {
    let zoomed = PageView { zoom_mode: true, ..pages() };
    assert_eq!(normal(KeyCode::Char('l'), zoomed), redraw(vec![Command::PanRight(30)]));
    assert_eq!(normal(KeyCode::Char('h'), zoomed), redraw(vec![Command::PanLeft(30)]));
    assert_eq!(normal(KeyCode::PageDown, zoomed).1, Next::Scroll(ScrollCall::PageDown));
    assert_eq!(normal(KeyCode::PageUp, zoomed).1, Next::Scroll(ScrollCall::PageUp));
    assert_eq!(normal(KeyCode::Down, zoomed).1, Next::Scroll(ScrollCall::Down(60)));
    assert_eq!(normal(KeyCode::Up, pages()).1, Next::Scroll(ScrollCall::Up(60)));
    assert_eq!(normal(KeyCode::Char('o'), zoomed).1, Next::Zoom(ZoomStep::In));
    assert_eq!(normal(KeyCode::Char('O'), zoomed).1, Next::Zoom(ZoomStep::Out));
    assert_eq!(normal(KeyCode::Char('o'), pages()), nothing());
    assert_eq!(normal(KeyCode::Char('O'), pages()), nothing());
}

#[test]
fn zoom_needs_a_fixed_layout() {
    assert_eq!(normal(KeyCode::Char('z'), pages()), (Vec::new(), Next::ToggleZoom));
    let reflowable = PageView { supports_zoom: false, reflowable: true, ..pages() };
    assert_eq!(
        normal(KeyCode::Char('z'), reflowable),
        redraw(vec![info("zoom is only available for fixed-layout documents")])
    );
    assert_eq!(
        normal(KeyCode::Char('<'), reflowable),
        redraw(vec![
            Command::InvalidateAllPages,
            Command::Render(RenderNotif::AdjustFontSize(-1)),
            info("EPUB font smaller"),
        ])
    );
    assert_eq!(
        normal(KeyCode::Char('>'), reflowable),
        redraw(vec![
            Command::InvalidateAllPages,
            Command::Render(RenderNotif::AdjustFontSize(1)),
            info("EPUB font larger"),
        ])
    );
    assert_eq!(normal(KeyCode::Char('<'), pages()), nothing());
    assert_eq!(normal(KeyCode::Char('>'), pages()), nothing());
}

#[test]
fn pages_are_shown_differently() {
    assert_eq!(
        normal(KeyCode::Char('i'), pages()),
        redraw(vec![
            Command::Render(RenderNotif::Invert),
            Command::SetInverted(true),
            Command::InvalidateAllPages,
            info("invert toggled"),
        ])
    );
    assert_eq!(
        normal(KeyCode::Char('r'), pages()),
        redraw(vec![
            Command::Render(RenderNotif::Rotate),
            Command::SetRotation(0),
            Command::InvalidateAllPages,
            info("rotated"),
        ])
    );
    assert_eq!(
        normal(KeyCode::Char('c'), pages()),
        redraw(vec![
            Command::SetAutoCrop(true),
            Command::Convert(ConverterMsg::AutoCrop(true)),
            Command::Render(RenderNotif::Refresh),
            Command::InvalidateAllPages,
            info("auto-crop on"),
        ])
    );
    assert_eq!(
        normal(KeyCode::Char('d'), PageView { tinted: true, ..pages() }),
        redraw(vec![
            Command::Render(RenderNotif::Tint),
            Command::SetTinted(false),
            Command::InvalidateAllPages,
            info("tint off"),
        ])
    );
}

#[test]
fn four_rotations_lead_back() {
    let mut rotation = 90;
    for _ in 0..4 {
        let (commands, _) = normal(KeyCode::Char('r'), PageView { rotation, ..pages() });
        match commands[1] {
            Command::SetRotation(next) => rotation = next,
            _ => panic!("no rotation"),
        }
    }
    assert_eq!(rotation, 90);
}

#[test]
fn the_document_is_asked() {
    assert_eq!(
        normal(KeyCode::Char('t'), pages()),
        redraw(vec![set(InputMode::Toc { scroll: 0 })])
    );
    let view = AppView { input_mode: &InputMode::Normal, links: &[], toc: &[], pages: pages() };
    let key = Event::Key { code: KeyCode::Char('t'), control: false };
    assert_eq!(handle_event(&key, &view), redraw(vec![info("no table of contents")]));
    assert_eq!(
        normal(KeyCode::Char('g'), pages()),
        redraw(vec![set(InputMode::GoToPage(String::new())), typed("go to page: ")])
    );
    assert_eq!(
        normal(KeyCode::Char('/'), pages()),
        redraw(vec![set(InputMode::Search(String::new())), typed("/")])
    );
    assert_eq!(normal(KeyCode::Char('n'), pages()).1, Next::Search(SearchStep::Next));
    assert_eq!(normal(KeyCode::Char('N'), pages()).1, Next::Search(SearchStep::Prev));
    assert_eq!(normal(KeyCode::Char('M'), pages()), redraw(vec![set(InputMode::Metadata)]));
    assert_eq!(
        normal(KeyCode::Char('M'), PageView { has_metadata: false, ..pages() }),
        redraw(vec![info("no metadata available")])
    );
    assert_eq!(
        normal(KeyCode::Char('f'), pages()),
        redraw(vec![Command::Render(RenderNotif::GetLinks(4)), info("extracting links...")])
    );
    assert_eq!(normal(KeyCode::Char('e'), pages()), (Vec::new(), Next::ExportPath));
    for key in [KeyCode::Char('R'), KeyCode::F(5)] {
        assert_eq!(
            normal(key, pages()),
            redraw(vec![Command::Render(RenderNotif::Refresh), info("refreshing...")])
        );
    }
    match &normal(KeyCode::Char('?'), pages()).0[0] {
        Command::ShowInfo(text) => {
            assert!(text.starts_with("Space next  PgUp/PgDn page  ←/→ page  ↑/↓ scroll"));
            assert!(text.ends_with("e export  q quit"));
        }
        other => panic!("{other:?}"),
    }
    assert_eq!(normal(KeyCode::F(6), pages()), nothing());
    assert_eq!(normal(KeyCode::Enter, pages()), nothing());
}

#[test]
fn a_turn_is_told_to_both() {
    let jump = || {
        vec![
            Command::Render(RenderNotif::JumpToPage(5)),
            Command::Convert(ConverterMsg::GoToPage(5)),
        ]
    };
    assert_eq!(after_turn(AfterTurn::Nothing, true, 5, true), jump());
    let mut missing = jump();
    missing.push(Command::Render(RenderNotif::PageNeedsReRender(5)));
    assert_eq!(after_turn(AfterTurn::RedrawIfStill, true, 5, false), missing);
    missing.push(Command::SetMsg(StatusMsg::Hint));
    assert_eq!(after_turn(AfterTurn::Hint, true, 5, false), missing);
    assert_eq!(after_turn(AfterTurn::Nothing, false, 5, false), vec![]);
    assert_eq!(after_turn(AfterTurn::Hint, false, 5, false), vec![Command::SetMsg(StatusMsg::Hint)]);
    assert_eq!(after_turn(AfterTurn::RedrawIfStill, false, 5, false), vec![Command::NeedsRedraw]);
}

#[test]
fn scrolling_turns_pages_at_the_ends() {
    let next = Next::Turn(PageTurn::Next, AfterTurn::Nothing);
    let prev = Next::Turn(PageTurn::PrevAtBottom, AfterTurn::Nothing);
    let done = Next::Finish(EventOutcome::Redraw);
    for down in [ScrollCall::Down(3), ScrollCall::PageDown] {
        assert_eq!(after_scroll(down, ScrollAction::TurnNext), next);
        assert_eq!(after_scroll(down, ScrollAction::TurnPrev), done);
        assert_eq!(after_scroll(down, ScrollAction::Scrolled), done);
    }
    for up in [ScrollCall::Up(3), ScrollCall::PageUp] {
        assert_eq!(after_scroll(up, ScrollAction::TurnPrev), prev);
        assert_eq!(after_scroll(up, ScrollAction::TurnNext), done);
        assert_eq!(after_scroll(up, ScrollAction::Nothing), done);
    }
}

#[test]
fn zooming_renders_anew() {
    assert_eq!(after_zoom(ZoomStep::In, false), vec![]);
    assert_eq!(
        after_zoom(ZoomStep::In, true),
        vec![
            Command::InvalidateAllPages,
            Command::Render(RenderNotif::Area),
            Command::ShowZoom
        ]
    );
    assert_eq!(after_zoom(ZoomStep::Out, true)[2], Command::ClampPan);
    assert_eq!(after_zoom_toggle(true)[2], info("zoom mode on"));
    assert_eq!(after_zoom_toggle(false)[2], info("zoom mode off"));
}

#[test]
fn events_come_to_an_outcome() {
    assert_eq!(outcome_after(Next::Finish(EventOutcome::Quit)), EventOutcome::Quit);
    assert_eq!(outcome_after(Next::ExportPath), EventOutcome::RedrawStatus);
    assert_eq!(outcome_after(Next::ToggleZoom), EventOutcome::Redraw);
    assert_eq!(outcome_after(turn(PageTurn::Next).1), EventOutcome::Redraw);
}

#[test]
fn search_results_are_walked() {
    assert_eq!(after_search(true, true, 5, true).len(), 2);
    assert_eq!(after_search(false, true, 5, true), vec![info("no more results")]);
    assert_eq!(after_search(false, false, 5, true), vec![]);
}

#[test]
fn a_search_leads_to_its_result() {
    assert_eq!(advance_pending_search_if_ready(None), (vec![], None, false));
    assert_eq!(
        advance_pending_search_if_ready(Some(SearchJumpResolution::Pending)),
        (vec![], None, false)
    );
    assert_eq!(
        advance_pending_search_if_ready(Some(SearchJumpResolution::Found(3))),
        (
            vec![Command::SetPendingSearchJump(None), Command::SetMsg(StatusMsg::Hint)],
            Some(PageTurn::To(3)),
            true
        )
    );
    assert_eq!(
        advance_pending_search_if_ready(Some(SearchJumpResolution::NoResult)),
        (
            vec![Command::SetPendingSearchJump(None), info("no result"), Command::NeedsRedraw],
            None,
            true
        )
    );
}

#[test]
fn an_export_is_announced() {
    assert_eq!(
        after_export_path("/x.png".to_string(), 4, true),
        vec![
            Command::Render(RenderNotif::ExportPage {
                page_num: 4,
                output_path: "/x.png".to_string(),
                auto_crop: true
            }),
            info("exporting page 5..."),
        ]
    );
}

#[test]
fn a_page_is_ready_once_its_image_is_there() {
    assert!(current_page_is_ready(&[false, true], 1));
    assert!(!current_page_is_ready(&[false, true], 0));
    assert!(!current_page_is_ready(&[false, true], 2));
}

fn current(page: usize, ready: bool) -> CurrentPage {
    CurrentPage { page, normal_mode: true, ready }
}

#[test]
fn loading_is_shown_after_a_delay() {
    let mut state = LoopState::new();
    state.has_displayed_page = true;
    assert!(!state.on_outcome(EventOutcome::Redraw));
    state.settle(current(3, false));
    assert_eq!(state.next_step(false, current(3, false), 1000), LoopStep::Delay);
    assert_eq!(state.loading_deadline, Some(1090));
    assert_eq!(state.loading_page, Some(3));
    state.settle(current(3, false));
    assert_eq!(state.next_step(true, current(3, false), 1050), LoopStep::Delay);
    assert_eq!(state.loading_deadline, Some(1090));
    state.on_loading_timer(current(3, false));
    state.settle(current(3, false));
    assert_eq!(state.next_step(false, current(3, false), 1090), LoopStep::Draw);
    assert_eq!(state.show_loading_for_page, Some(3));
    state.drawn(current(3, false));
    state.settle(current(3, true));
    assert_eq!(state.show_loading_for_page, None);
    assert_eq!(state.next_step(true, current(3, true), 1100), LoopStep::Draw);
}

#[test]
fn a_page_that_comes_in_time_is_drawn() {
    let mut state = LoopState::new();
    state.has_displayed_page = true;
    state.needs_redraw = true;
    state.settle(current(3, false));
    assert_eq!(state.next_step(false, current(3, false), 0), LoopStep::Delay);
    state.settle(current(3, true));
    assert_eq!(state.loading_deadline, None);
    assert_eq!(state.next_step(true, current(3, true), 10), LoopStep::Draw);
}

#[test]
fn another_page_is_waited_for_anew() {
    let mut state = LoopState::new();
    state.has_displayed_page = true;
    state.needs_redraw = true;
    state.settle(current(3, false));
    assert_eq!(state.next_step(false, current(3, false), 0), LoopStep::Delay);
    state.settle(current(4, false));
    assert_eq!(state.next_step(true, current(4, false), 50), LoopStep::Delay);
    assert_eq!((state.loading_page, state.loading_deadline), (Some(4), Some(140)));
    state.on_loading_timer(current(5, false));
    assert_eq!((state.loading_page, state.show_loading_for_page), (None, None));
}

#[test]
fn the_first_page_is_not_delayed() {
    let mut state = LoopState::new();
    state.needs_redraw = true;
    assert_eq!(state.next_step(false, current(0, false), 0), LoopStep::Draw);
    state.drawn(current(0, false));
    assert!(!state.has_displayed_page);
    state.drawn(current(0, true));
    assert!(state.has_displayed_page);
    assert!(should_delay_loading_indicator(current(1, false), true, Some(2)));
    assert!(!should_delay_loading_indicator(current(1, false), true, Some(1)));
}

#[test]
fn outcomes_are_drawn() {
    let mut state = LoopState::new();
    assert!(state.on_outcome(EventOutcome::Quit));
    assert!(!state.on_outcome(EventOutcome::Nothing));
    assert_eq!(state, LoopState::new());
    assert!(!state.on_outcome(EventOutcome::RedrawStatus));
    assert_eq!(state.next_step(false, current(0, true), 0), LoopStep::DrawStatus);
    assert_eq!(state.next_step(false, current(0, true), 0), LoopStep::Nothing);
    assert!(size_changed((80, 24), (80, 25)));
    assert!(!size_changed((80, 24), (80, 24)));
}

#[test]
fn reports_of_the_renderer() {
    let mut state = LoopState::new();
    let mut report = |report: RenderReport, n: usize| {
        let outcome = state.on_report(report, n, "a.pdf");
        (outcome, state)
    };
    let kind = RenderReport::DocumentKind { reflowable: true, had_zoom: true };
    match report(kind, 0).0 {
        ReportOutcome::Commands(c) => assert_eq!(c, vec![Command::Render(RenderNotif::Area)]),
        other => panic!("{other:?}"),
    }
    let kind = RenderReport::DocumentKind { reflowable: false, had_zoom: true };
    match report(kind, 0).0 {
        ReportOutcome::Commands(c) => assert_eq!(c, vec![]),
        other => panic!("{other:?}"),
    }
    match report(RenderReport::NumPages(9), 0).0 {
        ReportOutcome::Commands(c) => assert_eq!(
            c,
            vec![Command::SetNumPages(9), Command::Convert(ConverterMsg::NumPages(9))]
        ),
        other => panic!("{other:?}"),
    }
    match report(RenderReport::Failed(RenderError::EmptyDocument), 0).0 {
        ReportOutcome::End(text) => assert_eq!(text, "not a valid pdf file"),
        other => panic!("{other:?}"),
    }
    match report(RenderReport::Failed(RenderError::EmptyDocument), 2).0 {
        ReportOutcome::ShowError(e) => assert_eq!(e, RenderError::EmptyDocument),
        other => panic!("{other:?}"),
    }
    let exported = RenderReport::Exported { page_num: 4, output_path: "/x.png".to_string() };
    let (outcome, after) = report(exported, 9);
    match outcome {
        ReportOutcome::Commands(c) => assert_eq!(c, vec![info("exported page 5 to /x.png")]),
        other => panic!("{other:?}"),
    }
    assert!(after.needs_status_redraw && !after.needs_redraw);
    let (outcome, after) = report(RenderReport::Links, 9);
    match outcome {
        ReportOutcome::Commands(c) => {
            assert_eq!(c, vec![set(InputMode::Links { input: String::new() })])
        }
        other => panic!("{other:?}"),
    }
    assert!(after.needs_redraw);
}

fn window() -> WindowSize {
    WindowSize {
        cols: 100,
        page_rows: 29,
        cell_width_px: 10,
        cell_height_px: 20,
        width_px: 1000,
        page_area_height_px: 580,
    }
}

#[test]
fn a_large_page_is_cropped() {
    let s = compute_page_surface(&window(), 1, 2, 1500, 700, 50, 600, (0, 0));
    assert_eq!(
        s,
        PageSurface {
            page_num: 1,
            generation: 2,
            src_x: 500,
            src_y: 50,
            src_w: 1000,
            src_h: 580,
            display_cols: 100,
            display_rows: 29,
            pos_x: 0,
            pos_y: 0,
        }
    );
    let end = compute_page_surface(&window(), 1, 2, 1500, 700, 9999, 9999, (0, 0));
    assert_eq!((end.src_x + end.src_w, end.src_y + end.src_h), (1500, 700));
    assert_eq!(s.pos(), Pos { x: 0, y: 0 });
    let loc = s.display_location();
    assert_eq!((loc.x, loc.y, loc.width, loc.height), (500, 50, 1000, 580));
    assert_eq!((loc.columns, loc.rows, loc.z_index), (100, 29, 0));
}

#[test]
fn a_long_narrow_page_is_centred() {
    let s = compute_page_surface(&window(), 0, 0, 405, 600, 0, 77, (0, 0));
    assert_eq!((s.src_x, s.src_w, s.display_cols, s.pos_x), (0, 405, 40, 29));
    assert_eq!((s.src_y, s.src_h, s.display_rows, s.pos_y), (0, 580, 29, 0));
}

#[test]
fn a_wide_low_page_is_centred() {
    let s = compute_page_surface(&window(), 0, 0, 1001, 410, 5, 0, (0, 0));
    assert_eq!((s.src_x, s.src_w, s.display_cols, s.pos_x), (0, 1000, 100, 0));
    assert_eq!((s.src_y, s.src_h, s.display_rows, s.pos_y), (0, 410, 20, 4));
}

#[test]
fn pages_lie_within_the_rows() {
    for h in 0..=700u32 {
        let s = compute_page_surface(&window(), 0, 0, 1001, h, 0, 0, (0, 0));
        assert!(s.pos_y + s.display_rows <= 29, "{h}");
    }
}

#[test]
fn a_page_that_fits_is_scaled() {
    let s = compute_page_surface(&window(), 0, 0, 500, 290, 5, 5, (90, 29));
    assert_eq!((s.src_x, s.src_y, s.src_w, s.src_h), (0, 0, 500, 290));
    assert_eq!((s.display_cols, s.display_rows, s.pos_x, s.pos_y), (90, 29, 5, 0));
    let over = compute_page_surface(&window(), 0, 0, 500, 290, 0, 0, (120, 40));
    assert_eq!((over.pos_x, over.pos_y), (0, 0));
}

#[test]
fn overlays_stand_in_for_the_page() {
    assert_eq!(overlay_surface(&InputMode::Toc { scroll: 3 }), Some(OverlaySurface::Toc));
    assert_eq!(overlay_surface(&InputMode::Metadata), Some(OverlaySurface::Metadata));
    assert_eq!(
        overlay_surface(&InputMode::Links { input: String::new() }),
        Some(OverlaySurface::Links)
    );
    assert_eq!(overlay_surface(&InputMode::Normal), None);
    assert_eq!(overlay_surface(&InputMode::Search(String::new())), None);
    assert_eq!(overlay_surface(&InputMode::GoToPage(String::new())), None);
}

#[test]
fn the_screen_is_cleared_as_far_as_needed() {
    let surface = compute_page_surface(&window(), 1, 2, 1500, 700, 50, 600, (0, 0));
    let other = compute_page_surface(&window(), 1, 2, 1500, 700, 60, 600, (0, 0));
    let blank = Screen { surface: None, image_id: None };
    let page = Screen { surface: Some(DrawSurface::Page(surface)), image_id: Some(id(3)) };
    let loading = Screen { surface: Some(DrawSurface::Loading(1)), image_id: None };
    let target = Target::Page(surface, Some(id(3)));

    assert_eq!(
        plan_draw(&blank, target, false),
        DrawPlan::Page { clear_area: true, clear_image: false }
    );
    assert_eq!(plan_draw(&page, target, true), DrawPlan::Unchanged);
    assert_eq!(
        plan_draw(&page, Target::Page(other, Some(id(3))), false),
        DrawPlan::Page { clear_area: false, clear_image: false }
    );
    assert_eq!(
        plan_draw(&page, Target::Page(other, None), true),
        DrawPlan::Page { clear_area: true, clear_image: true }
    );
    assert_eq!(
        plan_draw(&page, Target::Page(other, Some(id(4))), false),
        DrawPlan::Page { clear_area: false, clear_image: true }
    );
    assert_eq!(
        plan_draw(&loading, Target::Missing(1), false),
        DrawPlan::Loading { clear_area: false }
    );
    assert_eq!(
        plan_draw(&loading, Target::Missing(2), false),
        DrawPlan::Loading { clear_area: true }
    );
    assert_eq!(plan_lost_page(), DrawPlan::Loading { clear_area: true });
    assert_eq!(
        plan_draw(&page, Target::Overlay(OverlaySurface::Links), false),
        DrawPlan::Overlay(OverlaySurface::Links)
    );
}

#[test]
fn the_screen_remembers_what_it_shows() {
    let surface = compute_page_surface(&window(), 1, 2, 1500, 700, 50, 600, (0, 0));
    let mut screen = Screen { surface: None, image_id: Some(id(9)) };
    assert_eq!(screen.take_image(), Some(id(9)));
    assert_eq!(screen.take_image(), None);
    screen.drew_other(DrawSurface::Loading(1));
    assert_eq!(screen.surface, Some(DrawSurface::Loading(1)));
    let (commands, err) = screen.drew_page(surface, Some(id(3)), None);
    assert_eq!((commands, err), (vec![], None));
    assert_eq!(screen.surface, Some(DrawSurface::Page(surface)));
    assert_eq!(screen.image_id, Some(id(3)));
}

#[test]
fn failed_pages_are_rendered_anew() {
    let surface = compute_page_surface(&window(), 1, 2, 1500, 700, 50, 600, (0, 0));
    let shown = Screen { surface: Some(DrawSurface::Page(surface)), image_id: Some(id(3)) };
    let retry = |page: usize| {
        vec![
            Command::PageDisplayFailed(page),
            Command::Render(RenderNotif::PageNeedsReRender(page)),
        ]
    };

    let mut screen = shown;
    let gone = TransmitError::Terminal(TerminalError::NoEntity("x".to_string()));
    let (commands, err) = screen.drew_page(surface, Some(id(3)), Some((vec![1], gone)));
    assert_eq!((commands, err), (retry(1), None));
    assert_eq!(screen, Screen { surface: None, image_id: None });

    let mut screen = shown;
    let late: TransmitError<InputErr> = TransmitError::ReadingInput(InputErr::Timeout);
    let (commands, err) = screen.drew_page(surface, Some(id(3)), Some((vec![5, 6], late)));
    let mut both = retry(5);
    both.extend(retry(6));
    assert_eq!(commands, both);
    assert_eq!(
        err,
        Some(RenderError::Converting(
            "Couldn't read input after transmitting: deadline has elapsed".to_string()
        ))
    );
    assert_eq!(screen, shown);
}

#[test]
fn the_viewer_starts_as_it_was_closed() {
    let saved = SavedState {
        page: 9,
        rotation: 180,
        inverted: true,
        auto_crop: true,
        tinted: true,
        epub_font_size: Some(11u8),
    };
    let plan = plan_start(None, false, Some(saved));
    assert_eq!((plan.state.page, plan.state.rotation), (9, 180));
    assert_eq!(plan.state.epub_font_size, Some(11));
    assert_eq!(
        plan.commands,
        vec![
            Command::Render(RenderNotif::SetFontSize(11)),
            Command::Render(RenderNotif::Rotate),
            Command::Render(RenderNotif::Rotate),
            Command::Render(RenderNotif::Invert),
            Command::Render(RenderNotif::Tint),
            Command::Convert(ConverterMsg::AutoCrop(true)),
            Command::Render(RenderNotif::JumpToPage(9)),
            Command::Convert(ConverterMsg::GoToPage(9)),
        ]
    );
}

#[test]
fn the_command_line_comes_before_what_was_saved() {
    let saved = SavedState {
        page: 9,
        rotation: 0,
        inverted: false,
        auto_crop: false,
        tinted: false,
        epub_font_size: None::<u8>,
    };
    let plan = plan_start(Some(0), true, Some(saved));
    assert_eq!(plan.state.page, 0);
    assert_eq!(plan.commands, vec![Command::Render(RenderNotif::Invert)]);
    let fresh = plan_start::<u8>(None, false, None);
    assert_eq!((fresh.state.page, fresh.state.rotation), (0, 0));
    assert_eq!(fresh.commands, vec![]);
    let inverted = plan_start::<u8>(Some(2), true, None);
    assert_eq!(inverted.commands.len(), 3);
}

#[test]
fn terminals_that_cannot_be_used() {
    assert_eq!(
        TerminalFailure::Unsupported.to_text(),
        "Kitty graphics protocol is not supported by this terminal. Use Kitty, Ghostty, or another compatible terminal."
    );
    let err = TransmitError::ParsingResponse(ParseError::NoFinalSemicolon);
    assert_eq!(
        TerminalFailure::ClearFailed(err).to_text(),
        "failed to clear previous Kitty images: Couldn't parse response from the terminal: No final semicolon was provided to indicate end of options in the terminal response"
    );
}
