//! What keys and clicks do to a session.

use vstd::prelude::*;

use crate::viewer::command::InputMode;
use crate::viewer::handle::help_text;
use crate::viewer::handle::AfterTurn;
use crate::viewer::handle::EventOutcome;
use crate::viewer::handle::Link;
use crate::viewer::handle::Next;
use crate::viewer::handle::PageTurn;
use crate::viewer::handle::PageView;
use crate::viewer::handle::ScrollCall;
use crate::viewer::handle::SearchStep;
use crate::viewer::handle::ZoomStep;
use crate::viewer::input::Event;
use crate::viewer::input::KeyCode;
use crate::viewer::input::MouseKind;
use crate::viewer::react::answered;
use crate::viewer::react::lemma_on_metadata;
use crate::viewer::react::lemma_on_mouse_event;
use crate::viewer::react::lemma_on_normal;
use crate::viewer::react::lemma_on_show;
use crate::viewer::react::lemma_on_toc;
use crate::viewer::session::lemma_done_five;
use crate::viewer::session::lemma_done_four;
use crate::viewer::session::lemma_done_none;
use crate::viewer::session::lemma_done_one;
use crate::viewer::session::lemma_done_three;
use crate::viewer::session::lemma_done_two;
use crate::viewer::session::Converter;
use crate::viewer::session::Renderer;
use crate::viewer::session::Session;
use crate::viewer::session::Status;

verus! {

/// What a session shows of its document, where all else stays as it was.
pub open spec fn seen(s: Session<()>, v: PageView) -> PageView {
    PageView {
        inverted: s.inverted,
        auto_crop: s.auto_crop,
        tinted: s.tinted,
        rotation: s.rotation as u32,
        ..v
    }
}

/// Whether reactions see what the session shows.
pub open spec fn agrees(s: Session<()>, v: PageView) -> bool {
    &&& v == seen(s, v)
    &&& 0 <= s.rotation < 360
}

/// The session once an event was reacted to, up to where the reaction asks for something.
pub open spec fn reacted(
    s: Session<()>,
    event: Event,
    links: Seq<Link<Seq<char>>>,
    toc: Seq<usize>,
    v: PageView,
) -> Session<()> {
    s.done(answered(event, s.mode, links, toc, v).0)
}

/// A key, without Control.
pub open spec fn pressed(code: KeyCode) -> Event {
    Event::Key { code, control: false }
}

/// The key `i` switches between inverted colours and plain ones, for the session and for the
/// renderer; images that were made before are of no use, and nothing else changes.
#[verifier::rlimit(40)]
pub proof fn lemma_invert_key(
    s: Session<()>,
    links: Seq<Link<Seq<char>>>,
    toc: Seq<usize>,
    v: PageView,
)
    requires
        s.mode is Normal,
        s.in_step(),
        agrees(s, v),
    ensures
        ({
            let e = reacted(s, pressed(KeyCode::Char('i')), links, toc, v);
            &&& e.status == Status::Passing("invert toggled"@)
            &&& e == Session {
                inverted: !s.inverted,
                renderer: Renderer { inverted: !s.inverted, ..s.renderer },
                images_valid: false,
                status: e.status,
                ..s
            }
            &&& reacted(e, pressed(KeyCode::Char('i')), links, toc, seen(e, v)).inverted
                == s.inverted
            &&& reacted(e, pressed(KeyCode::Char('i')), links, toc, seen(e, v)).renderer == s.renderer
        }),
{
    lemma_on_show(links, toc, v);
    let event = pressed(KeyCode::Char('i'));
    lemma_done_four(s, answered(event, s.mode, links, toc, v).0);
    let e = reacted(s, event, links, toc, v);
    lemma_on_show(links, toc, seen(e, v));
    lemma_done_four(e, answered(event, e.mode, links, toc, seen(e, v)).0);
}

/// The key `d` switches the tint on and off, and says so.
#[verifier::rlimit(40)]
pub proof fn lemma_tint_key(
    s: Session<()>,
    links: Seq<Link<Seq<char>>>,
    toc: Seq<usize>,
    v: PageView,
)
    requires
        s.mode is Normal,
        s.in_step(),
        agrees(s, v),
    ensures
        ({
            let e = reacted(s, pressed(KeyCode::Char('d')), links, toc, v);
            &&& e == Session {
                tinted: !s.tinted,
                renderer: Renderer { tinted: !s.tinted, ..s.renderer },
                images_valid: false,
                status: e.status,
                ..s
            }
            &&& e.status == Status::Passing(
                if s.tinted {
                    "tint "@ + "off"@
                } else {
                    "tint "@ + "on"@
                },
            )
            &&& reacted(e, pressed(KeyCode::Char('d')), links, toc, seen(e, v)).tinted == s.tinted
            &&& reacted(e, pressed(KeyCode::Char('d')), links, toc, seen(e, v)).renderer == s.renderer
        }),
{
    lemma_on_show(links, toc, v);
    let event = pressed(KeyCode::Char('d'));
    lemma_done_four(s, answered(event, s.mode, links, toc, v).0);
    let e = reacted(s, event, links, toc, v);
    lemma_on_show(links, toc, seen(e, v));
    lemma_done_four(e, answered(event, e.mode, links, toc, seen(e, v)).0);
}

/// The key `c` switches the crop on and off, for the session and for the converter; the pages are
/// asked for again, and the message says what is the case now.
#[verifier::rlimit(40)]
pub proof fn lemma_crop_key(
    s: Session<()>,
    links: Seq<Link<Seq<char>>>,
    toc: Seq<usize>,
    v: PageView,
)
    requires
        s.mode is Normal,
        s.in_step(),
        agrees(s, v),
    ensures
        ({
            let e = reacted(s, pressed(KeyCode::Char('c')), links, toc, v);
            &&& e == Session {
                auto_crop: !s.auto_crop,
                converter: Converter { auto_crop: !s.auto_crop, ..s.converter },
                renderer: Renderer { refreshes: s.renderer.refreshes + 1, ..s.renderer },
                images_valid: false,
                status: e.status,
                ..s
            }
            &&& e.status == Status::Passing(
                if s.auto_crop {
                    "auto-crop "@ + "off"@
                } else {
                    "auto-crop "@ + "on"@
                },
            )
        }),
{
    lemma_on_show(links, toc, v);
    let event = pressed(KeyCode::Char('c'));
    lemma_done_five(s, answered(event, s.mode, links, toc, v).0);
}

/// Pressed twice, the key `c` leaves the crop as it was.
pub proof fn lemma_crop_key_twice(
    s: Session<()>,
    links: Seq<Link<Seq<char>>>,
    toc: Seq<usize>,
    v: PageView,
)
    requires
        s.mode is Normal,
        s.in_step(),
        agrees(s, v),
    ensures
        ({
            let e = reacted(s, pressed(KeyCode::Char('c')), links, toc, v);
            let e2 = reacted(e, pressed(KeyCode::Char('c')), links, toc, seen(e, v));
            &&& e2.auto_crop == s.auto_crop
            &&& e2.converter == s.converter
        }),
{
    lemma_crop_key(s, links, toc, v);
    let e = reacted(s, pressed(KeyCode::Char('c')), links, toc, v);
    lemma_crop_key(e, links, toc, seen(e, v));
}

/// The key `r` turns pages by a quarter, for the session and for the renderer.
#[verifier::rlimit(40)]
pub proof fn lemma_rotate_key(
    s: Session<()>,
    links: Seq<Link<Seq<char>>>,
    toc: Seq<usize>,
    v: PageView,
)
    requires
        s.mode is Normal,
        s.in_step(),
        agrees(s, v),
    ensures
        ({
            let e = reacted(s, pressed(KeyCode::Char('r')), links, toc, v);
            &&& e.status == Status::Passing("rotated"@)
            &&& e.rotation == s.rotation + 90 || e.rotation == s.rotation + 90 - 360
            &&& 0 <= e.rotation < 360
            &&& e == Session {
                rotation: e.rotation,
                renderer: Renderer { rotation: e.rotation, ..s.renderer },
                images_valid: false,
                status: e.status,
                ..s
            }
        }),
{
    lemma_on_show(links, toc, v);
    lemma_done_four(s, answered(pressed(KeyCode::Char('r')), s.mode, links, toc, v).0);
}

/// Pressed four times, the key `r` leads back.
pub proof fn lemma_rotate_key_four_times(
    s: Session<()>,
    links: Seq<Link<Seq<char>>>,
    toc: Seq<usize>,
    v: PageView,
)
    requires
        s.mode is Normal,
        s.in_step(),
        agrees(s, v),
    ensures
        ({
            let r = pressed(KeyCode::Char('r'));
            let e = reacted(s, r, links, toc, v);
            let e2 = reacted(e, r, links, toc, seen(e, v));
            let e3 = reacted(e2, r, links, toc, seen(e2, v));
            let e4 = reacted(e3, r, links, toc, seen(e3, v));
            &&& e4.rotation == s.rotation
            &&& e4.renderer == s.renderer
        }),
{
    let r = pressed(KeyCode::Char('r'));
    lemma_rotate_key(s, links, toc, v);
    let e = reacted(s, r, links, toc, v);
    lemma_rotate_key(e, links, toc, seen(e, v));
    let e2 = reacted(e, r, links, toc, seen(e, v));
    lemma_rotate_key(e2, links, toc, seen(e2, v));
    let e3 = reacted(e2, r, links, toc, seen(e2, v));
    lemma_rotate_key(e3, links, toc, seen(e3, v));
}

/// The keys that ask for larger or smaller text do so by one step, and lead back to where they
/// began; a document with a fixed layout is left alone.
#[verifier::rlimit(40)]
pub proof fn lemma_text_size_keys(
    s: Session<()>,
    links: Seq<Link<Seq<char>>>,
    toc: Seq<usize>,
    v: PageView,
)
    requires
        s.mode is Normal,
    ensures
        ({
            let larger = reacted(s, pressed(KeyCode::Char('>')), links, toc, v);
            let smaller = reacted(s, pressed(KeyCode::Char('<')), links, toc, v);
            if v.reflowable {
                &&& larger == Session {
                    renderer: Renderer {
                        text_steps: s.renderer.text_steps + 1,
                        ..s.renderer
                    },
                    images_valid: false,
                    status: larger.status,
                    ..s
                }
                &&& smaller == Session {
                    renderer: Renderer {
                        text_steps: s.renderer.text_steps - 1,
                        ..s.renderer
                    },
                    images_valid: false,
                    status: smaller.status,
                    ..s
                }
                &&& larger.status == Status::Passing("EPUB font larger"@)
                &&& smaller.status == Status::Passing("EPUB font smaller"@)
                &&& reacted(larger, pressed(KeyCode::Char('<')), links, toc, v).renderer
                    == s.renderer
            } else {
                larger == s && smaller == s
            }
        }),
{
    lemma_on_normal(links, toc, v);
    let more = pressed(KeyCode::Char('>'));
    let less = pressed(KeyCode::Char('<'));
    let larger = reacted(s, more, links, toc, v);
    if v.reflowable {
        lemma_done_three(s, answered(more, s.mode, links, toc, v).0);
        lemma_done_three(s, answered(less, s.mode, links, toc, v).0);
        lemma_done_three(larger, answered(less, larger.mode, links, toc, v).0);
    } else {
        lemma_done_none(s, answered(more, s.mode, links, toc, v).0);
        lemma_done_none(s, answered(less, s.mode, links, toc, v).0);
    }
}

/// Whether a key goes forward by a page.
pub open spec fn goes_forward(code: KeyCode, zoom_mode: bool) -> bool {
    ||| code == KeyCode::Char(' ') || code == KeyCode::Char('j') || code == KeyCode::Right
    ||| !zoom_mode && (code == KeyCode::Char('l') || code == KeyCode::PageDown)
}

/// Whether a key goes back by a page.
pub open spec fn goes_back(code: KeyCode, zoom_mode: bool) -> bool {
    ||| code == KeyCode::Char('k') || code == KeyCode::Left
    ||| !zoom_mode && (code == KeyCode::Char('h') || code == KeyCode::PageUp)
}

/// In normal mode the keys that go forward, and they alone, turn to the next page; those that go
/// back turn to the one before. Nothing else is done on the way.
pub proof fn lemma_turning_keys(
    code: KeyCode,
    control: bool,
    links: Seq<Link<Seq<char>>>,
    toc: Seq<usize>,
    v: PageView,
)
    ensures
        ({
            let r = answered(Event::Key { code, control }, InputMode::Normal, links, toc, v);
            &&& r.1 == Next::Turn(PageTurn::Next, AfterTurn::Nothing) <==> goes_forward(
                code,
                v.zoom_mode,
            )
            &&& r.1 == Next::Turn(PageTurn::Prev, AfterTurn::Nothing) <==> goes_back(
                code,
                v.zoom_mode,
            )
            &&& r.1 is Turn <==> goes_forward(code, v.zoom_mode) || goes_back(code, v.zoom_mode)
            &&& r.1 is Turn ==> r.0.len() == 0
        }),
{
    lemma_on_normal(links, toc, v);
}

/// The keys that scroll do so by three rows in their own direction, and zoomed in by a page.
pub proof fn lemma_scrolling_keys(
    code: KeyCode,
    control: bool,
    links: Seq<Link<Seq<char>>>,
    toc: Seq<usize>,
    v: PageView,
)
    ensures
        ({
            let r = answered(Event::Key { code, control }, InputMode::Normal, links, toc, v);
            &&& r.1 is Scroll <==> code == KeyCode::Down || code == KeyCode::Up || v.zoom_mode && (
            code == KeyCode::PageDown || code == KeyCode::PageUp)
            &&& code == KeyCode::Down ==> r.1 == Next::Scroll(
                ScrollCall::Down((3 * v.cell_height_px) as u32),
            )
            &&& code == KeyCode::Up ==> r.1 == Next::Scroll(
                ScrollCall::Up((3 * v.cell_height_px) as u32),
            )
            &&& v.zoom_mode && code == KeyCode::PageDown ==> r.1 == Next::Scroll(
                ScrollCall::PageDown,
            )
            &&& v.zoom_mode && code == KeyCode::PageUp ==> r.1 == Next::Scroll(ScrollCall::PageUp)
            &&& r.1 is Scroll ==> r.0.len() == 0
        }),
{
    lemma_on_normal(links, toc, v);
}

/// Zoomed in, `l` moves the part that is shown three columns to the right, and `h` back.
pub proof fn lemma_panning_keys(
    s: Session<()>,
    links: Seq<Link<Seq<char>>>,
    toc: Seq<usize>,
    v: PageView,
)
    requires
        s.mode is Normal,
        s.pan >= 0,
        v.zoom_mode,
    ensures
        ({
            let right = reacted(s, pressed(KeyCode::Char('l')), links, toc, v);
            let left = reacted(s, pressed(KeyCode::Char('h')), links, toc, v);
            &&& right == Session {
                pan: s.pan + 3 * v.cell_width_px,
                pan_clamped: false,
                ..s
            }
            &&& left.pan == s.pan - 3 * v.cell_width_px || left.pan == 0 && s.pan < 3
                * v.cell_width_px
            &&& left == Session { pan: left.pan, pan_clamped: false, ..s }
            &&& reacted(right, pressed(KeyCode::Char('h')), links, toc, v).pan == s.pan
        }),
{
    lemma_on_normal(links, toc, v);
    let l = pressed(KeyCode::Char('l'));
    let h = pressed(KeyCode::Char('h'));
    lemma_done_one(s, answered(l, s.mode, links, toc, v).0);
    lemma_done_one(s, answered(h, s.mode, links, toc, v).0);
    let right = reacted(s, l, links, toc, v);
    lemma_done_one(right, answered(h, right.mode, links, toc, v).0);
}

/// The keys that ask for something: the next or the previous result of a search, a step of the
/// zoom while zoomed in, zoom mode where the document has a fixed layout, a file for an export.
/// No other key asks for these.
pub proof fn lemma_asking_keys(
    code: KeyCode,
    control: bool,
    links: Seq<Link<Seq<char>>>,
    toc: Seq<usize>,
    v: PageView,
)
    ensures
        ({
            let r = answered(Event::Key { code, control }, InputMode::Normal, links, toc, v);
            &&& r.1 == Next::Search(SearchStep::Next) <==> code == KeyCode::Char('n')
            &&& r.1 == Next::Search(SearchStep::Prev) <==> code == KeyCode::Char('N')
            &&& r.1 == Next::Zoom(ZoomStep::In) <==> v.zoom_mode && code == KeyCode::Char('o')
            &&& r.1 == Next::Zoom(ZoomStep::Out) <==> v.zoom_mode && code == KeyCode::Char('O')
            &&& r.1 == Next::ToggleZoom <==> v.supports_zoom && code == KeyCode::Char('z')
            &&& r.1 == Next::ExportPath <==> code == KeyCode::Char('e')
            &&& r.1 is Search || r.1 is Zoom || r.1 is ToggleZoom || r.1 is ExportPath
                ==> r.0.len() == 0
        }),
{
    lemma_on_normal(links, toc, v);
}

/// The keys that lead out of normal mode: to the table of contents, where there is one, to a page
/// number, to a search, and to what is known of the document, where anything is.
#[verifier::rlimit(40)]
pub proof fn lemma_mode_keys(
    s: Session<()>,
    links: Seq<Link<Seq<char>>>,
    toc: Seq<usize>,
    v: PageView,
)
    requires
        s.mode is Normal,
    ensures
        toc.len() > 0 ==> reacted(s, pressed(KeyCode::Char('t')), links, toc, v) == (Session {
            mode: InputMode::Toc { scroll: 0 },
            ..s
        }),
        v.has_metadata ==> reacted(s, pressed(KeyCode::Char('M')), links, toc, v) == (Session {
            mode: InputMode::Metadata,
            ..s
        }),
        reacted(s, pressed(KeyCode::Char('g')), links, toc, v) == (Session {
            mode: InputMode::GoToPage(Seq::empty()),
            status: Status::Text("go to page: "@),
            ..s
        }),
        reacted(s, pressed(KeyCode::Char('/')), links, toc, v) == (Session {
            mode: InputMode::Search(Seq::empty()),
            status: Status::Text("/"@),
            ..s
        }),
{
    lemma_on_normal(links, toc, v);
    lemma_done_one(s, answered(pressed(KeyCode::Char('t')), s.mode, links, toc, v).0);
    lemma_done_one(s, answered(pressed(KeyCode::Char('M')), s.mode, links, toc, v).0);
    lemma_done_two(s, answered(pressed(KeyCode::Char('g')), s.mode, links, toc, v).0);
    lemma_done_two(s, answered(pressed(KeyCode::Char('/')), s.mode, links, toc, v).0);
}

/// The key `f` asks for the links of the page that is shown, and `R` or F5 for everything again;
/// nothing else changes but the message.
#[verifier::rlimit(40)]
pub proof fn lemma_request_keys(
    s: Session<()>,
    links: Seq<Link<Seq<char>>>,
    toc: Seq<usize>,
    v: PageView,
)
    requires
        s.mode is Normal,
    ensures
        ({
            let f = reacted(s, pressed(KeyCode::Char('f')), links, toc, v);
            let r = reacted(s, pressed(KeyCode::Char('R')), links, toc, v);
            &&& f == Session {
                renderer: Renderer { links_of: Some(v.page), ..s.renderer },
                status: f.status,
                ..s
            }
            &&& r == Session {
                renderer: Renderer { refreshes: s.renderer.refreshes + 1, ..s.renderer },
                status: r.status,
                ..s
            }
            &&& f.status == Status::Passing("extracting links..."@)
            &&& r.status == Status::Passing("refreshing..."@)
            &&& reacted(s, pressed(KeyCode::F(5)), links, toc, v) == r
        }),
{
    lemma_on_normal(links, toc, v);
    lemma_done_two(s, answered(pressed(KeyCode::Char('f')), s.mode, links, toc, v).0);
    lemma_done_two(s, answered(pressed(KeyCode::Char('R')), s.mode, links, toc, v).0);
    lemma_done_two(s, answered(pressed(KeyCode::F(5)), s.mode, links, toc, v).0);
}

/// Where a key asks for what there is not, the message says so, and nothing else changes: a
/// table of contents, facts about the document, zoom in a document without a fixed layout.
#[verifier::rlimit(40)]
pub proof fn lemma_missing_things(
    s: Session<()>,
    links: Seq<Link<Seq<char>>>,
    toc: Seq<usize>,
    v: PageView,
)
    requires
        s.mode is Normal,
    ensures
        toc.len() == 0 ==> reacted(s, pressed(KeyCode::Char('t')), links, toc, v) == (Session {
            status: Status::Passing("no table of contents"@),
            ..s
        }),
        !v.has_metadata ==> reacted(s, pressed(KeyCode::Char('M')), links, toc, v) == (Session {
            status: Status::Passing("no metadata available"@),
            ..s
        }),
        !v.supports_zoom ==> reacted(s, pressed(KeyCode::Char('z')), links, toc, v) == (Session {
            status: Status::Passing("zoom is only available for fixed-layout documents"@),
            ..s
        }),
{
    lemma_on_normal(links, toc, v);
    lemma_done_one(s, answered(pressed(KeyCode::Char('t')), s.mode, links, toc, v).0);
    lemma_done_one(s, answered(pressed(KeyCode::Char('M')), s.mode, links, toc, v).0);
    if !v.supports_zoom {
        lemma_done_one(s, answered(pressed(KeyCode::Char('z')), s.mode, links, toc, v).0);
    }
}

/// In the table of contents the keys for down and up move by one entry, and not beyond the first
/// and the last; a step down is undone by a step up.
pub proof fn lemma_walking_contents(
    s: Session<()>,
    scroll: usize,
    down: KeyCode,
    up: KeyCode,
    links: Seq<Link<Seq<char>>>,
    toc: Seq<usize>,
    v: PageView,
)
    requires
        s.mode == (InputMode::<Seq<char>>::Toc { scroll }),
        scroll < toc.len() <= usize::MAX,
        down == KeyCode::Down || down == KeyCode::Char('j'),
        up == KeyCode::Up || up == KeyCode::Char('k'),
    ensures
        ({
            let d = reacted(s, pressed(down), links, toc, v);
            let u = reacted(s, pressed(up), links, toc, v);
            &&& scroll + 1 < toc.len() ==> d == Session {
                mode: InputMode::Toc { scroll: (scroll + 1) as usize },
                ..s
            } && reacted(d, pressed(up), links, toc, v) == s
            &&& scroll + 1 == toc.len() ==> d == s
            &&& scroll > 0 ==> u == Session {
                mode: InputMode::Toc { scroll: (scroll - 1) as usize },
                ..s
            }
            &&& scroll == 0 ==> u == s
        }),
{
    lemma_on_toc(links, toc, v);
    let d = reacted(s, pressed(down), links, toc, v);
    if scroll + 1 < toc.len() {
        lemma_done_one(s, answered(pressed(down), s.mode, links, toc, v).0);
        lemma_done_one(d, answered(pressed(up), d.mode, links, toc, v).0);
    } else {
        lemma_done_none(s, answered(pressed(down), s.mode, links, toc, v).0);
    }
    lemma_done_one(s, answered(pressed(up), s.mode, links, toc, v).0);
}

/// Enter turns to the page of the entry that is shown first, and a click to that of the entry
/// that was clicked; both close the table of contents.
pub proof fn lemma_choosing_contents(
    s: Session<()>,
    scroll: usize,
    row: u16,
    kind: MouseKind,
    links: Seq<Link<Seq<char>>>,
    toc: Seq<usize>,
    v: PageView,
)
    requires
        s.mode == (InputMode::<Seq<char>>::Toc { scroll }),
        scroll + row < toc.len() <= usize::MAX,
    ensures
        ({
            let closed = Session { mode: InputMode::Normal, status: Status::Hint, ..s };
            let enter = pressed(KeyCode::Enter);
            let click = Event::Mouse { kind, row };
            &&& answered(enter, s.mode, links, toc, v).1 == Next::Turn(
                PageTurn::To(toc[scroll as int]),
                AfterTurn::Nothing,
            )
            &&& reacted(s, enter, links, toc, v) == closed
            &&& if row < v.page_rows && (kind is LeftDown || kind is LeftUp) {
                &&& answered(click, s.mode, links, toc, v).1 == Next::Turn(
                    PageTurn::To(toc[scroll + row]),
                    AfterTurn::Nothing,
                )
                &&& reacted(s, click, links, toc, v) == closed
            } else {
                &&& answered(click, s.mode, links, toc, v).1 == Next::Finish(EventOutcome::Nothing)
                &&& reacted(s, click, links, toc, v) == s
            }
        }),
{
    lemma_on_toc(links, toc, v);
    lemma_on_mouse_event(links, toc, v);
    let click = Event::Mouse { kind, row };
    lemma_done_two(s, answered(pressed(KeyCode::Enter), s.mode, links, toc, v).0);
    if row < v.page_rows && (kind is LeftDown || kind is LeftUp) {
        lemma_done_two(s, answered(click, s.mode, links, toc, v).0);
    } else {
        lemma_done_none(s, answered(click, s.mode, links, toc, v).0);
    }
}

/// The mouse does nothing outside of the table of contents, and nothing below its last entry.
pub proof fn lemma_mouse_elsewhere(
    s: Session<()>,
    kind: MouseKind,
    row: u16,
    links: Seq<Link<Seq<char>>>,
    toc: Seq<usize>,
    v: PageView,
)
    requires
        toc.len() <= usize::MAX,
        s.mode matches InputMode::Toc { scroll } ==> scroll + row >= toc.len(),
    ensures
        reacted(s, Event::Mouse { kind, row }, links, toc, v) == s,
        answered(Event::Mouse { kind, row }, s.mode, links, toc, v).1 == Next::Finish(
            EventOutcome::Nothing,
        ),
{
    lemma_on_mouse_event(links, toc, v);
    lemma_done_none(s, answered(Event::Mouse { kind, row }, s.mode, links, toc, v).0);
}

/// What is shown in place of the page is closed by Escape, by `q`, and by the key that opened it.
pub proof fn lemma_closing_overlays(
    s: Session<()>,
    code: KeyCode,
    links: Seq<Link<Seq<char>>>,
    toc: Seq<usize>,
    v: PageView,
)
    requires
        s.mode is Toc || s.mode is Metadata,
        code == KeyCode::Esc || code == KeyCode::Char('q') || code == KeyCode::Char(
            if s.mode is Toc {
                't'
            } else {
                'M'
            },
        ),
    ensures
        reacted(s, pressed(code), links, toc, v) == (Session {
            mode: InputMode::Normal,
            status: Status::Hint,
            redraw: true,
            ..s
        }),
        answered(pressed(code), s.mode, links, toc, v).1 == Next::Finish(EventOutcome::Redraw),
{
    lemma_on_toc(links, toc, v);
    lemma_on_metadata(links, toc, v);
    lemma_done_three(s, answered(pressed(code), s.mode, links, toc, v).0);
}

/// The key `?` shows the summary of the keys, and changes nothing else.
pub proof fn lemma_help_key(
    s: Session<()>,
    links: Seq<Link<Seq<char>>>,
    toc: Seq<usize>,
    v: PageView,
)
    requires
        s.mode is Normal,
    ensures
        reacted(s, pressed(KeyCode::Char('?')), links, toc, v) == (Session {
            status: Status::Passing(help_text()),
            ..s
        }),
{
    lemma_on_normal(links, toc, v);
    lemma_done_one(s, answered(pressed(KeyCode::Char('?')), s.mode, links, toc, v).0);
}

} // verus!
