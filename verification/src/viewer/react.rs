//! Reactions, by the mode in which an event comes.

use vstd::prelude::*;

use crate::viewer::command::InputMode;
use crate::viewer::handle::finished;
use crate::viewer::handle::ignored;
use crate::viewer::handle::is_quit_key;
use crate::viewer::handle::on_links_key;
use crate::viewer::handle::on_metadata_key;
use crate::viewer::handle::on_mouse;
use crate::viewer::handle::on_move_key;
use crate::viewer::handle::on_normal_key;
use crate::viewer::handle::on_page_key;
use crate::viewer::handle::on_search_key;
use crate::viewer::handle::on_show_key;
use crate::viewer::handle::on_toc_key;
use crate::viewer::handle::reaction;
use crate::viewer::handle::EventOutcome;
use crate::viewer::handle::Link;
use crate::viewer::handle::PageView;
use crate::viewer::handle::Reaction;
use crate::viewer::input::Event;

verus! {

/// The reaction to an event.
#[verifier::opaque]
pub open spec fn answered(
    event: Event,
    mode: InputMode<Seq<char>>,
    links: Seq<Link<Seq<char>>>,
    toc: Seq<usize>,
    v: PageView,
) -> Reaction {
    reaction(event, mode, links, toc, v)
}

/// Keys in normal mode.
pub proof fn lemma_on_normal(links: Seq<Link<Seq<char>>>, toc: Seq<usize>, v: PageView)
    ensures
        forall|event: Event, mode: InputMode<Seq<char>>|
            event is Key && mode is Normal ==> #[trigger] answered(event, mode, links, toc, v)
                == on_normal_key(event->code, event->control, toc.len(), v),
{
    reveal(answered);
}

/// Keys in normal mode that change how pages are shown.
pub proof fn lemma_on_show(links: Seq<Link<Seq<char>>>, toc: Seq<usize>, v: PageView)
    ensures
        forall|event: Event, mode: InputMode<Seq<char>>|
            event is Key && mode is Normal && !is_quit_key(event->code, event->control)
                && on_move_key(event->code, v) is None && on_show_key(event->code, v) is Some
                ==> #[trigger] answered(event, mode, links, toc, v)
                == on_show_key(event->code, v)->0,
{
    reveal(answered);
}

/// Keys where the number of a page is typed.
pub proof fn lemma_on_page(links: Seq<Link<Seq<char>>>, toc: Seq<usize>, v: PageView)
    ensures
        forall|event: Event, mode: InputMode<Seq<char>>|
            event is Key && mode is GoToPage ==> #[trigger] answered(event, mode, links, toc, v)
                == on_page_key(event->code, mode->GoToPage_0),
{
    reveal(answered);
}

/// Keys in the table of contents.
pub proof fn lemma_on_toc(links: Seq<Link<Seq<char>>>, toc: Seq<usize>, v: PageView)
    ensures
        forall|event: Event, mode: InputMode<Seq<char>>|
            event is Key && mode is Toc ==> #[trigger] answered(event, mode, links, toc, v)
                == on_toc_key(event->code, mode->scroll, toc),
{
    reveal(answered);
}

/// Keys where a text to search for is typed.
pub proof fn lemma_on_search(links: Seq<Link<Seq<char>>>, toc: Seq<usize>, v: PageView)
    ensures
        forall|event: Event, mode: InputMode<Seq<char>>|
            event is Key && mode is Search ==> #[trigger] answered(event, mode, links, toc, v)
                == on_search_key(event->code, mode->Search_0, v.page),
{
    reveal(answered);
}

/// Keys where it is shown what is known of the document.
pub proof fn lemma_on_metadata(links: Seq<Link<Seq<char>>>, toc: Seq<usize>, v: PageView)
    ensures
        forall|event: Event, mode: InputMode<Seq<char>>|
            event is Key && mode is Metadata ==> #[trigger] answered(event, mode, links, toc, v)
                == on_metadata_key(event->code),
{
    reveal(answered);
}

/// Keys where links are shown.
pub proof fn lemma_on_links(links: Seq<Link<Seq<char>>>, toc: Seq<usize>, v: PageView)
    ensures
        forall|event: Event, mode: InputMode<Seq<char>>|
            event is Key && mode is Links ==> #[trigger] answered(event, mode, links, toc, v)
                == on_links_key(event->code, mode->input, links),
{
    reveal(answered);
}

/// Uses of the mouse.
pub proof fn lemma_on_mouse_event(links: Seq<Link<Seq<char>>>, toc: Seq<usize>, v: PageView)
    ensures
        forall|event: Event, mode: InputMode<Seq<char>>|
            event is Mouse ==> #[trigger] answered(event, mode, links, toc, v)
                == on_mouse(event->kind, event->row, mode, toc, v.page_rows),
{
    reveal(answered);
}

/// Any other event: a new size is drawn, and nothing else does anything.
pub proof fn lemma_on_rest(links: Seq<Link<Seq<char>>>, toc: Seq<usize>, v: PageView)
    ensures
        forall|event: Event, mode: InputMode<Seq<char>>|
            event is Resize ==> #[trigger] answered(event, mode, links, toc, v) == finished(
                Seq::empty(),
                EventOutcome::Redraw,
            ),
        forall|event: Event, mode: InputMode<Seq<char>>|
            event is Other ==> #[trigger] answered(event, mode, links, toc, v) == ignored(),
{
    reveal(answered);
}

} // verus!
