//! Drawing the screen: what is cleared, what is drawn, and what the screen shows afterwards.

use vstd::prelude::*;

use crate::error::RenderError;
use crate::kitty::error::InputErr;
use crate::kitty::error::TransmitError;
use crate::kitty::id::ImageId;
use crate::kitty::run::render_error_for;
use crate::kitty::run::shown_error;
use crate::viewer::command::commands_view;
use crate::viewer::command::emit;
use crate::viewer::command::no_commands;
use crate::viewer::command::Command;
use crate::viewer::command::RenderNotif;
use crate::viewer::surface::DrawSurface;
use crate::viewer::surface::OverlaySurface;
use crate::viewer::surface::PageSurface;

verus! {

/// What the screen shows, and the image that is on it.
#[derive(Clone, Copy, Debug, PartialEq, Eq, Structural)]
pub struct Screen {
    pub surface: Option<DrawSurface>,
    pub image_id: Option<ImageId>,
}

/// What the screen is to show.
#[derive(Clone, Copy, Debug, PartialEq, Eq, Structural)]
pub enum Target {
    Overlay(OverlaySurface),
    /// A page whose image is not there yet.
    Missing(usize),
    /// A part of a page, and the identifier of its image where that is known.
    Page(PageSurface, Option<ImageId>),
}

/// How the screen is drawn. The area of the page is cleared first, then the image is taken off
/// the screen.
#[derive(Clone, Copy, Debug, PartialEq, Eq, Structural)]
pub enum DrawPlan {
    /// The screen shows what it is to show.
    Unchanged,
    /// Everything is cleared, and something else than a page is shown.
    Overlay(OverlaySurface),
    /// The image is taken off the screen, and the page is said to be loading.
    Loading { clear_area: bool },
    /// A part of a page is shown.
    Page { clear_area: bool, clear_image: bool },
}

/// How the screen is drawn: a page that it shows already is left alone; the area is cleared where
/// something else than a page was shown, and inside tmux always; an image other than the one to
/// show is taken off the screen.
pub open spec fn draw_plan(screen: Screen, target: Target, tmux_passthrough: bool) -> DrawPlan {
    match target {
        Target::Overlay(overlay) => DrawPlan::Overlay(overlay),
        Target::Missing(page) => DrawPlan::Loading {
            clear_area: screen.surface != Some(DrawSurface::Loading(page)),
        },
        Target::Page(surface, image_id) => if screen.surface == Some(DrawSurface::Page(surface)) {
            DrawPlan::Unchanged
        } else {
            DrawPlan::Page {
                clear_area: tmux_passthrough || !(screen.surface matches Some(DrawSurface::Page(_))),
                clear_image: screen.image_id is Some && screen.image_id != image_id,
            }
        },
    }
}

/// How the screen is drawn.
pub fn plan_draw(screen: &Screen, target: Target, tmux_passthrough: bool) -> (r: DrawPlan)
    ensures
        r == draw_plan(*screen, target, tmux_passthrough),
{
    match target {
        Target::Overlay(overlay) => DrawPlan::Overlay(overlay),
        Target::Missing(page) => {
            let same = match screen.surface {
                Some(DrawSurface::Loading(p)) => p == page,
                _ => false,
            };
            DrawPlan::Loading { clear_area: !same }
        },
        Target::Page(surface, image_id) => {
            let (was_page, same) = match screen.surface {
                Some(DrawSurface::Page(shown)) => (true, shown == surface),
                _ => (false, false),
            };
            if same {
                return DrawPlan::Unchanged;
            }
            let clear_image = match (screen.image_id, image_id) {
                (None, _) => false,
                (Some(_), None) => true,
                (Some(shown), Some(wanted)) => shown != wanted,
            };
            DrawPlan::Page { clear_area: !was_page || tmux_passthrough, clear_image }
        },
    }
}

/// The plan for a page whose image was lost while the screen was being drawn.
pub open spec fn lost_plan() -> DrawPlan {
    DrawPlan::Loading { clear_area: true }
}

/// The plan for a page whose image was lost while the screen was being drawn.
pub fn plan_lost_page() -> (r: DrawPlan)
    ensures
        r == lost_plan(),
        r == (DrawPlan::Loading { clear_area: true }),
{
    DrawPlan::Loading { clear_area: true }
}

impl Screen {
    /// The screen once its image was taken off.
    pub open spec fn without_image(self) -> Screen {
        Screen { image_id: None, ..self }
    }

    /// Takes the image off the screen; gives its identifier.
    pub fn take_image(&mut self) -> (r: Option<ImageId>)
        ensures
            r == old(self).image_id,
            *final(self) == old(self).without_image(),
    {
        let id = self.image_id;
        self.image_id = None;
        id
    }

    /// The screen once something else than a page, or that a page is loading, was drawn.
    pub open spec fn after_other(self, surface: DrawSurface) -> Screen {
        Screen { surface: Some(surface), ..self }
    }

    /// Takes in that something else than a page, or that a page is loading, was drawn.
    pub fn drew_other(&mut self, surface: DrawSurface)
        ensures
            *final(self) == old(self).after_other(surface),
            *final(self) == (Screen { surface: Some(surface), image_id: old(self).image_id }),
    {
        self.surface = Some(surface);
    }
}

/// What the screen shows once a page was drawn: the page and its image, or, where it failed,
/// nothing that could be relied on if the page is among those that failed.
pub open spec fn screen_after_page(
    screen: Screen,
    surface: PageSurface,
    image_id: Option<ImageId>,
    failed: Option<Seq<usize>>,
) -> Screen {
    match failed {
        None => Screen { surface: Some(DrawSurface::Page(surface)), image_id },
        Some(pages) => if pages.contains(surface.page_num) {
            Screen { surface: None, image_id: None }
        } else {
            screen
        },
    }
}

/// What is done about pages that could not be shown: their images are forgotten, and they are
/// rendered anew.
pub open spec fn retry_commands(pages: Seq<usize>) -> Seq<Command<Seq<char>>>
    decreases pages.len(),
{
    if pages.len() == 0 {
        Seq::empty()
    } else {
        retry_commands(pages.drop_last()).push(Command::PageDisplayFailed(pages.last())).push(
            Command::Render(RenderNotif::PageNeedsReRender(pages.last())),
        )
    }
}

impl Screen {
    /// Takes in what came of showing a part of a page: the identifier of its image, or the pages
    /// that failed and the error. Gives what is done about it, and the error to show: none where
    /// the terminal had dropped the image.
    pub fn drew_page(
        &mut self,
        surface: PageSurface,
        image_id: Option<ImageId>,
        failed: Option<(Vec<usize>, TransmitError<InputErr>)>,
    ) -> (r: (Vec<Command>, Option<RenderError>))
        ensures
            *final(self) == screen_after_page(
                *old(self),
                surface,
                image_id,
                match failed {
                    Some(f) => Some(f.0@),
                    None => None,
                },
            ),
            match failed {
                None => commands_view(r.0@) == Seq::<Command<Seq<char>>>::empty() && r.1 is None,
                Some(f) => commands_view(r.0@) == retry_commands(f.0@) && shown_error(f.1@) == (
                match r.1 {
                    Some(e) => Some(e@),
                    None => None,
                }),
            },
    {
        let mut out = no_commands();
        match failed {
            None => {
                self.surface = Some(DrawSurface::Page(surface));
                self.image_id = image_id;
                (out, None)
            },
            Some((pages, err)) => {
                let shown = render_error_for(&err);
                let mut i: usize = 0;
                let mut lost = false;
                assert(pages@.take(0) =~= Seq::empty());
                while i < pages.len()
                    invariant
                        i <= pages@.len(),
                        *self == *old(self),
                        lost == pages@.take(i as int).contains(surface.page_num),
                        commands_view(out@) == retry_commands(pages@.take(i as int)),
                    decreases pages.len() - i,
                {
                    let page: usize = pages[i];
                    let ghost t = pages@.take(i + 1);
                    assert(t.drop_last() =~= pages@.take(i as int));
                    assert(t =~= pages@.take(i as int).push(page));
                    if page == surface.page_num {
                        lost = true;
                        assert(t[i as int] == surface.page_num);
                    }
                    proof {
                        let before = pages@.take(i as int);
                        if before.contains(surface.page_num) {
                            let k = before.index_of(surface.page_num);
                            assert(t[k] == surface.page_num);
                        }
                        if t.contains(surface.page_num) && page != surface.page_num {
                            let k = t.index_of(surface.page_num);
                            assert(before[k] == surface.page_num);
                        }
                    }
                    emit(&mut out, Command::PageDisplayFailed(page));
                    emit(&mut out, Command::Render(RenderNotif::PageNeedsReRender(page)));
                    i += 1;
                }
                assert(pages@.take(i as int) =~= pages@);
                if lost {
                    self.surface = None;
                    self.image_id = None;
                }
                (out, shown)
            },
        }
    }
}

/// Every page that could not be shown, and no other, is forgotten and rendered anew.
pub proof fn lemma_failed_pages_are_retried(pages: Seq<usize>, page: usize)
    ensures
        pages.contains(page) <==> retry_commands(pages).contains(
            Command::Render(RenderNotif::PageNeedsReRender(page)),
        ),
        pages.contains(page) <==> retry_commands(pages).contains(Command::PageDisplayFailed(page)),
    decreases pages.len(),
{
    let anew = Command::<Seq<char>>::Render(RenderNotif::PageNeedsReRender(page));
    let lost = Command::<Seq<char>>::PageDisplayFailed(page);
    if pages.len() > 0 {
        let front = pages.drop_last();
        let before = retry_commands(front);
        let all = retry_commands(pages);
        let n = before.len() as int;
        lemma_failed_pages_are_retried(front, page);
        assert(all.len() == n + 2);
        assert forall|i: int| 0 <= i < n implies all[i] == before[i] by {}
        assert(all[n] == Command::<Seq<char>>::PageDisplayFailed(pages.last()));
        assert(all[n + 1] == Command::<Seq<char>>::Render(
            RenderNotif::PageNeedsReRender(pages.last()),
        ));
        if pages.contains(page) {
            let k = pages.index_of(page);
            if k < front.len() {
                assert(front[k] == page);
                let i = before.index_of(anew);
                let j = before.index_of(lost);
                assert(all[i] == anew && all[j] == lost);
            }
        }
        if front.contains(page) {
            let k = front.index_of(page);
            assert(pages[k] == page);
        }
        assert(pages[pages.len() - 1] == pages.last());
        if all.contains(anew) {
            let i = all.index_of(anew);
            if i < n {
                assert(before[i] == anew);
            }
        }
        if all.contains(lost) {
            let i = all.index_of(lost);
            if i < n {
                assert(before[i] == lost);
            }
        }
    }
}

/// Drawing the same page again changes nothing: once a part of a page was shown, it is left alone
/// until something else is to be shown.
pub proof fn lemma_shown_page_is_left_alone(
    screen: Screen,
    surface: PageSurface,
    image_id: Option<ImageId>,
    hint: Option<ImageId>,
    tmux: bool,
)
    ensures
        draw_plan(
            screen_after_page(screen, surface, image_id, None),
            Target::Page(surface, hint),
            tmux,
        ) == DrawPlan::Unchanged,
{
}

/// A page that could not be shown is drawn anew, with its area cleared.
pub proof fn lemma_failed_page_is_drawn_anew(
    screen: Screen,
    surface: PageSurface,
    image_id: Option<ImageId>,
    failed: Seq<usize>,
    hint: Option<ImageId>,
    tmux: bool,
)
    requires
        failed.contains(surface.page_num),
    ensures
        draw_plan(
            screen_after_page(screen, surface, image_id, Some(failed)),
            Target::Page(surface, hint),
            tmux,
        ) == (DrawPlan::Page { clear_area: true, clear_image: false }),
{
}

/// Whatever is drawn, an image other than the one to show does not stay on the screen: a plan
/// that keeps the image shows that very image.
pub proof fn lemma_no_stale_image(
    screen: Screen,
    surface: PageSurface,
    hint: Option<ImageId>,
    tmux: bool,
)
    ensures
        draw_plan(screen, Target::Page(surface, hint), tmux) matches DrawPlan::Page {
            clear_image: false,
            ..
        } ==> screen.image_id is None || screen.image_id == hint,
{
}

/// What is on the terminal: whether the area of the page holds text, and the image that lies on
/// it.
pub struct Visible {
    pub has_text: bool,
    pub image: Option<ImageId>,
}

impl Visible {
    /// Whether the screen knows what is on the terminal: text only where something else than a
    /// page is shown, or as placeholders inside tmux, and no image but its own.
    pub open spec fn is_known(self, screen: Screen, tmux_passthrough: bool) -> bool {
        &&& self.has_text ==> tmux_passthrough || !(screen.surface matches Some(
            DrawSurface::Page(_),
        ))
        &&& self.image is Some ==> self.image == screen.image_id
    }

    /// What is on the terminal once a plan cleared what it clears, before anything is shown.
    pub open spec fn cleared(self, plan: DrawPlan) -> Visible {
        match plan {
            DrawPlan::Unchanged => self,
            DrawPlan::Overlay(_) => Visible { has_text: false, image: None },
            DrawPlan::Loading { clear_area } => Visible {
                has_text: self.has_text && !clear_area,
                image: None,
            },
            DrawPlan::Page { clear_area, clear_image } => Visible {
                has_text: self.has_text && !clear_area,
                image: if clear_image {
                    None
                } else {
                    self.image
                },
            },
        }
    }
}

/// Before a part of a page is shown, nothing is left of what was on the terminal but, perhaps,
/// the very image that is shown; before a page is said to be loading, nothing is left but,
/// perhaps, the same message.
#[verifier::rlimit(20)]
pub proof fn lemma_nothing_is_left(
    before: Visible,
    screen: Screen,
    target: Target,
    tmux_passthrough: bool,
)
    requires
        before.is_known(screen, tmux_passthrough),
    ensures
        ({
            let plan = draw_plan(screen, target, tmux_passthrough);
            let left = before.cleared(plan);
            &&& plan is Unchanged <==> (target matches Target::Page(surface, _) && screen.surface
                == Some(DrawSurface::Page(surface)))
            &&& target matches Target::Page(_, image_id) ==> plan is Unchanged || !left.has_text && (
            left.image is Some ==> left.image == image_id)
            &&& target matches Target::Missing(page) ==> {
                &&& left.image is None
                &&& left.has_text ==> screen.surface == Some(DrawSurface::Loading(page))
            }
            &&& target matches Target::Overlay(overlay) ==> plan == DrawPlan::Overlay(overlay)
        }),
{
}

/// Nothing is cleared without need: the area is left alone where one page follows another outside
/// of tmux, and the image where it is the one to show or there is none.
pub proof fn lemma_nothing_is_cleared_needlessly(
    screen: Screen,
    surface: PageSurface,
    hint: Option<ImageId>,
)
    ensures
        draw_plan(screen, Target::Page(surface, hint), false) matches DrawPlan::Page {
            clear_area: true,
            ..
        } ==> !(screen.surface matches Some(DrawSurface::Page(_))),
        draw_plan(screen, Target::Page(surface, hint), false) matches DrawPlan::Page {
            clear_image: true,
            ..
        } ==> screen.image_id is Some && screen.image_id != hint,
        screen.surface is None ==> (draw_plan(screen, Target::Page(surface, hint), false)
            matches DrawPlan::Page { clear_area: true, .. }),
{
}

/// Failures of other pages leave the screen as it was; a page that was shown has its own image on
/// the screen.
pub proof fn lemma_screen_after_page(
    screen: Screen,
    surface: PageSurface,
    image_id: Option<ImageId>,
    pages: Seq<usize>,
)
    ensures
        !pages.contains(surface.page_num) ==> screen_after_page(
            screen,
            surface,
            image_id,
            Some(pages),
        ) == screen,
        screen_after_page(screen, surface, image_id, None).image_id == image_id,
        screen_after_page(screen, surface, image_id, None).surface == Some(
            DrawSurface::Page(surface),
        ),
{
}

/// Behind something else than a page, a page is shown with its area cleared first, and without
/// another's image.
pub proof fn lemma_page_after_other(
    screen: Screen,
    other: DrawSurface,
    surface: PageSurface,
    hint: Option<ImageId>,
    tmux: bool,
)
    requires
        !(other is Page),
    ensures
        draw_plan(screen.after_other(other), Target::Page(surface, hint), tmux)
            matches DrawPlan::Page { clear_area: true, .. },
        screen.after_other(other).image_id == screen.image_id,
        draw_plan(screen.without_image().after_other(other), Target::Page(surface, hint), tmux)
            matches DrawPlan::Page { clear_image: false, .. },
        other matches DrawSurface::Loading(page) ==> draw_plan(
            screen.after_other(other),
            Target::Missing(page),
            tmux,
        ) == (DrawPlan::Loading { clear_area: false }),
{
}

/// Where the image of a page was lost, nothing is left of what was on the terminal.
pub proof fn lemma_lost_page(before: Visible)
    ensures
        !before.cleared(lost_plan()).has_text,
        before.cleared(lost_plan()).image is None,
        lost_plan() is Loading,
{
}

} // verus!
