//! Showing images: each is sent once and shown by its identifier from then on.

use vstd::prelude::*;

use crate::kitty::action::Action;
use crate::kitty::display::DisplayConfig;
use crate::kitty::display::DisplayLocation;
use crate::kitty::error::missing_image_id_error;
use crate::kitty::error::InputErr;
use crate::kitty::error::ParseError;
use crate::kitty::error::TransmitError;
use crate::kitty::format::ImageDimensions;
use crate::kitty::format::PixelFormat;
use crate::kitty::id::IdentifierType;
use crate::kitty::id::ImageId;
use crate::kitty::id::NumberOrId;
use crate::kitty::image::tmux_placement_id_for_image;
use crate::kitty::image::Image;
use crate::kitty::medium::Medium;
use crate::kitty::placeholder::append_tmux_placeholders;
use crate::kitty::placeholder::display_config_for;
use crate::kitty::placeholder::placeholders;
use crate::kitty::placeholder::spec_display_config_for;
use crate::kitty::placeholder::Pos;

verus! {

/// An image that the terminal may have: not sent yet, or known to it by an identifier.
#[derive(Debug)]
pub enum MaybeTransferred {
    NotYet(Image),
    Transferred(ImageId),
}

/// An image that is to be shown: for which page, at which position and location.
#[derive(Debug)]
pub struct KittyReadyToDisplay {
    pub img: MaybeTransferred,
    pub page_num: usize,
    pub pos: Pos,
    pub display_loc: DisplayLocation,
}

/// What is to be shown.
#[derive(Debug)]
pub enum KittyDisplay {
    DisplayImages(Vec<KittyReadyToDisplay>),
}

/// An image that is being shown, until the terminal has answered.
#[derive(Debug)]
pub struct PendingDisplay {
    pub img: MaybeTransferred,
    pub page_num: usize,
    pub pos: Pos,
    pub placement_id: Option<ImageId>,
    pub columns: u16,
    pub rows: u16,
    pub tmux_passthrough: bool,
}

/// An image that was shown, or failed to be: the image as it is from then on, and the bytes that
/// are still to be written, or the error.
#[derive(Debug)]
pub struct DisplayDone {
    pub img: MaybeTransferred,
    pub page_num: usize,
    pub result: Result<Vec<u8>, TransmitError<InputErr>>,
}

/// Whether nothing is left of an image but how it is named.
pub open spec fn is_emptied(image: Image, num_or_id: NumberOrId) -> bool {
    &&& image.num_or_id == num_or_id
    &&& image.format == PixelFormat::Rgb24(ImageDimensions { width: 0, height: 0 })
    &&& image.medium matches Medium::Direct { chunk_size: None, data }
    &&& data@.len() == 0
}

/// How showing an image begins: an image that is not sent yet is sent and shown, one that is
/// sent is shown by its identifier. Inside tmux an image that is sent under an identifier is
/// placed under it too.
pub open spec fn begins(
    ready: KittyReadyToDisplay,
    tmux_passthrough: bool,
    action: Action,
    pending: PendingDisplay,
) -> bool {
    let config = spec_display_config_for(ready.display_loc, tmux_passthrough);
    &&& pending.page_num == ready.page_num
    &&& pending.pos == ready.pos
    &&& pending.columns == config.location.columns
    &&& pending.rows == config.location.rows
    &&& pending.tmux_passthrough == tmux_passthrough
    &&& match ready.img {
        MaybeTransferred::NotYet(image) => {
            &&& action == Action::TransmitAndDisplay {
                image,
                config,
                placement_id: pending.placement_id,
            }
            &&& pending.placement_id == (if tmux_passthrough {
                image.spec_tmux_placement_id()
            } else {
                None
            })
            &&& pending.img matches MaybeTransferred::NotYet(left)
            &&& is_emptied(left, image.num_or_id)
        },
        MaybeTransferred::Transferred(id) => {
            &&& action == Action::Display { image_id: id, placement_id: id, config }
            &&& pending.placement_id == Some(id)
            &&& pending.img == ready.img
        },
    }
}

/// How showing an image ends once the terminal has answered: an image that was sent is known by
/// the identifier of the answer, and inside tmux its placeholders are to be written.
pub open spec fn ends(
    pending: PendingDisplay,
    outcome: Result<Option<ImageId>, TransmitError<InputErr>>,
    done: DisplayDone,
) -> bool {
    let shown = match pending.img {
        MaybeTransferred::NotYet(_) => if let Ok(Some(id)) = outcome {
            Some(id)
        } else {
            None
        },
        MaybeTransferred::Transferred(id) => if outcome is Ok {
            Some(id)
        } else {
            None
        },
    };
    &&& done.page_num == pending.page_num
    &&& match shown {
        Some(id) => {
            &&& done.img == MaybeTransferred::Transferred(id)
            &&& done.result matches Ok(bytes)
            &&& bytes@ == (if pending.tmux_passthrough {
                placeholders(
                    id,
                    pending.placement_id,
                    pending.pos,
                    pending.columns,
                    pending.rows,
                    true,
                )
            } else {
                Seq::empty()
            })
        },
        None => {
            &&& done.img == pending.img
            &&& match outcome {
                Err(e) => done.result matches Err(f) && f == e,
                Ok(_) => done.result matches Err(f) && f@ == TransmitError::<
                    InputErr,
                    Seq<char>,
                >::ParsingResponse(ParseError::NoResponseId { ty: IdentifierType::ImageId }),
            }
        },
    }
}

/// Begins to show an image: the action for the terminal, and what is kept until it answers.
pub fn begin_display(ready: KittyReadyToDisplay, tmux_passthrough: bool) -> (r: (
    Action<'static>,
    PendingDisplay,
))
    ensures
        begins(ready, tmux_passthrough, r.0, r.1),
{
    let config = display_config_for(ready.display_loc, tmux_passthrough);
    let columns: u16 = config.location.columns;
    let rows: u16 = config.location.rows;
    match ready.img {
        MaybeTransferred::NotYet(image) => {
            let left = Image {
                num_or_id: image.num_or_id,
                format: PixelFormat::Rgb24(ImageDimensions { width: 0, height: 0 }),
                medium: Medium::Direct { chunk_size: None, data: Vec::new() },
            };
            let placement_id = if tmux_passthrough {
                tmux_placement_id_for_image(&image)
            } else {
                None
            };
            (
                Action::TransmitAndDisplay { image, config, placement_id },
                PendingDisplay {
                    img: MaybeTransferred::NotYet(left),
                    page_num: ready.page_num,
                    pos: ready.pos,
                    placement_id,
                    columns,
                    rows,
                    tmux_passthrough,
                },
            )
        },
        MaybeTransferred::Transferred(image_id) => {
            let placement_id = image_id;
            (
                Action::Display { image_id, placement_id, config },
                PendingDisplay {
                    img: MaybeTransferred::Transferred(image_id),
                    page_num: ready.page_num,
                    pos: ready.pos,
                    placement_id: Some(placement_id),
                    columns,
                    rows,
                    tmux_passthrough,
                },
            )
        },
    }
}

/// Ends showing an image with the outcome of its action.
pub fn end_display(
    pending: PendingDisplay,
    outcome: Result<Option<ImageId>, TransmitError<InputErr>>,
) -> (r: DisplayDone)
    ensures
        ends(pending, outcome, r),
{
    let page_num: usize = pending.page_num;
    let image_id = match (&pending.img, outcome) {
        (MaybeTransferred::NotYet(_), Ok(Some(id))) => id,
        (MaybeTransferred::NotYet(_), Ok(None)) => {
            return DisplayDone {
                img: pending.img,
                page_num,
                result: Err(missing_image_id_error()),
            };
        },
        (MaybeTransferred::Transferred(id), Ok(_)) => *id,
        (_, Err(e)) => {
            return DisplayDone { img: pending.img, page_num, result: Err(e) };
        },
    };
    let mut bytes: Vec<u8> = Vec::new();
    if pending.tmux_passthrough {
        append_tmux_placeholders(
            &mut bytes,
            image_id,
            pending.placement_id,
            pending.pos,
            pending.columns,
            pending.rows,
            true,
        );
        proof {
            let p = placeholders(
                image_id,
                pending.placement_id,
                pending.pos,
                pending.columns,
                pending.rows,
                true,
            );
            assert(Seq::<u8>::empty() + p =~= p);
        }
    }
    DisplayDone { img: MaybeTransferred::Transferred(image_id), page_num, result: Ok(bytes) }
}

/// An image is sent once: where the terminal has taken it under an identifier, showing it again
/// is asked for by that identifier alone.
pub proof fn lemma_sent_once(
    ready: KittyReadyToDisplay,
    tmux: bool,
    action: Action,
    pending: PendingDisplay,
    id: ImageId,
    done: DisplayDone,
    again: KittyReadyToDisplay,
    tmux_again: bool,
    action_again: Action,
    pending_again: PendingDisplay,
)
    requires
        begins(ready, tmux, action, pending),
        ready.img is NotYet,
        ends(pending, Ok(Some(id)), done),
        again.img == done.img,
        begins(again, tmux_again, action_again, pending_again),
    ensures
        action is TransmitAndDisplay,
        action_again matches Action::Display { image_id, placement_id, .. } && image_id == id
            && placement_id == id,
{
}

/// An image that is known by an identifier stays known by it, whatever the terminal answers.
pub proof fn lemma_identifier_is_kept(
    ready: KittyReadyToDisplay,
    tmux: bool,
    action: Action,
    pending: PendingDisplay,
    outcome: Result<Option<ImageId>, TransmitError<InputErr>>,
    done: DisplayDone,
)
    requires
        begins(ready, tmux, action, pending),
        ready.img is Transferred,
        ends(pending, outcome, done),
    ensures
        done.img == ready.img,
        done.result is Ok <==> outcome is Ok,
{
}

/// What the terminal is asked to show is what was to be shown: the same part of the same image
/// at the same place, with the cursor left where it is. Outside of tmux nothing else is written.
/// Inside, the placement is a virtual one, and its placeholders stand at the position that was
/// asked for, in as many columns and rows as the terminal was told, under the image and the
/// placement that it was told: the placement of an image that is named by its identifier has the
/// same identifier.
pub proof fn lemma_shown_as_asked(
    ready: KittyReadyToDisplay,
    tmux: bool,
    action: Action,
    pending: PendingDisplay,
    outcome: Result<Option<ImageId>, TransmitError<InputErr>>,
    done: DisplayDone,
)
    requires
        begins(ready, tmux, action, pending),
        ends(pending, outcome, done),
    ensures
        ({
            let (config, placement) = match action {
                Action::TransmitAndDisplay { config, placement_id, .. } => (config, placement_id),
                Action::Display { config, placement_id, .. } => (config, Some(placement_id)),
                _ => (DisplayConfig::spec_default(), None),
            };
            let l = config.location;
            let at = ready.display_loc;
            &&& done.page_num == ready.page_num
            &&& match ready.img {
                MaybeTransferred::NotYet(image) => {
                    &&& action matches Action::TransmitAndDisplay { image: sent, .. }
                    &&& sent == image
                    &&& !tmux || image.num_or_id is Number ==> placement is None
                    &&& tmux ==> (image.num_or_id matches NumberOrId::Id(id) ==> placement == Some(
                        id,
                    ))
                },
                MaybeTransferred::Transferred(id) => {
                    &&& action matches Action::Display { image_id, placement_id, .. }
                    &&& image_id == id
                    &&& placement_id == id
                },
            }
            &&& config.create_virtual_placement == tmux
            &&& config.cursor_movement is DontMove
            &&& config.parent_id is None
            &&& config.parent_placement is None
            &&& l == DisplayLocation { columns: l.columns, rows: l.rows, ..at }
            &&& !tmux ==> l == at
            &&& tmux ==> 1 <= l.columns <= 297 && 1 <= l.rows <= 297
            &&& tmux && 1 <= at.columns <= 297 ==> l.columns == at.columns
            &&& tmux && 1 <= at.rows <= 297 ==> l.rows == at.rows
            &&& done.result matches Ok(bytes) ==> {
                &&& outcome is Ok
                &&& done.img matches MaybeTransferred::Transferred(id)
                &&& ready.img matches MaybeTransferred::Transferred(known) ==> id == known
                &&& ready.img is NotYet ==> outcome == Ok::<
                    Option<ImageId>,
                    TransmitError<InputErr>,
                >(Some(id))
                &&& !tmux ==> bytes@.len() == 0
                &&& tmux ==> bytes@ == placeholders(
                    id,
                    placement,
                    ready.pos,
                    l.columns,
                    l.rows,
                    true,
                )
            }
            &&& done.result matches Err(e) ==> {
                &&& outcome matches Err(f) ==> e == f
                &&& done.img is NotYet <==> ready.img is NotYet
                &&& ready.img matches MaybeTransferred::NotYet(image) ==> (
                done.img matches MaybeTransferred::NotYet(left) && left.num_or_id
                    == image.num_or_id)
                &&& ready.img is Transferred ==> done.img == ready.img
            }
            &&& done.result is Err <==> outcome is Err || (ready.img is NotYet && outcome == Ok::<
                Option<ImageId>,
                TransmitError<InputErr>,
            >(None))
        }),
{
}

/// The pages among the results that failed, in order.
pub open spec fn failed_pages(results: Seq<(usize, Result<(), TransmitError<InputErr>>)>) -> Seq<
    usize,
>
    decreases results.len(),
{
    if results.len() == 0 {
        Seq::empty()
    } else {
        let before = failed_pages(results.drop_last());
        if results.last().1 is Err {
            before.push(results.last().0)
        } else {
            before
        }
    }
}

/// The first error among the results.
pub open spec fn first_error(results: Seq<(usize, Result<(), TransmitError<InputErr>>)>) -> Option<
    TransmitError<InputErr>,
>
    decreases results.len(),
{
    if results.len() == 0 {
        None
    } else {
        match first_error(results.drop_last()) {
            Some(e) => Some(e),
            None => match results.last().1 {
                Err(e) => Some(e),
                Ok(()) => None,
            },
        }
    }
}

/// What is said of the images that could not be shown.
pub open spec fn display_failure() -> Seq<char> {
    "couldn't transfer image to terminal"@
}

/// Puts the results of all images together: the pages that failed, in order, with the first
/// error, or success where none failed.
pub fn collect_display_results(
    results: Vec<(usize, Result<(), TransmitError<InputErr>>)>,
) -> (r: Result<(), (Vec<usize>, &'static str, TransmitError<InputErr>)>)
    ensures
        match r {
            Ok(()) => first_error(results@) is None,
            Err((pages, what, e)) => first_error(results@) == Some(e) && pages@ == failed_pages(
                results@,
            ) && what@ == display_failure(),
        },
{
    let mut pages: Vec<usize> = Vec::new();
    let mut err: Option<TransmitError<InputErr>> = None;
    let ghost all = results@;
    let mut rest = results;
    let ghost mut taken: int = 0;
    while rest.len() > 0
        invariant
            0 <= taken <= all.len(),
            rest@ == all.skip(taken),
            pages@ == failed_pages(all.take(taken)),
            err == first_error(all.take(taken)),
        decreases rest.len(),
    {
        let (page, result) = rest.remove(0);
        proof {
            let t = all.take(taken + 1);
            assert(t.drop_last() =~= all.take(taken));
            assert(t.last() == all[taken]);
            assert(rest@ =~= all.skip(taken + 1));
            taken = taken + 1;
        }
        if let Err(e) = result {
            pages.push(page);
            if err.is_none() {
                err = Some(e);
            }
        }
    }
    assert(all.take(taken) =~= all);
    match err {
        Some(e) => Err((pages, "couldn't transfer image to terminal", e)),
        None => Ok(()),
    }
}

/// A page is reported exactly where showing it failed, and there is an error exactly where a
/// page is reported.
pub proof fn lemma_failed_pages(
    results: Seq<(usize, Result<(), TransmitError<InputErr>>)>,
    page: usize,
)
    ensures
        failed_pages(results).contains(page) <==> exists|i: int|
            0 <= i < results.len() && (#[trigger] results[i]).0 == page && results[i].1 is Err,
        failed_pages(results).len() > 0 <==> first_error(results) is Some,
    decreases results.len(),
{
    if results.len() > 0 {
        let front = results.drop_last();
        let before = failed_pages(front);
        lemma_failed_pages(front, page);
        assert(forall|i: int| 0 <= i < front.len() ==> front[i] == results[i]);
        let last = results.len() - 1;
        if results.last().1 is Err {
            let pushed = before.push(results.last().0);
            assert(pushed[pushed.len() - 1] == results[last].0);
            assert forall|p: usize| before.contains(p) implies pushed.contains(p) by {
                let k = before.index_of(p);
                assert(pushed[k] == p);
            }
            if pushed.contains(page) {
                let k = pushed.index_of(page);
                if k < before.len() {
                    assert(before[k] == page);
                    let i = choose|i: int|
                        0 <= i < front.len() && (#[trigger] front[i]).0 == page && front[i].1 is Err;
                    assert(results[i].0 == page);
                } else {
                    assert(results[last].0 == page);
                }
            }
            if exists|i: int|
                0 <= i < results.len() && (#[trigger] results[i]).0 == page && results[i].1 is Err {
                let i = choose|i: int|
                    0 <= i < results.len() && (#[trigger] results[i]).0 == page
                        && results[i].1 is Err;
                if i < last {
                    assert(front[i].0 == page);
                }
            }
        } else {
            if before.contains(page) {
                let i = choose|i: int|
                    0 <= i < front.len() && (#[trigger] front[i]).0 == page && front[i].1 is Err;
                assert(results[i].0 == page);
            }
            if exists|i: int|
                0 <= i < results.len() && (#[trigger] results[i]).0 == page && results[i].1 is Err {
                let i = choose|i: int|
                    0 <= i < results.len() && (#[trigger] results[i]).0 == page
                        && results[i].1 is Err;
                assert(front[i].0 == page);
            }
        }
    }
}

/// The pages that failed among some results and further ones are those of the first, and behind
/// them those of the others; a single result gives its page exactly where it failed.
pub proof fn lemma_failed_pages_in_order(
    a: Seq<(usize, Result<(), TransmitError<InputErr>>)>,
    b: Seq<(usize, Result<(), TransmitError<InputErr>>)>,
)
    ensures
        failed_pages(a + b) == failed_pages(a) + failed_pages(b),
        b.len() == 1 ==> failed_pages(b) == (if b[0].1 is Err {
            seq![b[0].0]
        } else {
            Seq::empty()
        }),
    decreases b.len(),
{
    if b.len() == 0 {
        assert(a + b =~= a);
        assert(failed_pages(a) + failed_pages(b) =~= failed_pages(a));
    } else {
        let front = b.drop_last();
        lemma_failed_pages_in_order(a, front);
        assert((a + b).drop_last() =~= a + front);
        assert((a + b).last() == b.last());
        assert(failed_pages(a + b) =~= failed_pages(a) + failed_pages(b));
        if b.len() == 1 {
            assert(front =~= Seq::empty());
            assert(b.last() == b[0]);
            assert(failed_pages(b) =~= (if b[0].1 is Err {
                seq![b[0].0]
            } else {
                Seq::empty()
            }));
        }
    }
}

/// The error that is reported is that of the first result that failed.
pub proof fn lemma_first_error(results: Seq<(usize, Result<(), TransmitError<InputErr>>)>)
    ensures
        match first_error(results) {
            Some(e) => exists|i: int|
                0 <= i < results.len() && (#[trigger] results[i]).1 == Err::<
                    (),
                    TransmitError<InputErr>,
                >(e) && forall|j: int| 0 <= j < i ==> (#[trigger] results[j]).1 is Ok,
            None => forall|j: int| 0 <= j < results.len() ==> (#[trigger] results[j]).1 is Ok,
        },
    decreases results.len(),
{
    if results.len() > 0 {
        let front = results.drop_last();
        let last = results.len() - 1;
        lemma_first_error(front);
        assert(forall|i: int| 0 <= i < front.len() ==> front[i] == results[i]);
        match first_error(front) {
            Some(e) => {
                let i = choose|i: int|
                    0 <= i < front.len() && (#[trigger] front[i]).1 == Err::<
                        (),
                        TransmitError<InputErr>,
                    >(e) && forall|j: int| 0 <= j < i ==> (#[trigger] front[j]).1 is Ok;
                assert forall|j: int| 0 <= j < i implies (#[trigger] results[j]).1 is Ok by {
                    assert(front[j].1 is Ok);
                }
                assert(results[i].1 == Err::<(), TransmitError<InputErr>>(e));
            },
            None => {
                assert forall|j: int| 0 <= j < last implies (#[trigger] results[j]).1 is Ok by {
                    assert(front[j].1 is Ok);
                }
                assert(results[last] == results.last());
            },
        }
    }
}

} // verus!
