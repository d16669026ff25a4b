//! Carrying out requests: what is written, what is read back, and what follows from it.

use vstd::prelude::*;

use crate::error::RenderError;
use crate::kitty::action::Action;
use crate::kitty::delete::ClearOrDelete;
use crate::kitty::delete::DeleteConfig;
use crate::kitty::delete::WhichToDelete;
use crate::kitty::error::InputErr;
use crate::kitty::error::TerminalError;
use crate::kitty::error::TransmitError;
use crate::kitty::format::ImageDimensions;
use crate::kitty::format::PixelFormat;
use crate::kitty::id::id_of;
use crate::kitty::id::lemma_id_of;
use crate::kitty::id::lemma_same_id;
use crate::kitty::id::ImageId;
use crate::kitty::id::NumberOrId;
use crate::kitty::id::PlacementId;
use crate::kitty::image::Image;
use crate::kitty::image::Verbosity;
use crate::kitty::medium::Medium;
use crate::kitty::medium::ShmCreationFailureStep;
use crate::kitty::packet::is_packet;
use crate::kitty::packet::lemma_deletion_is_read;
use crate::kitty::packet::lemma_query_is_read;
use crate::kitty::packet::said;
use crate::kitty::packet::says;
use crate::kitty::pixels::DynamicImage;
use crate::kitty::pixels::OpaquePixels;
use crate::kitty::pixels::Pixels;
use crate::kitty::response::read_parse_response;
use crate::kitty::response::read_response;
use crate::kitty::tmux::packet_bytes;
use crate::kitty::tmux::write_kitty_packet;
use crate::kitty::transfer::lemma_medium_reaches_terminal;
use crate::kitty::transfer::received;
use crate::text::decimal;
use crate::text::digits;
use crate::text::text;

verus! {

/// A request on its way: the bytes that bring it to the terminal, and what its response has to
/// name where it gets one.
#[derive(Debug)]
pub struct Request {
    pub packet: Vec<u8>,
    pub awaits: Option<(NumberOrId, Option<PlacementId>)>,
}

/// What to do once the bytes of a request are written: read its response, or nothing more.
#[derive(Debug)]
pub enum AfterWrite<E> {
    Read,
    Done(Result<Option<ImageId>, TransmitError<E>>),
}

impl<'image> Action<'image> {
    /// The request for an action.
    pub fn request(&self, tmux_passthrough: bool) -> (r: Request)
        ensures
            r.packet@ == packet_bytes(self.bytes(Verbosity::All), tmux_passthrough),
            r.awaits == self.spec_num_or_id_and_placement(),
    {
        let mut packet: Vec<u8> = Vec::new();
        self.write_transmit_to(&mut packet, Verbosity::All);
        assert(packet@ =~= self.bytes(Verbosity::All));
        Request {
            packet: write_kitty_packet(packet.as_slice(), tmux_passthrough),
            awaits: self.extract_num_or_id_and_placement(),
        }
    }
}

/// Whether a response is read next, once the bytes of a request were written or failed to be.
pub open spec fn reads_next(
    awaits: Option<(NumberOrId, Option<PlacementId>)>,
    written: bool,
) -> bool {
    written && awaits is Some
}

impl Request {
    /// What follows once the bytes were written, or failed to be: a response is read exactly
    /// where one is awaited.
    pub fn after_write<E>(&self, written: Result<(), String>) -> (r: AfterWrite<E>)
        ensures
            r is Read <==> reads_next(self.awaits, written is Ok),
            match written {
                Err(e) => r matches AfterWrite::Done(Err(TransmitError::Writing(w))) && w == e,
                Ok(()) => if self.awaits is Some {
                    r is Read
                } else {
                    r matches AfterWrite::Done(Ok(None))
                },
            },
    {
        match written {
            Err(e) => AfterWrite::Done(Err(TransmitError::Writing(e))),
            Ok(()) => match self.awaits {
                Some(_) => AfterWrite::Read,
                None => AfterWrite::Done(Ok(None)),
            },
        }
    }

    /// What a response says of the request; nothing where none was awaited.
    pub fn after_read<E>(&self, read: Result<String, E>) -> (r: Result<
        Option<ImageId>,
        TransmitError<E>,
    >)
        ensures
            match self.awaits {
                None => r matches Ok(None),
                Some((image, placement_id)) => match r {
                    Ok(id) => id matches Some(i) && read_response(
                        read_view(read),
                        image,
                        placement_id,
                    ) == Ok::<u32, TransmitError<E, Seq<char>>>(i@),
                    Err(e) => read_response(read_view(read), image, placement_id) == Err::<u32, _>(
                        e@,
                    ),
                },
            },
    {
        match self.awaits {
            None => Ok(None),
            Some((image, placement_id)) => match read_parse_response(read, image, placement_id) {
                Ok(id) => Ok(Some(id)),
                Err(e) => Err(e),
            },
        }
    }
}

/// What was read, as text.
pub open spec fn read_view<E>(read: Result<String, E>) -> Result<Seq<char>, E> {
    match read {
        Ok(s) => Ok(s@),
        Err(e) => Err(e),
    }
}

/// A request that names its image by identifier is answered for no other image.
pub proof fn lemma_answered_for_sent_image<E>(
    read: Result<Seq<char>, E>,
    id: ImageId,
    placement_id: Option<PlacementId>,
)
    ensures
        read_response(read, NumberOrId::Id(id), placement_id) matches Ok(found) ==> found == id@,
{
    if let Ok(output) = read {
        crate::kitty::response::lemma_accepted_id_is_sent(output, id, placement_id);
    }
}

/// One black pixel.
fn black_pixel() -> (r: DynamicImage)
    ensures
        r.spec_format() == PixelFormat::Rgb24(ImageDimensions { width: 1, height: 1 }),
        r.spec_data() == seq![0u8, 0u8, 0u8],
{
    let data: Vec<u8> = vec![0, 0, 0];
    assert(data@ =~= seq![0u8, 0u8, 0u8]);
    let pixels = Pixels::Opaque(OpaquePixels::Rgb8(data));
    assert(1u32 * 1u32 == 1) by (nonlinear_arith);
    assert(pixels.fits(1, 1));
    let image = DynamicImage::new(1, 1, pixels);
    image.unwrap()
}

/// Whether an image is one black pixel, sent inside the request, under the last identifier but
/// one.
pub open spec fn is_support_query(image: Image) -> bool {
    &&& image.num_or_id matches NumberOrId::Id(id) && id@ == u32::MAX - 1
    &&& image.format == PixelFormat::Rgb24(ImageDimensions { width: 1, height: 1 })
    &&& image.medium matches Medium::Direct { chunk_size: Some(size), data } && size@ == 1024
        && data@ == seq![0u8, 0u8, 0u8]
}

/// Whether an image is one black pixel in the shared memory object `name`, under the last
/// identifier.
pub open spec fn is_shm_query(image: Image, name: Seq<char>) -> bool {
    &&& image.num_or_id matches NumberOrId::Id(id) && id@ == u32::MAX
    &&& image.format == PixelFormat::Rgb24(ImageDimensions { width: 1, height: 1 })
    &&& image.medium matches Medium::SharedMemObject(obj) && obj.spec_name() == name
        && obj.spec_map() == seq![0u8, 0u8, 0u8]
}

/// The image that a terminal is asked about to find out whether it knows the protocol: one black
/// pixel, under the last identifier but one.
pub fn support_query_image() -> (r: Image)
    ensures
        is_support_query(r),
        r.num_or_id matches NumberOrId::Id(id) && id@ == u32::MAX - 1,
        r.format == PixelFormat::Rgb24(ImageDimensions { width: 1, height: 1 }),
        r.medium matches Medium::Direct { chunk_size: Some(size), data } && size@ == 1024 && data@
            == seq![0u8, 0u8, 0u8],
{
    let mut image = Image::from_dynamic(black_pixel());
    image.num_or_id = NumberOrId::Id(ImageId::from_nonzero(u32::MAX - 1));
    image
}

/// The name of the shared memory object with which a process finds out whether the terminal can
/// read one.
pub fn shm_probe_name(pid: u32) -> (r: String)
    ensures
        r@ == "kitpdf_test_"@ + digits(pid as nat),
{
    "kitpdf_test_".to_owned().concat(decimal(pid as u128).as_str())
}

/// The image that a terminal is asked about to find out whether it can read shared memory: one
/// black pixel in the object `name`, under the last identifier; nothing where the system could
/// not create the object.
pub fn shm_query_image(name: &str, failure: Option<(ShmCreationFailureStep, String)>) -> (r: Option<
    Image,
>)
    ensures
        r is Some <==> failure is None,
        r matches Some(image) ==> is_shm_query(image, name@),
        r matches Some(image) ==> (image.num_or_id matches NumberOrId::Id(id) && id@ == u32::MAX)
            && image.format == PixelFormat::Rgb24(ImageDimensions { width: 1, height: 1 }) && (
        image.medium matches Medium::SharedMemObject(obj) && obj.spec_name() == name@
            && obj.spec_map() == seq![0u8, 0u8, 0u8]),
{
    match Image::shm_from(black_pixel(), name, failure) {
        Ok(image) => {
            let mut image = image;
            image.num_or_id = NumberOrId::Id(ImageId::from_nonzero(u32::MAX));
            Some(image)
        },
        Err(_) => None,
    }
}

/// The action that takes an image off the screen and keeps its data.
pub open spec fn clear_action(image_id: ImageId) -> Action<'static> {
    Action::Delete(
        DeleteConfig {
            effect: ClearOrDelete::Clear,
            which: WhichToDelete::ImageId(image_id, None),
        },
    )
}

/// The action that takes an image off the screen and keeps its data.
pub fn clear_kitty_image(image_id: ImageId) -> (r: Action<'static>)
    ensures
        r == clear_action(image_id),
        r == Action::Delete(
            DeleteConfig {
                effect: ClearOrDelete::Clear,
                which: WhichToDelete::ImageId(image_id, None),
            },
        ),
{
    Action::Delete(
        DeleteConfig {
            effect: ClearOrDelete::Clear,
            which: WhichToDelete::ImageId(image_id, None),
        },
    )
}

/// The action that takes an image off the screen and frees its data.
pub open spec fn delete_action(image_id: ImageId) -> Action<'static> {
    Action::Delete(
        DeleteConfig {
            effect: ClearOrDelete::Delete,
            which: WhichToDelete::ImageId(image_id, None),
        },
    )
}

/// The action that frees every image that an earlier session may have left behind.
pub open spec fn clear_all_action() -> Action<'static> {
    Action::Delete(
        DeleteConfig {
            effect: ClearOrDelete::Delete,
            which: WhichToDelete::IdRange(id_of(1), id_of(u32::MAX)),
        },
    )
}

/// The action that frees every image that an earlier session may have left behind.
pub fn clear_previous_images() -> (r: Action<'static>)
    ensures
        r == clear_all_action(),
        r matches Action::Delete(config) && config.effect == ClearOrDelete::Delete && (
        config.which matches WhichToDelete::IdRange(start, end) && start@ == 1 && end@ == u32::MAX),
{
    let first = ImageId::from_nonzero(1);
    let last = ImageId::from_nonzero(u32::MAX);
    proof {
        lemma_id_of(1);
        lemma_id_of(u32::MAX);
        lemma_same_id(first, id_of(1));
        lemma_same_id(last, id_of(u32::MAX));
    }
    Action::Delete(
        DeleteConfig {
            effect: ClearOrDelete::Delete,
            which: WhichToDelete::IdRange(first, last),
        },
    )
}

/// What comes next where images are freed one after another: the action, and the images that are
/// left; no action once none is left.
pub open spec fn next_to_free(ids: Seq<ImageId>) -> (Option<Action<'static>>, Seq<ImageId>) {
    if ids.len() > 0 {
        (Some(delete_action(ids[0])), ids.skip(1))
    } else {
        (None, ids)
    }
}

/// The actions of a run up to its end.
pub open spec fn freed(ids: Seq<ImageId>) -> Seq<Action<'static>>
    decreases ids.len(),
{
    match next_to_free(ids) {
        (Some(action), left) => if left.len() < ids.len() {
            seq![action] + freed(left)
        } else {
            Seq::empty()
        },
        (None, _) => Seq::empty(),
    }
}

/// Images that are being freed one after another, up to the first error.
#[derive(Debug)]
pub struct DeleteRun {
    ids: Vec<ImageId>,
    done: usize,
}

impl DeleteRun {
    #[verifier::type_invariant]
    spec fn within(self) -> bool {
        self.done <= self.ids@.len()
    }

    /// The images that are still to be freed.
    pub closed spec fn remaining(&self) -> Seq<ImageId> {
        self.ids@.skip(self.done as int)
    }

    /// A run that frees these images in order.
    pub fn new(ids: Vec<ImageId>) -> (r: DeleteRun)
        ensures
            r.remaining() == ids@,
    {
        let run = DeleteRun { ids, done: 0 };
        assert(run.remaining() =~= ids@);
        run
    }

    /// The action for the next image; nothing once all are freed.
    pub fn next_action(&mut self) -> (r: Option<Action<'static>>)
        ensures
            (r, final(self).remaining()) == next_to_free(old(self).remaining()),
            match r {
                Some(action) => old(self).remaining().len() > 0 && action == delete_action(
                    old(self).remaining()[0],
                ) && final(self).remaining() == old(self).remaining().skip(1),
                None => old(self).remaining().len() == 0 && final(self).remaining() == old(
                    self,
                ).remaining(),
            },
    {
        proof {
            use_type_invariant(&*self);
        }
        if self.done < self.ids.len() {
            let id = self.ids[self.done];
            self.done = self.done + 1;
            assert(self.remaining() =~= old(self).remaining().skip(1));
            Some(
                Action::Delete(
                    DeleteConfig {
                        effect: ClearOrDelete::Delete,
                        which: WhichToDelete::ImageId(id, None),
                    },
                ),
            )
        } else {
            None
        }
    }
}

/// A run frees every image, each by itself and in order, and then ends.
pub proof fn lemma_all_are_freed(ids: Seq<ImageId>)
    ensures
        freed(ids).len() == ids.len(),
        forall|i: int| 0 <= i < ids.len() ==> #[trigger] freed(ids)[i] == delete_action(ids[i]),
    decreases ids.len(),
{
    if ids.len() > 0 {
        let left = ids.skip(1);
        lemma_all_are_freed(left);
        assert forall|i: int| 0 <= i < ids.len() implies #[trigger] freed(ids)[i] == delete_action(
            ids[i],
        ) by {
            if i > 0 {
                assert(freed(ids)[i] == freed(left)[i - 1]);
                assert(left[i - 1] == ids[i]);
            }
        }
    }
}

/// What the terminal reads where an image is taken off the screen, or freed: that image and no
/// placement of it, with its data kept in the one case and freed in the other. Where all are
/// freed, the range that it reads begins with the first identifier and ends with the last.
pub proof fn lemma_which_are_freed(id: ImageId)
    ensures
        exists|control: Seq<char>| #[trigger]
            is_packet(clear_action(id).bytes(Verbosity::All), control, text("\x1b\\")) && said(
                control,
                'a',
            ) == Some(seq!['d']) && said(control, 'd') == Some(seq!['i']) && said(control, 'i')
                == Some(digits(id@ as nat)) && said(control, 'p') is None,
        exists|control: Seq<char>| #[trigger]
            is_packet(delete_action(id).bytes(Verbosity::All), control, text("\x1b\\")) && said(
                control,
                'a',
            ) == Some(seq!['d']) && said(control, 'd') == Some(seq!['I']) && said(control, 'i')
                == Some(digits(id@ as nat)) && said(control, 'p') is None,
        exists|control: Seq<char>| #[trigger]
            is_packet(clear_all_action().bytes(Verbosity::All), control, text("\x1b\\")) && said(
                control,
                'a',
            ) == Some(seq!['d']) && said(control, 'd') == Some(seq!['R']) && said(control, 'x')
                == Some(digits(1)) && said(control, 'y') == Some(digits(0xffff_ffff)),
{
    lemma_deletion_is_read(
        DeleteConfig { effect: ClearOrDelete::Clear, which: WhichToDelete::ImageId(id, None) },
        Verbosity::All,
    );
    lemma_deletion_is_read(
        DeleteConfig { effect: ClearOrDelete::Delete, which: WhichToDelete::ImageId(id, None) },
        Verbosity::All,
    );
    lemma_id_of(1);
    lemma_id_of(u32::MAX);
    lemma_deletion_is_read(
        DeleteConfig {
            effect: ClearOrDelete::Delete,
            which: WhichToDelete::IdRange(id_of(1), id_of(u32::MAX)),
        },
        Verbosity::All,
    );
}

/// A response is awaited exactly for requests that are answered: all but deletions. It has to
/// name the image as the request does, and its placement where the request names one.
pub proof fn lemma_what_is_awaited(action: Action)
    ensures
        action.spec_num_or_id_and_placement() is None <==> action is Delete,
        action matches Action::Display { image_id, placement_id, .. }
            ==> action.spec_num_or_id_and_placement() == Some(
            (NumberOrId::Id(image_id), Some(placement_id)),
        ),
        action matches Action::TransmitAndDisplay { image, placement_id, .. }
            ==> action.spec_num_or_id_and_placement() == Some((image.num_or_id, placement_id)),
        action matches Action::Query(image) ==> action.spec_num_or_id_and_placement() == Some(
            (image.num_or_id, None::<PlacementId>),
        ),
{
}

/// An error is kept from the user exactly where the terminal had dropped the image already, and
/// shown as it is otherwise.
pub proof fn lemma_shown_error(err: TransmitError<InputErr, Seq<char>>)
    ensures
        shown_error(err) is None <==> (err matches TransmitError::Terminal(e) && e is NoEntity),
        shown_error(err) matches Some(e) ==> e == RenderError::<Seq<char>>::Converting(
            err.message(),
        ),
{
}

/// The render error to show for a request that failed: none where the terminal had dropped the
/// image already.
pub open spec fn shown_error(err: TransmitError<InputErr, Seq<char>>) -> Option<
    RenderError<Seq<char>>,
> {
    match err {
        TransmitError::Terminal(TerminalError::NoEntity(_)) => None,
        _ => Some(RenderError::Converting(err.message())),
    }
}

/// The render error to show for a request that failed: none where the terminal had dropped the
/// image already.
pub fn render_error_for(err: &TransmitError<InputErr>) -> (r: Option<RenderError>)
    ensures
        shown_error(err@) == (match r {
            Some(e) => Some(e@),
            None => None,
        }),
{
    match err {
        TransmitError::Terminal(TerminalError::NoEntity(_)) => None,
        _ => Some(RenderError::Converting(err.to_text())),
    }
}

/// The two questions are told apart by their identifiers, and each is answered for its own alone.
/// Of each the terminal reads that it is a question about an image of one pixel with three bytes,
/// and the one that is sent inside the request carries three zeros.
#[verifier::rlimit(30)]
pub proof fn lemma_questions(a: Image, b: Image, name: Seq<char>, later: Seq<u8>)
    requires
        is_support_query(a),
        is_shm_query(b, name),
    ensures
        a.num_or_id != b.num_or_id,
        Action::Query(&a).spec_num_or_id_and_placement() == Some(
            (a.num_or_id, None::<PlacementId>),
        ),
        Action::Query(&b).spec_num_or_id_and_placement() == Some(
            (b.num_or_id, None::<PlacementId>),
        ),
        exists|control: Seq<char>| #[trigger]
            is_packet(
                Action::Query(&a).bytes(Verbosity::All),
                control,
                a.medium.bytes() + text("\x1b\\"),
            ) && said(control, 'a') == Some(seq!['q']) && said(control, 'i') == Some(
                digits(0xffff_fffe),
            ) && says(control, 'f', 24) && says(control, 's', 1) && says(control, 'v', 1),
        exists|control: Seq<char>| #[trigger]
            is_packet(
                Action::Query(&b).bytes(Verbosity::All),
                control,
                b.medium.bytes() + text("\x1b\\"),
            ) && said(control, 'a') == Some(seq!['q']) && said(control, 'i') == Some(
                digits(0xffff_ffff),
            ) && says(control, 'f', 24) && says(control, 's', 1) && says(control, 'v', 1),
        received(a.medium.bytes().skip(text(",t=d,").len() as int) + later, true) == Some(
            (seq![0u8, 0u8, 0u8], later),
        ),
{
    lemma_query_is_read(a, Verbosity::All);
    lemma_query_is_read(b, Verbosity::All);
    if let Medium::Direct { chunk_size: Some(size), data } = a.medium {
        lemma_medium_reaches_terminal(size, data, later);
    }
}

/// A response is read for every request that reached the terminal and is answered: all but
/// deletions; for a request that did not reach it none is.
pub proof fn lemma_which_are_read(action: Action)
    ensures
        reads_next(action.spec_num_or_id_and_placement(), true) <==> !(action is Delete),
        !reads_next(action.spec_num_or_id_and_placement(), false),
{
}

} // verus!
