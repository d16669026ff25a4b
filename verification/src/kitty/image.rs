//! An image on its way to the terminal.

use vstd::prelude::*;
use vstd::utf8::encode_utf8;

use crate::kitty::base64::b64;
use crate::kitty::base64::b64_decoded;
use crate::kitty::display::DisplayConfig;
use crate::kitty::format::param;
use crate::kitty::format::write_param;
use crate::kitty::format::PixelFormat;
use crate::kitty::id::ImageId;
use crate::kitty::id::NumberOrId;
use crate::kitty::id::PlacementId;
use crate::kitty::medium::BufferTooLarge;
use crate::kitty::medium::ChunkSize;
use crate::kitty::medium::Medium;
use crate::kitty::medium::SharedMemObject;
use crate::kitty::medium::ShmCreationFailureStep;
use crate::kitty::medium::ShmError;
use crate::kitty::pixels::DynamicImage;
use crate::kitty::transfer::lemma_medium_reaches_terminal;
use crate::kitty::transfer::lemma_terminal_gets_whole;
use crate::kitty::transfer::packet_payload;
use crate::kitty::transfer::received;
use crate::text::decimal;
use crate::text::digits;
use crate::text::push_text;
use crate::text::text;

verus! {

broadcast use {crate::text::lemma_append, crate::text::lemma_append_nothing};

/// How much the terminal is asked to answer.
#[derive(Clone, Copy, Debug, PartialEq, Eq, Structural)]
pub enum Verbosity {
    All,
}

impl Verbosity {
    /// The value of the parameter.
    pub open spec fn spec_code(self) -> int {
        match self {
            Verbosity::All => 0,
        }
    }

    /// The value of the parameter.
    pub fn code(self) -> (r: u8)
        ensures
            r == self.spec_code(),
    {
        match self {
            Verbosity::All => 0,
        }
    }
}

/// An image that is to be sent.
#[derive(Debug, PartialEq)]
pub struct Image {
    pub num_or_id: NumberOrId,
    pub format: PixelFormat,
    pub medium: Medium,
}

impl Image {
    /// The rest of a packet that sends the image, behind its action.
    pub open spec fn bytes(
        self,
        placement_id: Option<PlacementId>,
        display_config: Option<DisplayConfig>,
        verbosity: Verbosity,
    ) -> Seq<u8> {
        (match self.num_or_id {
            NumberOrId::Id(id) => text("i=") + encode_utf8(digits(id@ as nat)),
            NumberOrId::Number(num) => text("I=") + encode_utf8(digits(num@ as nat)),
        }) + (match placement_id {
            Some(p) => param('p', p@ as int, 0),
            None => Seq::empty(),
        }) + param('q', verbosity.spec_code(), 0) + (match display_config {
            Some(config) => config.bytes(),
            None => Seq::empty(),
        }) + self.format.bytes() + self.medium.bytes() + text("\x1b\\")
    }

    /// Appends the rest of a packet that sends the image, behind its action.
    pub fn write_transmit_to(
        &self,
        buf: &mut Vec<u8>,
        placement_id: Option<PlacementId>,
        display_config: Option<&DisplayConfig>,
        verbosity: Verbosity,
    )
        ensures
            final(buf)@ == old(buf)@ + self.bytes(
                placement_id,
                match display_config {
                    Some(c) => Some(*c),
                    None => None,
                },
                verbosity,
            ),
    {
        match self.num_or_id {
            NumberOrId::Id(id) => {
                push_text(buf, "i=");
                push_text(buf, decimal(id.get() as u128).as_str());
            },
            NumberOrId::Number(num) => {
                push_text(buf, "I=");
                push_text(buf, decimal(num.get() as u128).as_str());
            },
        }
        if let Some(placement_id) = placement_id {
            write_param(buf, 'p', placement_id.get() as i128, 0);
        }
        write_param(buf, 'q', verbosity.code() as i128, 0);
        if let Some(config) = display_config {
            config.write_to(buf);
        }
        self.format.write_to(buf);
        self.medium.write_data(buf);
        push_text(buf, "\x1b\\");
    }

    /// The identifier under which tmux shows the image: its own, where it has one.
    pub open spec fn spec_tmux_placement_id(self) -> Option<ImageId> {
        match self.num_or_id {
            NumberOrId::Id(id) => Some(id),
            NumberOrId::Number(_) => None,
        }
    }
}

/// The identifier under which tmux shows the image: its own, where it has one.
pub fn tmux_placement_id_for_image(image: &Image) -> (r: Option<ImageId>)
    ensures
        r == image.spec_tmux_placement_id(),
{
    match image.num_or_id {
        NumberOrId::Id(id) => Some(id),
        NumberOrId::Number(_) => None,
    }
}

/// Why an image could not be put into a shared memory object: the object could not be created,
/// or the data could not be copied into it.
#[derive(Debug, PartialEq)]
pub enum ImageFromShmFailureStep<E> {
    ShmCreation(E),
    DataCopy(BufferTooLarge),
}

impl ImageFromShmFailureStep<ShmError> {
    /// The message that is shown for the error.
    pub open spec fn message(self) -> Seq<char> {
        match self {
            ImageFromShmFailureStep::ShmCreation(e) => {
                "Couldn't create the shm: "@ + e@.message()
            },
            ImageFromShmFailureStep::DataCopy(_) => {
                "Couldn't copy over the provided image data into the shm: "@
                    + "Provided buffer is too large to fit"@
            },
        }
    }

    /// The message that is shown for the error.
    pub fn to_text(&self) -> (r: String)
        ensures
            r@ == self.message(),
    {
        match self {
            ImageFromShmFailureStep::ShmCreation(e) => {
                "Couldn't create the shm: ".to_owned().concat(e.to_text().as_str())
            },
            ImageFromShmFailureStep::DataCopy(e) => {
                "Couldn't copy over the provided image data into the shm: ".to_owned().concat(
                    e.to_text().as_str(),
                )
            },
        }
    }
}

impl Image {
    /// The format and the bytes in which an image is sent: three bytes for each pixel, or four
    /// where it has alpha.
    pub fn fmt_and_data_from(image: DynamicImage) -> (r: (PixelFormat, Vec<u8>))
        ensures
            r.0 == image.spec_format(),
            r.1@ == image.spec_data(),
    {
        image.into_format_and_data()
    }

    /// Whether the image is sent inside the request, in chunks of the default size, under the
    /// number one, with these pixels.
    pub open spec fn is_sent_inside(self, value: DynamicImage) -> bool {
        &&& self.num_or_id matches NumberOrId::Number(n) && n@ == 1
        &&& self.format == value.spec_format()
        &&& self.medium matches Medium::Direct { chunk_size: Some(size), data } && size@ == 1024
            && data@ == value.spec_data()
    }

    /// Whether the image is sent through the shared memory object `name`, under the number one,
    /// with these pixels.
    pub open spec fn is_sent_through(self, value: DynamicImage, name: Seq<char>) -> bool {
        &&& self.num_or_id matches NumberOrId::Number(n) && n@ == 1
        &&& self.format == value.spec_format()
        &&& self.medium matches Medium::SharedMemObject(obj) && obj.spec_name() == name
            && obj.spec_map() == value.spec_data()
    }

    /// An image that is sent inside the request, in chunks of the default size, under the number
    /// one.
    pub fn from_dynamic(value: DynamicImage) -> (r: Image)
        ensures
            r.is_sent_inside(value),
            r.num_or_id matches NumberOrId::Number(n) && n@ == 1,
            r.format == value.spec_format(),
            r.medium matches Medium::Direct { chunk_size: Some(size), data } && size@ == 1024
                && data@ == value.spec_data(),
    {
        let (format, data) = Image::fmt_and_data_from(value);
        Image {
            num_or_id: NumberOrId::Number(ImageId::from_nonzero(1)),
            format,
            medium: Medium::Direct { chunk_size: Some(ChunkSize::default()), data },
        }
    }

    /// An image that is sent through the shared memory object `name`, under the number one.
    /// `failure` is the step at which the system failed to create the object, if it did; the
    /// object is as large as the data, so that copying never fails.
    pub fn shm_from(
        image: DynamicImage,
        name: &str,
        failure: Option<(ShmCreationFailureStep, String)>,
    ) -> (r: Result<Image, ImageFromShmFailureStep<ShmError>>)
        ensures
            r matches Ok(i) ==> i.is_sent_through(image, name@),
            match r {
                Ok(i) => failure is None && (i.num_or_id matches NumberOrId::Number(n) && n@ == 1)
                    && i.format == image.spec_format() && (
                i.medium matches Medium::SharedMemObject(obj) && obj.spec_name() == name@
                    && obj.spec_map() == image.spec_data()),
                Err(ImageFromShmFailureStep::ShmCreation(e)) => failure matches Some(f) && e.step
                    == f.0 && e.err == f.1,
                Err(ImageFromShmFailureStep::DataCopy(_)) => false,
            },
    {
        let (format, data) = Image::fmt_and_data_from(image);
        let mut obj = match SharedMemObject::create_new(name, data.len(), failure) {
            Ok(obj) => obj,
            Err(e) => return Err(ImageFromShmFailureStep::ShmCreation(e)),
        };
        if let Err(e) = obj.copy_in_buf(data.as_slice()) {
            return Err(ImageFromShmFailureStep::DataCopy(e));
        }
        assert(obj.spec_map() =~= data@);
        Ok(
            Image {
                num_or_id: NumberOrId::Number(ImageId::from_nonzero(1)),
                format,
                medium: Medium::SharedMemObject(obj),
            },
        )
    }
}

/// Data that is sent whole reaches the terminal, behind the mark of data that is sent inside the
/// request.
pub proof fn lemma_whole_reaches_terminal(data: Vec<u8>, later: Seq<u8>)
    ensures
        ({
            let bytes = (Medium::Direct { chunk_size: None, data }).bytes();
            let start = text(",t=d;").len() as int;
            &&& bytes.take(start) == text(",t=d;")
            &&& packet_payload(bytes.skip(start) + text("\x1b\\") + later) matches Some(
                (payload, rest),
            ) && b64_decoded(payload) == data@ && rest == later
        }),
{
    let bytes = (Medium::Direct { chunk_size: None, data }).bytes();
    let start = text(",t=d;");
    assert(bytes.take(start.len() as int) =~= start);
    assert(bytes.skip(start.len() as int) =~= b64(data@));
    lemma_terminal_gets_whole(data@, later);
}

/// The name of a shared memory object reaches the terminal, behind the mark of shared memory, and
/// its data stays where it is.
pub proof fn lemma_name_reaches_terminal(obj: SharedMemObject, later: Seq<u8>)
    ensures
        ({
            let bytes = Medium::SharedMemObject(obj).bytes();
            let start = text(",t=s;").len() as int;
            &&& bytes.take(start) == text(",t=s;")
            &&& packet_payload(bytes.skip(start) + text("\x1b\\") + later) matches Some(
                (payload, rest),
            ) && b64_decoded(payload) == encode_utf8(obj.spec_name()) && rest == later
        }),
{
    let bytes = Medium::SharedMemObject(obj).bytes();
    let start = text(",t=s;");
    let name = encode_utf8(obj.spec_name());
    assert(bytes.take(start.len() as int) =~= start);
    assert(bytes.skip(start.len() as int) =~= b64(name));
    lemma_terminal_gets_whole(name, later);
}

/// The pixels of an image reach the terminal, whichever way it is sent: inside the request the
/// terminal reads them out of the chunks, and in shared memory they lie in full under the name
/// that the terminal reads. Either way the format is that of the pixels.
pub proof fn lemma_pixels_reach_terminal(
    inside: Image,
    through: Image,
    value: DynamicImage,
    name: Seq<char>,
    later: Seq<u8>,
)
    requires
        inside.is_sent_inside(value),
        through.is_sent_through(value, name),
        value.spec_data().len() > 0,
    ensures
        received(inside.medium.bytes().skip(text(",t=d,").len() as int) + later, true) == Some(
            (value.spec_data(), later),
        ),
        packet_payload(
            through.medium.bytes().skip(text(",t=s;").len() as int) + text("\x1b\\") + later,
        ) matches Some((payload, rest)) && b64_decoded(payload) == encode_utf8(name) && rest
            == later,
        through.medium matches Medium::SharedMemObject(obj) && obj.spec_map()
            == value.spec_data(),
        inside.format.dimensions().width == value.spec_width(),
        inside.format.dimensions().height == value.spec_height(),
        inside.format is Rgba32 <==> value.spec_pixels() is Alpha,
        through.format == inside.format,
{
    if let Medium::Direct { chunk_size: Some(size), data } = inside.medium {
        lemma_medium_reaches_terminal(size, data, later);
    }
    if let Medium::SharedMemObject(obj) = through.medium {
        lemma_name_reaches_terminal(obj, later);
    }
}

} // verus!
