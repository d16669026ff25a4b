//! Requests to the terminal.

use vstd::prelude::*;
use vstd::utf8::encode_utf8;

use crate::kitty::delete::DeleteConfig;
use crate::kitty::display::DisplayConfig;
use crate::kitty::id::ImageId;
use crate::kitty::id::NumberOrId;
use crate::kitty::id::PlacementId;
use crate::kitty::image::Image;
use crate::kitty::image::Verbosity;
use crate::text::decimal;
use crate::text::digits;
use crate::text::push_text;
use crate::text::text;

verus! {

broadcast use {crate::text::lemma_append, crate::text::lemma_append_nothing};

/// A request: to show an image that the terminal has, to send an image and show it, to ask
/// whether an image could be sent, or to take images off the screen.
#[allow(inconsistent_fields)]
#[derive(Debug, PartialEq)]
pub enum Action<'image> {
    Display { image_id: ImageId, placement_id: PlacementId, config: DisplayConfig },
    TransmitAndDisplay { image: Image, config: DisplayConfig, placement_id: Option<PlacementId> },
    Query(&'image Image),
    Delete(DeleteConfig),
}

impl<'image> Action<'image> {
    /// The packets of the request.
    pub open spec fn bytes(self, verbosity: Verbosity) -> Seq<u8> {
        text("\x1b_Ga=") + (match self {
            Action::TransmitAndDisplay { image, config, placement_id } => {
                text("T,") + image.bytes(placement_id, Some(config), verbosity)
            },
            Action::Query(image) => text("q,") + image.bytes(None, None, verbosity),
            Action::Display { image_id, placement_id, config } => {
                text("p,i=") + encode_utf8(digits(image_id@ as nat)) + text(",p=") + encode_utf8(
                    digits(placement_id@ as nat),
                ) + config.bytes() + text("\x1b\\")
            },
            Action::Delete(delete) => text("d") + delete.bytes(),
        })
    }

    /// Appends the packets of the request.
    pub fn write_transmit_to(&self, buf: &mut Vec<u8>, verbosity: Verbosity)
        ensures
            final(buf)@ == old(buf)@ + self.bytes(verbosity),
    {
        push_text(buf, "\x1b_Ga=");
        match self {
            Action::TransmitAndDisplay { image, config, placement_id } => {
                push_text(buf, "T,");
                image.write_transmit_to(buf, *placement_id, Some(config), verbosity);
            },
            Action::Query(image) => {
                push_text(buf, "q,");
                image.write_transmit_to(buf, None, None, verbosity);
            },
            Action::Display { image_id, placement_id, config } => {
                push_text(buf, "p,i=");
                push_text(buf, decimal(image_id.get() as u128).as_str());
                push_text(buf, ",p=");
                push_text(buf, decimal(placement_id.get() as u128).as_str());
                config.write_to(buf);
                push_text(buf, "\x1b\\");
            },
            Action::Delete(delete) => {
                push_text(buf, "d");
                delete.write_to(buf);
            },
        }
    }

    /// What the response to the request has to name; nothing for a request that gets none.
    pub open spec fn spec_num_or_id_and_placement(self) -> Option<
        (NumberOrId, Option<PlacementId>),
    > {
        match self {
            Action::TransmitAndDisplay { image, placement_id, .. } => Some(
                (image.num_or_id, placement_id),
            ),
            Action::Query(image) => Some((image.num_or_id, None)),
            Action::Display { image_id, placement_id, .. } => Some(
                (NumberOrId::Id(image_id), Some(placement_id)),
            ),
            Action::Delete(_) => None,
        }
    }

    /// What the response to the request has to name; nothing for a request that gets none.
    pub fn extract_num_or_id_and_placement(&self) -> (r: Option<(NumberOrId, Option<PlacementId>)>)
        ensures
            r == self.spec_num_or_id_and_placement(),
    {
        match self {
            Action::TransmitAndDisplay { image, placement_id, .. } => Some(
                (image.num_or_id, *placement_id),
            ),
            Action::Query(image) => Some((image.num_or_id, None)),
            Action::Display { image_id, placement_id, .. } => Some(
                (NumberOrId::Id(*image_id), Some(*placement_id)),
            ),
            Action::Delete(_) => None,
        }
    }
}

} // verus!
