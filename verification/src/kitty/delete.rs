//! Taking images off the screen.

use vstd::prelude::*;
use vstd::utf8::encode_utf8;

use crate::kitty::id::ImageId;
use crate::kitty::id::PlacementId;
use crate::text::decimal;
use crate::text::digits;
use crate::text::push_text;
use crate::text::text;

verus! {

broadcast use {crate::text::lemma_append, crate::text::lemma_append_nothing};

/// Whether an image is only taken off the screen or its data freed too.
#[derive(Clone, Copy, Debug, PartialEq, Eq, Structural)]
pub enum ClearOrDelete {
    Clear,
    Delete,
}

/// The upper-case form of an ASCII letter; any other character is its own.
pub open spec fn ascii_upper(c: char) -> char {
    if 'a' <= c <= 'z' {
        (c as u32 - 32) as char
    } else {
        c
    }
}

impl ClearOrDelete {
    /// The key of a target: in upper case where data is to be freed.
    pub open spec fn spec_maybe_upper(self, c: char) -> char {
        match self {
            ClearOrDelete::Delete => ascii_upper(c),
            ClearOrDelete::Clear => c,
        }
    }

    /// The key of a target: in upper case where data is to be freed.
    pub fn maybe_upper(self, c: char) -> (r: char)
        ensures
            r == self.spec_maybe_upper(c),
    {
        match self {
            ClearOrDelete::Delete => {
                if 'a' <= c && c <= 'z' {
                    (c as u8 - 32) as char
                } else {
                    c
                }
            },
            ClearOrDelete::Clear => c,
        }
    }
}

/// What is to be taken off the screen: one image, or one placement of it, or all images with
/// identifiers from the first to the second.
#[derive(Clone, Copy, Debug, PartialEq, Eq, Structural)]
pub enum WhichToDelete {
    ImageId(ImageId, Option<PlacementId>),
    IdRange(ImageId, ImageId),
}

/// A request to take images off the screen.
#[derive(Clone, Copy, Debug, PartialEq, Eq, Structural)]
pub struct DeleteConfig {
    pub effect: ClearOrDelete,
    pub which: WhichToDelete,
}

impl DeleteConfig {
    /// The rest of the packet behind its action.
    pub open spec fn bytes(self) -> Seq<u8> {
        text(",d=") + (match self.which {
            WhichToDelete::ImageId(image_id, placement_id) => {
                encode_utf8(seq![self.effect.spec_maybe_upper('i')]) + text(",i=") + encode_utf8(
                    digits(image_id@ as nat),
                ) + (match placement_id {
                    Some(p) => text(",p=") + encode_utf8(digits(p@ as nat)),
                    None => Seq::empty(),
                })
            },
            WhichToDelete::IdRange(start, end) => {
                encode_utf8(seq![self.effect.spec_maybe_upper('r')]) + text(",x=") + encode_utf8(
                    digits(start@ as nat),
                ) + text(",y=") + encode_utf8(digits(end@ as nat))
            },
        }) + text("\x1b\\")
    }

    /// Appends the rest of the packet behind its action.
    pub fn write_to(&self, buf: &mut Vec<u8>)
        ensures
            final(buf)@ == old(buf)@ + self.bytes(),
    {
        push_text(buf, ",d=");
        let mut key = String::new();
        match self.which {
            WhichToDelete::ImageId(image_id, placement_id) => {
                key.push(self.effect.maybe_upper('i'));
                assert(key@ =~= seq![self.effect.spec_maybe_upper('i')]);
                push_text(buf, key.as_str());
                push_text(buf, ",i=");
                push_text(buf, decimal(image_id.get() as u128).as_str());
                if let Some(placement_id) = placement_id {
                    push_text(buf, ",p=");
                    push_text(buf, decimal(placement_id.get() as u128).as_str());
                }
            },
            WhichToDelete::IdRange(start, end) => {
                key.push(self.effect.maybe_upper('r'));
                assert(key@ =~= seq![self.effect.spec_maybe_upper('r')]);
                push_text(buf, key.as_str());
                push_text(buf, ",x=");
                push_text(buf, decimal(start.get() as u128).as_str());
                push_text(buf, ",y=");
                push_text(buf, decimal(end.get() as u128).as_str());
            },
        }
        push_text(buf, "\x1b\\");
    }
}

} // verus!
