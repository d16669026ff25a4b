//! Identifiers of images and placements.

use vstd::prelude::*;

use crate::text::decimal;
use crate::text::digits;

verus! {

/// A number that names an image or a placement; it is never zero.
#[derive(Clone, Copy, Debug, PartialEq, Eq, Structural)]
pub struct ImageId {
    value: u32,
}

/// Placements are named by the same kind of number as images.
pub type PlacementId = ImageId;

impl View for ImageId {
    type V = u32;

    closed spec fn view(&self) -> u32 {
        self.value
    }
}

impl ImageId {
    #[verifier::type_invariant]
    spec fn is_nonzero(self) -> bool {
        self.value != 0
    }

    /// The identifier with this value, unless the value is zero.
    pub fn new(value: u32) -> (r: Option<ImageId>)
        ensures
            match r {
                Some(id) => value != 0 && id@ == value,
                None => value == 0,
            },
    {
        if value == 0 {
            None
        } else {
            Some(ImageId { value })
        }
    }

    /// The identifier with this value.
    pub fn from_nonzero(value: u32) -> (r: ImageId)
        requires
            value != 0,
        ensures
            r@ == value,
    {
        ImageId { value }
    }

    /// The value of the identifier.
    pub fn get(self) -> (r: u32)
        ensures
            r == self@,
            r != 0,
    {
        proof {
            use_type_invariant(&self);
        }
        self.value
    }
}

/// The identifier with a value.
pub closed spec fn id_of(value: u32) -> ImageId {
    ImageId { value }
}

/// An identifier has the value that it was made with, and is known by it.
pub broadcast proof fn lemma_id_of(value: u32)
    ensures
        (#[trigger] id_of(value))@ == value,
{
}

/// Two identifiers with the same value are the same identifier.
pub proof fn lemma_same_id(a: ImageId, b: ImageId)
    requires
        a@ == b@,
    ensures
        a == b,
{
}

/// How a request names its image: by a number of the client's, for which the terminal picks an
/// identifier, or by an identifier.
#[derive(Clone, Copy, Debug, PartialEq, Eq, Structural)]
pub enum NumberOrId {
    Number(ImageId),
    Id(ImageId),
}

/// The kinds of identifier that a response can carry.
#[derive(Clone, Copy, Debug, PartialEq, Eq, Structural)]
pub enum IdentifierType {
    ImageId,
    ImageNumber,
    PlacementId,
}

impl IdentifierType {
    /// The name of the kind, as messages show it.
    pub open spec fn spec_name(self) -> Seq<char> {
        match self {
            IdentifierType::ImageId => "ImageId"@,
            IdentifierType::ImageNumber => "ImageNumber"@,
            IdentifierType::PlacementId => "PlacementId"@,
        }
    }

    /// The name of the kind, as messages show it.
    pub fn name(self) -> (r: &'static str)
        ensures
            r@ == self.spec_name(),
    {
        match self {
            IdentifierType::ImageId => "ImageId",
            IdentifierType::ImageNumber => "ImageNumber",
            IdentifierType::PlacementId => "PlacementId",
        }
    }
}

/// What a response was expected to name: anything, or one value.
#[derive(Debug, PartialEq, Eq)]
pub enum AnyValueOrSpecific<T> {
    Any,
    Specific(T),
}

impl AnyValueOrSpecific<ImageId> {
    /// The text that messages show for the expectation.
    pub open spec fn spec_text(self) -> Seq<char> {
        match self {
            AnyValueOrSpecific::Any => "<any value>"@,
            AnyValueOrSpecific::Specific(val) => digits(val@ as nat),
        }
    }

    /// The text that messages show for the expectation.
    pub fn to_text(&self) -> (r: String)
        ensures
            r@ == self.spec_text(),
    {
        match self {
            AnyValueOrSpecific::Any => "<any value>".to_owned(),
            AnyValueOrSpecific::Specific(val) => decimal(val.get() as u128),
        }
    }
}

} // verus!
