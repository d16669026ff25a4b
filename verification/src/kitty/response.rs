//! The response of the terminal to a request.

use vstd::prelude::*;
use vstd::slice::slice_subrange;

use crate::kitty::error::terminal_error;
use crate::kitty::error::ParseError;
use crate::kitty::error::TerminalError;
use crate::kitty::error::TransmitError;
use crate::kitty::id::AnyValueOrSpecific;
use crate::kitty::id::IdentifierType;
use crate::kitty::id::ImageId;
use crate::kitty::id::NumberOrId;
use crate::kitty::id::PlacementId;
use crate::text::chars_of;
use crate::text::digits;
use crate::text::is_digit;
use crate::text::lemma_decimal_round_trip;
use crate::text::lemma_digits_are_digits;
use crate::text::lemma_pieces_concat;
use crate::text::lemma_pieces_nonempty;
use crate::text::lemma_pieces_single;
use crate::text::parse_unsigned;
use crate::text::parsed_unsigned;
use crate::text::pieces;
use crate::text::same_text;
use crate::text::split;
use crate::text::string_of;
use crate::text::texts;

verus! {

/// Whether a text starts with the mark of a graphics response.
pub open spec fn starts_response(s: Seq<char>) -> bool {
    s.len() >= 2 && s[0] == '_' && s[1] == 'G'
}

/// What is left of a text behind its marks, however often the mark is repeated.
pub open spec fn behind_marks(s: Seq<char>) -> Seq<char>
    decreases s.len(),
{
    if starts_response(s) {
        behind_marks(s.skip(2))
    } else {
        s
    }
}

/// The identifier that a text stands for: a decimal number from 1 to the largest `u32`.
pub open spec fn parsed_id(s: Seq<char>) -> Option<u32> {
    match parsed_unsigned(s, u32::MAX as nat) {
        Some(v) => if v != 0 {
            Some(v as u32)
        } else {
            None
        },
        None => None,
    }
}

/// The identifiers that a response was seen to name.
pub struct FoundIds {
    pub image_id: Option<u32>,
    pub placement_id: Option<u32>,
    pub image_number: Option<u32>,
}

/// The value of an optional identifier.
pub open spec fn id_value(id: Option<ImageId>) -> Option<u32> {
    match id {
        Some(i) => Some(i@),
        None => None,
    }
}

/// The identifier that an option of a response names, held against the one that was sent. A kind
/// that was not sent may come back only for images, whose identifier the terminal may pick.
pub open spec fn checked_id(
    expected: Option<ImageId>,
    value: Option<Seq<char>>,
    ty: IdentifierType,
) -> Result<Option<u32>, ParseError<Seq<char>>> {
    match (expected, value) {
        (Some(e), Some(found)) => if parsed_id(found) == Some(e@) {
            Ok(Some(e@))
        } else {
            Err(
                ParseError::DifferentIdInResponse {
                    ty,
                    found,
                    expected: AnyValueOrSpecific::Specific(e),
                },
            )
        },
        (Some(_), None) => Err(ParseError::NoResponseId { ty }),
        (None, Some(found)) => if ty == IdentifierType::ImageId {
            match parsed_id(found) {
                Some(v) => Ok(Some(v)),
                None => Err(
                    ParseError::DifferentIdInResponse {
                        ty,
                        found,
                        expected: AnyValueOrSpecific::Any,
                    },
                ),
            }
        } else {
            Err(ParseError::IdInResponseButNotInRequest { ty, value: found })
        },
        (None, None) => Ok(None),
    }
}

/// The identifier by which the request named its image.
pub open spec fn sent_id(image: NumberOrId) -> Option<ImageId> {
    match image {
        NumberOrId::Id(i) => Some(i),
        NumberOrId::Number(_) => None,
    }
}

/// The number by which the request named its image.
pub open spec fn sent_number(image: NumberOrId) -> Option<ImageId> {
    match image {
        NumberOrId::Id(_) => None,
        NumberOrId::Number(i) => Some(i),
    }
}

/// What one option of a response adds to the identifiers found so far. An option is a key, and a
/// value behind an equals sign; an empty option adds nothing.
pub open spec fn option_found(
    option: Seq<char>,
    image: NumberOrId,
    placement_id: Option<PlacementId>,
    found: FoundIds,
) -> Result<FoundIds, ParseError<Seq<char>>> {
    let parts = pieces(option, '=');
    let key = parts[0];
    let value = if parts.len() > 1 {
        Some(parts[1])
    } else {
        None
    };
    if option.len() == 0 {
        Ok(found)
    } else if key == "i"@ {
        match checked_id(sent_id(image), value, IdentifierType::ImageId) {
            Ok(image_id) => Ok(FoundIds { image_id, ..found }),
            Err(e) => Err(e),
        }
    } else if key == "p"@ {
        match checked_id(placement_id, value, IdentifierType::PlacementId) {
            Ok(placement_id) => Ok(FoundIds { placement_id, ..found }),
            Err(e) => Err(e),
        }
    } else if key == "I"@ {
        match checked_id(sent_number(image), value, IdentifierType::ImageNumber) {
            Ok(image_number) => Ok(FoundIds { image_number, ..found }),
            Err(e) => Err(e),
        }
    } else {
        Err(ParseError::UnknownResponseKey(key))
    }
}

/// What all options of a response add, from the first to the last; the first error stands.
pub open spec fn options_found(
    options: Seq<Seq<char>>,
    image: NumberOrId,
    placement_id: Option<PlacementId>,
    found: FoundIds,
) -> Result<FoundIds, ParseError<Seq<char>>>
    decreases options.len(),
{
    if options.len() == 0 {
        Ok(found)
    } else {
        match option_found(options[0], image, placement_id, found) {
            Ok(f) => options_found(options.drop_first(), image, placement_id, f),
            Err(e) => Err(e),
        }
    }
}

/// The first error among identifiers that were sent and did not come back.
pub open spec fn missing_id(
    found: FoundIds,
    image: NumberOrId,
    placement_id: Option<PlacementId>,
) -> Option<ParseError<Seq<char>>> {
    if found.image_id is None {
        Some(
            ParseError::MissingId {
                ty: IdentifierType::ImageId,
                val: match image {
                    NumberOrId::Id(i) => AnyValueOrSpecific::Specific(i),
                    NumberOrId::Number(_) => AnyValueOrSpecific::Any,
                },
            },
        )
    } else if found.placement_id is None && placement_id is Some {
        Some(
            ParseError::MissingId {
                ty: IdentifierType::PlacementId,
                val: AnyValueOrSpecific::Specific(placement_id->0),
            },
        )
    } else if found.image_number is None && sent_number(image) is Some {
        Some(
            ParseError::MissingId {
                ty: IdentifierType::ImageNumber,
                val: AnyValueOrSpecific::Specific(sent_number(image)->0),
            },
        )
    } else {
        None
    }
}

/// What the message of a response says: success, or a code and a reason with a colon between
/// them.
pub open spec fn outcome(message: Seq<char>, image_id: u32) -> Result<
    Result<u32, TerminalError<Seq<char>>>,
    ParseError<Seq<char>>,
> {
    let parts = pieces(message, ':');
    if message == "OK"@ || message == "OK\n"@ {
        Ok(Ok(image_id))
    } else if parts.len() < 2 {
        Err(ParseError::MalformedError(message))
    } else {
        match terminal_error(parts[0], parts[1]) {
            Some(e) => Ok(Err(e)),
            None => Err(ParseError::UnknownErrorCode { code: parts[0], reason: parts[1] }),
        }
    }
}

/// What the options and the message of a response say.
pub open spec fn parsed_parts(
    options: Seq<Seq<char>>,
    message: Seq<char>,
    image: NumberOrId,
    placement_id: Option<PlacementId>,
) -> Result<Result<u32, TerminalError<Seq<char>>>, ParseError<Seq<char>>> {
    let nothing = FoundIds { image_id: None, placement_id: None, image_number: None };
    match options_found(options, image, placement_id, nothing) {
        Err(e) => Err(e),
        Ok(found) => match missing_id(found, image, placement_id) {
            Some(e) => Err(e),
            None => outcome(message, found.image_id->0),
        },
    }
}

/// What a response says of a request that named `image` and `placement_id`: the mark, options
/// with commas between them, a semicolon and a message.
pub open spec fn parsed_response(
    output: Seq<char>,
    image: NumberOrId,
    placement_id: Option<PlacementId>,
) -> Result<Result<u32, TerminalError<Seq<char>>>, ParseError<Seq<char>>> {
    let parts = pieces(behind_marks(output), ';');
    if !starts_response(output) {
        Err(ParseError::NoStartSequence(output))
    } else if parts.len() < 2 {
        Err(ParseError::NoFinalSemicolon)
    } else {
        parsed_parts(pieces(parts[0], ','), parts[1], image, placement_id)
    }
}

/// Reads an identifier.
fn parse_id(chars: &[char]) -> (r: Option<ImageId>)
    ensures
        id_value(r) == parsed_id(chars@),
{
    match parse_unsigned(chars, u32::MAX as u64) {
        Some(v) => ImageId::new(v as u32),
        None => None,
    }
}

/// Holds the identifier that an option names against the one that was sent.
fn check_next_id(
    expected: Option<ImageId>,
    value: Option<&Vec<char>>,
    ty: IdentifierType,
) -> (r: Result<Option<ImageId>, ParseError>)
    ensures
        checked_id(
            expected,
            match value {
                Some(v) => Some(v@),
                None => None,
            },
            ty,
        ) == (match r {
            Ok(id) => Ok(id_value(id)),
            Err(e) => Err(e@),
        }),
{
    match (expected, value) {
        (Some(expected), Some(found)) => {
            let id = parse_id(found.as_slice());
            if let Some(i) = id {
                if i.get() == expected.get() {
                    return Ok(Some(i));
                }
            }
            Err(
                ParseError::DifferentIdInResponse {
                    ty,
                    found: string_of(found.as_slice()),
                    expected: AnyValueOrSpecific::Specific(expected),
                },
            )
        },
        (Some(_), None) => Err(ParseError::NoResponseId { ty }),
        (None, Some(found)) => {
            if ty == IdentifierType::ImageId {
                match parse_id(found.as_slice()) {
                    Some(i) => Ok(Some(i)),
                    None => Err(
                        ParseError::DifferentIdInResponse {
                            ty,
                            found: string_of(found.as_slice()),
                            expected: AnyValueOrSpecific::Any,
                        },
                    ),
                }
            } else {
                Err(
                    ParseError::IdInResponseButNotInRequest {
                        ty,
                        value: string_of(found.as_slice()),
                    },
                )
            }
        },
        (None, None) => Ok(None),
    }
}

/// The identifiers found so far, as identifiers.
struct Ids {
    image_id: Option<ImageId>,
    placement_id: Option<ImageId>,
    image_number: Option<ImageId>,
}

impl View for Ids {
    type V = FoundIds;

    closed spec fn view(&self) -> FoundIds {
        FoundIds {
            image_id: id_value(self.image_id),
            placement_id: id_value(self.placement_id),
            image_number: id_value(self.image_number),
        }
    }
}

/// Adds what one option names.
fn read_option(
    option: &Vec<char>,
    image: NumberOrId,
    placement_id: Option<PlacementId>,
    found: Ids,
) -> (r: Result<Ids, ParseError>)
    ensures
        option_found(option@, image, placement_id, found@) == (match r {
            Ok(f) => Ok(f@),
            Err(e) => Err(e@),
        }),
{
    if option.len() == 0 {
        return Ok(found);
    }
    let parts = split(option.as_slice(), '=');
    proof {
        lemma_pieces_nonempty(option@, '=');
        assert(texts(parts@).len() == parts@.len());
        assert(texts(parts@)[0] == parts@[0]@);
    }
    let value: Option<&Vec<char>> = if parts.len() > 1 {
        assert(texts(parts@)[1] == parts@[1]@);
        Some(&parts[1])
    } else {
        None
    };
    let key = parts[0].as_slice();
    if same_text(key, "i") {
        let expected = match image {
            NumberOrId::Id(i) => Some(i),
            NumberOrId::Number(_) => None,
        };
        match check_next_id(expected, value, IdentifierType::ImageId) {
            Ok(image_id) => Ok(Ids { image_id, ..found }),
            Err(e) => Err(e),
        }
    } else if same_text(key, "p") {
        match check_next_id(placement_id, value, IdentifierType::PlacementId) {
            Ok(placement_id) => Ok(Ids { placement_id, ..found }),
            Err(e) => Err(e),
        }
    } else if same_text(key, "I") {
        let expected = match image {
            NumberOrId::Id(_) => None,
            NumberOrId::Number(i) => Some(i),
        };
        match check_next_id(expected, value, IdentifierType::ImageNumber) {
            Ok(image_number) => Ok(Ids { image_number, ..found }),
            Err(e) => Err(e),
        }
    } else {
        Err(ParseError::UnknownResponseKey(string_of(key)))
    }
}

/// Reads the options of a response from the first to the last.
fn read_options(
    options: &Vec<Vec<char>>,
    image: NumberOrId,
    placement_id: Option<PlacementId>,
) -> (r: Result<Ids, ParseError>)
    ensures
        options_found(
            texts(options@),
            image,
            placement_id,
            (FoundIds { image_id: None, placement_id: None, image_number: None }),
        ) == (match r {
            Ok(f) => Ok(f@),
            Err(e) => Err(e@),
        }),
{
    let mut found = Ids { image_id: None, placement_id: None, image_number: None };
    let ghost all = texts(options@);
    let ghost nothing = FoundIds { image_id: None, placement_id: None, image_number: None };
    let mut i: usize = 0;
    assert(all.skip(0) =~= all);
    while i < options.len()
        invariant
            i <= options@.len(),
            all == texts(options@),
            nothing == (FoundIds { image_id: None, placement_id: None, image_number: None }),
            options_found(all.skip(i as int), image, placement_id, found@) == options_found(
                all,
                image,
                placement_id,
                nothing,
            ),
        decreases options.len() - i,
    {
        let ghost rest = all.skip(i as int);
        assert(rest[0] == options@[i as int]@);
        assert(rest.drop_first() =~= all.skip(i + 1));
        match read_option(&options[i], image, placement_id, found) {
            Ok(f) => {
                found = f;
            },
            Err(e) => return Err(e),
        }
        i += 1;
    }
    Ok(found)
}

/// The first error among identifiers that were sent and did not come back.
fn find_missing_id(found: &Ids, image: NumberOrId, placement_id: Option<PlacementId>) -> (r: Option<
    ParseError,
>)
    ensures
        missing_id(found@, image, placement_id) == (match r {
            Some(e) => Some(e@),
            None => None,
        }),
{
    if found.image_id.is_none() {
        let val = match image {
            NumberOrId::Id(i) => AnyValueOrSpecific::Specific(i),
            NumberOrId::Number(_) => AnyValueOrSpecific::Any,
        };
        return Some(ParseError::MissingId { ty: IdentifierType::ImageId, val });
    }
    if let Some(id) = placement_id {
        if found.placement_id.is_none() {
            return Some(
                ParseError::MissingId {
                    ty: IdentifierType::PlacementId,
                    val: AnyValueOrSpecific::Specific(id),
                },
            );
        }
    }
    if let NumberOrId::Number(number) = image {
        if found.image_number.is_none() {
            return Some(
                ParseError::MissingId {
                    ty: IdentifierType::ImageNumber,
                    val: AnyValueOrSpecific::Specific(number),
                },
            );
        }
    }
    None
}

/// Reads the message of a response.
fn read_outcome(message: &Vec<char>, image_id: ImageId) -> (r: Result<
    Result<ImageId, TerminalError>,
    ParseError,
>)
    ensures
        outcome(message@, image_id@) == outcome_view(r),
{
    if same_text(message.as_slice(), "OK") || same_text(message.as_slice(), "OK\n") {
        return Ok(Ok(image_id));
    }
    let parts = split(message.as_slice(), ':');
    assert(texts(parts@).len() == parts@.len());
    if parts.len() < 2 {
        return Err(ParseError::MalformedError(string_of(message.as_slice())));
    }
    assert(texts(parts@)[0] == parts@[0]@);
    assert(texts(parts@)[1] == parts@[1]@);
    let code = string_of(parts[0].as_slice());
    let reason = string_of(parts[1].as_slice());
    match TerminalError::try_from((code.as_str(), reason.as_str())) {
        Ok(e) => Ok(Err(e)),
        Err(unknown) => Err(ParseError::UnknownErrorCode { code: unknown.0.to_owned(), reason }),
    }
}

/// The parsed response, with texts for strings and values for identifiers.
pub open spec fn outcome_view(r: Result<Result<ImageId, TerminalError>, ParseError>) -> Result<
    Result<u32, TerminalError<Seq<char>>>,
    ParseError<Seq<char>>,
> {
    match r {
        Ok(Ok(id)) => Ok(Ok(id@)),
        Ok(Err(e)) => Ok(Err(e@)),
        Err(e) => Err(e@),
    }
}

/// Reads the response to a request that named `image` and `placement_id`: the identifier of the
/// image, the error that the terminal reports, or why the response could not be understood.
pub fn parse_response(
    output: String,
    image: NumberOrId,
    placement_id: Option<PlacementId>,
) -> (r: Result<Result<ImageId, TerminalError>, ParseError>)
    ensures
        outcome_view(r) == parsed_response(output@, image, placement_id),
{
    let chars = chars_of(output.as_str());
    let mut start: usize = 0;
    assert(chars@.skip(0) =~= chars@);
    while chars.len() - start >= 2 && chars[start] == '_' && chars[start + 1] == 'G'
        invariant
            start <= chars@.len(),
            behind_marks(chars@.skip(start as int)) == behind_marks(chars@),
            start > 0 ==> starts_response(chars@),
        decreases chars.len() - start,
    {
        assert(chars@.skip(start as int).skip(2) =~= chars@.skip(start + 2));
        assert(starts_response(chars@.skip(start as int)));
        start += 2;
    }
    if start == 0 {
        return Err(ParseError::NoStartSequence(output));
    }
    assert(!starts_response(chars@.skip(start as int)));
    let input = slice_subrange(chars.as_slice(), start, chars.len());
    assert(input@ =~= chars@.skip(start as int));
    let parts = split(input, ';');
    assert(texts(parts@).len() == parts@.len());
    if parts.len() < 2 {
        return Err(ParseError::NoFinalSemicolon);
    }
    assert(texts(parts@)[0] == parts@[0]@);
    assert(texts(parts@)[1] == parts@[1]@);
    let options = split(parts[0].as_slice(), ',');
    let found = match read_options(&options, image, placement_id) {
        Ok(found) => found,
        Err(e) => return Err(e),
    };
    if let Some(e) = find_missing_id(&found, image, placement_id) {
        return Err(e);
    }
    match found.image_id {
        Some(image_id) => read_outcome(&parts[1], image_id),
        None => Err(ParseError::NoResponseId { ty: IdentifierType::ImageId }),
    }
}

/// What comes of reading a response: the identifier of the image, or what went wrong.
pub open spec fn read_response<E>(
    read: Result<Seq<char>, E>,
    image: NumberOrId,
    placement_id: Option<PlacementId>,
) -> Result<u32, TransmitError<E, Seq<char>>> {
    match read {
        Err(e) => Err(TransmitError::ReadingInput(e)),
        Ok(output) => match parsed_response(output, image, placement_id) {
            Err(e) => Err(TransmitError::ParsingResponse(e)),
            Ok(Err(e)) => Err(TransmitError::Terminal(e)),
            Ok(Ok(id)) => Ok(id),
        },
    }
}

/// The result of reading a response: the identifier of the image, or what went wrong.
pub fn read_parse_response<E>(
    read: Result<String, E>,
    image: NumberOrId,
    placement_id: Option<PlacementId>,
) -> (r: Result<ImageId, TransmitError<E>>)
    ensures
        (match r {
            Ok(id) => Ok(id@),
            Err(e) => Err(e@),
        }) == read_response(
            (match read {
                Ok(s) => Ok(s@),
                Err(e) => Err(e),
            }),
            image,
            placement_id,
        ),
{
    match read {
        Err(e) => Err(TransmitError::ReadingInput(e)),
        Ok(output) => match parse_response(output, image, placement_id) {
            Err(e) => Err(TransmitError::ParsingResponse(e)),
            Ok(Err(e)) => Err(TransmitError::Terminal(e)),
            Ok(Ok(id)) => Ok(id),
        },
    }
}

/// The text of a response with one mark.
pub open spec fn response_text(options: Seq<char>, message: Seq<char>) -> Seq<char> {
    seq!['_', 'G'] + options.push(';') + message
}

/// A response with one mark is read by its options and by its message, which ends at a second
/// semicolon.
pub proof fn lemma_response_parts(
    options: Seq<char>,
    tail: Seq<char>,
    image: NumberOrId,
    placement_id: Option<PlacementId>,
)
    requires
        !starts_response(options),
        !options.contains(';'),
    ensures
        parsed_response(response_text(options, tail), image, placement_id) == parsed_parts(
            pieces(options, ','),
            pieces(tail, ';')[0],
            image,
            placement_id,
        ),
{
    let output = response_text(options, tail);
    let rest = options.push(';') + tail;
    assert(starts_response(output));
    assert(output.skip(2) =~= rest);
    assert(!starts_response(rest)) by {
        if options.len() == 1 {
            assert(rest[1] == ';');
        } else if options.len() >= 2 {
            assert(rest[0] == options[0] && rest[1] == options[1]);
        }
    }
    reveal_with_fuel(behind_marks, 2);
    assert(behind_marks(output) == rest);
    lemma_pieces_concat(options, tail, ';');
    lemma_pieces_single(options, ';');
    lemma_pieces_nonempty(tail, ';');
    let parts = pieces(rest, ';');
    assert(parts[0] == options && parts[1] == pieces(tail, ';')[0]);
}

/// A response with one mark and one semicolon is read by its options and its message.
pub proof fn lemma_response_text(
    options: Seq<char>,
    message: Seq<char>,
    image: NumberOrId,
    placement_id: Option<PlacementId>,
)
    requires
        !starts_response(options),
        !options.contains(';'),
        !message.contains(';'),
    ensures
        parsed_response(response_text(options, message), image, placement_id) == parsed_parts(
            pieces(options, ','),
            message,
            image,
            placement_id,
        ),
{
    lemma_response_parts(options, message, image, placement_id);
    lemma_pieces_single(message, ';');
}

/// The text of an option that names an identifier.
pub open spec fn option_text(key: char, id: u32) -> Seq<char> {
    seq![key, '='] + digits(id as nat)
}

/// An option text splits into its key and the digits of its identifier; it holds no other mark.
proof fn lemma_option_text(key: char, id: u32)
    requires
        key == 'i' || key == 'p' || key == 'I',
        id != 0,
    ensures
        pieces(option_text(key, id), '=') == seq![seq![key], digits(id as nat)],
        parsed_id(digits(id as nat)) == Some(id),
        option_text(key, id).len() > 0,
        !option_text(key, id).contains(','),
        !option_text(key, id).contains(';'),
        !starts_response(option_text(key, id)),
{
    let d = digits(id as nat);
    let t = option_text(key, id);
    lemma_digits_are_digits(id as nat);
    lemma_decimal_round_trip(id as nat, u32::MAX as nat);
    assert forall|i: int| 0 <= i < d.len() implies d[i] != '=' && d[i] != ',' && d[i] != ';' by {
        assert(is_digit(d[i]));
    }
    assert(!seq![key].contains('='));
    assert(!d.contains('='));
    lemma_pieces_concat(seq![key], d, '=');
    lemma_pieces_single(seq![key], '=');
    lemma_pieces_single(d, '=');
    assert(seq![key].push('=') + d =~= t);
    assert(pieces(t, '=') =~= seq![seq![key], d]);
    assert forall|i: int| 0 <= i < t.len() implies t[i] != ',' && t[i] != ';' by {
        if i >= 2 {
            assert(t[i] == d[i - 2]);
        }
    }
}

/// What an option does that names the identifier that was sent, or the image's where none was.
proof fn lemma_option_found(
    key: char,
    id: u32,
    image: NumberOrId,
    placement_id: Option<PlacementId>,
    found: FoundIds,
)
    requires
        id != 0,
        key == 'i' || key == 'p' || key == 'I',
        key == 'i' ==> (image matches NumberOrId::Id(i) ==> i@ == id),
        key == 'p' ==> id_value(placement_id) == Some(id),
        key == 'I' ==> id_value(sent_number(image)) == Some(id),
    ensures
        option_found(option_text(key, id), image, placement_id, found) == Ok::<
            FoundIds,
            ParseError<Seq<char>>,
        >(
            (if key == 'i' {
                FoundIds { image_id: Some(id), ..found }
            } else if key == 'p' {
                FoundIds { placement_id: Some(id), ..found }
            } else {
                FoundIds { image_number: Some(id), ..found }
            }),
        ),
{
    lemma_option_text(key, id);
    reveal_strlit("i");
    reveal_strlit("p");
    reveal_strlit("I");
    assert("i"@ =~= seq!['i']);
    assert("p"@ =~= seq!['p']);
    assert("I"@ =~= seq!['I']);
    assert("i"@[0] != "p"@[0] && "i"@[0] != "I"@[0] && "p"@[0] != "I"@[0]);
}

/// A terminal that accepts a request answers with the identifiers that it was sent: the image is
/// accepted under its identifier.
pub proof fn lemma_accepts_id(id: ImageId, message: Seq<char>)
    requires
        id@ != 0,
        message == "OK"@ || message == "OK\n"@,
    ensures
        parsed_response(
            response_text(option_text('i', id@), message),
            NumberOrId::Id(id),
            None,
        ) == Ok::<_, ParseError<Seq<char>>>(Ok::<_, TerminalError<Seq<char>>>(id@)),
{
    let o = option_text('i', id@);
    let nothing = FoundIds { image_id: None, placement_id: None, image_number: None };
    lemma_option_text('i', id@);
    lemma_ok_text(message);
    lemma_response_text(o, message, NumberOrId::Id(id), None);
    lemma_pieces_single(o, ',');
    lemma_option_found('i', id@, NumberOrId::Id(id), None, nothing);
    reveal_with_fuel(options_found, 2);
}

/// An image that is sent by number is accepted under whatever identifier the terminal picks.
pub proof fn lemma_accepts_number(number: ImageId, id: u32, message: Seq<char>)
    requires
        number@ != 0,
        id != 0,
        message == "OK"@ || message == "OK\n"@,
    ensures
        parsed_response(
            response_text(option_text('i', id).push(',') + option_text('I', number@), message),
            NumberOrId::Number(number),
            None,
        ) == Ok::<_, ParseError<Seq<char>>>(Ok::<_, TerminalError<Seq<char>>>(id)),
{
    lemma_two_options('i', id, 'I', number@, message, NumberOrId::Number(number), None);
}

/// A placement that is sent has to come back with its image.
pub proof fn lemma_accepts_placement(id: ImageId, placement_id: PlacementId, message: Seq<char>)
    requires
        id@ != 0,
        placement_id@ != 0,
        message == "OK"@ || message == "OK\n"@,
    ensures
        parsed_response(
            response_text(option_text('i', id@).push(',') + option_text('p', placement_id@), message),
            NumberOrId::Id(id),
            Some(placement_id),
        ) == Ok::<_, ParseError<Seq<char>>>(Ok::<_, TerminalError<Seq<char>>>(id@)),
{
    lemma_two_options('i', id@, 'p', placement_id@, message, NumberOrId::Id(id), Some(placement_id));
}

/// The message of success holds no semicolon.
proof fn lemma_ok_text(message: Seq<char>)
    requires
        message == "OK"@ || message == "OK\n"@,
    ensures
        !message.contains(';'),
{
    reveal_strlit("OK");
    reveal_strlit("OK\n");
}

/// Two options that name what was sent, and success.
proof fn lemma_two_options(
    a: char,
    id: u32,
    b: char,
    other: u32,
    message: Seq<char>,
    image: NumberOrId,
    placement_id: Option<PlacementId>,
)
    requires
        a == 'i',
        b == 'I' || b == 'p',
        id != 0,
        other != 0,
        message == "OK"@ || message == "OK\n"@,
        image matches NumberOrId::Id(i) ==> i@ == id,
        b == 'p' ==> id_value(placement_id) == Some(other) && image is Id,
        b == 'I' ==> placement_id is None && id_value(sent_number(image)) == Some(other),
    ensures
        parsed_response(
            response_text(option_text(a, id).push(',') + option_text(b, other), message),
            image,
            placement_id,
        ) == Ok::<_, ParseError<Seq<char>>>(Ok::<_, TerminalError<Seq<char>>>(id)),
{
    let s = option_text(a, id);
    let t = option_text(b, other);
    let o = s.push(',') + t;
    let nothing = FoundIds { image_id: None, placement_id: None, image_number: None };
    let first = FoundIds { image_id: Some(id), ..nothing };
    lemma_option_text(a, id);
    lemma_option_text(b, other);
    lemma_ok_text(message);
    assert(o[0] == s[0]);
    assert(!o.contains(';')) by {
        assert forall|i: int| 0 <= i < o.len() implies o[i] != ';' by {
            if i < s.len() {
                assert(s.contains(s[i]));
                assert(o[i] == s[i]);
            } else if i > s.len() {
                let j = i - s.len() - 1;
                assert(t.contains(t[j]));
                assert(o[i] == t[j]);
            }
        }
    }
    lemma_response_text(o, message, image, placement_id);
    lemma_pieces_concat(s, t, ',');
    lemma_pieces_single(s, ',');
    lemma_pieces_single(t, ',');
    assert(pieces(o, ',') =~= seq![s, t]);
    lemma_option_found(a, id, image, placement_id, nothing);
    lemma_option_found(b, other, image, placement_id, first);
    reveal_with_fuel(options_found, 3);
    assert(pieces(o, ',').drop_first() =~= seq![t]);
}

/// The identifiers found are those that were sent.
proof fn lemma_found_are_sent(
    options: Seq<Seq<char>>,
    image: NumberOrId,
    placement_id: Option<PlacementId>,
    found: FoundIds,
)
    requires
        image matches NumberOrId::Id(i) ==> found.image_id is None || found.image_id == Some(i@),
    ensures
        options_found(options, image, placement_id, found) matches Ok(f) ==> (image matches NumberOrId::Id(i)
            ==> f.image_id is None || f.image_id == Some(i@)),
    decreases options.len(),
{
    if options.len() > 0 {
        match option_found(options[0], image, placement_id, found) {
            Ok(f) => lemma_found_are_sent(options.drop_first(), image, placement_id, f),
            Err(_) => {},
        }
    }
}

/// Whatever a terminal answers to a request that named its image by identifier: where the answer
/// is accepted, it is for that identifier.
pub proof fn lemma_accepted_id_is_sent(
    output: Seq<char>,
    id: ImageId,
    placement_id: Option<PlacementId>,
)
    ensures
        parsed_response(output, NumberOrId::Id(id), placement_id) matches Ok(Ok(found)) ==> found
            == id@,
{
    let parts = pieces(behind_marks(output), ';');
    let nothing = FoundIds { image_id: None, placement_id: None, image_number: None };
    lemma_found_are_sent(pieces(parts[0], ','), NumberOrId::Id(id), placement_id, nothing);
}

/// An error that the terminal reports for an image comes back with its code and its reason.
pub proof fn lemma_reports_error(id: ImageId, code: Seq<char>, reason: Seq<char>)
    requires
        id@ != 0,
        terminal_error(code, reason) is Some,
        !reason.contains(':'),
        !reason.contains(';'),
    ensures
        parsed_response(
            response_text(option_text('i', id@), code.push(':') + reason),
            NumberOrId::Id(id),
            None,
        ) == Ok::<_, ParseError<Seq<char>>>(Err::<u32, _>(terminal_error(code, reason)->0)),
{
    let o = option_text('i', id@);
    let message = code.push(':') + reason;
    let nothing = FoundIds { image_id: None, placement_id: None, image_number: None };
    lemma_option_text('i', id@);
    assert(!code.contains(':') && !code.contains(';') && code.len() > 0 && code[0] == 'E') by {
        reveal_strlit("ENOENT");
        reveal_strlit("EINVAL");
        reveal_strlit("EBADF");
        reveal_strlit("ENODATA");
        reveal_strlit("EFBIG");
    }
    assert(!message.contains(';')) by {
        assert forall|i: int| 0 <= i < message.len() implies message[i] != ';' by {
            if i < code.len() {
                assert(code.contains(code[i]));
                assert(message[i] == code[i]);
            } else if i > code.len() {
                let j = i - code.len() - 1;
                assert(reason.contains(reason[j]));
                assert(message[i] == reason[j]);
            }
        }
    }
    assert(message != "OK"@ && message != "OK\n"@) by {
        reveal_strlit("OK");
        reveal_strlit("OK\n");
        assert(message[0] == 'E');
    }
    lemma_response_text(o, message, NumberOrId::Id(id), None);
    lemma_pieces_single(o, ',');
    lemma_option_found('i', id@, NumberOrId::Id(id), None, nothing);
    reveal_with_fuel(options_found, 2);
    lemma_pieces_concat(code, reason, ':');
    lemma_pieces_single(code, ':');
    lemma_pieces_single(reason, ':');
    assert(pieces(message, ':') =~= seq![code, reason]);
}

/// The key of an option: what stands before its first equals sign.
pub open spec fn option_key(option: Seq<char>) -> Seq<char> {
    pieces(option, '=')[0]
}

/// Whether no two options have the same key.
pub open spec fn keys_differ(options: Seq<Seq<char>>) -> bool {
    forall|i: int, j: int|
        0 <= i < j < options.len() ==> option_key(#[trigger] options[i]) != option_key(
            #[trigger] options[j],
        )
}

/// Two options with different keys may be read in either order.
proof fn lemma_two_commute(
    s: Seq<char>,
    t: Seq<char>,
    image: NumberOrId,
    placement_id: Option<PlacementId>,
    found: FoundIds,
)
    requires
        option_key(s) != option_key(t),
        options_found(seq![s, t], image, placement_id, found) is Ok,
    ensures
        options_found(seq![t, s], image, placement_id, found) == options_found(
            seq![s, t],
            image,
            placement_id,
            found,
        ),
{
    reveal_with_fuel(options_found, 3);
    assert(seq![s, t].drop_first() =~= seq![t]);
    assert(seq![t, s].drop_first() =~= seq![s]);
    assert(seq![s].drop_first() =~= Seq::<Seq<char>>::empty());
    assert(seq![t].drop_first() =~= Seq::<Seq<char>>::empty());
}

/// Options are read one part after the other.
proof fn lemma_found_in_parts(
    a: Seq<Seq<char>>,
    b: Seq<Seq<char>>,
    image: NumberOrId,
    placement_id: Option<PlacementId>,
    found: FoundIds,
)
    ensures
        options_found(a + b, image, placement_id, found) == (match options_found(
            a,
            image,
            placement_id,
            found,
        ) {
            Ok(f) => options_found(b, image, placement_id, f),
            Err(e) => Err(e),
        }),
    decreases a.len(),
{
    if a.len() == 0 {
        assert(a + b =~= b);
    } else {
        assert((a + b).drop_first() =~= a.drop_first() + b);
        if let Ok(f) = option_found(a[0], image, placement_id, found) {
            lemma_found_in_parts(a.drop_first(), b, image, placement_id, f);
        }
    }
}

/// An option may be read before all others, where no other has its key.
proof fn lemma_read_first(
    options: Seq<Seq<char>>,
    k: int,
    image: NumberOrId,
    placement_id: Option<PlacementId>,
    found: FoundIds,
)
    requires
        0 <= k < options.len(),
        keys_differ(options),
        options_found(options, image, placement_id, found) is Ok,
    ensures
        options_found(seq![options[k]] + options.remove(k), image, placement_id, found)
            == options_found(options, image, placement_id, found),
    decreases options.len(),
{
    let rest = options.drop_first();
    let first = options[0];
    let it = options[k];
    if k == 0 {
        assert(seq![it] + options.remove(0) =~= options);
    } else {
        let f = option_found(first, image, placement_id, found)->Ok_0;
        assert forall|i: int, j: int| 0 <= i < j < rest.len() implies option_key(
            #[trigger] rest[i],
        ) != option_key(#[trigger] rest[j]) by {
            assert(rest[i] == options[i + 1] && rest[j] == options[j + 1]);
        }
        assert(rest[k - 1] == it);
        lemma_read_first(rest, k - 1, image, placement_id, f);
        let others = rest.remove(k - 1);
        assert(options =~= seq![first] + rest);
        lemma_found_in_parts(seq![first], rest, image, placement_id, found);
        lemma_found_in_parts(seq![first], seq![it] + others, image, placement_id, found);
        reveal_with_fuel(options_found, 2);
        assert(seq![first].drop_first() =~= Seq::<Seq<char>>::empty());
        assert(seq![first] + (seq![it] + others) =~= seq![first, it] + others);
        lemma_found_in_parts(seq![first, it], others, image, placement_id, found);
        lemma_two_commute(first, it, image, placement_id, found);
        lemma_found_in_parts(seq![it, first], others, image, placement_id, found);
        assert(seq![it] + options.remove(k) =~= seq![it, first] + others);
    }
}

/// Where options name what was sent, and no two have the same key, their order does not matter.
pub proof fn lemma_options_in_any_order(
    a: Seq<Seq<char>>,
    b: Seq<Seq<char>>,
    image: NumberOrId,
    placement_id: Option<PlacementId>,
    found: FoundIds,
)
    requires
        a.to_multiset() == b.to_multiset(),
        keys_differ(a),
        options_found(a, image, placement_id, found) is Ok,
    ensures
        options_found(b, image, placement_id, found) == options_found(
            a,
            image,
            placement_id,
            found,
        ),
    decreases b.len(),
{
    broadcast use vstd::seq_lib::group_to_multiset_ensures;

    assert(a.len() == a.to_multiset().len() && b.len() == b.to_multiset().len());
    if b.len() == 0 {
        assert(a =~= b);
    } else {
        assert(b.contains(b[0]));
        assert(a.to_multiset().count(b[0]) > 0);
        assert(a.contains(b[0]));
        let k = choose|k: int| 0 <= k < a.len() && a[k] == b[0];
        let rest = a.remove(k);
        lemma_read_first(a, k, image, placement_id, found);
        assert((seq![a[k]] + rest).drop_first() =~= rest);
        assert((seq![a[k]] + rest)[0] == b[0]);
        assert(b.drop_first() =~= b.remove(0));
        assert(rest.to_multiset() =~= b.drop_first().to_multiset());
        assert forall|i: int, j: int| 0 <= i < j < rest.len() implies option_key(
            #[trigger] rest[i],
        ) != option_key(#[trigger] rest[j]) by {
            let x = if i < k {
                i
            } else {
                i + 1
            };
            let y = if j < k {
                j
            } else {
                j + 1
            };
            assert(rest[i] == a[x] && rest[j] == a[y]);
        }
        let f = option_found(b[0], image, placement_id, found)->Ok_0;
        lemma_options_in_any_order(rest, b.drop_first(), image, placement_id, f);
    }
}

/// Options with commas between them.
pub open spec fn listed(options: Seq<Seq<char>>) -> Seq<char>
    decreases options.len(),
{
    if options.len() == 0 {
        Seq::empty()
    } else if options.len() == 1 {
        options[0]
    } else {
        options[0].push(',') + listed(options.drop_first())
    }
}

/// Whether options can be told from what stands around them: none holds a comma or a semicolon,
/// and none starts with the mark of a response.
pub open spec fn are_options(options: Seq<Seq<char>>) -> bool {
    forall|i: int|
        0 <= i < options.len() ==> !(#[trigger] options[i]).contains(',') && !options[i].contains(
            ';',
        ) && !starts_response(options[i])
}

/// A list of options is taken apart into the options.
proof fn lemma_listed(options: Seq<Seq<char>>)
    requires
        are_options(options),
        options.len() > 0,
    ensures
        pieces(listed(options), ',') == options,
        !listed(options).contains(';'),
        !starts_response(listed(options)),
    decreases options.len(),
{
    let first = options[0];
    let rest = options.drop_first();
    lemma_pieces_single(first, ',');
    if options.len() == 1 {
        assert(options =~= seq![first]);
    } else {
        assert forall|i: int| 0 <= i < rest.len() implies !(#[trigger] rest[i]).contains(',')
            && !rest[i].contains(';') && !starts_response(rest[i]) by {
            assert(rest[i] == options[i + 1]);
        }
        lemma_listed(rest);
        lemma_pieces_concat(first, listed(rest), ',');
        assert(seq![first] + rest =~= options);
        let t = listed(options);
        assert forall|i: int| 0 <= i < t.len() implies t[i] != ';' by {
            if i < first.len() {
                assert(t[i] == first[i]);
                assert(first.contains(first[i]));
            } else if i > first.len() {
                let j = i - first.len() - 1;
                assert(t[i] == listed(rest)[j]);
                assert(listed(rest).contains(listed(rest)[j]));
            }
        }
        if first.len() >= 2 {
            assert(t[0] == first[0] && t[1] == first[1]);
        } else {
            assert(t[first.len() as int] == ',');
        }
    }
}

/// The order in which a terminal names what it answers for does not matter: a response with the
/// same options in another order, no two of them with the same key, is read alike.
pub proof fn lemma_order_of_options(
    a: Seq<Seq<char>>,
    b: Seq<Seq<char>>,
    tail: Seq<char>,
    image: NumberOrId,
    placement_id: Option<PlacementId>,
)
    requires
        a.to_multiset() == b.to_multiset(),
        are_options(a),
        keys_differ(a),
        parsed_response(response_text(listed(a), tail), image, placement_id) is Ok,
    ensures
        parsed_response(response_text(listed(b), tail), image, placement_id) == parsed_response(
            response_text(listed(a), tail),
            image,
            placement_id,
        ),
{
    broadcast use vstd::seq_lib::group_to_multiset_ensures;

    assert(a.len() == a.to_multiset().len() && b.len() == b.to_multiset().len());
    if a.len() == 0 {
        assert(a =~= b);
    } else {
        assert forall|i: int| 0 <= i < b.len() implies !(#[trigger] b[i]).contains(',')
            && !b[i].contains(';') && !starts_response(b[i]) by {
            assert(b.contains(b[i]));
            assert(a.to_multiset().count(b[i]) > 0);
            assert(a.contains(b[i]));
        }
        lemma_listed(a);
        lemma_listed(b);
        lemma_response_parts(listed(a), tail, image, placement_id);
        lemma_response_parts(listed(b), tail, image, placement_id);
        let nothing = FoundIds { image_id: None, placement_id: None, image_number: None };
        lemma_options_in_any_order(a, b, image, placement_id, nothing);
    }
}

/// The value of an option, where it has one.
pub open spec fn option_value(option: Seq<char>) -> Option<Seq<char>> {
    let parts = pieces(option, '=');
    if parts.len() > 1 {
        Some(parts[1])
    } else {
        None
    }
}

/// Whether what comes back is what was sent, and nothing comes back where nothing was sent.
pub open spec fn comes_back(sent: Option<ImageId>, value: Option<Seq<char>>) -> bool {
    match (sent, value) {
        (Some(id), Some(v)) => parsed_id(v) == Some(id@),
        (None, None) => true,
        _ => false,
    }
}

/// Whether an option of a response agrees with the request: it names the image, the placement or
/// the number that was sent, or an identifier that the terminal picked for an image that was sent
/// under a number.
pub open spec fn option_agrees(
    option: Seq<char>,
    image: NumberOrId,
    placement_id: Option<PlacementId>,
) -> bool {
    let key = option_key(option);
    let value = option_value(option);
    ||| option.len() == 0
    ||| key == "i"@ && (image matches NumberOrId::Id(id) && comes_back(Some(id), value))
    ||| key == "i"@ && image is Number && (value matches Some(v) ==> parsed_id(v) is Some)
    ||| key == "p"@ && comes_back(placement_id, value)
    ||| key == "I"@ && comes_back(sent_number(image), value)
}

/// Whether some option has a key and names an identifier.
pub open spec fn some_option(options: Seq<Seq<char>>, key: Seq<char>, id: u32) -> bool {
    exists|i: int|
        0 <= i < options.len() && option_key(#[trigger] options[i]) == key && (option_value(
            options[i],
        ) matches Some(v) && parsed_id(v) == Some(id))
}

/// The keys are told apart.
proof fn lemma_keys()
    ensures
        "i"@ != "p"@,
        "i"@ != "I"@,
        "p"@ != "I"@,
{
    reveal_strlit("i");
    reveal_strlit("p");
    reveal_strlit("I");
    assert("i"@[0] == 'i' && "p"@[0] == 'p' && "I"@[0] == 'I');
}

/// Options that are read without an error agree with the request, and what they are found to name
/// is named by one of them.
#[verifier::rlimit(30)]
proof fn lemma_options_agree(
    options: Seq<Seq<char>>,
    image: NumberOrId,
    placement_id: Option<PlacementId>,
    found: FoundIds,
)
    requires
        options_found(options, image, placement_id, found) is Ok,
    ensures
        forall|i: int|
            0 <= i < options.len() ==> option_agrees(#[trigger] options[i], image, placement_id),
        options_found(options, image, placement_id, found) matches Ok(f) && {
            &&& f.image_id matches Some(v) ==> found.image_id == Some(v) || some_option(
                options,
                "i"@,
                v,
            )
            &&& f.placement_id matches Some(v) ==> found.placement_id == Some(v) || some_option(
                options,
                "p"@,
                v,
            )
            &&& f.image_number matches Some(v) ==> found.image_number == Some(v) || some_option(
                options,
                "I"@,
                v,
            )
        },
    decreases options.len(),
{
    if options.len() > 0 {
        lemma_keys();
        let first = options[0];
        let rest = options.drop_first();
        let next = option_found(first, image, placement_id, found)->Ok_0;
        lemma_options_agree(rest, image, placement_id, next);
        assert(option_agrees(first, image, placement_id));
        assert forall|i: int| 0 <= i < options.len() implies option_agrees(
            #[trigger] options[i],
            image,
            placement_id,
        ) by {
            if i > 0 {
                assert(rest[i - 1] == options[i]);
            }
        }
        let f = options_found(options, image, placement_id, found)->Ok_0;
        if let Some(v) = f.image_id {
            lemma_some_later(options, "i"@, v);
            if next.image_id == Some(v) && found.image_id != Some(v) {
                assert(option_key(options[0]) == "i"@);
                assert(some_option(options, "i"@, v));
            }
        }
        if let Some(v) = f.placement_id {
            lemma_some_later(options, "p"@, v);
            if next.placement_id == Some(v) && found.placement_id != Some(v) {
                assert(option_key(options[0]) == "p"@);
                assert(some_option(options, "p"@, v));
            }
        }
        if let Some(v) = f.image_number {
            lemma_some_later(options, "I"@, v);
            if next.image_number == Some(v) && found.image_number != Some(v) {
                assert(option_key(options[0]) == "I"@);
                assert(some_option(options, "I"@, v));
            }
        }
    }
}

/// An option among the later ones is among all of them.
proof fn lemma_some_later(options: Seq<Seq<char>>, key: Seq<char>, id: u32)
    requires
        options.len() > 0,
    ensures
        some_option(options.drop_first(), key, id) ==> some_option(options, key, id),
{
    let rest = options.drop_first();
    if some_option(rest, key, id) {
        let i = choose|i: int|
            0 <= i < rest.len() && option_key(#[trigger] rest[i]) == key && (option_value(rest[i])
                matches Some(v) && parsed_id(v) == Some(id));
        assert(options[i + 1] == rest[i]);
    }
}

/// A response is accepted only for the request that was sent: every option of it agrees with the
/// request, and it names all that the request named, the image, its placement and its number.
/// What it is accepted for is the identifier that it names, and it is a success exactly where it
/// says so.
#[verifier::rlimit(30)]
pub proof fn lemma_accepted_response(
    output: Seq<char>,
    image: NumberOrId,
    placement_id: Option<PlacementId>,
)
    ensures
        parsed_response(output, image, placement_id) matches Ok(result) ==> {
            let parts = pieces(behind_marks(output), ';');
            let options = pieces(parts[0], ',');
            &&& output.len() >= 2 && output[0] == '_' && output[1] == 'G'
            &&& parts.len() >= 2
            &&& forall|i: int|
                0 <= i < options.len() ==> option_agrees(
                    #[trigger] options[i],
                    image,
                    placement_id,
                )
            &&& exists|id: u32| #[trigger] some_option(options, "i"@, id)
            &&& placement_id matches Some(p) ==> some_option(options, "p"@, p@)
            &&& image matches NumberOrId::Number(n) ==> some_option(options, "I"@, n@)
            &&& result is Ok <==> parts[1] == "OK"@ || parts[1] == "OK\n"@
            &&& result matches Ok(id) ==> some_option(options, "i"@, id)
        },
{
    if parsed_response(output, image, placement_id) is Ok {
        let parts = pieces(behind_marks(output), ';');
        let options = pieces(parts[0], ',');
        let nothing = FoundIds { image_id: None, placement_id: None, image_number: None };
        lemma_options_agree(options, image, placement_id, nothing);
        let f = options_found(options, image, placement_id, nothing)->Ok_0;
        assert(some_option(options, "i"@, f.image_id->0));
        if let Some(p) = placement_id {
            lemma_named_as_sent(options, "p"@, f.placement_id->0, image, placement_id);
        }
        if let NumberOrId::Number(n) = image {
            lemma_named_as_sent(options, "I"@, f.image_number->0, image, placement_id);
        }
    }
}

/// A placement or a number that an option names is the one that was sent.
proof fn lemma_named_as_sent(
    options: Seq<Seq<char>>,
    key: Seq<char>,
    id: u32,
    image: NumberOrId,
    placement_id: Option<PlacementId>,
)
    requires
        some_option(options, key, id),
        forall|i: int|
            0 <= i < options.len() ==> option_agrees(#[trigger] options[i], image, placement_id),
    ensures
        key == "p"@ ==> (placement_id matches Some(p) && p@ == id),
        key == "I"@ ==> (sent_number(image) matches Some(n) && n@ == id),
{
    lemma_keys();
    let i = choose|i: int|
        0 <= i < options.len() && option_key(#[trigger] options[i]) == key && (option_value(
            options[i],
        ) matches Some(v) && parsed_id(v) == Some(id));
    assert(option_agrees(options[i], image, placement_id));
    if options[i].len() == 0 {
        lemma_pieces_single(options[i], '=');
    }
}

/// A text without a semicolon has none behind its marks.
proof fn lemma_no_semicolon(s: Seq<char>)
    requires
        !s.contains(';'),
    ensures
        !behind_marks(s).contains(';'),
    decreases s.len(),
{
    if starts_response(s) {
        let rest = s.skip(2);
        assert(!rest.contains(';')) by {
            if rest.contains(';') {
                let i = choose|i: int| 0 <= i < rest.len() && rest[i] == ';';
                assert(s[i + 2] == ';');
            }
        }
        lemma_no_semicolon(rest);
    }
}

/// What is no response is refused as such: a text that does not begin with the mark of one, and a
/// text whose options do not end.
pub proof fn lemma_no_response(
    output: Seq<char>,
    image: NumberOrId,
    placement_id: Option<PlacementId>,
)
    ensures
        !(output.len() >= 2 && output[0] == '_' && output[1] == 'G') ==> parsed_response(
            output,
            image,
            placement_id,
        ) == Err::<Result<u32, TerminalError<Seq<char>>>, ParseError<Seq<char>>>(
            ParseError::NoStartSequence(output),
        ),
        output.len() >= 2 && output[0] == '_' && output[1] == 'G' && !output.contains(';')
            ==> parsed_response(output, image, placement_id) == Err::<
            Result<u32, TerminalError<Seq<char>>>,
            ParseError<Seq<char>>,
        >(ParseError::NoFinalSemicolon),
{
    if starts_response(output) && !output.contains(';') {
        lemma_no_semicolon(output);
        lemma_pieces_single(behind_marks(output), ';');
    }
}

/// The message of a response is a success where it says `OK`, with or without a line end, and
/// nothing else is one. A code and a reason with a colon between them are an error of the
/// terminal where the code is known, and are reported as they are where it is not; a message
/// without a colon is neither.
pub proof fn lemma_messages(code: Seq<char>, reason: Seq<char>, message: Seq<char>, id: u32)
    requires
        !code.contains(':'),
        !reason.contains(':'),
        !message.contains(':'),
    ensures
        outcome("OK"@, id) == Ok::<_, ParseError<Seq<char>>>(
            Ok::<u32, TerminalError<Seq<char>>>(id),
        ),
        outcome("OK\n"@, id) == outcome("OK"@, id),
        outcome(code.push(':') + reason, id) == (match terminal_error(code, reason) {
            Some(e) => Ok(Err::<u32, TerminalError<Seq<char>>>(e)),
            None => Err(ParseError::UnknownErrorCode { code, reason }),
        }),
        message != "OK"@ && message != "OK\n"@ ==> outcome(message, id) == Err::<
            Result<u32, TerminalError<Seq<char>>>,
            ParseError<Seq<char>>,
        >(ParseError::MalformedError(message)),
{
    reveal_strlit("OK");
    reveal_strlit("OK\n");
    let both = code.push(':') + reason;
    lemma_pieces_concat(code, reason, ':');
    lemma_pieces_single(code, ':');
    lemma_pieces_single(reason, ':');
    lemma_pieces_single(message, ':');
    assert(pieces(both, ':') =~= seq![code, reason]);
    assert(both[code.len() as int] == ':');
    assert(both != "OK"@ && both != "OK\n"@) by {
        let n = code.len() as int;
        if both == "OK"@ {
            assert("OK"@[n] == ':');
        }
        if both == "OK\n"@ {
            assert("OK\n"@[n] == ':');
        }
    }
}

/// What a response has to name to be accepted: the image always, the placement where one was
/// sent, and the number where the image was sent under one. What is missing is reported, with the
/// value that was expected.
pub proof fn lemma_missing(
    found: FoundIds,
    image: NumberOrId,
    placement_id: Option<PlacementId>,
)
    ensures
        missing_id(found, image, placement_id) is None <==> found.image_id is Some && (
        placement_id is Some ==> found.placement_id is Some) && (image is Number
            ==> found.image_number is Some),
        missing_id(found, image, placement_id) matches Some(e) ==> match e {
            ParseError::MissingId { ty: IdentifierType::ImageId, val } => found.image_id is None && (
            image matches NumberOrId::Id(id) ==> val == AnyValueOrSpecific::Specific(id)) && (
            image is Number ==> val is Any),
            ParseError::MissingId { ty: IdentifierType::PlacementId, val } => {
                &&& found.placement_id is None
                &&& placement_id matches Some(p) && val == AnyValueOrSpecific::Specific(p)
            },
            ParseError::MissingId { ty: IdentifierType::ImageNumber, val } => {
                &&& found.image_number is None
                &&& image matches NumberOrId::Number(n) && val == AnyValueOrSpecific::Specific(n)
            },
            _ => false,
        },
{
}

/// What comes of reading a response is the identifier exactly where the response is a success,
/// and otherwise what went wrong, as it is: the failure to read, the response that could not be
/// understood, or the error of the terminal.
pub proof fn lemma_read_response<E>(
    read: Result<Seq<char>, E>,
    image: NumberOrId,
    placement_id: Option<PlacementId>,
)
    ensures
        ({
            let r = read_response(read, image, placement_id);
            &&& read matches Err(e) ==> r == Err::<u32, _>(
                TransmitError::<E, Seq<char>>::ReadingInput(e),
            )
            &&& read matches Ok(output) ==> match parsed_response(output, image, placement_id) {
                Ok(Ok(id)) => r == Ok::<u32, TransmitError<E, Seq<char>>>(id),
                Ok(Err(e)) => r matches Err(TransmitError::Terminal(f)) && f == e,
                Err(e) => r matches Err(TransmitError::ParsingResponse(f)) && f == e,
            }
        }),
{
}

} // verus!
