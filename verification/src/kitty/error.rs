//! What can go wrong between a request and its response, and the messages that say so.

use vstd::prelude::*;

use crate::kitty::id::AnyValueOrSpecific;
use crate::kitty::id::IdentifierType;
use crate::kitty::id::ImageId;
use crate::text::chars_of;
use crate::text::same_text;

verus! {

/// Why a response could not be understood. `S` is the type of text: `String` at run time,
/// `Seq<char>` in contracts.
#[derive(Debug, PartialEq)]
pub enum ParseError<S = String> {
    NoStartSequence(S),
    NoFinalSemicolon,
    NoResponseId { ty: IdentifierType },
    DifferentIdInResponse { ty: IdentifierType, found: S, expected: AnyValueOrSpecific<ImageId> },
    IdInResponseButNotInRequest { ty: IdentifierType, value: S },
    MissingId { ty: IdentifierType, val: AnyValueOrSpecific<ImageId> },
    UnknownResponseKey(S),
    MalformedError(S),
    UnknownErrorCode { code: S, reason: S },
}

impl View for ParseError {
    type V = ParseError<Seq<char>>;

    open spec fn view(&self) -> ParseError<Seq<char>> {
        match *self {
            ParseError::NoStartSequence(s) => ParseError::NoStartSequence(s@),
            ParseError::NoFinalSemicolon => ParseError::NoFinalSemicolon,
            ParseError::NoResponseId { ty } => ParseError::NoResponseId { ty },
            ParseError::DifferentIdInResponse { ty, found, expected } => {
                ParseError::DifferentIdInResponse { ty, found: found@, expected }
            },
            ParseError::IdInResponseButNotInRequest { ty, value } => {
                ParseError::IdInResponseButNotInRequest { ty, value: value@ }
            },
            ParseError::MissingId { ty, val } => ParseError::MissingId { ty, val },
            ParseError::UnknownResponseKey(s) => ParseError::UnknownResponseKey(s@),
            ParseError::MalformedError(s) => ParseError::MalformedError(s@),
            ParseError::UnknownErrorCode { code, reason } => {
                ParseError::UnknownErrorCode { code: code@, reason: reason@ }
            },
        }
    }
}

impl ParseError<Seq<char>> {
    /// The message that is shown for the error.
    pub open spec fn message(self) -> Seq<char> {
        match self {
            ParseError::NoStartSequence(s) => {
                "Terminal Response didn't start with '\\x1b_G' but instead '"@ + s + "'"@
            },
            ParseError::NoFinalSemicolon => {
                "No final semicolon was provided to indicate end of options in the terminal response"@
            },
            ParseError::NoResponseId { ty } => {
                "An ID of type "@ + ty.spec_name()
                    + " was sent, but no relevant ID was seen in the terminal response"@
            },
            ParseError::DifferentIdInResponse { ty, found, expected } => {
                "The ID of type "@ + ty.spec_name()
                    + " seen in the terminal response was different from the one we sent (was "@
                    + found + ", expected "@ + expected.spec_text() + ")"@
            },
            ParseError::IdInResponseButNotInRequest { ty, value } => {
                "The terminal response provided a id of type "@ + ty.spec_name()
                    + ", but we didn't sent one as part of the request (with a value of '"@ + value
                    + "')"@
            },
            ParseError::MissingId { ty, val } => {
                "We expected to receive an ID of type "@ + ty.spec_name() + " with value "@
                    + val.spec_text() + " in the response, but saw no id of that type"@
            },
            ParseError::UnknownResponseKey(s) => "Unknown terminal response key '"@ + s + "'"@,
            ParseError::MalformedError(s) => {
                "The terminal returned an error, but it was unparseable; was '"@ + s
                    + "' but expected <code>:<reason>"@
            },
            ParseError::UnknownErrorCode { code, reason } => {
                "The terminal resported an error with an unknown error code '"@ + code
                    + "' and accompanying reason '"@ + reason + "'"@
            },
        }
    }
}

impl ParseError {
    /// The message that is shown for the error.
    pub fn to_text(&self) -> (r: String)
        ensures
            r@ == self@.message(),
    {
        match self {
            ParseError::NoStartSequence(s) => {
                "Terminal Response didn't start with '\\x1b_G' but instead '".to_owned().concat(
                    s.as_str(),
                ).concat("'")
            },
            ParseError::NoFinalSemicolon => {
                "No final semicolon was provided to indicate end of options in the terminal response".to_owned()
            },
            ParseError::NoResponseId { ty } => {
                "An ID of type ".to_owned().concat(ty.name()).concat(
                    " was sent, but no relevant ID was seen in the terminal response",
                )
            },
            ParseError::DifferentIdInResponse { ty, found, expected } => {
                "The ID of type ".to_owned().concat(ty.name()).concat(
                    " seen in the terminal response was different from the one we sent (was ",
                ).concat(found.as_str()).concat(", expected ").concat(
                    expected.to_text().as_str(),
                ).concat(")")
            },
            ParseError::IdInResponseButNotInRequest { ty, value } => {
                "The terminal response provided a id of type ".to_owned().concat(ty.name()).concat(
                    ", but we didn't sent one as part of the request (with a value of '",
                ).concat(value.as_str()).concat("')")
            },
            ParseError::MissingId { ty, val } => {
                "We expected to receive an ID of type ".to_owned().concat(ty.name()).concat(
                    " with value ",
                ).concat(val.to_text().as_str()).concat(
                    " in the response, but saw no id of that type",
                )
            },
            ParseError::UnknownResponseKey(s) => {
                "Unknown terminal response key '".to_owned().concat(s.as_str()).concat("'")
            },
            ParseError::MalformedError(s) => {
                "The terminal returned an error, but it was unparseable; was '".to_owned().concat(
                    s.as_str(),
                ).concat("' but expected <code>:<reason>")
            },
            ParseError::UnknownErrorCode { code, reason } => {
                "The terminal resported an error with an unknown error code '".to_owned().concat(
                    code.as_str(),
                ).concat("' and accompanying reason '").concat(reason.as_str()).concat("'")
            },
        }
    }
}

/// An error that the terminal reports.
#[non_exhaustive]
#[derive(Debug, PartialEq)]
pub enum TerminalError<S = String> {
    NoEntity(S),
    InvalidArgument(S),
    BadFile(S),
    NoData(S),
    FileTooLarge(S),
}

impl View for TerminalError {
    type V = TerminalError<Seq<char>>;

    open spec fn view(&self) -> TerminalError<Seq<char>> {
        match *self {
            TerminalError::NoEntity(s) => TerminalError::NoEntity(s@),
            TerminalError::InvalidArgument(s) => TerminalError::InvalidArgument(s@),
            TerminalError::BadFile(s) => TerminalError::BadFile(s@),
            TerminalError::NoData(s) => TerminalError::NoData(s@),
            TerminalError::FileTooLarge(s) => TerminalError::FileTooLarge(s@),
        }
    }
}

/// An error code that is none of those that a terminal is known to send.
#[derive(Debug)]
pub struct UnknownErrorCode<'a>(pub &'a str);

/// The error that a code stands for, or nothing where the code is not a known one.
pub open spec fn terminal_error(code: Seq<char>, reason: Seq<char>) -> Option<
    TerminalError<Seq<char>>,
> {
    if code == "ENOENT"@ {
        Some(TerminalError::NoEntity(reason))
    } else if code == "EINVAL"@ {
        Some(TerminalError::InvalidArgument(reason))
    } else if code == "EBADF"@ {
        Some(TerminalError::BadFile(reason))
    } else if code == "ENODATA"@ {
        Some(TerminalError::NoData(reason))
    } else if code == "EFBIG"@ {
        Some(TerminalError::FileTooLarge(reason))
    } else {
        None
    }
}

impl TerminalError<Seq<char>> {
    /// The message that is shown for the error.
    pub open spec fn message(self) -> Seq<char> {
        match self {
            TerminalError::NoEntity(s) => "No such entity was found: "@ + s,
            TerminalError::InvalidArgument(s) => "Invalid argument: "@ + s,
            TerminalError::BadFile(s) => "Bad file: "@ + s,
            TerminalError::NoData(s) => "No Data: "@ + s,
            TerminalError::FileTooLarge(s) => "File Too Large: "@ + s,
        }
    }
}

impl TerminalError {
    /// The error for a pair of a code and a reason; the code comes back where it is unknown.
    pub fn try_from<'a>(value: (&'a str, &str)) -> (r: Result<TerminalError, UnknownErrorCode<'a>>)
        ensures
            match r {
                Ok(e) => terminal_error(value.0@, value.1@) == Some(e@),
                Err(u) => terminal_error(value.0@, value.1@) is None && u.0@ == value.0@,
            },
    {
        let code = chars_of(value.0);
        let reason = value.1.to_owned();
        if same_text(&code, "ENOENT") {
            Ok(TerminalError::NoEntity(reason))
        } else if same_text(&code, "EINVAL") {
            Ok(TerminalError::InvalidArgument(reason))
        } else if same_text(&code, "EBADF") {
            Ok(TerminalError::BadFile(reason))
        } else if same_text(&code, "ENODATA") {
            Ok(TerminalError::NoData(reason))
        } else if same_text(&code, "EFBIG") {
            Ok(TerminalError::FileTooLarge(reason))
        } else {
            Err(UnknownErrorCode(value.0))
        }
    }

    /// The message that is shown for the error.
    pub fn to_text(&self) -> (r: String)
        ensures
            r@ == self@.message(),
    {
        match self {
            TerminalError::NoEntity(s) => {
                "No such entity was found: ".to_owned().concat(s.as_str())
            },
            TerminalError::InvalidArgument(s) => "Invalid argument: ".to_owned().concat(s.as_str()),
            TerminalError::BadFile(s) => "Bad file: ".to_owned().concat(s.as_str()),
            TerminalError::NoData(s) => "No Data: ".to_owned().concat(s.as_str()),
            TerminalError::FileTooLarge(s) => "File Too Large: ".to_owned().concat(s.as_str()),
        }
    }
}

/// Why no response could be read: none came in time, or reading failed. Of a failure to read,
/// the kind and the message are kept.
#[derive(Debug)]
pub enum InputErr<S = String> {
    Timeout,
    IO { kind: S, message: S },
}

impl View for InputErr {
    type V = InputErr<Seq<char>>;

    open spec fn view(&self) -> InputErr<Seq<char>> {
        match *self {
            InputErr::Timeout => InputErr::Timeout,
            InputErr::IO { kind, message } => InputErr::IO { kind: kind@, message: message@ },
        }
    }
}

impl InputErr<Seq<char>> {
    /// The message that is shown for the error.
    pub open spec fn message(self) -> Seq<char> {
        match self {
            InputErr::Timeout => "deadline has elapsed"@,
            InputErr::IO { message, .. } => message,
        }
    }
}

impl InputErr {
    /// The message that is shown for the error.
    pub fn to_text(&self) -> (r: String)
        ensures
            r@ == self@.message(),
    {
        match self {
            InputErr::Timeout => "deadline has elapsed".to_owned(),
            InputErr::IO { message, .. } => message.clone(),
        }
    }
}

impl PartialEq for InputErr {
    /// Two failures to read are equal where their kinds are; the messages may differ.
    fn eq(&self, other: &Self) -> (r: bool) {
        match (self, other) {
            (InputErr::Timeout, InputErr::Timeout) => true,
            (InputErr::IO { kind: a, .. }, InputErr::IO { kind: b, .. }) => *a == *b,
            _ => false,
        }
    }
}

impl vstd::std_specs::cmp::PartialEqSpecImpl for InputErr {
    open spec fn obeys_eq_spec() -> bool {
        true
    }

    open spec fn eq_spec(&self, other: &Self) -> bool {
        match (self@, other@) {
            (InputErr::Timeout, InputErr::Timeout) => true,
            (InputErr::IO { kind: a, .. }, InputErr::IO { kind: b, .. }) => a == b,
            _ => false,
        }
    }
}

/// Why a request failed. `E` is the error of whatever reads the response. Of a failure to write,
/// the message is kept.
#[derive(Debug, PartialEq)]
pub enum TransmitError<E, S = String> {
    Writing(S),
    ReadingInput(E),
    ParsingResponse(ParseError<S>),
    Terminal(TerminalError<S>),
}

impl<E> View for TransmitError<E> {
    type V = TransmitError<E, Seq<char>>;

    open spec fn view(&self) -> TransmitError<E, Seq<char>> {
        match *self {
            TransmitError::Writing(s) => TransmitError::Writing(s@),
            TransmitError::ReadingInput(e) => TransmitError::ReadingInput(e),
            TransmitError::ParsingResponse(e) => TransmitError::ParsingResponse(e@),
            TransmitError::Terminal(e) => TransmitError::Terminal(e@),
        }
    }
}

impl TransmitError<InputErr, Seq<char>> {
    /// The message that is shown for the error.
    pub open spec fn message(self) -> Seq<char> {
        match self {
            TransmitError::Writing(s) => "Couldn't write to writer: "@ + s,
            TransmitError::ReadingInput(e) => {
                "Couldn't read input after transmitting: "@ + e@.message()
            },
            TransmitError::ParsingResponse(e) => {
                "Couldn't parse response from the terminal: "@ + e.message()
            },
            TransmitError::Terminal(e) => "The backing terminal returned an error: "@ + e.message(),
        }
    }
}

impl TransmitError<InputErr> {
    /// The message that is shown for the error.
    pub fn to_text(&self) -> (r: String)
        ensures
            r@ == self@.message(),
    {
        match self {
            TransmitError::Writing(s) => "Couldn't write to writer: ".to_owned().concat(s.as_str()),
            TransmitError::ReadingInput(e) => {
                "Couldn't read input after transmitting: ".to_owned().concat(e.to_text().as_str())
            },
            TransmitError::ParsingResponse(e) => {
                "Couldn't parse response from the terminal: ".to_owned().concat(
                    e.to_text().as_str(),
                )
            },
            TransmitError::Terminal(e) => {
                "The backing terminal returned an error: ".to_owned().concat(e.to_text().as_str())
            },
        }
    }
}

/// The error for a request that was answered without an identifier.
pub fn missing_image_id_error<E>() -> (r: TransmitError<E>)
    ensures
        r@ == TransmitError::<E, Seq<char>>::ParsingResponse(
            ParseError::NoResponseId { ty: IdentifierType::ImageId },
        ),
{
    TransmitError::ParsingResponse(ParseError::NoResponseId { ty: IdentifierType::ImageId })
}

} // verus!
