//! What messages tell: whatever an error is about stands in its message.

use vstd::prelude::*;

use crate::cli::quoted_text;
use crate::cli::CliError;
use crate::document::document_kind;
use crate::document::startup_message;
use crate::error::RenderError;
use crate::export::png_failure;
use crate::kitty::error::terminal_error;
use crate::kitty::error::InputErr;
use crate::kitty::error::ParseError;
use crate::kitty::error::TerminalError;
use crate::kitty::error::TransmitError;
use crate::kitty::medium::ShmError;
use crate::viewer::startup::TerminalFailure;

verus! {

/// Whether a part stands in a message.
pub open spec fn tells(message: Seq<char>, part: Seq<char>) -> bool {
    exists|i: int|
        0 <= i <= message.len() - part.len() && #[trigger] message.subrange(i, i + part.len())
            == part
}

/// A part between two others stands in the whole.
proof fn lemma_tells(a: Seq<char>, part: Seq<char>, b: Seq<char>)
    ensures
        tells(a + part + b, part),
        tells(a + part, part),
{
    let n = a.len() as int;
    assert((a + part + b).subrange(n, n + part.len()) =~= part);
    assert((a + part).subrange(n, n + part.len()) =~= part);
}

/// A message tells what the argument, the number or the colour was that could not be understood.
pub proof fn lemma_cli_errors(value: Seq<char>, reason: Seq<char>)
    ensures
        tells(CliError::MissingValue(value).message(), value),
        tells(CliError::UnknownArgument(value).message(), value),
        tells(CliError::InvalidPage(value).message(), value),
        tells((CliError::InvalidColor { value, reason }).message(), quoted_text(value)),
        tells((CliError::InvalidColor { value, reason }).message(), reason),
        tells(CliError::<Seq<char>>::NoFile.message(), "Usage: kitpdf [options] <file>"@),
{
    let usage = "\nUsage: kitpdf [options] <file>"@;
    lemma_tells("missing value for "@, value, usage);
    lemma_tells("unknown argument: "@, value, usage);
    lemma_tells("invalid page number: "@, value, Seq::empty());
    let q = quoted_text(value);
    lemma_tells("invalid color "@, q, ": "@ + reason);
    assert("invalid color "@ + q + (": "@ + reason) =~= "invalid color "@ + q + ": "@ + reason);
    lemma_tells("invalid color "@ + q + ": "@, reason, Seq::empty());
    lemma_tells(Seq::empty(), "Usage: kitpdf [options] <file>"@, Seq::empty());
    assert(Seq::<char>::empty() + "Usage: kitpdf [options] <file>"@
        =~= "Usage: kitpdf [options] <file>"@);
}

/// The errors of the terminal, by their codes; any other code is unknown. The reason is kept, and
/// stands in the message.
pub proof fn lemma_terminal_errors(code: Seq<char>, reason: Seq<char>)
    ensures
        ({
            let e = terminal_error(code, reason);
            &&& e is Some <==> code == "ENOENT"@ || code == "EINVAL"@ || code == "EBADF"@ || code
                == "ENODATA"@ || code == "EFBIG"@
            &&& code == "ENOENT"@ <==> e == Some(TerminalError::NoEntity(reason))
            &&& code == "EINVAL"@ <==> e == Some(TerminalError::InvalidArgument(reason))
            &&& code == "EBADF"@ <==> e == Some(TerminalError::BadFile(reason))
            &&& code == "ENODATA"@ <==> e == Some(TerminalError::NoData(reason))
            &&& code == "EFBIG"@ <==> e == Some(TerminalError::FileTooLarge(reason))
            &&& e matches Some(error) ==> tells(error.message(), reason)
        }),
{
    reveal_strlit("ENOENT");
    reveal_strlit("EINVAL");
    reveal_strlit("EBADF");
    reveal_strlit("ENODATA");
    reveal_strlit("EFBIG");
    assert("ENOENT"@[1] == 'N' && "EINVAL"@[1] == 'I' && "EBADF"@[1] == 'B' && "EFBIG"@[1] == 'F');
    assert("ENOENT"@.len() == 6 && "ENODATA"@.len() == 7);
    let none = Seq::<char>::empty();
    lemma_tells("No such entity was found: "@, reason, none);
    lemma_tells("Invalid argument: "@, reason, none);
    lemma_tells("Bad file: "@, reason, none);
    lemma_tells("No Data: "@, reason, none);
    lemma_tells("File Too Large: "@, reason, none);
}

/// A message on a response that could not be understood tells what was found in it.
pub proof fn lemma_parse_errors(e: ParseError<Seq<char>>)
    ensures
        match e {
            ParseError::NoStartSequence(s) => tells(e.message(), s),
            ParseError::NoFinalSemicolon => true,
            ParseError::NoResponseId { ty } => tells(e.message(), ty.spec_name()),
            ParseError::DifferentIdInResponse { ty, found, expected } => tells(e.message(), found)
                && tells(e.message(), ty.spec_name()) && tells(e.message(), expected.spec_text()),
            ParseError::IdInResponseButNotInRequest { ty, value } => tells(e.message(), value)
                && tells(e.message(), ty.spec_name()),
            ParseError::MissingId { ty, val } => tells(e.message(), ty.spec_name()) && tells(
                e.message(),
                val.spec_text(),
            ),
            ParseError::UnknownResponseKey(s) => tells(e.message(), s),
            ParseError::MalformedError(s) => tells(e.message(), s),
            ParseError::UnknownErrorCode { code, reason } => tells(e.message(), code) && tells(
                e.message(),
                reason,
            ),
        },
{
    match e {
        ParseError::NoStartSequence(s) => {
            lemma_tells(
                "Terminal Response didn't start with '\\x1b_G' but instead '"@,
                s,
                "'"@,
            );
        },
        ParseError::NoFinalSemicolon => {},
        ParseError::NoResponseId { ty } => {
            lemma_tells(
                "An ID of type "@,
                ty.spec_name(),
                " was sent, but no relevant ID was seen in the terminal response"@,
            );
        },
        ParseError::DifferentIdInResponse { ty, found, expected } => {
            let a = "The ID of type "@;
            let b = " seen in the terminal response was different from the one we sent (was "@;
            let c = ", expected "@;
            let name = ty.spec_name();
            let other = expected.spec_text();
            lemma_tells(a, name, b + found + c + other + ")"@);
            assert(a + name + (b + found + c + other + ")"@) =~= e.message());
            lemma_tells(a + name + b, found, c + other + ")"@);
            assert(a + name + b + found + (c + other + ")"@) =~= e.message());
            lemma_tells(a + name + b + found + c, other, ")"@);
        },
        ParseError::IdInResponseButNotInRequest { ty, value } => {
            let a = "The terminal response provided a id of type "@;
            let b = ", but we didn't sent one as part of the request (with a value of '"@;
            let name = ty.spec_name();
            lemma_tells(a, name, b + value + "')"@);
            assert(a + name + (b + value + "')"@) =~= e.message());
            lemma_tells(a + name + b, value, "')"@);
        },
        ParseError::MissingId { ty, val } => {
            let a = "We expected to receive an ID of type "@;
            let b = " with value "@;
            let c = " in the response, but saw no id of that type"@;
            let name = ty.spec_name();
            let text = val.spec_text();
            lemma_tells(a, name, b + text + c);
            assert(a + name + (b + text + c) =~= e.message());
            lemma_tells(a + name + b, text, c);
        },
        ParseError::UnknownResponseKey(s) => {
            lemma_tells("Unknown terminal response key '"@, s, "'"@);
        },
        ParseError::MalformedError(s) => {
            lemma_tells(
                "The terminal returned an error, but it was unparseable; was '"@,
                s,
                "' but expected <code>:<reason>"@,
            );
        },
        ParseError::UnknownErrorCode { code, reason } => {
            let a = "The terminal resported an error with an unknown error code '"@;
            let b = "' and accompanying reason '"@;
            lemma_tells(a, code, b + reason + "'"@);
            assert(a + code + (b + reason + "'"@) =~= e.message());
            lemma_tells(a + code + b, reason, "'"@);
        },
    }
}

/// A message on a request that failed tells the message of what made it fail.
pub proof fn lemma_transmit_errors(e: TransmitError<InputErr, Seq<char>>)
    ensures
        match e {
            TransmitError::Writing(s) => tells(e.message(), s),
            TransmitError::ReadingInput(inner) => tells(e.message(), inner@.message()),
            TransmitError::ParsingResponse(inner) => tells(e.message(), inner.message()),
            TransmitError::Terminal(inner) => tells(e.message(), inner.message()),
        },
{
    let none = Seq::<char>::empty();
    match e {
        TransmitError::Writing(s) => {
            lemma_tells("Couldn't write to writer: "@, s, none);
        },
        TransmitError::ReadingInput(inner) => {
            lemma_tells("Couldn't read input after transmitting: "@, inner@.message(), none);
        },
        TransmitError::ParsingResponse(inner) => {
            lemma_tells("Couldn't parse response from the terminal: "@, inner.message(), none);
        },
        TransmitError::Terminal(inner) => {
            lemma_tells("The backing terminal returned an error: "@, inner.message(), none);
        },
    }
}

/// The other messages tell what they are about too: why shared memory could not be had, why a
/// terminal could not be cleared, which file could not be written and why, and of which kind a
/// document is not.
pub proof fn lemma_other_messages(
    shm: ShmError<Seq<char>>,
    failure: TerminalFailure,
    path: Seq<char>,
    reason: Seq<char>,
)
    ensures
        tells(shm.message(), shm.err),
        failure matches TerminalFailure::ClearFailed(e) ==> tells(
            failure.message(),
            e@.message(),
        ),
        png_failure(path, reason) matches RenderError::Converting(message) && tells(message, path)
            && tells(message, reason),
        tells(startup_message(path, RenderError::EmptyDocument), document_kind(path)),
{
    let none = Seq::<char>::empty();
    let n = shm.message().len() - shm.err.len();
    lemma_tells(shm.message().take(n), shm.err, none);
    assert(shm.message().take(n) + shm.err =~= shm.message());
    if let TerminalFailure::ClearFailed(e) = failure {
        lemma_tells("failed to clear previous Kitty images: "@, e@.message(), none);
    }
    lemma_tells("cannot write PNG "@, path, ": "@ + reason);
    assert("cannot write PNG "@ + path + (": "@ + reason) =~= "cannot write PNG "@ + path + ": "@
        + reason);
    lemma_tells("cannot write PNG "@ + path + ": "@, reason, none);
    lemma_tells("not a valid "@, document_kind(path), " file"@);
}

} // verus!
