use kitpdf::kitty::error::missing_image_id_error;
use kitpdf::kitty::error::InputErr;
use kitpdf::kitty::error::ParseError;
use kitpdf::kitty::error::TerminalError;
use kitpdf::kitty::error::TransmitError;
use kitpdf::kitty::id::AnyValueOrSpecific;
use kitpdf::kitty::id::IdentifierType;
use kitpdf::kitty::id::ImageId;
use kitpdf::kitty::id::NumberOrId;
use kitpdf::kitty::reader::effective_timeout;
use kitpdf::kitty::reader::EscReader;
use kitpdf::kitty::reader::InputEvent;
use kitpdf::kitty::reader::MIN_RESPONSE_TIMEOUT_MS;
use kitpdf::kitty::reader::RESPONSE_TIMEOUT_MS;
use kitpdf::kitty::response::parse_response;
use kitpdf::kitty::response::read_parse_response;

fn id(value: u32) -> ImageId {
    ImageId::new(value).unwrap()
}

fn parse(
    text: &str,
    image: NumberOrId,
    placement: Option<u32>,
) -> Result<Result<ImageId, TerminalError>, ParseError> {
    parse_response(text.to_string(), image, placement.map(id))
}

fn by_id(text: &str) -> Result<Result<ImageId, TerminalError>, ParseError> {
    parse(text, NumberOrId::Id(id(31)), None)
}

fn typed(s: &str) -> Vec<InputEvent> {
    s.chars()
        .map(|c| InputEvent::Key { ch: Some(c), alt: false })
        .collect()
}

#[test]
fn success_names_the_image() {
    assert_eq!(by_id("_Gi=31;OK"), Ok(Ok(id(31))));
    assert_eq!(by_id("_Gi=31;OK\n"), Ok(Ok(id(31))));
    assert_eq!(by_id("_Gi=+031;OK"), Ok(Ok(id(31))));
    assert_eq!(by_id("_G_Gi=31;OK"), Ok(Ok(id(31))));
    assert_eq!(by_id("_G,,i=31,;OK;more"), Ok(Ok(id(31))));
    assert_eq!(by_id("_Gi=31=9;OK"), Ok(Ok(id(31))));
}

#[test]
fn success_with_a_placement() {
    let image = NumberOrId::Id(id(31));
    assert_eq!(parse("_Gi=31,p=7;OK", image, Some(7)), Ok(Ok(id(31))));
    assert_eq!(
        parse("_Gi=31;OK", image, Some(7)),
        Err(ParseError::MissingId {
            ty: IdentifierType::PlacementId,
            val: AnyValueOrSpecific::Specific(id(7)),
        })
    );
    assert_eq!(
        parse("_Gi=31,p=7;OK", image, None),
        Err(ParseError::IdInResponseButNotInRequest {
            ty: IdentifierType::PlacementId,
            value: "7".to_string(),
        })
    );
}

#[test]
fn success_of_an_image_sent_by_number() {
    let image = NumberOrId::Number(id(13));
    assert_eq!(parse("_Gi=99,I=13;OK", image, None), Ok(Ok(id(99))));
    assert_eq!(
        parse("_Gi=99;OK", image, None),
        Err(ParseError::MissingId {
            ty: IdentifierType::ImageNumber,
            val: AnyValueOrSpecific::Specific(id(13)),
        })
    );
    assert_eq!(
        parse("_GI=13;OK", image, None),
        Err(ParseError::MissingId {
            ty: IdentifierType::ImageId,
            val: AnyValueOrSpecific::Any,
        })
    );
    assert_eq!(
        parse("_Gi=0,I=13;OK", image, None),
        Err(ParseError::DifferentIdInResponse {
            ty: IdentifierType::ImageId,
            found: "0".to_string(),
            expected: AnyValueOrSpecific::Any,
        })
    );
}

#[test]
fn a_later_option_replaces_an_earlier_one() {
    let image = NumberOrId::Number(id(13));
    assert_eq!(parse("_Gi=5,i=6,I=13;OK", image, None), Ok(Ok(id(6))));
    assert_eq!(
        parse("_Gi=5,i,I=13;OK", image, None),
        Err(ParseError::MissingId {
            ty: IdentifierType::ImageId,
            val: AnyValueOrSpecific::Any,
        })
    );
}

#[test]
fn responses_that_cannot_be_understood() {
    assert_eq!(by_id("Gi=31;OK"), Err(ParseError::NoStartSequence("Gi=31;OK".to_string())));
    assert_eq!(by_id(""), Err(ParseError::NoStartSequence(String::new())));
    assert_eq!(by_id("_Gi=31"), Err(ParseError::NoFinalSemicolon));
    assert_eq!(by_id("_Gi;OK"), Err(ParseError::NoResponseId { ty: IdentifierType::ImageId }));
    for found in ["32", "", "x", "4294967327"] {
        assert_eq!(
            by_id(&format!("_Gi={found};OK")),
            Err(ParseError::DifferentIdInResponse {
                ty: IdentifierType::ImageId,
                found: found.to_string(),
                expected: AnyValueOrSpecific::Specific(id(31)),
            })
        );
    }
    assert_eq!(
        by_id("_Gi=31,I=2;OK"),
        Err(ParseError::IdInResponseButNotInRequest {
            ty: IdentifierType::ImageNumber,
            value: "2".to_string(),
        })
    );
    assert_eq!(
        by_id("_G;OK"),
        Err(ParseError::MissingId {
            ty: IdentifierType::ImageId,
            val: AnyValueOrSpecific::Specific(id(31)),
        })
    );
    assert_eq!(by_id("_Gx=1;OK"), Err(ParseError::UnknownResponseKey("x".to_string())));
    assert_eq!(by_id("_Gi=31;OKAY"), Err(ParseError::MalformedError("OKAY".to_string())));
    assert_eq!(
        by_id("_Gi=31;EWHAT:x:y"),
        Err(ParseError::UnknownErrorCode {
            code: "EWHAT".to_string(),
            reason: "x".to_string(),
        })
    );
}

#[test]
fn errors_of_the_terminal() {
    let reason = || "why".to_string();
    for (code, err, text) in [
        ("ENOENT", TerminalError::NoEntity(reason()), "No such entity was found: why"),
        ("EINVAL", TerminalError::InvalidArgument(reason()), "Invalid argument: why"),
        ("EBADF", TerminalError::BadFile(reason()), "Bad file: why"),
        ("ENODATA", TerminalError::NoData(reason()), "No Data: why"),
        ("EFBIG", TerminalError::FileTooLarge(reason()), "File Too Large: why"),
    ] {
        assert_eq!(err.to_text(), text);
        assert_eq!(by_id(&format!("_Gi=31;{code}:why")), Ok(Err(err)));
    }
    assert!(TerminalError::try_from(("ENOENT", "x")).is_ok());
    assert_eq!(TerminalError::try_from(("E", "x")).unwrap_err().0, "E");
}

#[test]
fn parse_errors_are_spelled_out() {
    let s = || "s".to_string();
    let ty = IdentifierType::PlacementId;
    assert_eq!(
        ParseError::NoStartSequence(s()).to_text(),
        "Terminal Response didn't start with '\\x1b_G' but instead 's'"
    );
    assert_eq!(
        ParseError::NoFinalSemicolon.to_text(),
        "No final semicolon was provided to indicate end of options in the terminal response"
    );
    assert_eq!(
        ParseError::NoResponseId { ty }.to_text(),
        "An ID of type PlacementId was sent, but no relevant ID was seen in the terminal response"
    );
    assert_eq!(
        ParseError::DifferentIdInResponse {
            ty: IdentifierType::ImageId,
            found: s(),
            expected: AnyValueOrSpecific::Specific(id(4)),
        }
        .to_text(),
        "The ID of type ImageId seen in the terminal response was different from the one we sent (was s, expected 4)"
    );
    assert_eq!(
        ParseError::IdInResponseButNotInRequest { ty, value: s() }.to_text(),
        "The terminal response provided a id of type PlacementId, but we didn't sent one as part of the request (with a value of 's')"
    );
    assert_eq!(
        ParseError::MissingId { ty: IdentifierType::ImageNumber, val: AnyValueOrSpecific::Any }
            .to_text(),
        "We expected to receive an ID of type ImageNumber with value <any value> in the response, but saw no id of that type"
    );
    assert_eq!(ParseError::UnknownResponseKey(s()).to_text(), "Unknown terminal response key 's'");
    assert_eq!(
        ParseError::MalformedError(s()).to_text(),
        "The terminal returned an error, but it was unparseable; was 's' but expected <code>:<reason>"
    );
    assert_eq!(
        ParseError::UnknownErrorCode { code: s(), reason: "r".to_string() }.to_text(),
        "The terminal resported an error with an unknown error code 's' and accompanying reason 'r'"
    );
}

#[test]
fn transmit_errors_are_spelled_out() {
    let io = |kind: &str, message: &str| InputErr::IO {
        kind: kind.to_string(),
        message: message.to_string(),
    };
    assert_eq!(
        TransmitError::<InputErr>::Writing("full".to_string()).to_text(),
        "Couldn't write to writer: full"
    );
    assert_eq!(
        TransmitError::ReadingInput(InputErr::Timeout).to_text(),
        "Couldn't read input after transmitting: deadline has elapsed"
    );
    assert_eq!(
        TransmitError::ReadingInput(io("other", "gone")).to_text(),
        "Couldn't read input after transmitting: gone"
    );
    assert_eq!(
        TransmitError::<InputErr>::ParsingResponse(ParseError::UnknownResponseKey("k".to_string()))
            .to_text(),
        "Couldn't parse response from the terminal: Unknown terminal response key 'k'"
    );
    assert_eq!(
        TransmitError::<InputErr>::Terminal(TerminalError::NoData("d".to_string())).to_text(),
        "The backing terminal returned an error: No Data: d"
    );
    assert_eq!(
        missing_image_id_error::<InputErr>(),
        TransmitError::ParsingResponse(ParseError::NoResponseId { ty: IdentifierType::ImageId })
    );
    assert!(io("a", "x") == io("a", "y"));
    assert!(io("a", "x") != io("b", "x"));
    assert!(InputErr::Timeout == InputErr::Timeout);
    assert!(InputErr::Timeout != io("a", "x"));
}

#[test]
fn reading_and_parsing_put_together() {
    let image = NumberOrId::Id(id(31));
    let ok: Result<String, InputErr> = Ok("_Gi=31;OK".to_string());
    assert_eq!(read_parse_response(ok, image, None), Ok(id(31)));
    assert_eq!(
        read_parse_response(Err(InputErr::Timeout), image, None),
        Err(TransmitError::ReadingInput(InputErr::Timeout))
    );
    let bad: Result<String, InputErr> = Ok("x".to_string());
    assert_eq!(
        read_parse_response(bad, image, None),
        Err(TransmitError::ParsingResponse(ParseError::NoStartSequence("x".to_string())))
    );
    let gone: Result<String, InputErr> = Ok("_Gi=31;ENOENT:x".to_string());
    assert_eq!(
        read_parse_response(gone, image, None),
        Err(TransmitError::Terminal(TerminalError::NoEntity("x".to_string())))
    );
}

#[test]
fn a_response_is_read_between_two_escapes() {
    let mut reader = EscReader::new(String::new());
    assert!(reader.feed(InputEvent::Key { ch: Some('_'), alt: true }).is_none());
    for event in typed("Gi=31;OK") {
        assert!(reader.feed(event).is_none());
    }
    assert!(reader.feed(InputEvent::Other).is_none());
    assert!(reader.feed(InputEvent::Key { ch: None, alt: true }).is_none());
    assert_eq!(reader.feed(InputEvent::Key { ch: Some('\\'), alt: true }), Some(Ok(())));
    assert_eq!(reader.buf, "_Gi=31;OK");
}

#[test]
fn pasted_text_is_read_to_its_first_escape() {
    let mut reader = EscReader::new("a".to_string());
    assert!(reader.feed(InputEvent::Paste("bc".to_string())).is_none());
    assert_eq!(reader.feed(InputEvent::Paste("de\x1bf\x1bg".to_string())), Some(Ok(())));
    assert_eq!(reader.buf, "abcde");
}

#[test]
fn the_end_of_the_input_ends_the_reading() {
    let mut reader = EscReader::new(String::new());
    assert_eq!(reader.feed(InputEvent::End), Some(Ok(())));
    assert_eq!(reader.feed(InputEvent::Failed(InputErr::Timeout)), Some(Err(InputErr::Timeout)));
    assert_eq!(reader.buf, "");
}

#[test]
fn a_response_is_waited_for_long_enough() {
    assert_eq!(effective_timeout(RESPONSE_TIMEOUT_MS, MIN_RESPONSE_TIMEOUT_MS), 5000);
    assert_eq!(effective_timeout(7000, MIN_RESPONSE_TIMEOUT_MS), 7000);
}

#[test]
fn options_may_come_in_any_order() {
    let options = ["i=31", "p=7", ""];
    let orders = [[0, 1, 2], [0, 2, 1], [1, 0, 2], [1, 2, 0], [2, 0, 1], [2, 1, 0]];
    for order in orders {
        let list: Vec<&str> = order.iter().map(|i: &usize| options[*i]).collect();
        let list = list.join(",");
        let image = NumberOrId::Id(id(31));
        let answer = |tail: &str| parse(&format!("_G{list};{tail}"), image, Some(7));
        assert_eq!(answer("OK"), Ok(Ok(id(31))), "{list}");
        assert_eq!(answer("OK;more"), Ok(Ok(id(31))), "{list}");
        assert_eq!(
            answer("ENOENT:gone"),
            Ok(Err(TerminalError::NoEntity("gone".to_string()))),
            "{list}"
        );
    }
    let number = NumberOrId::Number(id(4));
    assert_eq!(parse("_GI=4,i=9;OK", number, None), parse("_Gi=9,I=4;OK", number, None));
    assert_eq!(parse("_GI=4,i=9;OK", number, None), Ok(Ok(id(9))));
}
