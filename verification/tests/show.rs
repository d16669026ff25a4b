use kitpdf::error::RenderError;
use kitpdf::kitty::action::Action;
use kitpdf::kitty::delete::ClearOrDelete;
use kitpdf::kitty::delete::DeleteConfig;
use kitpdf::kitty::delete::WhichToDelete;
use kitpdf::kitty::display::DisplayLocation;
use kitpdf::kitty::error::InputErr;
use kitpdf::kitty::error::ParseError;
use kitpdf::kitty::error::TerminalError;
use kitpdf::kitty::error::TransmitError;
use kitpdf::kitty::format::ImageDimensions;
use kitpdf::kitty::format::PixelFormat;
use kitpdf::kitty::id::IdentifierType;
use kitpdf::kitty::id::ImageId;
use kitpdf::kitty::id::NumberOrId;
use kitpdf::kitty::image::Image;
use kitpdf::kitty::medium::Medium;
use kitpdf::kitty::medium::ShmCreationFailureStep;
use kitpdf::kitty::placeholder::append_tmux_placeholders;
use kitpdf::kitty::placeholder::display_config_for;
use kitpdf::kitty::placeholder::Pos;
use kitpdf::kitty::run::clear_kitty_image;
use kitpdf::kitty::run::clear_previous_images;
use kitpdf::kitty::run::render_error_for;
use kitpdf::kitty::run::shm_probe_name;
use kitpdf::kitty::run::shm_query_image;
use kitpdf::kitty::run::support_query_image;
use kitpdf::kitty::run::AfterWrite;
use kitpdf::kitty::run::DeleteRun;
use kitpdf::kitty::show::begin_display;
use kitpdf::kitty::show::collect_display_results;
use kitpdf::kitty::show::end_display;
use kitpdf::kitty::show::KittyReadyToDisplay;
use kitpdf::kitty::show::MaybeTransferred;

fn id(value: u32) -> ImageId {
    ImageId::new(value).unwrap()
}

fn image(num_or_id: NumberOrId) -> Image {
    Image {
        num_or_id,
        format: PixelFormat::Rgb24(ImageDimensions { width: 1, height: 1 }),
        medium: Medium::Direct { chunk_size: None, data: vec![1, 2, 3] },
    }
}

fn ready(img: MaybeTransferred) -> KittyReadyToDisplay {
    KittyReadyToDisplay {
        img,
        page_num: 6,
        pos: Pos { x: 2, y: 1 },
        display_loc: DisplayLocation { columns: 2, rows: 1, ..DisplayLocation::default() },
    }
}

fn shown_id(img: &MaybeTransferred) -> Option<ImageId> {
    match img {
        MaybeTransferred::Transferred(id) => Some(*id),
        MaybeTransferred::NotYet(_) => None,
    }
}

#[test]
fn a_request_is_written_and_its_response_awaited() {
    let query = image(NumberOrId::Id(id(31)));
    let request = Action::Query(&query).request(false);
    assert_eq!(request.packet, b"\x1b_Ga=q,i=31,f=24,s=1,v=1,t=d;AQID\x1b\\".to_vec());
    assert_eq!(request.awaits, Some((NumberOrId::Id(id(31)), None)));
    match request.after_write::<InputErr>(Ok(())) {
        AfterWrite::Read => {}
        other => panic!("{other:?}"),
    }
    match request.after_write::<InputErr>(Err("full".to_string())) {
        AfterWrite::Done(Err(e)) => assert_eq!(e, TransmitError::Writing("full".to_string())),
        other => panic!("{other:?}"),
    }
    let ok: Result<String, InputErr> = Ok("_Gi=31;OK".to_string());
    assert_eq!(request.after_read(ok), Ok(Some(id(31))));
    assert_eq!(
        request.after_read(Err(InputErr::Timeout)),
        Err(TransmitError::ReadingInput(InputErr::Timeout))
    );
}

#[test]
fn a_request_inside_tmux_is_handed_through() {
    let request = clear_kitty_image(id(4)).request(true);
    assert_eq!(
        request.packet,
        b"\x1bPtmux;\x1b\x1b_Ga=d,d=i,i=4\x1b\x1b\\\x1b\\".to_vec()
    );
    match request.after_write::<InputErr>(Ok(())) {
        AfterWrite::Done(Ok(None)) => {}
        other => panic!("{other:?}"),
    }
    let any: Result<String, InputErr> = Ok("x".to_string());
    assert_eq!(request.after_read(any), Ok(None));
}

#[test]
fn terminals_are_asked_with_one_black_pixel() {
    let query = support_query_image();
    assert_eq!(
        Action::Query(&query).request(false).packet,
        b"\x1b_Ga=q,i=4294967294,f=24,s=1,v=1,t=d,m=0;AAAA\x1b\\\x1b\\".to_vec()
    );
    assert_eq!(shm_probe_name(123), "kitpdf_test_123");
    let probe = shm_query_image("abc", None).unwrap();
    assert_eq!(
        Action::Query(&probe).request(false).packet,
        b"\x1b_Ga=q,i=4294967295,f=24,s=1,v=1,t=s;YWJj\x1b\\".to_vec()
    );
    let failure = Some((ShmCreationFailureStep::ShmOpen, "no".to_string()));
    assert!(shm_query_image("abc", failure).is_none());
}

#[test]
fn images_are_freed_one_after_another() {
    let mut run = DeleteRun::new(vec![id(3), id(5)]);
    let freed = |value: u32| {
        Action::Delete(DeleteConfig {
            effect: ClearOrDelete::Delete,
            which: WhichToDelete::ImageId(id(value), None),
        })
    };
    assert_eq!(run.next_action(), Some(freed(3)));
    assert_eq!(run.next_action(), Some(freed(5)));
    assert_eq!(run.next_action(), None);
    assert_eq!(run.next_action(), None);
    assert_eq!(
        clear_previous_images().request(false).packet,
        b"\x1b_Ga=d,d=R,x=1,y=4294967295\x1b\\".to_vec()
    );
}

#[test]
fn a_dropped_image_is_no_error() {
    let gone = TransmitError::Terminal(TerminalError::NoEntity("x".to_string()));
    assert_eq!(render_error_for(&gone), None);
    let bad = TransmitError::Terminal(TerminalError::BadFile("x".to_string()));
    assert_eq!(
        render_error_for(&bad),
        Some(RenderError::Converting(
            "The backing terminal returned an error: Bad file: x".to_string()
        ))
    );
}

#[test]
fn an_image_is_sent_and_then_shown_by_its_identifier() {
    let first = ready(MaybeTransferred::NotYet(image(NumberOrId::Number(id(1)))));
    let config = display_config_for(first.display_loc, false);
    let (action, pending) = begin_display(first, false);
    assert_eq!(
        action,
        Action::TransmitAndDisplay {
            image: image(NumberOrId::Number(id(1))),
            config,
            placement_id: None
        }
    );
    let done = end_display(pending, Ok(Some(id(44))));
    assert_eq!(done.page_num, 6);
    assert_eq!(done.result, Ok(vec![]));
    assert_eq!(shown_id(&done.img), Some(id(44)));

    let (action, pending) = begin_display(ready(done.img), false);
    assert_eq!(
        action,
        Action::Display { image_id: id(44), placement_id: id(44), config }
    );
    let done = end_display(pending, Ok(Some(id(44))));
    assert_eq!(done.result, Ok(vec![]));
    assert_eq!(shown_id(&done.img), Some(id(44)));
}

#[test]
fn placeholders_follow_inside_tmux() {
    let first = ready(MaybeTransferred::NotYet(image(NumberOrId::Id(id(9)))));
    let (action, pending) = begin_display(first, true);
    match action {
        Action::TransmitAndDisplay { placement_id, config, .. } => {
            assert_eq!(placement_id, Some(id(9)));
            assert!(config.create_virtual_placement);
        }
        other => panic!("{other:?}"),
    }
    let mut expected = Vec::new();
    append_tmux_placeholders(&mut expected, id(9), Some(id(9)), Pos { x: 2, y: 1 }, 2, 1, true);
    assert_eq!(end_display(pending, Ok(Some(id(9)))).result, Ok(expected.clone()));

    let (_, pending) = begin_display(ready(MaybeTransferred::Transferred(id(9))), true);
    assert_eq!(end_display(pending, Ok(None)).result, Ok(expected));

    let by_number = ready(MaybeTransferred::NotYet(image(NumberOrId::Number(id(1)))));
    let (_, pending) = begin_display(by_number, true);
    let mut unplaced = Vec::new();
    append_tmux_placeholders(&mut unplaced, id(7), None, Pos { x: 2, y: 1 }, 2, 1, true);
    assert_eq!(end_display(pending, Ok(Some(id(7)))).result, Ok(unplaced));
}

#[test]
fn an_image_that_failed_is_left_empty() {
    let first = ready(MaybeTransferred::NotYet(image(NumberOrId::Id(id(9)))));
    let (_, pending) = begin_display(first, false);
    let done = end_display(pending, Ok(None));
    assert_eq!(
        done.result,
        Err(TransmitError::ParsingResponse(ParseError::NoResponseId {
            ty: IdentifierType::ImageId
        }))
    );
    match done.img {
        MaybeTransferred::NotYet(left) => {
            assert_eq!(left.num_or_id, NumberOrId::Id(id(9)));
            assert_eq!(left.medium, Medium::Direct { chunk_size: None, data: vec![] });
        }
        other => panic!("{other:?}"),
    }
    let (_, pending) = begin_display(ready(MaybeTransferred::Transferred(id(9))), true);
    let late = TransmitError::ReadingInput(InputErr::Timeout);
    let done = end_display(pending, Err(late));
    assert_eq!(done.result, Err(TransmitError::ReadingInput(InputErr::Timeout)));
    assert_eq!(shown_id(&done.img), Some(id(9)));
}

#[test]
fn failed_pages_are_collected_with_the_first_error() {
    let err = |s: &str| Err(TransmitError::Writing(s.to_string()));
    assert_eq!(collect_display_results(vec![(1, Ok(())), (2, Ok(()))]), Ok(()));
    assert_eq!(
        collect_display_results(vec![(1, Ok(())), (4, err("a")), (2, Ok(())), (3, err("b"))]),
        Err((
            vec![4, 3],
            "couldn't transfer image to terminal",
            TransmitError::Writing("a".to_string())
        ))
    );
}
