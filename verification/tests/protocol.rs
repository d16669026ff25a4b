use kitpdf::kitty::action::Action;
use kitpdf::kitty::base64::write_b64;
use kitpdf::kitty::delete::ClearOrDelete;
use kitpdf::kitty::delete::DeleteConfig;
use kitpdf::kitty::delete::WhichToDelete;
use kitpdf::kitty::display::CursorMovementPolicy;
use kitpdf::kitty::display::DisplayConfig;
use kitpdf::kitty::display::DisplayLocation;
use kitpdf::kitty::format::write_param;
use kitpdf::kitty::format::ImageDimensions;
use kitpdf::kitty::format::PixelFormat;
use kitpdf::kitty::id::AnyValueOrSpecific;
use kitpdf::kitty::id::ImageId;
use kitpdf::kitty::id::NumberOrId;
use kitpdf::kitty::image::Image;
use kitpdf::kitty::image::ImageFromShmFailureStep;
use kitpdf::kitty::image::Verbosity;
use kitpdf::kitty::medium::BufferTooLarge;
use kitpdf::kitty::medium::ChunkSize;
use kitpdf::kitty::medium::Medium;
use kitpdf::kitty::medium::SharedMemObject;
use kitpdf::kitty::medium::ShmCreationFailureStep;
use kitpdf::kitty::medium::ShmError;
use kitpdf::kitty::pixels::AlphaPixels;
use kitpdf::kitty::pixels::DynamicImage;
use kitpdf::kitty::pixels::OpaquePixels;
use kitpdf::kitty::pixels::Pixels;

fn id(value: u32) -> ImageId {
    ImageId::new(value).unwrap()
}

fn b64(data: &[u8]) -> String {
    let mut out = Vec::new();
    write_b64(data, &mut out);
    String::from_utf8(out).unwrap()
}

fn packet(action: &Action) -> String {
    let mut out = Vec::new();
    action.write_transmit_to(&mut out, Verbosity::All);
    String::from_utf8(out).unwrap()
}

fn opaque(width: u32, height: u32, pixels: OpaquePixels) -> DynamicImage {
    DynamicImage::new(width, height, Pixels::Opaque(pixels)).unwrap()
}

fn alpha(width: u32, height: u32, pixels: AlphaPixels) -> DynamicImage {
    DynamicImage::new(width, height, Pixels::Alpha(pixels)).unwrap()
}

#[test]
fn zero_is_no_identifier() {
    assert!(ImageId::new(0).is_none());
    assert_eq!(id(5).get(), 5);
}

#[test]
fn base64_is_written_without_padding() {
    assert_eq!(b64(b""), "");
    assert_eq!(b64(b"f"), "Zg");
    assert_eq!(b64(b"fo"), "Zm8");
    assert_eq!(b64(b"foo"), "Zm9v");
    assert_eq!(b64(b"foob"), "Zm9vYg");
    assert_eq!(b64(b"fooba"), "Zm9vYmE");
    assert_eq!(b64(b"foobar"), "Zm9vYmFy");
    assert_eq!(b64(&[0xff, 0xef, 0xbe]), "/+++");
}

#[test]
fn parameters_with_their_default_are_left_out() {
    let mut out = Vec::new();
    write_param(&mut out, 'x', 0, 0);
    write_param(&mut out, 'z', -12, 0);
    write_param(&mut out, 'w', 4294967295, 0);
    assert_eq!(out, b",z=-12,w=4294967295".to_vec());
}

#[test]
fn query_of_a_direct_image() {
    let image = Image {
        num_or_id: NumberOrId::Id(id(31)),
        format: PixelFormat::Rgb24(ImageDimensions { width: 1, height: 2 }),
        medium: Medium::Direct { chunk_size: None, data: b"foo".to_vec() },
    };
    assert_eq!(packet(&Action::Query(&image)), "\x1b_Ga=q,i=31,f=24,s=1,v=2,t=d;Zm9v\x1b\\");
}

#[test]
fn default_format_is_left_out() {
    let image = Image {
        num_or_id: NumberOrId::Number(id(9)),
        format: PixelFormat::default(),
        medium: Medium::Direct { chunk_size: None, data: Vec::new() },
    };
    assert_eq!(packet(&Action::Query(&image)), "\x1b_Ga=q,I=9,t=d;\x1b\\");
}

#[test]
fn format_with_one_dimension() {
    let mut out = Vec::new();
    PixelFormat::Rgba32(ImageDimensions { width: 0, height: 3 }).write_to(&mut out);
    assert_eq!(out, b",f=32,v=3".to_vec());
}

#[test]
fn sent_and_shown_in_chunks() {
    let image = Image {
        num_or_id: NumberOrId::Id(id(2)),
        format: PixelFormat::Rgba32(ImageDimensions { width: 40, height: 30 }),
        medium: Medium::Direct {
            chunk_size: Some(ChunkSize::default()),
            data: vec![0; 2 * 3072 + 1],
        },
    };
    let config = DisplayConfig {
        location: DisplayLocation { columns: 3, rows: 4, z_index: -1, ..DisplayLocation::default() },
        cursor_movement: CursorMovementPolicy::DontMove,
        create_virtual_placement: true,
        parent_id: Some(id(8)),
        parent_placement: Some(id(9)),
    };
    let full = "A".repeat(4096);
    assert_eq!(
        packet(&Action::TransmitAndDisplay { image, config, placement_id: Some(id(5)) }),
        format!(
            "\x1b_Ga=T,i=2,p=5,c=3,r=4,z=-1,C=1,U=1,P=8,Q=9,f=32,s=40,v=30,t=d,m=1;{full}\x1b\\\
             \x1b_Gm=1;{full}\x1b\\\x1b_Gm=0;AA\x1b\\\x1b\\"
        )
    );
}

#[test]
fn one_chunk_has_no_more_after_it() {
    let image = Image {
        num_or_id: NumberOrId::Id(id(2)),
        format: PixelFormat::default(),
        medium: Medium::Direct { chunk_size: Some(ChunkSize::default()), data: vec![0; 3072] },
    };
    let full = "A".repeat(4096);
    assert_eq!(
        packet(&Action::Query(&image)),
        format!("\x1b_Ga=q,i=2,t=d,m=0;{full}\x1b\\\x1b\\")
    );
}

#[test]
fn chunks_of_nothing() {
    let image = Image {
        num_or_id: NumberOrId::Id(id(2)),
        format: PixelFormat::default(),
        medium: Medium::Direct { chunk_size: Some(ChunkSize::default()), data: Vec::new() },
    };
    assert_eq!(packet(&Action::Query(&image)), "\x1b_Ga=q,i=2,t=d,\x1b\\");
}

#[test]
fn shown_by_identifier() {
    let config = DisplayConfig {
        location: DisplayLocation {
            x: 1,
            y: 2,
            width: 3,
            height: 4,
            x_offset: 5,
            y_offset: 6,
            columns: 7,
            rows: 8,
            z_index: 9,
            horizontal_offset: -10,
            vertical_offset: 11,
        },
        ..DisplayConfig::default()
    };
    assert_eq!(
        packet(&Action::Display { image_id: id(4), placement_id: id(6), config }),
        "\x1b_Ga=p,i=4,p=6,x=1,y=2,w=3,h=4,X=5,Y=6,c=7,r=8,z=9,H=-10,V=11\x1b\\"
    );
}

#[test]
fn taken_off_the_screen() {
    let one = DeleteConfig {
        effect: ClearOrDelete::Clear,
        which: WhichToDelete::ImageId(id(4), Some(id(5))),
    };
    assert_eq!(packet(&Action::Delete(one)), "\x1b_Ga=d,d=i,i=4,p=5\x1b\\");
    let freed = DeleteConfig {
        effect: ClearOrDelete::Delete,
        which: WhichToDelete::ImageId(id(4), None),
    };
    assert_eq!(packet(&Action::Delete(freed)), "\x1b_Ga=d,d=I,i=4\x1b\\");
    let range = DeleteConfig {
        effect: ClearOrDelete::Delete,
        which: WhichToDelete::IdRange(id(1), id(u32::MAX)),
    };
    assert_eq!(packet(&Action::Delete(range)), "\x1b_Ga=d,d=R,x=1,y=4294967295\x1b\\");
}

#[test]
fn only_targets_are_in_upper_case() {
    assert_eq!(ClearOrDelete::Delete.maybe_upper('r'), 'R');
    assert_eq!(ClearOrDelete::Delete.maybe_upper('7'), '7');
    assert_eq!(ClearOrDelete::Clear.maybe_upper('r'), 'r');
}

#[test]
fn shared_memory_is_named() {
    let obj = SharedMemObject::create_new("foo", 3, None).unwrap();
    let image = Image {
        num_or_id: NumberOrId::Id(id(1)),
        format: PixelFormat::default(),
        medium: Medium::SharedMemObject(obj),
    };
    assert_eq!(packet(&Action::Query(&image)), "\x1b_Ga=q,i=1,t=s;Zm9v\x1b\\");
}

#[test]
fn shared_memory_takes_what_fits() {
    let mut obj = SharedMemObject::create_new("a", 4, None).unwrap();
    assert_eq!(obj.map(), [0, 0, 0, 0]);
    assert_eq!(obj.copy_in_buf(&[1, 2, 3, 4]), Ok(()));
    assert_eq!(obj.map(), [1, 2, 3, 4]);
    assert_eq!(obj.copy_in_buf(&[9, 8]), Ok(()));
    assert_eq!(obj.map(), [9, 8, 0, 0]);
    assert_eq!(obj.copy_in_buf(&[1, 2, 3, 4, 5]), Err(BufferTooLarge));
    assert_eq!(obj.map(), [9, 8, 0, 0]);
    assert_eq!(BufferTooLarge.to_text(), "Provided buffer is too large to fit");
}

#[test]
fn shared_memory_is_the_same_by_name() {
    let a = SharedMemObject::create_new("a", 4, None).unwrap();
    let b = SharedMemObject::create_new("a", 9, None).unwrap();
    let c = SharedMemObject::create_new("c", 4, None).unwrap();
    assert!(a == b);
    assert!(a != c);
}

#[test]
fn shared_memory_failures_are_told_apart() {
    for (step, text) in [
        (ShmCreationFailureStep::ShmOpen, "Couldn't open SHM: no"),
        (ShmCreationFailureStep::ShmSetSize, "Couldn't set the size of the SHM: no"),
        (
            ShmCreationFailureStep::MemmapCreation,
            "Couldn't create the memmap necessary to write to this SHM: no",
        ),
    ] {
        let err = SharedMemObject::create_new("a", 4, Some((step, "no".to_string()))).unwrap_err();
        assert_eq!(err, ShmError { step, err: "no".to_string() });
        assert_eq!(err.to_text(), text);
    }
}

#[test]
fn gray_pixels_become_three_samples() {
    let data: Vec<u8> = (0..=255).collect();
    let (format, out) = Image::fmt_and_data_from(opaque(256, 1, OpaquePixels::Luma8(data)));
    assert_eq!(format, PixelFormat::Rgb24(ImageDimensions { width: 256, height: 1 }));
    assert_eq!(out.len(), 768);
    for (i, sample) in out.iter().enumerate() {
        assert_eq!(usize::from(*sample), i / 3);
    }
}

#[test]
fn wide_gray_pixels_are_scaled() {
    let data: Vec<u16> = (0..=u16::MAX).collect();
    let (format, out) = Image::fmt_and_data_from(opaque(256, 256, OpaquePixels::Luma16(data)));
    assert_eq!(format, PixelFormat::Rgb24(ImageDimensions { width: 256, height: 256 }));
    assert_eq!(out.len(), 3 * 65536);
    for (i, sample) in out.iter().enumerate() {
        assert_eq!(usize::from(*sample), (i / 3 + 128) / 257);
    }
}

#[test]
fn colour_pixels_are_kept_or_scaled() {
    let (format, out) = Image::fmt_and_data_from(opaque(1, 1, OpaquePixels::Rgb8(vec![1, 2, 3])));
    assert_eq!(format, PixelFormat::Rgb24(ImageDimensions { width: 1, height: 1 }));
    assert_eq!(out, vec![1, 2, 3]);
    let wide = OpaquePixels::Rgb16(vec![0, 128, 129, 65535, 65406, 65407]);
    let (_, out) = Image::fmt_and_data_from(opaque(2, 1, wide));
    assert_eq!(out, vec![0, 0, 1, 255, 254, 255]);
}

#[test]
fn pixels_with_alpha_keep_it() {
    let (format, out) =
        Image::fmt_and_data_from(alpha(1, 2, AlphaPixels::LumaA8(vec![7, 255, 200, 0])));
    assert_eq!(format, PixelFormat::Rgba32(ImageDimensions { width: 1, height: 2 }));
    assert_eq!(out, vec![7, 7, 7, 255, 200, 200, 200, 0]);
    let (_, out) = Image::fmt_and_data_from(alpha(1, 1, AlphaPixels::Rgba8(vec![1, 2, 3, 4])));
    assert_eq!(out, vec![1, 2, 3, 4]);
    let (_, out) =
        Image::fmt_and_data_from(alpha(1, 1, AlphaPixels::Rgba16(vec![257, 514, 0, 65535])));
    assert_eq!(out, vec![1, 2, 0, 255]);
}

#[test]
fn wide_gray_pixels_with_alpha_are_scaled() {
    let mut data: Vec<u16> = Vec::new();
    for v in 0..=u16::MAX {
        data.push(v);
        data.push(u16::MAX - v);
    }
    let (_, out) = Image::fmt_and_data_from(alpha(256, 256, AlphaPixels::LumaA16(data)));
    assert_eq!(out.len(), 4 * 65536);
    for (i, sample) in out.iter().enumerate() {
        let v = if i % 4 == 3 { 65535 - i / 4 } else { i / 4 };
        assert_eq!(usize::from(*sample), (v + 128) / 257);
    }
}

#[test]
fn images_need_all_their_samples() {
    assert!(DynamicImage::new(1, 1, Pixels::Opaque(OpaquePixels::Rgb8(vec![1, 2]))).is_none());
    assert!(DynamicImage::new(2, 1, Pixels::Alpha(AlphaPixels::LumaA8(vec![1, 2, 3]))).is_none());
    let huge = Pixels::Opaque(OpaquePixels::Luma8(Vec::new()));
    assert!(DynamicImage::new(u32::MAX, u32::MAX, huge).is_none());
    let empty = DynamicImage::new(0, 5, Pixels::Opaque(OpaquePixels::Luma8(Vec::new())));
    assert_eq!(empty.unwrap().data_len(), 0);
}

#[test]
fn an_image_is_sent_under_the_number_one() {
    let image = Image::from_dynamic(opaque(1, 1, OpaquePixels::Luma8(vec![9])));
    assert_eq!(image.num_or_id, NumberOrId::Number(id(1)));
    assert_eq!(
        image.medium,
        Medium::Direct { chunk_size: Some(ChunkSize::default()), data: vec![9, 9, 9] }
    );
}

#[test]
fn an_image_in_shared_memory() {
    let pixel = opaque(1, 1, OpaquePixels::Luma8(vec![9]));
    assert_eq!(pixel.data_len(), 3);
    let image = Image::shm_from(pixel, "page", None).unwrap();
    assert_eq!(image.num_or_id, NumberOrId::Number(id(1)));
    match image.medium {
        Medium::SharedMemObject(obj) => {
            assert_eq!(obj.name(), "page");
            assert_eq!(obj.map(), [9, 9, 9]);
        }
        other => panic!("{other:?}"),
    }
    let pixel = alpha(1, 1, AlphaPixels::LumaA8(vec![9, 1]));
    let failure = Some((ShmCreationFailureStep::ShmSetSize, "full".to_string()));
    let err = Image::shm_from(pixel, "page", failure).unwrap_err();
    assert_eq!(
        err.to_text(),
        "Couldn't create the shm: Couldn't set the size of the SHM: full"
    );
    let copy: ImageFromShmFailureStep<ShmError> = ImageFromShmFailureStep::DataCopy(BufferTooLarge);
    assert_eq!(
        copy.to_text(),
        "Couldn't copy over the provided image data into the shm: Provided buffer is too large to fit"
    );
}

#[test]
fn expectations_are_spelled_out() {
    assert_eq!(AnyValueOrSpecific::<ImageId>::Any.to_text(), "<any value>");
    assert_eq!(AnyValueOrSpecific::Specific(id(12)).to_text(), "12");
}

#[test]
fn what_a_response_has_to_name() {
    let image = Image {
        num_or_id: NumberOrId::Number(id(9)),
        format: PixelFormat::default(),
        medium: Medium::Direct { chunk_size: None, data: Vec::new() },
    };
    assert_eq!(
        Action::Query(&image).extract_num_or_id_and_placement(),
        Some((NumberOrId::Number(id(9)), None))
    );
    let config = DisplayConfig::default();
    assert_eq!(
        Action::Display { image_id: id(4), placement_id: id(6), config }
            .extract_num_or_id_and_placement(),
        Some((NumberOrId::Id(id(4)), Some(id(6))))
    );
    assert_eq!(
        Action::TransmitAndDisplay {
            image,
            config: DisplayConfig::default(),
            placement_id: Some(id(3))
        }
        .extract_num_or_id_and_placement(),
        Some((NumberOrId::Number(id(9)), Some(id(3))))
    );
    let delete = DeleteConfig {
        effect: ClearOrDelete::Clear,
        which: WhichToDelete::ImageId(id(4), None),
    };
    assert_eq!(Action::Delete(delete).extract_num_or_id_and_placement(), None);
}

#[test]
fn configurations_are_written_differently() {
    let unsaid = DisplayConfig::default();
    let at = |location: DisplayLocation| DisplayConfig { location, ..unsaid };
    let nowhere = DisplayLocation::default();
    let configs = [
        unsaid,
        at(DisplayLocation { x: 1, ..nowhere }),
        at(DisplayLocation { x: 11, ..nowhere }),
        at(DisplayLocation { x: 1, y: 1, ..nowhere }),
        at(DisplayLocation { y: 1, ..nowhere }),
        at(DisplayLocation { x_offset: 1, ..nowhere }),
        at(DisplayLocation { z_index: -1, ..nowhere }),
        at(DisplayLocation { z_index: 1, ..nowhere }),
        at(DisplayLocation { horizontal_offset: -1, ..nowhere }),
        DisplayConfig { cursor_movement: CursorMovementPolicy::DontMove, ..unsaid },
        DisplayConfig { create_virtual_placement: true, ..unsaid },
        DisplayConfig { parent_id: ImageId::new(1), ..unsaid },
        DisplayConfig { parent_placement: ImageId::new(1), ..unsaid },
    ];
    let written: Vec<Vec<u8>> = configs
        .iter()
        .map(|config| {
            let mut buf = Vec::new();
            config.write_to(&mut buf);
            buf
        })
        .collect();
    assert!(written[0].is_empty());
    for i in 0..written.len() {
        for j in 0..i {
            assert_ne!(written[i], written[j]);
        }
    }
}
