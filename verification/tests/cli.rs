use kitpdf::cli::parse_cli_args;
use kitpdf::cli::parse_cli_args_with_colors;
use kitpdf::cli::parse_color;
use kitpdf::cli::parse_page_arg;
use kitpdf::cli::usage_text;
use kitpdf::cli::version_text;
use kitpdf::cli::CliAction;
use kitpdf::cli::CliError;
use kitpdf::cli::CliOptions;
use kitpdf::cli::MUPDF_BLACK;
use kitpdf::cli::MUPDF_WHITE;
use kitpdf::document::export_options;
use kitpdf::document::export_render_geometry;
use kitpdf::document::preflight_result;
use kitpdf::document::should_preflight;
use kitpdf::document::startup_render_error_message;
use kitpdf::document::ExportGeometry;
use kitpdf::document::SavedState;
use kitpdf::error::RenderError;

fn cli_args(args: &[&str]) -> Vec<String> {
    args.iter().map(|arg| (*arg).to_owned()).collect()
}

fn parsed_run(args: &[&str]) -> CliOptions {
    match parse_cli_args(&cli_args(args)).unwrap() {
        CliAction::Run(cli) => cli,
        other => panic!("expected run action, got {other:?}"),
    }
}

fn rejected(args: &[&str]) -> CliError {
    parse_cli_args(&cli_args(args)).unwrap_err()
}

#[test]
fn parse_cli_page_short_flag_is_one_indexed() {
    let cli = parsed_run(&["kitpdf", "-p", "12", "doc.pdf"]);

    assert_eq!(cli.page, Some(11));
    assert_eq!(cli.file_path, "doc.pdf");
}

#[test]
fn parse_cli_export_and_long_page_flag() {
    let cli = parsed_run(&["kitpdf", "--export", "--page", "3", "doc.pdf"]);

    assert!(cli.export);
    assert_eq!(cli.page, Some(2));
}

#[test]
fn parse_cli_existing_display_flags() {
    let cli = parsed_run(&["kitpdf", "-i", "-b", "#000000", "-w", "#ffffff", "doc.pdf"]);

    assert!(cli.invert_start);
    assert_eq!(cli.black, MUPDF_BLACK);
    assert_eq!(cli.white, MUPDF_WHITE);
}

#[test]
fn parse_cli_rejects_zero_page() {
    let err = parse_cli_args(&cli_args(&["kitpdf", "--page", "0", "doc.pdf"])).unwrap_err();

    assert!(err.to_text().contains("1 or greater"));
}

#[test]
fn parse_cli_rejects_non_numeric_page() {
    let err = parse_cli_args(&cli_args(&["kitpdf", "--page", "abc", "doc.pdf"])).unwrap_err();

    assert!(err.to_text().contains("invalid page number"));
}

#[test]
fn parse_cli_rejects_missing_page_value() {
    let err = parse_cli_args(&cli_args(&["kitpdf", "--page"])).unwrap_err();

    assert!(err.to_text().contains("missing value"));
}

#[test]
fn a_plain_command_line() {
    assert_eq!(
        parsed_run(&["kitpdf", "doc.pdf"]),
        CliOptions {
            file_path: "doc.pdf".to_string(),
            invert_start: false,
            black: 0,
            white: 0xffffff,
            page: None,
            export: false,
        }
    );
}

#[test]
fn options_may_follow_the_file_and_the_last_value_stands() {
    let cli = parsed_run(&[
        "kitpdf", "a", "--invert", "-e", "-p", "3", "-p", "+5", "--black-color", "#102030",
        "--white-color", "red",
    ]);
    assert_eq!(
        cli,
        CliOptions {
            file_path: "a".to_string(),
            invert_start: true,
            black: 0x102030,
            white: 0xff0000,
            page: Some(4),
            export: true,
        }
    );
}

#[test]
fn help_version_and_probe() {
    let action = |args: &[&str]| parse_cli_args(&cli_args(args)).unwrap();
    assert_eq!(action(&["kitpdf", "-h"]), CliAction::Help);
    assert_eq!(action(&["kitpdf", "a", "--help", "--nonsense"]), CliAction::Help);
    assert_eq!(action(&["kitpdf", "--version"]), CliAction::Version);
    assert_eq!(
        action(&["kitpdf", "--probe-document", "-x"]),
        CliAction::Probe("-x".to_string())
    );
    assert_eq!(
        rejected(&["kitpdf", "--probe-document", "a", "b"]),
        CliError::UnknownArgument("--probe-document".to_string())
    );
}

#[test]
fn command_lines_that_are_refused() {
    assert_eq!(rejected(&[]), CliError::NoFile);
    assert_eq!(rejected(&["kitpdf"]), CliError::NoFile);
    assert_eq!(rejected(&["kitpdf", "a", "b"]), CliError::MultipleFiles);
    assert_eq!(rejected(&["kitpdf", "-x"]), CliError::UnknownArgument("-x".to_string()));
    assert_eq!(rejected(&["kitpdf", "-"]), CliError::UnknownArgument("-".to_string()));
    assert_eq!(rejected(&["kitpdf", "-b"]), CliError::MissingValue("-b".to_string()));
    assert_eq!(
        rejected(&["kitpdf", "a", "--white-color"]),
        CliError::MissingValue("--white-color".to_string())
    );
    assert_eq!(rejected(&["kitpdf", "-p", "0"]), CliError::ZeroPage);
    assert_eq!(rejected(&["kitpdf", "-p", "-1"]), CliError::InvalidPage("-1".to_string()));
}

#[test]
fn the_first_error_stands() {
    match rejected(&["kitpdf", "-b", "nope", "-x"]) {
        CliError::InvalidColor { value, .. } => assert_eq!(value, "nope"),
        other => panic!("{other:?}"),
    }
    assert_eq!(
        rejected(&["kitpdf", "-x", "-b", "nope"]),
        CliError::UnknownArgument("-x".to_string())
    );
}

#[test]
fn colours_are_taken_in_order() {
    let args = cli_args(&["kitpdf", "-w", "one", "a", "-b", "two"]);
    let colors = [Ok([1, 2, 3, 4]), Ok([5, 6, 7, 8])];
    match parse_cli_args_with_colors(&args, &colors).unwrap() {
        CliAction::Run(cli) => {
            assert_eq!(cli.white, 0x010203);
            assert_eq!(cli.black, 0x050607);
        }
        other => panic!("{other:?}"),
    }
    let colors = [Ok([1, 2, 3, 4]), Err("bad".to_string())];
    assert_eq!(
        parse_cli_args_with_colors(&args, &colors).unwrap_err(),
        CliError::InvalidColor { value: "two".to_string(), reason: "bad".to_string() }
    );
}

#[test]
fn command_line_errors_are_spelled_out() {
    let a = || "a".to_string();
    assert_eq!(
        CliError::MissingValue(a()).to_text(),
        "missing value for a\nUsage: kitpdf [options] <file>"
    );
    assert_eq!(
        CliError::<String>::MultipleFiles.to_text(),
        "multiple input files provided\nUsage: kitpdf [options] <file>"
    );
    assert_eq!(
        CliError::UnknownArgument(a()).to_text(),
        "unknown argument: a\nUsage: kitpdf [options] <file>"
    );
    assert_eq!(CliError::<String>::NoFile.to_text(), "Usage: kitpdf [options] <file>");
    assert_eq!(CliError::InvalidPage(a()).to_text(), "invalid page number: a");
    assert_eq!(CliError::<String>::ZeroPage.to_text(), "page number must be 1 or greater");
    assert_eq!(
        CliError::InvalidColor { value: "a\"\n".to_string(), reason: "no".to_string() }.to_text(),
        "invalid color \"a\\\"\\n\": no"
    );
}

#[test]
fn pages_are_counted_from_one() {
    assert_eq!(parse_page_arg("1"), Ok(0));
    assert_eq!(parse_page_arg("007"), Ok(6));
    assert_eq!(parse_page_arg("18446744073709551615"), Ok(usize::MAX - 1));
    for bad in ["", "+", "1 ", "x", "18446744073709551616"] {
        assert_eq!(parse_page_arg(bad), Err(CliError::InvalidPage(bad.to_string())));
    }
}

#[test]
fn startup_render_error_message_for_pdf() {
    assert_eq!(
        startup_render_error_message("fake.pdf", &RenderError::EmptyDocument),
        "not a valid pdf file"
    );
}

#[test]
fn startup_render_error_message_for_epub() {
    assert_eq!(
        startup_render_error_message("fake.epub", &RenderError::EmptyDocument),
        "not a valid epub file"
    );
}

#[test]
fn startup_render_error_message_for_other_extension() {
    assert_eq!(
        startup_render_error_message("fake.txt", &RenderError::EmptyDocument),
        "not a valid document file"
    );
}

#[test]
fn startup_messages_of_other_errors() {
    assert_eq!(
        startup_render_error_message("a/b.PDF", &RenderError::Mupdf("x".to_string())),
        "not a valid pdf file"
    );
    assert_eq!(
        startup_render_error_message("a.pdf", &RenderError::Converting("why".to_string())),
        "why"
    );
}

#[test]
fn known_documents_are_tried_out() {
    for path in ["a.pdf", "/x/y.EPUB", "a.b.Pdf", "x.pdf/", "x.pdf/."] {
        assert!(should_preflight(path), "{path}");
    }
    for path in ["", "pdf", ".pdf", "a.txt", "a.pdf/..", "a.pdf/b", "a.", "/"] {
        assert!(!should_preflight(path), "{path}");
    }
    assert_eq!(preflight_result("a.pdf", true), Ok(()));
    assert_eq!(preflight_result("a.pdf", false), Err("not a valid pdf file".to_string()));
}

#[test]
fn parse_color_hex() {
    let c = parse_color("#ff0000").unwrap();
    assert_eq!(c, i32::from_be_bytes([0, 0xff, 0, 0]));
}

#[test]
fn parse_color_white_hex() {
    let c = parse_color("#ffffff").unwrap();
    assert_eq!(c, i32::from_be_bytes([0, 0xff, 0xff, 0xff]));
}

#[test]
fn parse_color_black_hex() {
    let c = parse_color("#000000").unwrap();
    assert_eq!(c, i32::from_be_bytes([0, 0, 0, 0]));
}

#[test]
fn parse_color_sepia() {
    let c = parse_color("#704214").unwrap();
    assert_eq!(c, i32::from_be_bytes([0, 0x70, 0x42, 0x14]));
}

#[test]
fn parse_color_invalid() {
    assert!(parse_color("not_a_color").is_err());
}

#[test]
fn parse_color_rgb_func() {
    let c = parse_color("rgb(128, 64, 32)").unwrap();
    assert_eq!(c, i32::from_be_bytes([0, 128, 64, 32]));
}

#[test]
fn every_byte_of_a_hexadecimal_colour_is_read() {
    for byte in 0..=255u8 {
        for text in [format!("#{byte:02x}00{byte:02X}"), format!("#00{byte:02x}01")] {
            let expected = if text.starts_with("#00") && text.ends_with("01") {
                i32::from_be_bytes([0, 0, byte, 1])
            } else {
                i32::from_be_bytes([0, byte, 0, byte])
            };
            assert_eq!(parse_color(&text), Ok(expected), "{text}");
        }
    }
}

#[test]
fn hexadecimal_colours_may_be_short_or_have_no_sign() {
    for (text, expected) in [
        ("#1af", 0x11aaff),
        ("1AF", 0x11aaff),
        ("#1af7", 0x11aaff),
        ("102030", 0x102030),
        ("#10203040", 0x102030),
        ("10203040", 0x102030),
    ] {
        assert_eq!(parse_color(text), Ok(expected), "{text}");
    }
    for text in ["#", "#12", "#12345", "#xyz", "#+12345", "#1234567", "#123456789"] {
        assert_eq!(
            parse_color(text),
            Err(CliError::InvalidColor {
                value: text.to_string(),
                reason: "invalid hex format".to_string()
            }),
            "{text}"
        );
    }
}

#[test]
fn a_colour_that_is_none_says_why() {
    assert_eq!(
        parse_color("#12345g").unwrap_err().to_text(),
        "invalid color \"#12345g\": invalid hex format"
    );
}

#[test]
fn the_version_is_printed() {
    assert_eq!(version_text("1.2.3"), "kitpdf 1.2.3");
    let usage = usage_text("1.2.3");
    assert!(usage.starts_with(
        "kitpdf 1.2.3 — terminal PDF/EPUB viewer (Kitty graphics protocol)\n\nUSAGE:\n    kitpdf [options] <file>\n"
    ));
    assert!(usage.contains("    -p, --page <N>            Start on page N (1-indexed; ignores saved page)\n"));
    assert!(usage.contains("    r                        Rotate 90° clockwise\n"));
    assert!(usage.ends_with("\n\nSee docs/help.md for the full reference."));
}

#[test]
fn export_size_follows_the_terminal() {
    assert_eq!(
        export_render_geometry(Some((1000, 600)), Some((100, 30))),
        ExportGeometry { width_px: 1000, height_px: 580, cell_w: 10, cell_h: 20 }
    );
    assert_eq!(
        export_render_geometry(Some((50, 10)), Some((100, 30))),
        ExportGeometry { width_px: 50, height_px: 29, cell_w: 1, cell_h: 1 }
    );
    assert_eq!(
        export_render_geometry(Some((65535, 65535)), Some((1, 65535))),
        ExportGeometry { width_px: 65535, height_px: 65534, cell_w: 65535, cell_h: 1 }
    );
}

#[test]
fn export_size_without_a_terminal() {
    let default = ExportGeometry { width_px: 1200, height_px: 1600, cell_w: 10, cell_h: 20 };
    for (window, size) in [
        (None, Some((80, 24))),
        (Some((800, 600)), None),
        (Some((0, 600)), Some((80, 24))),
        (Some((800, 0)), Some((80, 24))),
        (Some((800, 600)), Some((0, 24))),
        (Some((800, 600)), Some((80, 1))),
    ] {
        assert_eq!(export_render_geometry(window, size), default);
    }
}

#[test]
fn export_follows_command_line_and_saved_state() {
    let geometry = export_render_geometry(None, None);
    let cli = parsed_run(&["kitpdf", "-i", "-p", "4", "-b", "#000001", "doc.pdf"]);
    let plain = export_options::<u32>(&cli, None, geometry);
    assert_eq!(plain.page_num, 3);
    assert!(plain.invert && !plain.tinted && !plain.auto_crop);
    assert_eq!((plain.black, plain.white, plain.rotation), (1, 0xffffff, 0));
    assert_eq!(plain.epub_font_size, None);

    let cli = parsed_run(&["kitpdf", "doc.pdf"]);
    let saved = SavedState {
        page: 9,
        rotation: 270,
        inverted: true,
        auto_crop: true,
        tinted: true,
        epub_font_size: Some(12u32),
    };
    let restored = export_options(&cli, Some(saved), geometry);
    assert_eq!(restored.page_num, 0);
    assert!(restored.invert && restored.tinted && restored.auto_crop);
    assert_eq!(restored.rotation, 270);
    assert_eq!(restored.epub_font_size, Some(12));
}

#[test]
fn parse_color_three_bytes() {
    for a in [0u8, 1, 9, 10, 99, 100, 127, 128, 200, 254, 255] {
        for b in 0..=255u8 {
            let text = format!("rgb({a}, {b}, {})", 255 - b);
            let expected = i32::from(a) * 65536 + i32::from(b) * 256 + i32::from(255 - b);
            assert_eq!(parse_color(&text), Ok(expected), "{text}");
        }
    }
}

#[test]
fn parse_color_words_and_functions() {
    let cases = [
        ("white", 0xff_ffff),
        ("RebeccaPurple", 0x66_3399),
        ("lightgoldenrodyellow", 0xfa_fad2),
        ("transparent", 0),
        (" tan ", 0xd2_b48c),
        ("RGB(50%, 0%, 100%)", 0x80_00ff),
        ("rgb(from red 0 g b)", 0),
        ("hsl(120, 100%, 50%)", 0x00_ff00),
        ("hwb(240deg 0% 0%)", 0x00_00ff),
        ("color(srgb 1 0 1)", 0xff_00ff),
    ];
    for (text, expected) in cases {
        assert_eq!(parse_color(text), Ok(expected), "{text}");
    }
}

#[test]
fn parse_color_refuses_what_is_no_word() {
    for text in ["", "ab", "r", "not_a_color", "red!", "12345", "light-blue", "lightgoldenrodyellows"] {
        assert_eq!(
            parse_color(text),
            Err(CliError::InvalidColor {
                value: text.to_string(),
                reason: "invalid unknown format".to_string(),
            }),
            "{text}"
        );
    }
}

#[test]
fn options_take_plain_colors() {
    let args: Vec<String> = ["kitpdf", "-b", "rgb(1, 2, 3)", "a.pdf", "-w", "beige"]
        .iter()
        .map(|s| s.to_string())
        .collect();
    match parse_cli_args(&args) {
        Ok(CliAction::Run(options)) => {
            assert_eq!((options.black, options.white), (0x01_0203, 0xf5_f5dc));
        }
        other => panic!("{other:?}"),
    }
}

#[test]
fn an_option_in_front_adds_one_thing() {
    let args = |list: &[&str]| -> Vec<String> { list.iter().map(|s| s.to_string()).collect() };
    let run = |list: &[&str]| match parse_cli_args(&args(list)) {
        Ok(CliAction::Run(options)) => options,
        other => panic!("{other:?}"),
    };
    let plain = run(&["kitpdf", "a.pdf", "-p", "3"]);
    assert_eq!(
        run(&["kitpdf", "-i", "a.pdf", "-p", "3"]),
        CliOptions { invert_start: true, ..run(&["kitpdf", "a.pdf", "-p", "3"]) }
    );
    assert_eq!(
        run(&["kitpdf", "--export", "a.pdf", "-p", "3"]),
        CliOptions { export: true, ..plain }
    );
    assert_eq!(
        parse_cli_args(&args(&["kitpdf", "a.pdf", "-p", "3", "b.pdf"])),
        Err(CliError::MultipleFiles)
    );
    assert_eq!(
        parse_cli_args(&args(&["kitpdf", "-i", "--probe-document", "a.pdf"])),
        Err(CliError::UnknownArgument("--probe-document".to_string()))
    );
}
