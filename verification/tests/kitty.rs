use kitpdf::kitty::display::CursorMovementPolicy;
use kitpdf::kitty::display::DisplayLocation;
use kitpdf::kitty::id::ImageId;
use kitpdf::kitty::placeholder::append_codepoint;
use kitpdf::kitty::placeholder::append_diacritic;
use kitpdf::kitty::placeholder::append_tmux_image_color;
use kitpdf::kitty::placeholder::append_tmux_placeholders;
use kitpdf::kitty::placeholder::display_config_for;
use kitpdf::kitty::placeholder::tmux_placeholder_cells;
use kitpdf::kitty::placeholder::Pos;
use kitpdf::kitty::placeholder::DIACRITIC_CODEPOINTS;
use kitpdf::kitty::placeholder::KITTY_PLACEHOLDER_CODEPOINT;
use kitpdf::kitty::tmux::tmux_passthrough_needed;
use kitpdf::kitty::tmux::write_kitty_packet;
use kitpdf::kitty::tmux::TmuxWriter;

fn id(value: u32) -> ImageId {
    ImageId::new(value).unwrap()
}

#[test]
fn tmux_placeholder_cells_are_capped_to_available_diacritics() {
    assert_eq!(tmux_placeholder_cells(999, 999), (297, 297));
    assert_eq!(tmux_placeholder_cells(0, 0), (1, 1));
}

#[test]
fn tmux_placeholder_cells_in_range_are_kept() {
    assert_eq!(tmux_placeholder_cells(1, 297), (1, 297));
    assert_eq!(tmux_placeholder_cells(298, 80), (297, 80));
}

#[test]
fn tmux_display_config_uses_virtual_placement_and_capped_cells() {
    let loc = DisplayLocation {
        columns: 999,
        rows: 0,
        ..DisplayLocation::default()
    };

    let config = display_config_for(loc.clone(), true);
    assert_eq!(config.location.columns, 297);
    assert_eq!(config.location.rows, 1);
    assert_eq!(config.cursor_movement, CursorMovementPolicy::DontMove);
    assert!(config.create_virtual_placement);

    let direct = display_config_for(loc, false);
    assert_eq!(direct.location.columns, 999);
    assert_eq!(direct.location.rows, 0);
    assert_eq!(direct.cursor_movement, CursorMovementPolicy::DontMove);
    assert!(!direct.create_virtual_placement);
}

#[test]
fn tmux_placeholders_encode_image_placement_and_cell_coordinates() {
    let image_id = id(0x00010203);
    let placement_id = id(0x00040506);
    let mut placeholders = Vec::new();

    append_tmux_placeholders(
        &mut placeholders,
        image_id,
        Some(placement_id),
        Pos { x: 3, y: 4 },
        2,
        2,
        true,
    );

    let placeholders = String::from_utf8(placeholders).unwrap();
    let placeholder = char::from_u32(KITTY_PLACEHOLDER_CODEPOINT).unwrap();
    let row_col_zero = char::from_u32(DIACRITIC_CODEPOINTS[0]).unwrap();
    let row_col_one = char::from_u32(DIACRITIC_CODEPOINTS[1]).unwrap();

    assert!(placeholders.starts_with("\x1b7\x1b[5;1H\x1b[38:2:1:2:3m\x1b[58:2:4:5:6m\x1b[3C"));
    assert!(placeholders.contains(&format!("{placeholder}{row_col_zero}{row_col_zero}")));
    assert!(placeholders.contains(&format!("{placeholder}{row_col_one}{row_col_one}")));
    assert!(placeholders.ends_with("\x1b[39m\x1b[59m\x1b8"));
}

#[test]
fn placeholders_without_placement_or_cursor() {
    let mut out = Vec::new();
    append_tmux_placeholders(&mut out, id(7), None, Pos { x: 0, y: 0 }, 1, 2, false);
    let p = char::from_u32(KITTY_PLACEHOLDER_CODEPOINT).unwrap();
    let zero = char::from_u32(DIACRITIC_CODEPOINTS[0]).unwrap();
    let one = char::from_u32(DIACRITIC_CODEPOINTS[1]).unwrap();
    assert_eq!(
        String::from_utf8(out).unwrap(),
        format!(
            "\x1b[1;1H\x1b[38:2:0:0:7m{p}{zero}{zero}\x1b[39m\n\r\x1b[38:2:0:0:7m{p}{one}{zero}\x1b[39m"
        )
    );
}

#[test]
fn placeholder_row_at_last_screen_row() {
    let mut out = Vec::new();
    append_tmux_placeholders(&mut out, id(1), None, Pos { x: 0, y: u16::MAX }, 1, 1, false);
    assert!(String::from_utf8(out).unwrap().starts_with("\x1b[65536;1H"));
}

#[test]
fn image_color_takes_the_lower_three_bytes() {
    let mut out = Vec::new();
    append_tmux_image_color(&mut out, 38, id(0xff010203));
    assert_eq!(out, b"\x1b[38:2:1:2:3m".to_vec());
}

#[test]
fn codepoints_are_written_as_utf8() {
    for codepoint in [0x24, 0xa3, 0x7ff, 0x800, 0x20ac, 0xffff, 0x10000, 0x10348, 0x10ffff] {
        let mut out = Vec::new();
        append_codepoint(&mut out, codepoint);
        let expected = char::from_u32(codepoint).unwrap().to_string();
        assert_eq!(out, expected.into_bytes());
    }
}

#[test]
fn numbers_that_are_no_characters_are_left_out() {
    for codepoint in [0xd800, 0xdfff, 0x110000, u32::MAX] {
        let mut out = vec![1];
        append_codepoint(&mut out, codepoint);
        assert_eq!(out, vec![1]);
    }
}

#[test]
fn diacritics_beyond_the_last_are_left_out() {
    let mut out = Vec::new();
    append_diacritic(&mut out, 296);
    assert_eq!(out, char::from_u32(0x1D244).unwrap().to_string().into_bytes());
    append_diacritic(&mut out, 297);
    assert_eq!(out.len(), 4);
}

#[test]
fn diacritics_are_increasing_characters() {
    assert_eq!(DIACRITIC_CODEPOINTS.len(), 297);
    for pair in DIACRITIC_CODEPOINTS.windows(2) {
        assert!(pair[0] < pair[1]);
    }
    for codepoint in DIACRITIC_CODEPOINTS {
        assert!(char::from_u32(codepoint).is_some());
    }
}

#[test]
fn tmux_writer_doubles_escapes_and_frames() {
    let mut writer = TmuxWriter::new(vec![b'>']);
    assert_eq!(writer.write(b"\x1b_Ga"), 4);
    assert_eq!(writer.write(b"\x1b\x1b\\"), 3);
    writer.flush();
    assert_eq!(writer.write(b"x"), 1);
    writer.flush();
    assert_eq!(
        writer.into_inner(),
        b">\x1bPtmux;\x1b\x1b_Ga\x1b\x1b\x1b\x1b\\\x1b\\\x1bPtmux;x\x1b\\".to_vec()
    );
}

#[test]
fn tmux_writes_may_be_cut_anywhere() {
    let packet = b"\x1b_Gi=1;abc\x1b\\";
    let whole = write_kitty_packet(packet, true);
    for cut in 0..packet.len() {
        let mut writer = TmuxWriter::new(Vec::new());
        writer.write(&packet[..cut]);
        writer.write(&packet[cut..]);
        writer.flush();
        assert_eq!(writer.into_inner(), whole);
    }
}

#[test]
fn packets_outside_tmux_are_left_alone() {
    assert_eq!(write_kitty_packet(b"\x1b_G;\x1b\\", false), b"\x1b_G;\x1b\\".to_vec());
    assert_eq!(write_kitty_packet(b"", false), Vec::<u8>::new());
    assert_eq!(write_kitty_packet(b"", true), b"\x1b\\".to_vec());
}

#[test]
fn tmux_is_seen_by_its_variable() {
    assert!(!tmux_passthrough_needed(None));
    assert!(!tmux_passthrough_needed(Some(b"")));
    assert!(tmux_passthrough_needed(Some(b"/tmp/tmux-1000/default,1,0")));
}
