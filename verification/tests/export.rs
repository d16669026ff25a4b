use kitpdf::error::RenderError;
use kitpdf::export::next_export_path_in_dir;
use kitpdf::export::png_result;
use kitpdf::export::sanitized_stem;
use kitpdf::export::trim_export_edges;
use kitpdf::export::write_png;
use kitpdf::export::RgbImage;
use kitpdf::export::MAX_STEM_CHARS;
use kitpdf::path::join;
use kitpdf::path::lower_extension_of;
use kitpdf::path::stem_of;

fn file_name(path: &str) -> &str {
    path.rsplit('/').next().unwrap()
}

#[test]
fn export_filename_replaces_spaces_and_includes_page_number() {
    let path = next_export_path_in_dir("Long Paper Title.pdf", 2, 120, "/tmp/dir", |_: &str| false);

    assert_eq!(file_name(&path), "long-paper-title-page-003.png");
}

#[test]
fn export_filename_shortens_long_pdf_names() {
    let path = next_export_path_in_dir(
        "This is a very long PDF filename with many words and symbols!!!.pdf",
        0,
        1,
        "/tmp/dir",
        |_: &str| false,
    );
    let name = file_name(&path);
    let stem = name.strip_suffix("-page-1.png").unwrap();

    assert!(stem.len() <= MAX_STEM_CHARS);
    assert!(!stem.contains(' '));
}

#[test]
fn export_filename_adds_collision_suffix() {
    let first = "/tmp/dir/paper-page-1.png";

    let path = next_export_path_in_dir("paper.pdf", 0, 1, "/tmp/dir", |p: &str| p == first);

    assert_eq!(file_name(&path), "paper-page-1-2.png");
}

#[test]
fn write_png_writes_png_file() {
    let data = [10, 20, 30].repeat(4);
    let img = RgbImage::from_raw(2, 2, data).unwrap();

    let bytes = write_png("test.png", &img).unwrap();

    assert_eq!(&bytes[..8], b"\x89PNG\r\n\x1a\n");
}

#[test]
fn export_tries_one_suffix_after_another() {
    let taken = |p: &str| p.len() < "/tmp/paper-page-1-10.png".len();
    let path = next_export_path_in_dir("paper.pdf", 0, 1, "/tmp/", taken);
    assert_eq!(path, "/tmp/paper-page-1-10.png");
}

#[test]
fn export_path_of_an_empty_directory_name() {
    let path = next_export_path_in_dir("x.pdf", 9, 0, "", |_: &str| false);
    assert_eq!(path, "x-page-10.png");
}

#[test]
fn export_page_numbers_do_not_overflow() {
    let path = next_export_path_in_dir("x.pdf", usize::MAX, 1, "d", |_: &str| false);
    assert_eq!(path, "d/x-page-18446744073709551615.png");
}

#[test]
fn export_page_numbers_are_as_wide_as_the_last() {
    for (page, pages, expected) in [
        (0, 9, "x-page-1.png"),
        (0, 10, "x-page-01.png"),
        (99, 100, "x-page-100.png"),
        (999, 10, "x-page-1000.png"),
    ] {
        let path = next_export_path_in_dir("x.pdf", page, pages, "", |_: &str| false);
        assert_eq!(path, expected);
    }
}

#[test]
fn stems_are_made_fit() {
    for (path, expected) in [
        ("A b\tC.pdf", "a-b-c"),
        ("--x--.pdf", "x"),
        ("a - b -- c.pdf", "a-b-c"),
        ("Ä_1.2.pdf", "1.2"),
        ("a_b.c.pdf", "a_b.c"),
        ("___.pdf", "document"),
        ("!!!.pdf", "document"),
        ("", "document"),
        ("/", "document"),
        ("..", "document"),
        ("dir/Name.tar.gz", "name.tar"),
        (".hidden", "hidden"),
        ("noext", "noext"),
    ] {
        assert_eq!(sanitized_stem(path), expected, "{path}");
    }
}

#[test]
fn stems_are_cut_and_trimmed_again() {
    let long = "a".repeat(60);
    assert_eq!(sanitized_stem(&format!("{long}.pdf")), "a".repeat(48));
    let head = "a".repeat(46);
    assert_eq!(sanitized_stem(&format!("{head}_.zzz.pdf")), head);
    assert_eq!(sanitized_stem(&format!("{}.pdf", "b".repeat(48))), "b".repeat(48));
}

#[test]
fn a_stem_that_is_fit_stays_as_it_is() {
    for path in ["A b\tC.pdf", "This is a very long PDF filename with many words and symbols!!!.pdf"]
    {
        let stem = sanitized_stem(path);
        assert_eq!(sanitized_stem(&format!("{stem}.pdf")), stem);
    }
}

#[test]
fn edges_are_trimmed() {
    let trim = |s: &str| {
        let chars: Vec<char> = s.chars().collect();
        trim_export_edges(&chars).into_iter().collect::<String>()
    };
    assert_eq!(trim("-_.a-_.b.-_"), "a-_.b");
    assert_eq!(trim("-_."), "");
    assert_eq!(trim(""), "");
    assert_eq!(trim("a"), "a");
}

#[test]
fn names_of_paths() {
    for (path, stem, extension) in [
        ("a/b.c", Some("b"), Some("c")),
        ("a/b.C/", Some("b"), Some("c")),
        ("a/b.c/.", Some("b"), Some("c")),
        ("a//b", Some("b"), None),
        (".bashrc", Some(".bashrc"), None),
        ("..a", Some("."), Some("a")),
        ("a.", Some("a"), Some("")),
        ("a/..", None, None),
        ("./", None, None),
        (".", None, None),
        ("/", None, None),
        ("", None, None),
    ] {
        let expected_stem = std::path::Path::new(path).file_stem().map(|s| s.to_str().unwrap());
        assert_eq!(expected_stem, stem, "{path}");
        assert_eq!(stem_of(path).as_deref(), stem, "{path}");
        let found: Option<String> = lower_extension_of(path).map(|c| c.into_iter().collect());
        assert_eq!(found.as_deref(), extension, "{path}");
    }
}

#[test]
fn names_are_put_into_directories() {
    for (dir, expected) in [("a", "a/x"), ("a/", "a/x"), ("", "x"), ("/", "/x")] {
        assert_eq!(join(dir, "x"), expected);
        assert_eq!(std::path::Path::new(dir).join("x").to_str().unwrap(), expected);
    }
}

#[test]
fn png_says_its_size() {
    let img = RgbImage::from_raw(3, 1, vec![1, 2, 3, 4, 5, 6, 7, 8, 9]).unwrap();
    let bytes = write_png("x.png", &img).unwrap();
    assert_eq!(&bytes[12..24], b"IHDR\x00\x00\x00\x03\x00\x00\x00\x01");
}

#[test]
fn png_loses_nothing() {
    let data: Vec<u8> = (0..3 * 7 * 5).map(|i: usize| (i * 37 % 256) as u8).collect();
    let img = RgbImage::from_raw(7, 5, data.clone()).unwrap();
    let bytes = write_png("x.png", &img).unwrap();
    assert_eq!(&bytes[8..29], b"\0\0\0\rIHDR\0\0\0\x07\0\0\0\x05\x08\x02\0\0\0");
    let read = image::load_from_memory_with_format(&bytes, image::ImageFormat::Png).unwrap();
    assert_eq!(read.color(), image::ColorType::Rgb8);
    assert_eq!((read.width(), read.height()), (7, 5));
    assert_eq!(read.into_rgb8().into_raw(), data);
}

#[test]
fn png_of_wide_rows_without_pixels_is_refused() {
    if let Some(img) = RgbImage::from_raw(0x8000_0000, 0, Vec::new()) {
        assert!(write_png("x.png", &img).is_err());
    }
}

#[test]
fn png_of_no_pixels_is_refused() {
    let img = RgbImage::from_raw(0, 3, Vec::new()).unwrap();
    assert_eq!(
        write_png("dir/x.png", &img),
        Err(RenderError::Converting(
            "cannot write PNG dir/x.png: Zero width not allowed".to_string()
        ))
    );
    let img = RgbImage::from_raw(3, 0, Vec::new()).unwrap();
    assert_eq!(
        write_png("x.png", &img),
        Err(RenderError::Converting("cannot write PNG x.png: Zero height not allowed".to_string()))
    );
    let img = RgbImage::from_raw(0, 0, Vec::new()).unwrap();
    assert_eq!(
        write_png("x.png", &img),
        Err(RenderError::Converting("cannot write PNG x.png: Zero width not allowed".to_string()))
    );
}

#[test]
fn png_of_any_pixels_is_written() {
    for (w, h) in [(1u32, 1u32), (1, 70_000), (70_000, 1), (257, 129), (5, 3)] {
        let mut seed = 1u32;
        let noise: Vec<u8> = (0..3 * w * h)
            .map(|_: u32| {
                seed = seed.wrapping_mul(1_664_525).wrapping_add(1_013_904_223);
                (seed >> 24) as u8
            })
            .collect();
        for data in [noise, vec![0; 3 * (w * h) as usize]] {
            let img = RgbImage::from_raw(w, h, data).unwrap();
            assert!(write_png("x.png", &img).is_ok(), "{w}x{h}");
        }
    }
}

#[test]
fn export_names_sort_in_page_order() {
    let names: Vec<String> = (0..120)
        .map(|page: usize| next_export_path_in_dir("a.pdf", page, 120, "d", |_: &str| false))
        .collect();
    for pair in names.windows(2) {
        assert_eq!(pair[0].len(), pair[1].len());
        assert!(pair[0] < pair[1], "{pair:?}");
    }
}

#[test]
fn png_needs_all_its_bytes() {
    assert!(RgbImage::from_raw(1, 1, vec![1, 2]).is_none());
    assert!(RgbImage::from_raw(u32::MAX, u32::MAX, Vec::new()).is_none());
}

#[test]
fn png_failures_name_the_path() {
    assert_eq!(png_result("p", Ok(vec![1])), Ok(vec![1]));
    assert_eq!(
        png_result("p", Err("disk full".to_string())),
        Err(RenderError::Converting("cannot write PNG p: disk full".to_string()))
    );
}
