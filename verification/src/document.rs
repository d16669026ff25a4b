//! What is said of a document, and how it is started and exported.

use vstd::prelude::*;

use crate::cli::CliOptions;
use crate::error::RenderError;
use crate::path::extension;
use crate::path::lower_extension_of;
use crate::path::lower_text;
use crate::text::same_text;

verus! {

/// What a path says a file is, by its extension in whatever case.
pub open spec fn document_kind(path: Seq<char>) -> Seq<char> {
    match extension(path) {
        Some(ext) => if lower_text(ext) == "pdf"@ {
            "pdf"@
        } else if lower_text(ext) == "epub"@ {
            "epub"@
        } else {
            "document"@
        },
        None => "document"@,
    }
}

/// What a path says a file is.
fn document_kind_of(path: &str) -> (r: &'static str)
    ensures
        r@ == document_kind(path@),
{
    match lower_extension_of(path) {
        Some(ext) => if same_text(ext.as_slice(), "pdf") {
            "pdf"
        } else if same_text(ext.as_slice(), "epub") {
            "epub"
        } else {
            "document"
        },
        None => "document",
    }
}

/// What is said of a document that cannot be opened: what it is not, by its extension, or the
/// message of an error that does not come from the document itself.
pub open spec fn startup_message(path: Seq<char>, err: RenderError<Seq<char>>) -> Seq<char> {
    match err {
        RenderError::Mupdf(_) | RenderError::EmptyDocument => "not a valid "@ + document_kind(path)
            + " file"@,
        RenderError::Converting(message) => message,
    }
}

/// What is said of a document that cannot be opened.
pub fn startup_render_error_message(path: &str, err: &RenderError) -> (r: String)
    ensures
        r@ == startup_message(path@, err@),
{
    match err {
        RenderError::Mupdf(_) | RenderError::EmptyDocument => {
            "not a valid ".to_owned().concat(document_kind_of(path)).concat(" file")
        },
        RenderError::Converting(message) => message.clone(),
    }
}

/// Whether a document is tried out in a process of its own before it is opened: files of the
/// two kinds that are known are.
pub open spec fn is_preflighted(path: Seq<char>) -> bool {
    extension(path) matches Some(ext) && (lower_text(ext) == "pdf"@ || lower_text(ext) == "epub"@)
}

/// Whether a document is tried out in a process of its own before it is opened.
pub fn should_preflight(path: &str) -> (r: bool)
    ensures
        r == is_preflighted(path@),
        r == (extension(path@) matches Some(ext) && (lower_text(ext) == "pdf"@ || lower_text(ext)
            == "epub"@)),
{
    match lower_extension_of(path) {
        Some(ext) => same_text(ext.as_slice(), "pdf") || same_text(ext.as_slice(), "epub"),
        None => false,
    }
}

/// What comes of trying a document out: where the process that tried it failed, what is said of a
/// document that cannot be opened.
pub open spec fn preflighted(path: Seq<char>, succeeded: bool) -> Result<(), Seq<char>> {
    if succeeded {
        Ok(())
    } else {
        Err(startup_message(path, RenderError::EmptyDocument))
    }
}

/// What comes of trying a document out.
pub fn preflight_result(path: &str, succeeded: bool) -> (r: Result<(), String>)
    ensures
        preflighted(path@, succeeded) == (match r {
            Ok(()) => Ok::<(), Seq<char>>(()),
            Err(message) => Err(message@),
        }),
        match r {
            Ok(()) => succeeded,
            Err(message) => !succeeded && message@ == startup_message(
                path@,
                RenderError::EmptyDocument,
            ),
        },
{
    if succeeded {
        Ok(())
    } else {
        Err(startup_render_error_message(path, &RenderError::EmptyDocument))
    }
}

/// A document that is tried out is told what it is not by its own kind.
pub proof fn lemma_preflight_names_kind(path: Seq<char>)
    ensures
        (extension(path) matches Some(ext) && (lower_text(ext) == "pdf"@ || lower_text(ext)
            == "epub"@)) <==> document_kind(path) != "document"@,
{
    reveal_strlit("pdf");
    reveal_strlit("epub");
    reveal_strlit("document");
    assert("pdf"@.len() == 3 && "epub"@.len() == 4 && "document"@.len() == 8);
}

/// The size in which a page is exported: of the page and of a cell of the terminal, in pixels.
#[derive(Clone, Copy, Debug, PartialEq, Eq, Structural)]
pub struct ExportGeometry {
    pub width_px: u16,
    pub height_px: u16,
    pub cell_w: u16,
    pub cell_h: u16,
}

/// The size in which a page is exported where the size of the terminal is not known.
pub open spec fn default_geometry() -> ExportGeometry {
    ExportGeometry { width_px: 1200, height_px: 1600, cell_w: 10, cell_h: 20 }
}

/// The larger of a number and one.
pub open spec fn at_least_one(n: u16) -> u16 {
    if n < 1 {
        1
    } else {
        n
    }
}

/// The size in which a page is exported: the terminal's without its last row. `window` is the
/// size of the terminal in pixels, `size` its columns and rows.
pub open spec fn export_geometry(
    window: Option<(u16, u16)>,
    size: Option<(u16, u16)>,
) -> ExportGeometry {
    match (window, size) {
        (Some((width, height)), Some((cols, rows))) => if width == 0 || height == 0 || cols == 0
            || rows <= 1 {
            default_geometry()
        } else {
            let cell_h = at_least_one(height / rows);
            ExportGeometry {
                width_px: width,
                height_px: ((rows - 1) * cell_h) as u16,
                cell_w: at_least_one(width / cols),
                cell_h,
            }
        },
        _ => default_geometry(),
    }
}

/// The rows of a terminal but the last are no higher than the terminal, or no more than there
/// are rows.
proof fn lemma_page_height(height: u16, rows: u16)
    requires
        rows > 1,
    ensures
        0 < (rows - 1) * at_least_one(height / rows) <= u16::MAX,
{
    let cell = height / rows;
    assert(cell * rows <= height) by (nonlinear_arith)
        requires
            rows > 1,
            cell == height / rows,
            height >= 0,
    ;
    assert((rows - 1) * cell <= cell * rows) by (nonlinear_arith)
        requires
            rows > 1,
            cell >= 0,
    ;
    if cell >= 1 {
        assert((rows - 1) * cell >= 1) by (nonlinear_arith)
            requires
                rows > 1,
                cell >= 1,
        ;
    } else {
        let one = at_least_one(cell);
        assert((rows - 1) * one == rows - 1) by (nonlinear_arith)
            requires
                one == 1,
        ;
    }
}

/// The size in which a page is exported.
pub fn export_render_geometry(window: Option<(u16, u16)>, size: Option<(u16, u16)>) -> (r:
    ExportGeometry)
    ensures
        r == export_geometry(window, size),
{
    let default = ExportGeometry { width_px: 1200, height_px: 1600, cell_w: 10, cell_h: 20 };
    match (window, size) {
        (Some((width, height)), Some((cols, rows))) => {
            if width == 0 || height == 0 || cols == 0 || rows <= 1 {
                return default;
            }
            let cell_w: u16 = if width / cols < 1 {
                1
            } else {
                width / cols
            };
            let cell_h: u16 = if height / rows < 1 {
                1
            } else {
                height / rows
            };
            proof {
                lemma_page_height(height, rows);
            }
            let height_px: u16 = (rows - 1) * cell_h;
            ExportGeometry { width_px: width, height_px, cell_w, cell_h }
        },
        _ => default,
    }
}

/// A page is exported in a size that is never empty, with cells that are never empty.
pub proof fn lemma_geometry_is_positive(window: Option<(u16, u16)>, size: Option<(u16, u16)>)
    ensures
        export_geometry(window, size).width_px > 0,
        export_geometry(window, size).height_px > 0,
        export_geometry(window, size).cell_w > 0,
        export_geometry(window, size).cell_h > 0,
{
    if let (Some((width, height)), Some((cols, rows))) = (window, size) {
        if rows > 1 {
            lemma_page_height(height, rows);
        }
    }
}

/// How a document was shown when it was last closed. `F` is the type of the size of its text.
#[derive(Debug, PartialEq)]
pub struct SavedState<F> {
    pub page: usize,
    pub rotation: u32,
    pub inverted: bool,
    pub auto_crop: bool,
    pub tinted: bool,
    pub epub_font_size: Option<F>,
}

/// How a page is exported.
#[derive(Debug, PartialEq)]
pub struct ExportOptions<F> {
    pub page_num: usize,
    pub geometry: ExportGeometry,
    pub invert: bool,
    pub black: i32,
    pub white: i32,
    pub rotation: u32,
    pub tinted: bool,
    pub auto_crop: bool,
    pub epub_font_size: Option<F>,
}

/// How a page is exported: the page and the colours that the command line asks for, or the first
/// page, and all else as the document was last shown.
pub open spec fn spec_export_options<F>(
    page: Option<usize>,
    invert_start: bool,
    black: i32,
    white: i32,
    saved: Option<SavedState<F>>,
    geometry: ExportGeometry,
) -> ExportOptions<F> {
    ExportOptions {
        page_num: match page {
            Some(p) => p,
            None => 0,
        },
        geometry,
        invert: invert_start || (saved matches Some(s) && s.inverted),
        black,
        white,
        rotation: match saved {
            Some(s) => s.rotation,
            None => 0,
        },
        tinted: saved matches Some(s) && s.tinted,
        auto_crop: saved matches Some(s) && s.auto_crop,
        epub_font_size: match saved {
            Some(s) => s.epub_font_size,
            None => None,
        },
    }
}

/// How a page is exported.
pub fn export_options<F>(
    cli: &CliOptions,
    saved: Option<SavedState<F>>,
    geometry: ExportGeometry,
) -> (r: ExportOptions<F>)
    ensures
        r == spec_export_options(
            cli.page,
            cli.invert_start,
            cli.black,
            cli.white,
            saved,
            geometry,
        ),
{
    let page_num: usize = match cli.page {
        Some(p) => p,
        None => 0,
    };
    match saved {
        Some(s) => ExportOptions {
            page_num,
            geometry,
            invert: cli.invert_start || s.inverted,
            black: cli.black,
            white: cli.white,
            rotation: s.rotation,
            tinted: s.tinted,
            auto_crop: s.auto_crop,
            epub_font_size: s.epub_font_size,
        },
        None => ExportOptions {
            page_num,
            geometry,
            invert: cli.invert_start,
            black: cli.black,
            white: cli.white,
            rotation: 0,
            tinted: false,
            auto_crop: false,
            epub_font_size: None,
        },
    }
}

/// Where the size of the terminal is known, a page is exported as wide as the terminal and as
/// high as its rows but the last; a cell is as large as fits as often as there are columns and
/// rows.
pub proof fn lemma_geometry_of_terminal(width: u16, height: u16, cols: u16, rows: u16)
    requires
        width >= cols >= 1,
        height >= rows >= 2,
    ensures
        ({
            let g = export_geometry(Some((width, height)), Some((cols, rows)));
            &&& g.width_px == width
            &&& g.height_px == g.cell_h * (rows - 1)
            &&& g.cell_w * cols <= width < (g.cell_w + 1) * cols
            &&& g.cell_h * rows <= height < (g.cell_h + 1) * rows
            &&& g.height_px <= height
        }),
{
    let g = export_geometry(Some((width, height)), Some((cols, rows)));
    lemma_page_height(height, rows);
    lemma_share(width as int, cols as int);
    lemma_share(height as int, rows as int);
    let w = width / cols;
    let h = height / rows;
    assert(g.cell_w == w && g.cell_h == h);
    assert((rows - 1) * h == h * (rows - 1)) by (nonlinear_arith);
    assert(h * (rows - 1) <= h * rows) by (nonlinear_arith)
        requires
            h >= 0,
    ;
}

/// A share of a length is as large as fits.
proof fn lemma_share(length: int, n: int)
    requires
        length >= n >= 1,
    ensures
        length / n >= 1,
        (length / n) * n <= length < (length / n + 1) * n,
{
    assert(length / n >= 1 && (length / n) * n <= length && length < (length / n + 1) * n)
        by (nonlinear_arith)
        requires
            length >= n,
            n >= 1,
    ;
}

/// Where the size of the terminal is not known in full, or leaves no room for a page, nothing of
/// it counts.
pub proof fn lemma_geometry_unknown(window: Option<(u16, u16)>, size: Option<(u16, u16)>)
    requires
        window matches Some((width, height)) ==> size matches Some((cols, rows)) ==> width == 0
            || height == 0 || cols == 0 || rows <= 1,
    ensures
        export_geometry(window, size) == (ExportGeometry {
            width_px: 1200,
            height_px: 1600,
            cell_w: 10,
            cell_h: 20,
        }),
{
}

/// An export is of the page that the command line asks for, or the first, whatever page was shown
/// last; its colours are those of the command line, and all else is as the document was shown.
pub proof fn lemma_export_options<F>(
    page: Option<usize>,
    invert_start: bool,
    black: i32,
    white: i32,
    saved: Option<SavedState<F>>,
    geometry: ExportGeometry,
)
    ensures
        ({
            let o = spec_export_options(page, invert_start, black, white, saved, geometry);
            &&& page matches Some(p) ==> o.page_num == p
            &&& page is None ==> o.page_num == 0
            &&& o.black == black
            &&& o.white == white
            &&& o.geometry == geometry
            &&& o.invert <==> invert_start || (saved matches Some(s) && s.inverted)
            &&& saved matches Some(s) ==> o.rotation == s.rotation && o.tinted == s.tinted
                && o.auto_crop == s.auto_crop && o.epub_font_size == s.epub_font_size
            &&& saved is None ==> o.rotation == 0 && !o.tinted && !o.auto_crop
                && o.epub_font_size is None
        }),
{
}

/// What is said of a document that cannot be opened: an error of the document is said by its
/// kind alone, and any other is said in its own words.
pub proof fn lemma_startup_message(path: Seq<char>, other: Seq<char>, e: RenderError<Seq<char>>)
    ensures
        e matches RenderError::Converting(m) ==> startup_message(path, e) == m,
        !(e is Converting) ==> startup_message(path, e) == "not a valid "@ + document_kind(path)
            + " file"@,
        extension(path) is None ==> document_kind(path) == "document"@,
        extension(path) matches Some(a) ==> extension(other) matches Some(b) ==> (lower_text(a)
            == lower_text(b) ==> document_kind(path) == document_kind(other)),
        document_kind(path) == "pdf"@ <==> (extension(path) matches Some(a) && lower_text(a)
            == "pdf"@),
        document_kind(path) == "epub"@ <==> (extension(path) matches Some(a) && lower_text(a)
            == "epub"@),
{
    reveal_strlit("pdf");
    reveal_strlit("epub");
    reveal_strlit("document");
    assert("pdf"@.len() == 3 && "epub"@.len() == 4 && "document"@.len() == 8);
}

/// Documents are tried out exactly where their kind is known, in whatever case their extension is
/// written, and a file without an extension is not.
pub proof fn lemma_preflighted(path: Seq<char>, other: Seq<char>)
    ensures
        is_preflighted(path) <==> document_kind(path) == "pdf"@ || document_kind(path) == "epub"@,
        extension(path) is None ==> !is_preflighted(path),
        extension(path) matches Some(a) ==> extension(other) matches Some(b) ==> (lower_text(a)
            == lower_text(b) ==> is_preflighted(path) == is_preflighted(other)),
{
    reveal_strlit("pdf");
    reveal_strlit("epub");
    reveal_strlit("document");
    assert("pdf"@.len() == 3 && "epub"@.len() == 4 && "document"@.len() == 8);
}

/// A document is opened exactly where trying it out succeeded; where it failed, what is said is
/// what would have been said of a document that could not be opened.
pub proof fn lemma_preflight_result(path: Seq<char>, succeeded: bool, e: RenderError<Seq<char>>)
    ensures
        preflighted(path, succeeded) is Ok <==> succeeded,
        !succeeded && !(e is Converting) ==> preflighted(path, succeeded) == Err::<(), Seq<char>>(
            startup_message(path, e),
        ),
{
}

} // verus!
