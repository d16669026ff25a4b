//! What the screen shows: the part of a page, and where it is put.

use vstd::prelude::*;

use crate::kitty::display::DisplayLocation;
use crate::kitty::placeholder::Pos;
use crate::viewer::command::InputMode;

verus! {

/// The size of the terminal: in cells, of a cell and of the area of a page in pixels.
#[derive(Clone, Copy, Debug, PartialEq, Eq, Structural)]
pub struct WindowSize {
    pub cols: u16,
    /// The rows that a page can take.
    pub page_rows: u16,
    pub cell_width_px: u16,
    pub cell_height_px: u16,
    pub width_px: u16,
    pub page_area_height_px: u32,
}

/// What can be shown in place of a page.
#[derive(Clone, Copy, Debug, PartialEq, Eq, Structural)]
pub enum OverlaySurface {
    Toc,
    Metadata,
    Links,
}

/// A part of a page on the screen: of which image of which page, the part in pixels, its size in
/// cells, and its position.
#[derive(Clone, Copy, Debug, PartialEq, Eq, Structural)]
pub struct PageSurface {
    pub page_num: usize,
    pub generation: u64,
    pub src_x: u32,
    pub src_y: u32,
    pub src_w: u32,
    pub src_h: u32,
    pub display_cols: u16,
    pub display_rows: u16,
    pub pos_x: u16,
    pub pos_y: u16,
}

/// What the screen shows.
#[derive(Clone, Copy, Debug, PartialEq, Eq, Structural)]
pub enum DrawSurface {
    Overlay(OverlaySurface),
    Loading(usize),
    Page(PageSurface),
}

impl PageSurface {
    /// The part of the image and its size, as the terminal is told.
    pub open spec fn spec_display_location(self) -> DisplayLocation {
        DisplayLocation {
            x: self.src_x,
            y: self.src_y,
            width: self.src_w,
            height: self.src_h,
            columns: self.display_cols,
            rows: self.display_rows,
            ..DisplayLocation::spec_default()
        }
    }

    /// The part of the image and its size, as the terminal is told.
    pub fn display_location(self) -> (r: DisplayLocation)
        ensures
            r == self.spec_display_location(),
    {
        DisplayLocation {
            x: self.src_x,
            y: self.src_y,
            width: self.src_w,
            height: self.src_h,
            columns: self.display_cols,
            rows: self.display_rows,
            ..DisplayLocation::default()
        }
    }

    /// The position.
    pub open spec fn spec_pos(self) -> Pos {
        Pos { x: self.pos_x, y: self.pos_y }
    }

    /// The position.
    pub fn pos(self) -> (r: Pos)
        ensures
            r == self.spec_pos(),
    {
        Pos { x: self.pos_x, y: self.pos_y }
    }
}

/// What a mode shows in place of the page.
pub open spec fn spec_overlay_surface<S>(mode: InputMode<S>) -> Option<OverlaySurface> {
    match mode {
        InputMode::Toc { .. } => Some(OverlaySurface::Toc),
        InputMode::Metadata => Some(OverlaySurface::Metadata),
        InputMode::Links { .. } => Some(OverlaySurface::Links),
        _ => None,
    }
}

/// What a mode shows in place of the page.
pub fn overlay_surface(mode: &InputMode) -> (r: Option<OverlaySurface>)
    ensures
        r == spec_overlay_surface(*mode),
{
    match mode {
        InputMode::Toc { .. } => Some(OverlaySurface::Toc),
        InputMode::Metadata => Some(OverlaySurface::Metadata),
        InputMode::Links { .. } => Some(OverlaySurface::Links),
        _ => None,
    }
}

/// A part of a side of an image: where it starts, how long it is, how many cells it takes and at
/// which cell it starts.
#[derive(Clone, Copy, Debug, PartialEq, Eq, Structural)]
pub struct Span {
    pub start: u32,
    pub len: u32,
    pub cells: u16,
    pub pos: u16,
}

/// The lower sixteen bits of a number.
pub open spec fn low_bits(n: u32) -> u16 {
    (n % 65536) as u16
}

/// What is left of a number once another is taken away, and nothing where that is larger.
pub open spec fn less(a: u16, b: u16) -> u16 {
    if a < b {
        0
    } else {
        (a - b) as u16
    }
}

/// Whether an image is shown in its own size: it is larger than the area of a page.
pub open spec fn is_cropped(ws: WindowSize, pixel_w: u32, pixel_h: u32) -> bool {
    pixel_w > ws.width_px || pixel_h > ws.page_area_height_px
}

/// The columns of an image in its own size: as many as fit from the pan on, which goes no further
/// than the end of the image, or all of them in the middle of the screen.
pub open spec fn column_span(ws: WindowSize, pixel_w: u32, pan_x: u32) -> Span {
    if pixel_w > ws.width_px {
        Span {
            start: if pan_x < pixel_w - ws.width_px {
                pan_x
            } else {
                (pixel_w - ws.width_px) as u32
            },
            len: ws.width_px as u32,
            cells: ws.cols,
            pos: 0,
        }
    } else {
        Span {
            start: 0,
            len: pixel_w,
            cells: low_bits(pixel_w / ws.cell_width_px as u32),
            pos: low_bits(((ws.width_px - pixel_w) as u32) / 2 / ws.cell_width_px as u32),
        }
    }
}

/// The rows of an image in its own size: as many as fit from the scroll offset on, which goes no
/// further than the end of the image, or all of them in the middle of the screen.
pub open spec fn row_span(ws: WindowSize, pixel_h: u32, scroll_offset: u32) -> Span {
    if pixel_h > ws.page_area_height_px {
        Span {
            start: if scroll_offset < pixel_h - ws.page_area_height_px {
                scroll_offset
            } else {
                (pixel_h - ws.page_area_height_px) as u32
            },
            len: ws.page_area_height_px,
            cells: ws.page_rows,
            pos: 0,
        }
    } else {
        let cells = low_bits(pixel_h / ws.cell_height_px as u32);
        Span { start: 0, len: pixel_h, cells, pos: less(ws.page_rows, cells) / 2 }
    }
}

/// What the screen shows of an image. An image that fits is shown whole, in the middle of the
/// screen, in as many columns and rows as `fitted` says.
pub open spec fn page_surface(
    ws: WindowSize,
    page_num: usize,
    generation: u64,
    pixel_w: u32,
    pixel_h: u32,
    scroll_offset: u32,
    pan_x: u32,
    fitted: (u16, u16),
) -> PageSurface {
    let (x, y) = if is_cropped(ws, pixel_w, pixel_h) {
        (column_span(ws, pixel_w, pan_x), row_span(ws, pixel_h, scroll_offset))
    } else {
        (
            Span { start: 0, len: pixel_w, cells: fitted.0, pos: less(ws.cols, fitted.0) / 2 },
            Span { start: 0, len: pixel_h, cells: fitted.1, pos: less(ws.page_rows, fitted.1) / 2 },
        )
    };
    PageSurface {
        page_num,
        generation,
        src_x: x.start,
        src_y: y.start,
        src_w: x.len,
        src_h: y.len,
        display_cols: x.cells,
        display_rows: y.cells,
        pos_x: x.pos,
        pos_y: y.pos,
    }
}

/// What is left of a number once another is taken away.
fn saturating_less(a: u16, b: u16) -> (r: u16)
    ensures
        r == less(a, b),
{
    if a < b {
        0
    } else {
        a - b
    }
}

/// The columns of an image in its own size.
fn crop_columns(ws: &WindowSize, pixel_w: u32, pan_x: u32) -> (r: Span)
    requires
        pixel_w <= ws.width_px ==> ws.cell_width_px > 0,
    ensures
        r == column_span(*ws, pixel_w, pan_x),
{
    let area: u32 = ws.width_px as u32;
    let cell: u32 = ws.cell_width_px as u32;
    if pixel_w > area {
        let max_pan: u32 = pixel_w - area;
        let start: u32 = if pan_x < max_pan {
            pan_x
        } else {
            max_pan
        };
        Span { start, len: area, cells: ws.cols, pos: 0 }
    } else {
        let spare: u32 = area - pixel_w;
        let pos: u16 = (spare / 2 / cell % 65536) as u16;
        let cells: u16 = (pixel_w / cell % 65536) as u16;
        Span { start: 0, len: pixel_w, cells, pos }
    }
}

/// The rows of an image in its own size.
fn crop_rows(ws: &WindowSize, pixel_h: u32, scroll_offset: u32) -> (r: Span)
    requires
        pixel_h <= ws.page_area_height_px ==> ws.cell_height_px > 0,
    ensures
        r == row_span(*ws, pixel_h, scroll_offset),
{
    let area: u32 = ws.page_area_height_px;
    let cell: u32 = ws.cell_height_px as u32;
    if pixel_h > area {
        let max_off: u32 = pixel_h - area;
        let start: u32 = if scroll_offset < max_off {
            scroll_offset
        } else {
            max_off
        };
        Span { start, len: area, cells: ws.page_rows, pos: 0 }
    } else {
        let cells: u16 = (pixel_h / cell % 65536) as u16;
        let pos: u16 = saturating_less(ws.page_rows, cells) / 2;
        Span { start: 0, len: pixel_h, cells, pos }
    }
}

/// Whether an image fits the area of a page, and is scaled to fill it.
pub fn fits_page_area(ws: &WindowSize, pixel_w: u32, pixel_h: u32) -> (r: bool)
    ensures
        r == !is_cropped(*ws, pixel_w, pixel_h),
{
    pixel_w <= ws.width_px as u32 && pixel_h <= ws.page_area_height_px
}

/// What the screen shows of an image; `fitted` are the columns and rows of an image that is
/// scaled to fill the area of a page.
pub fn compute_page_surface(
    ws: &WindowSize,
    page_num: usize,
    generation: u64,
    pixel_w: u32,
    pixel_h: u32,
    scroll_offset: u32,
    pan_x: u32,
    fitted: (u16, u16),
) -> (r: PageSurface)
    requires
        is_cropped(*ws, pixel_w, pixel_h) && pixel_w <= ws.width_px ==> ws.cell_width_px > 0,
        is_cropped(*ws, pixel_w, pixel_h) && pixel_h <= ws.page_area_height_px
            ==> ws.cell_height_px > 0,
    ensures
        r == page_surface(
            *ws,
            page_num,
            generation,
            pixel_w,
            pixel_h,
            scroll_offset,
            pan_x,
            fitted,
        ),
{
    let (x, y) = if fits_page_area(ws, pixel_w, pixel_h) {
        let (cols, rows) = fitted;
        (
            Span {
                start: 0,
                len: pixel_w,
                cells: cols,
                pos: saturating_less(ws.cols, cols) / 2,
            },
            Span {
                start: 0,
                len: pixel_h,
                cells: rows,
                pos: saturating_less(ws.page_rows, rows) / 2,
            },
        )
    } else {
        (crop_columns(ws, pixel_w, pan_x), crop_rows(ws, pixel_h, scroll_offset))
    };
    PageSurface {
        page_num,
        generation,
        src_x: x.start,
        src_y: y.start,
        src_w: x.len,
        src_h: y.len,
        display_cols: x.cells,
        display_rows: y.cells,
        pos_x: x.pos,
        pos_y: y.pos,
    }
}

/// What is shown is a part of the image, however far it is scrolled or panned.
pub proof fn lemma_part_of_image(
    ws: WindowSize,
    page_num: usize,
    generation: u64,
    pixel_w: u32,
    pixel_h: u32,
    scroll_offset: u32,
    pan_x: u32,
    fitted: (u16, u16),
)
    ensures
        ({
            let s = page_surface(
                ws,
                page_num,
                generation,
                pixel_w,
                pixel_h,
                scroll_offset,
                pan_x,
                fitted,
            );
            &&& s.src_x + s.src_w <= pixel_w
            &&& s.src_y + s.src_h <= pixel_h
            &&& s.src_w <= ws.width_px
            &&& s.src_h <= ws.page_area_height_px
        }),
{
}

/// A page that is wider than the window is shown from the pan on, pixel for pixel, until its end
/// is reached; a page that is higher than its area is shown from the scroll offset on. What does
/// not fit is cut off, and nothing else.
pub proof fn lemma_moves_with_pan_and_scroll(
    ws: WindowSize,
    page_num: usize,
    generation: u64,
    pixel_w: u32,
    pixel_h: u32,
    scroll_offset: u32,
    pan_x: u32,
    fitted: (u16, u16),
)
    ensures
        ({
            let s = page_surface(
                ws,
                page_num,
                generation,
                pixel_w,
                pixel_h,
                scroll_offset,
                pan_x,
                fitted,
            );
            let max_pan = pixel_w - ws.width_px;
            let max_scroll = pixel_h - ws.page_area_height_px;
            &&& s.page_num == page_num
            &&& s.generation == generation
            &&& max_pan > 0 ==> s.src_w == ws.width_px && s.display_cols == ws.cols && s.pos_x == 0
            &&& max_pan > 0 && pan_x <= max_pan ==> s.src_x == pan_x
            &&& max_pan > 0 && pan_x > max_pan ==> s.src_x == max_pan
            &&& max_pan <= 0 ==> s.src_x == 0 && s.src_w == pixel_w
            &&& max_scroll > 0 ==> s.src_h == ws.page_area_height_px && s.display_rows
                == ws.page_rows && s.pos_y == 0
            &&& max_scroll > 0 && scroll_offset <= max_scroll ==> s.src_y == scroll_offset
            &&& max_scroll > 0 && scroll_offset > max_scroll ==> s.src_y == max_scroll
            &&& max_scroll <= 0 ==> s.src_y == 0 && s.src_h == pixel_h
        }),
{
}

/// A larger pan within bounds moves the part that is shown by exactly the difference, and leaves
/// the rows alone; so does a larger scroll offset with the columns.
pub proof fn lemma_pan_and_scroll_are_apart(
    ws: WindowSize,
    page_num: usize,
    generation: u64,
    pixel_w: u32,
    pixel_h: u32,
    scroll_offset: u32,
    pan_x: u32,
    further: u32,
    fitted: (u16, u16),
)
    requires
        pixel_w > ws.width_px,
        pixel_h > ws.page_area_height_px,
    ensures
        pan_x + further <= pixel_w - ws.width_px ==> page_surface(
            ws,
            page_num,
            generation,
            pixel_w,
            pixel_h,
            scroll_offset,
            (pan_x + further) as u32,
            fitted,
        ) == (PageSurface {
            src_x: (page_surface(
                ws,
                page_num,
                generation,
                pixel_w,
                pixel_h,
                scroll_offset,
                pan_x,
                fitted,
            ).src_x + further) as u32,
            ..page_surface(
                ws,
                page_num,
                generation,
                pixel_w,
                pixel_h,
                scroll_offset,
                pan_x,
                fitted,
            )
        }),
        scroll_offset + further <= pixel_h - ws.page_area_height_px ==> page_surface(
            ws,
            page_num,
            generation,
            pixel_w,
            pixel_h,
            (scroll_offset + further) as u32,
            pan_x,
            fitted,
        ) == (PageSurface {
            src_y: (page_surface(
                ws,
                page_num,
                generation,
                pixel_w,
                pixel_h,
                scroll_offset,
                pan_x,
                fitted,
            ).src_y + further) as u32,
            ..page_surface(
                ws,
                page_num,
                generation,
                pixel_w,
                pixel_h,
                scroll_offset,
                pan_x,
                fitted,
            )
        }),
{
}

/// Whether `cells` cells from the cell `pos` on lie in the middle of `all` cells: what is left on
/// the two sides differs by one cell at most.
pub open spec fn is_centred(pos: u16, cells: u16, all: u16) -> bool {
    all - pos - cells - pos == 0 || all - pos - cells - pos == 1
}

/// A page that fits into its area is shown whole and in the middle, in the columns and rows that
/// it is given; where these are more than there are, from the edge on.
pub proof fn lemma_fitting_page_is_centred(
    ws: WindowSize,
    page_num: usize,
    generation: u64,
    pixel_w: u32,
    pixel_h: u32,
    scroll_offset: u32,
    pan_x: u32,
    fitted: (u16, u16),
)
    requires
        pixel_w <= ws.width_px,
        pixel_h <= ws.page_area_height_px,
    ensures
        ({
            let s = page_surface(
                ws,
                page_num,
                generation,
                pixel_w,
                pixel_h,
                scroll_offset,
                pan_x,
                fitted,
            );
            &&& s.src_x == 0 && s.src_y == 0 && s.src_w == pixel_w && s.src_h == pixel_h
            &&& s.display_cols == fitted.0 && s.display_rows == fitted.1
            &&& fitted.0 <= ws.cols ==> is_centred(s.pos_x, fitted.0, ws.cols)
            &&& fitted.1 <= ws.page_rows ==> is_centred(s.pos_y, fitted.1, ws.page_rows)
            &&& fitted.0 > ws.cols ==> s.pos_x == 0
            &&& fitted.1 > ws.page_rows ==> s.pos_y == 0
        }),
{
}

/// A page in its own size is neither stretched nor moved off: the side that fits takes as many
/// cells as it fills, and as many cells are left before it as half of what it leaves free fills.
pub proof fn lemma_own_size_is_centred(
    ws: WindowSize,
    page_num: usize,
    generation: u64,
    pixel_w: u32,
    pixel_h: u32,
    scroll_offset: u32,
    pan_x: u32,
    fitted: (u16, u16),
)
    requires
        pixel_w > ws.width_px || pixel_h > ws.page_area_height_px,
        ws.cell_width_px > 0,
        ws.cell_height_px > 0,
        ws.page_area_height_px == ws.page_rows * ws.cell_height_px,
    ensures
        ({
            let s = page_surface(
                ws,
                page_num,
                generation,
                pixel_w,
                pixel_h,
                scroll_offset,
                pan_x,
                fitted,
            );
            let free = ws.width_px - pixel_w;
            &&& free >= 0 ==> {
                &&& s.display_cols * ws.cell_width_px <= pixel_w
                &&& pixel_w < (s.display_cols + 1) * ws.cell_width_px
                &&& 2 * (s.pos_x * ws.cell_width_px) <= free
                &&& free < 2 * ((s.pos_x + 1) * ws.cell_width_px)
            }
            &&& pixel_h <= ws.page_area_height_px ==> {
                &&& s.display_rows * ws.cell_height_px <= pixel_h
                &&& pixel_h < (s.display_rows + 1) * ws.cell_height_px
                &&& is_centred(s.pos_y, s.display_rows, ws.page_rows)
            }
        }),
{
    let cw = ws.cell_width_px as int;
    let ch = ws.cell_height_px as int;
    if pixel_w <= ws.width_px {
        let free = ws.width_px - pixel_w;
        let a = pixel_w as int / cw;
        let b = free / 2 / cw;
        assert(a * cw <= pixel_w && pixel_w < (a + 1) * cw && 0 <= a <= pixel_w) by (nonlinear_arith)
            requires
                cw > 0,
                a == pixel_w as int / cw,
                pixel_w >= 0,
        ;
        let half = free / 2;
        assert(b * cw <= half && half < (b + 1) * cw && 0 <= b <= half) by (nonlinear_arith)
            requires
                cw > 0,
                b == half / cw,
                half >= 0,
        ;
        assert(half + 1 <= (b + 1) * cw);
    }
    if pixel_h <= ws.page_area_height_px {
        let a = pixel_h as int / ch;
        assert(a * ch <= pixel_h && pixel_h < (a + 1) * ch && 0 <= a <= ws.page_rows)
            by (nonlinear_arith)
            requires
                ch > 0,
                a == pixel_h as int / ch,
                0 <= pixel_h <= ws.page_rows * ch,
        ;
    }
}

/// What the terminal is told of a part of a page is that part, its cells and its position.
pub proof fn lemma_terminal_is_told_of_part(s: PageSurface)
    ensures
        s.spec_display_location().x == s.src_x,
        s.spec_display_location().y == s.src_y,
        s.spec_display_location().width == s.src_w,
        s.spec_display_location().height == s.src_h,
        s.spec_display_location().columns == s.display_cols,
        s.spec_display_location().rows == s.display_rows,
        s.spec_display_location().x_offset == 0,
        s.spec_display_location().y_offset == 0,
        s.spec_display_location().z_index == 0,
        s.spec_display_location().horizontal_offset == 0,
        s.spec_display_location().vertical_offset == 0,
        s.spec_pos().x == s.pos_x,
        s.spec_pos().y == s.pos_y,
{
}

/// The table of contents, what is known of the document and the links are shown in place of the
/// page; everything else leaves the page on the screen.
pub proof fn lemma_overlays<S>(mode: InputMode<S>)
    ensures
        spec_overlay_surface(mode) == Some(OverlaySurface::Toc) <==> mode is Toc,
        spec_overlay_surface(mode) == Some(OverlaySurface::Metadata) <==> mode is Metadata,
        spec_overlay_surface(mode) == Some(OverlaySurface::Links) <==> mode is Links,
        spec_overlay_surface(mode) is None <==> mode is Normal || mode is GoToPage
            || mode is Search,
{
}

/// A page that is scrolled to its end shows its last row, and one that is panned to its end its
/// last column.
pub proof fn lemma_scrolls_to_end(
    ws: WindowSize,
    page_num: usize,
    generation: u64,
    pixel_w: u32,
    pixel_h: u32,
    scroll_offset: u32,
    pan_x: u32,
    fitted: (u16, u16),
)
    requires
        scroll_offset >= pixel_h,
        pan_x >= pixel_w,
    ensures
        ({
            let s = page_surface(
                ws,
                page_num,
                generation,
                pixel_w,
                pixel_h,
                scroll_offset,
                pan_x,
                fitted,
            );
            &&& s.src_x + s.src_w == pixel_w
            &&& s.src_y + s.src_h == pixel_h
        }),
{
}

/// An image in its own size lies within the rows of a page, where these make up the area of the
/// page.
pub proof fn lemma_rows_on_screen(ws: WindowSize, pixel_h: u32, scroll_offset: u32)
    requires
        ws.cell_height_px > 0,
        ws.page_area_height_px == ws.page_rows * ws.cell_height_px,
    ensures
        row_span(ws, pixel_h, scroll_offset).pos + row_span(ws, pixel_h, scroll_offset).cells
            <= ws.page_rows,
{
    if pixel_h <= ws.page_area_height_px {
        let cell = ws.cell_height_px as int;
        let cells = pixel_h as int / cell;
        assert(0 <= cells <= ws.page_rows) by (nonlinear_arith)
            requires
                cell > 0,
                cells == pixel_h as int / cell,
                0 <= pixel_h <= ws.page_rows * cell,
        ;
    }
}

/// An image in its own size lies within the columns of the terminal, where these are as wide as
/// the terminal.
pub proof fn lemma_columns_on_screen(ws: WindowSize, pixel_w: u32, pan_x: u32)
    requires
        ws.cell_width_px > 0,
        ws.cols >= ws.width_px / ws.cell_width_px,
    ensures
        column_span(ws, pixel_w, pan_x).pos + column_span(ws, pixel_w, pan_x).cells <= ws.cols,
{
    let cell = ws.cell_width_px as int;
    let width = ws.width_px as int;
    if pixel_w <= ws.width_px {
        let spare = width - pixel_w;
        let half = spare / 2;
        let a = pixel_w as int / cell;
        let b = half / cell;
        assert(a * cell <= pixel_w && b * cell <= half && width < (width / cell + 1) * cell
            && a >= 0 && b >= 0) by (nonlinear_arith)
            requires
                cell > 0,
                a == pixel_w as int / cell,
                b == half / cell,
                half >= 0,
                pixel_w >= 0,
        ;
        assert((a + b) * cell <= pixel_w + half) by (nonlinear_arith)
            requires
                a * cell <= pixel_w,
                b * cell <= half,
        ;
        assert(a + b <= width / cell) by (nonlinear_arith)
            requires
                (a + b) * cell < (width / cell + 1) * cell,
                cell > 0,
        ;
        assert(a <= width && b <= width) by (nonlinear_arith)
            requires
                a + b <= width / cell,
                a >= 0,
                b >= 0,
                cell > 0,
                width >= 0,
        ;
    }
}

} // verus!
