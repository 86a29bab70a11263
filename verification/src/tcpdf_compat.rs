//! The renderer: its state, the drawing primitives and the interpreter of
//! recorded traces.
//!
//! A renderer collects drawing instructions, each tagged with the page it
//! belongs to and already transformed to PDF space (micrometres from the
//! bottom-left corner), and the hyperlinks to attach once the pages exist.

use vstd::prelude::*;
use crate::coordinate_data::{
    added_pages,
    command_kind,
    count_added_pages,
    kind_of,
    lemma_added_pages_prefix,
    CommandKind,
    Element,
    LineParams,
    LinkParams,
    MultiCellParams,
    CellParams,
    Params,
    SetFillColorParams,
    SetFontParams,
    SetFontSizeParams,
};
use crate::coords::{
    align_of,
    parse_align,
    place_text,
    Align,
    flip_y,
    snap_down,
    snap_to_grid,
    text_baseline,
    text_left,
    text_width,
    y_convert,
    y_convert_text,
};
use crate::text::{get_text_from_value, visible_text};
use crate::units::{is_coord, OUTLINE_THICKNESS, TRACE_GRID};

verus! {

/// A colour; each channel is a level out of 255.
#[derive(Clone, Copy, Debug, PartialEq, Eq, Structural)]
pub struct Color {
    pub r: i32,
    pub g: i32,
    pub b: i32,
}

/// One drawing instruction in PDF space.
#[derive(Clone, Debug, PartialEq, Eq)]
pub enum DrawOp {
    /// An open path of two points.
    Line { x1: i64, y1: i64, x2: i64, y2: i64 },
    /// A closed path around a rectangle, stroked `thickness` thick.
    StrokeRect { left: i64, top: i64, right: i64, bottom: i64, thickness: i64 },
    /// A closed, filled path around a rectangle.
    FillRect { left: i64, top: i64, right: i64, bottom: i64, color: Color },
    /// A run of text in the given colour that starts at `x` with its
    /// baseline at `y`.
    Text { x: i64, y: i64, size: i32, text: String, color: Color },
}

/// A drawing instruction and the page, counted from 1, that it is on.
#[derive(Clone, Debug, PartialEq, Eq)]
pub struct PlacedOp {
    pub page: u32,
    pub op: DrawOp,
}

/// A hyperlink to attach: its page, counted from 1, its rectangle measured
/// from the top-left corner of that page, and its target.
#[derive(Clone, Debug, PartialEq, Eq)]
pub struct LinkInfo {
    pub page: u32,
    pub x: i32,
    pub y: i32,
    pub w: i32,
    pub h: i32,
    pub url: String,
}

/// The renderer.
#[derive(Debug)]
pub struct TcpdfCompat {
    pub page_width: i32,
    pub page_height: i32,
    /// Active font size in millipoints.
    pub font_size: i32,
    pub fill_color: Color,
    /// Number of pages so far; the last one is the active page.
    pub page_count: u32,
    pub ops: Vec<PlacedOp>,
    pub links: Vec<LinkInfo>,
}

/// What a drawing instruction says.
pub enum OpView {
    Line { x1: int, y1: int, x2: int, y2: int },
    StrokeRect { left: int, top: int, right: int, bottom: int, thickness: int },
    FillRect { left: int, top: int, right: int, bottom: int, color: Color },
    Text { x: int, y: int, size: int, text: Seq<char>, color: Color },
}

/// What a placed drawing instruction says.
pub struct PlacedView {
    pub page: int,
    pub op: OpView,
}

/// What a hyperlink says.
pub struct LinkView {
    pub page: int,
    pub x: int,
    pub y: int,
    pub w: int,
    pub h: int,
    pub url: Seq<char>,
}

/// The state of a renderer.
pub struct DocView {
    pub page_width: int,
    pub page_height: int,
    pub font_size: int,
    pub fill_color: Color,
    pub page_count: int,
    pub ops: Seq<PlacedView>,
    pub links: Seq<LinkView>,
}

impl View for DrawOp {
    type V = OpView;

    open spec fn view(&self) -> OpView {
        match *self {
            DrawOp::Line { x1, y1, x2, y2 } => OpView::Line {
                x1: x1 as int,
                y1: y1 as int,
                x2: x2 as int,
                y2: y2 as int,
            },
            DrawOp::StrokeRect { left, top, right, bottom, thickness } => OpView::StrokeRect {
                left: left as int,
                top: top as int,
                right: right as int,
                bottom: bottom as int,
                thickness: thickness as int,
            },
            DrawOp::FillRect { left, top, right, bottom, color } => OpView::FillRect {
                left: left as int,
                top: top as int,
                right: right as int,
                bottom: bottom as int,
                color,
            },
            DrawOp::Text { x, y, size, text, color } => OpView::Text {
                x: x as int,
                y: y as int,
                size: size as int,
                text: text@,
                color,
            },
        }
    }
}

impl View for PlacedOp {
    type V = PlacedView;

    open spec fn view(&self) -> PlacedView {
        PlacedView { page: self.page as int, op: self.op@ }
    }
}

impl View for LinkInfo {
    type V = LinkView;

    open spec fn view(&self) -> LinkView {
        LinkView {
            page: self.page as int,
            x: self.x as int,
            y: self.y as int,
            w: self.w as int,
            h: self.h as int,
            url: self.url@,
        }
    }
}

impl View for TcpdfCompat {
    type V = DocView;

    open spec fn view(&self) -> DocView {
        DocView {
            page_width: self.page_width as int,
            page_height: self.page_height as int,
            font_size: self.font_size as int,
            fill_color: self.fill_color,
            page_count: self.page_count as int,
            ops: ops_view(self.ops@),
            links: links_view(self.links@),
        }
    }
}

/// What a list of placed drawing instructions says.
pub open spec fn ops_view(ops: Seq<PlacedOp>) -> Seq<PlacedView> {
    ops.map_values(|o: PlacedOp| o@)
}

/// What a list of hyperlinks says.
pub open spec fn links_view(links: Seq<LinkInfo>) -> Seq<LinkView> {
    links.map_values(|l: LinkInfo| l@)
}

/// Black.
pub open spec fn black() -> Color {
    Color { r: 0, g: 0, b: 0 }
}

/// The state of a renderer before anything was rendered: no page, a 10 pt
/// font and a black fill.
pub open spec fn fresh(page_width: int, page_height: int) -> DocView {
    DocView {
        page_width,
        page_height,
        font_size: 10_000,
        fill_color: black(),
        page_count: 0,
        ops: Seq::empty(),
        links: Seq::empty(),
    }
}

/// The state after handing `op` to the active page. Without a page nothing
/// changes.
pub open spec fn emit(s: DocView, op: OpView) -> DocView {
    if s.page_count == 0 {
        s
    } else {
        DocView { ops: s.ops.push(PlacedView { page: s.page_count, op }), ..s }
    }
}

/// The outline, 0.2 mm thick, of the rectangle at `(x, y)` of size `w` by
/// `h`.
pub open spec fn rect_outline(s: DocView, x: int, y: int, w: int, h: int) -> OpView {
    OpView::StrokeRect {
        left: x,
        top: flip_y(s.page_height, y),
        right: x + w,
        bottom: flip_y(s.page_height, y + h),
        thickness: OUTLINE_THICKNESS as int,
    }
}

/// The rectangle at `(x, y)` of size `w` by `h`, filled with the active
/// fill colour.
pub open spec fn rect_fill(s: DocView, x: int, y: int, w: int, h: int) -> OpView {
    OpView::FillRect {
        left: x,
        top: flip_y(s.page_height, y),
        right: x + w,
        bottom: flip_y(s.page_height, y + h),
        color: s.fill_color,
    }
}

/// The line from `(x1, y1)` to `(x2, y2)`.
pub open spec fn line_path(s: DocView, x1: int, y1: int, x2: int, y2: int) -> OpView {
    OpView::Line { x1, y1: flip_y(s.page_height, y1), x2, y2: flip_y(s.page_height, y2) }
}

/// `text` in black at `size` millipoints starting at `x`, centred
/// vertically in a cell of height `h` whose top edge is at `y`.
pub open spec fn text_run(s: DocView, x: int, y: int, h: int, text: Seq<char>, size: int)
    -> OpView {
    OpView::Text { x, y: text_baseline(s.page_height, y, h, size), size, text, color: black() }
}

/// Number of pages to add to a document that starts with one page so that
/// it has the pages of a state: the first page of the state is the page
/// that the document starts with.
pub open spec fn pages_to_add(s: DocView) -> int {
    if s.page_count > 0 {
        s.page_count - 1
    } else {
        0
    }
}

/// The state after a page was added.
pub open spec fn with_page(s: DocView) -> DocView {
    DocView { page_count: s.page_count + 1, ..s }
}

/// The state after a hyperlink was recorded for the active page.
pub open spec fn with_link(s: DocView, x: int, y: int, w: int, h: int, url: Seq<char>)
    -> DocView {
    DocView { links: s.links.push(LinkView { page: s.page_count, x, y, w, h, url }), ..s }
}

/// The state after the font size was set.
pub open spec fn with_font_size(s: DocView, size: int) -> DocView {
    DocView { font_size: size, ..s }
}

/// The colour that a fill-colour call selects: a gray of the first channel
/// where the second is -1, the first three channels otherwise.
pub open spec fn fill_of(p: SetFillColorParams) -> Color {
    if p.col2 == -1 {
        Color { r: p.col1, g: p.col1, b: p.col1 }
    } else {
        Color { r: p.col1, g: p.col2, b: p.col3 }
    }
}

/// The state after the fill colour was set.
pub open spec fn with_fill_color(s: DocView, color: Color) -> DocView {
    DocView { fill_color: color, ..s }
}

/// The state after the fill of a cell, if it asks for one.
pub open spec fn cell_filled(s: DocView, x: int, y: int, w: int, h: int, fill: bool) -> DocView {
    if fill {
        emit(s, rect_fill(s, x, y, w, h))
    } else {
        s
    }
}

/// The state after the text of a cell, if it has any, was placed in it at
/// the active font size.
pub open spec fn cell_texted(
    s: DocView,
    x: int,
    y: int,
    w: int,
    h: int,
    text: Option<Seq<char>>,
    align: Align,
) -> DocView {
    match text {
        Some(t) => emit(
            s,
            text_run(s, text_left(x, w, text_width(t, s.font_size), align), y, h, t, s.font_size),
        ),
        None => s,
    }
}

/// The state after the outline of a cell, if it has a border.
pub open spec fn cell_bordered(s: DocView, x: int, y: int, w: int, h: int, border: bool)
    -> DocView {
    if border {
        emit(s, rect_outline(s, x, y, w, h))
    } else {
        s
    }
}

/// The state after a cell was drawn: first the fill, then the text, the
/// outline last, so that the fill hides neither.
pub open spec fn with_cell(
    s: DocView,
    x: int,
    y: int,
    w: int,
    h: int,
    text: Option<Seq<char>>,
    align: Align,
    border: bool,
    fill: bool,
) -> DocView {
    cell_bordered(
        cell_texted(cell_filled(s, x, y, w, h, fill), x, y, w, h, text, align),
        x,
        y,
        w,
        h,
        border,
    )
}

/// The state after a recorded cell was drawn with its top edge snapped
/// down to `grid`. Its outline is drawn only if its border flag is 1.
pub open spec fn with_multi_cell(s: DocView, p: MultiCellParams, grid: int) -> DocView {
    with_cell(
        s,
        p.x as int,
        snap_down(p.y as int, grid),
        p.w as int,
        p.h as int,
        visible_text(p.text),
        align_of(p.align@),
        p.border == Some(1i64),
        p.fill,
    )
}

/// The state after one recorded call. A call whose parameters do not
/// belong to it, a call without effect and an unknown call change nothing.
pub open spec fn step(s: DocView, e: Element, grid: int) -> DocView {
    match kind_of(e.element_type@) {
        CommandKind::AddPage => with_page(s),
        CommandKind::MultiCell => match e.params {
            Params::MultiCell(p) => with_multi_cell(s, p, grid),
            _ => s,
        },
        CommandKind::Line => match e.params {
            Params::Line(p) => emit(
                s,
                line_path(s, p.x1 as int, p.y1 as int, p.x2 as int, p.y2 as int),
            ),
            _ => s,
        },
        CommandKind::Link => match e.params {
            Params::Link(p) => with_link(s, p.x as int, p.y as int, p.w as int, p.h as int, p.link@),
            _ => s,
        },
        CommandKind::SetFont => match e.params {
            Params::SetFont(p) => match p.size {
                Some(size) => with_font_size(s, size as int),
                None => s,
            },
            _ => s,
        },
        CommandKind::SetFontSize => match e.params {
            Params::SetFontSize(p) => with_font_size(s, p.size as int),
            _ => s,
        },
        CommandKind::SetFillColor => match e.params {
            Params::SetFillColor(p) => with_fill_color(s, fill_of(p)),
            _ => s,
        },
        _ => s,
    }
}

/// The state after the recorded calls `elements`, in order.
pub open spec fn run(s: DocView, elements: Seq<Element>, grid: int) -> DocView
    decreases elements.len(),
{
    if elements.len() == 0 {
        s
    } else {
        step(run(s, elements.drop_last(), grid), elements.last(), grid)
    }
}

/// Whether a state is consistent: every instruction lies on a page that
/// exists, instructions are in page order, and no hyperlink names a page
/// beyond the last.
pub open spec fn consistent(s: DocView) -> bool {
    &&& 0 <= s.page_count
    &&& forall|i: int| 0 <= i < s.ops.len() ==> 1 <= (#[trigger] s.ops[i]).page <= s.page_count
    &&& forall|i: int, j: int|
        0 <= i <= j < s.ops.len() ==> (#[trigger] s.ops[i]).page <= (#[trigger] s.ops[j]).page
    &&& forall|i: int| 0 <= i < s.links.len() ==> 0 <= (#[trigger] s.links[i]).page <= s.page_count
    &&& forall|i: int, j: int|
        0 <= i <= j < s.links.len() ==> (#[trigger] s.links[i]).page <= (
        #[trigger] s.links[j]).page
}

impl TcpdfCompat {
    /// A renderer for pages of the given size, with no page yet.
    pub fn new(page_width: i32, page_height: i32, _orientation: &str) -> (r: Self)
        ensures
            r@ == fresh(page_width as int, page_height as int),
    {
        let r = TcpdfCompat {
            page_width,
            page_height,
            font_size: 10_000,
            fill_color: Color { r: 0, g: 0, b: 0 },
            page_count: 0,
            ops: Vec::new(),
            links: Vec::new(),
        };
        assert(r@.ops =~= Seq::empty());
        assert(r@.links =~= Seq::empty());
        r
    }

    /// Number of pages to add to a document that starts with one page.
    pub fn extra_pages(&self) -> (r: u32)
        ensures
            r == pages_to_add(self@),
    {
        if self.page_count > 0 {
            self.page_count - 1
        } else {
            0
        }
    }

    /// Hands a drawing instruction to the active page.
    fn emit(&mut self, op: DrawOp)
        ensures
            final(self)@ == emit(old(self)@, op@),
    {
        if self.page_count > 0 {
            let placed = PlacedOp { page: self.page_count, op };
            self.ops.push(placed);
            assert(ops_view(old(self).ops@.push(placed)) =~= ops_view(old(self).ops@).push(
                placed@,
            ));
        }
    }

    /// Strokes the outline of a rectangle.
    pub fn draw_rect(&mut self, x: i64, y: i64, w: i64, h: i64)
        requires
            is_coord(x as int),
            is_coord(y as int),
            is_coord(w as int),
            is_coord(h as int),
        ensures
            final(self)@ == emit(
                old(self)@,
                rect_outline(old(self)@, x as int, y as int, w as int, h as int),
            ),
    {
        let top: i64 = y_convert(y, self.page_height);
        let bottom: i64 = top - h;
        self.emit(
            DrawOp::StrokeRect { left: x, top, right: x + w, bottom, thickness: OUTLINE_THICKNESS },
        );
    }

    /// Fills a rectangle with the active fill colour.
    pub fn fill_rect(&mut self, x: i64, y: i64, w: i64, h: i64)
        requires
            is_coord(x as int),
            is_coord(y as int),
            is_coord(w as int),
            is_coord(h as int),
        ensures
            final(self)@ == emit(
                old(self)@,
                rect_fill(old(self)@, x as int, y as int, w as int, h as int),
            ),
    {
        let top: i64 = y_convert(y, self.page_height);
        let bottom: i64 = top - h;
        let color: Color = self.fill_color;
        self.emit(DrawOp::FillRect { left: x, top, right: x + w, bottom, color });
    }

    /// Draws a straight line.
    pub fn line(&mut self, x1: i64, y1: i64, x2: i64, y2: i64)
        requires
            is_coord(y1 as int),
            is_coord(y2 as int),
        ensures
            final(self)@ == emit(
                old(self)@,
                line_path(old(self)@, x1 as int, y1 as int, x2 as int, y2 as int),
            ),
    {
        let py1: i64 = y_convert(y1, self.page_height);
        let py2: i64 = y_convert(y2, self.page_height);
        self.emit(DrawOp::Line { x1, y1: py1, x2, y2: py2 });
    }

    /// Places text that starts at `x`, centred vertically in a cell of
    /// height `h` whose top edge is at `y`.
    pub fn text(&mut self, x: i64, y: i64, h: i64, text: String, size: i32)
        requires
            is_coord(y as int),
            is_coord(h as int),
        ensures
            final(self)@ == emit(
                old(self)@,
                text_run(old(self)@, x as int, y as int, h as int, text@, size as int),
            ),
    {
        let baseline: i64 = y_convert_text(y, h, size, self.page_height);
        let color = Color { r: 0, g: 0, b: 0 };
        self.emit(DrawOp::Text { x, y: baseline, size, text, color });
    }

    /// Starts a new page and makes it the active one.
    pub fn handle_add_page(&mut self)
        requires
            old(self).page_count < u32::MAX,
        ensures
            final(self)@ == with_page(old(self)@),
    {
        self.page_count = self.page_count + 1;
    }

    /// Draws a cell: fill, text and outline, in that order, each only if
    /// asked for.
    pub fn draw_cell(
        &mut self,
        x: i64,
        y: i64,
        w: i64,
        h: i64,
        text: Option<String>,
        align: Align,
        border: bool,
        fill: bool,
    )
        requires
            is_coord(x as int),
            is_coord(y as int),
            is_coord(w as int),
            is_coord(h as int),
        ensures
            final(self)@ == with_cell(
                old(self)@,
                x as int,
                y as int,
                w as int,
                h as int,
                match text {
                    Some(t) => Some(t@),
                    None => None,
                },
                align,
                border,
                fill,
            ),
    {
        if fill {
            self.fill_rect(x, y, w, h);
        }
        match text {
            Some(t) => {
                let left: i64 = place_text(x, w, t.as_str(), self.font_size, align);
                let size: i32 = self.font_size;
                self.text(left, y, h, t, size);
            },
            None => {},
        }
        if border {
            self.draw_rect(x, y, w, h);
        }
    }

    /// Draws a recorded cell with its top edge snapped down to `grid`.
    pub fn handle_multi_cell(&mut self, p: &MultiCellParams, grid: i32)
        requires
            grid > 0,
        ensures
            final(self)@ == with_multi_cell(old(self)@, *p, grid as int),
    {
        let y: i64 = snap_to_grid(p.y, grid);
        let border: bool = match p.border {
            Some(flag) => flag == 1,
            None => false,
        };
        self.draw_cell(
            p.x as i64,
            y,
            p.w as i64,
            p.h as i64,
            get_text_from_value(&p.text),
            parse_align(p.align.as_str()),
            border,
            p.fill,
        );
    }

    /// A single-line cell draws nothing: it repeats what the enclosing
    /// multi-line cell has drawn.
    pub fn handle_cell(&mut self, _p: &CellParams)
        ensures
            final(self)@ == old(self)@,
    {
    }

    /// Draws a line between the recorded end points, unsnapped.
    pub fn handle_line(&mut self, p: &LineParams)
        ensures
            final(self)@ == emit(
                old(self)@,
                line_path(old(self)@, p.x1 as int, p.y1 as int, p.x2 as int, p.y2 as int),
            ),
    {
        self.line(p.x1 as i64, p.y1 as i64, p.x2 as i64, p.y2 as i64);
    }

    /// Records a hyperlink for the active page; draws nothing.
    pub fn handle_link(&mut self, p: &LinkParams)
        ensures
            final(self)@ == with_link(
                old(self)@,
                p.x as int,
                p.y as int,
                p.w as int,
                p.h as int,
                p.link@,
            ),
    {
        self.add_link(p.x, p.y, p.w, p.h, p.link.clone());
    }

    /// Records a hyperlink for the active page.
    pub fn add_link(&mut self, x: i32, y: i32, w: i32, h: i32, url: String)
        ensures
            final(self)@ == with_link(
                old(self)@,
                x as int,
                y as int,
                w as int,
                h as int,
                url@,
            ),
    {
        let link = LinkInfo { page: self.page_count, x, y, w, h, url };
        self.links.push(link);
        assert(links_view(old(self).links@.push(link)) =~= links_view(old(self).links@).push(
            link@,
        ));
    }

    /// Selects a font; only a size, if given, has an effect.
    pub fn handle_set_font(&mut self, p: &SetFontParams)
        ensures
            final(self)@ == (match p.size {
                Some(size) => with_font_size(old(self)@, size as int),
                None => old(self)@,
            }),
    {
        match p.size {
            Some(size) => {
                self.font_size = size;
            },
            None => {},
        }
    }

    /// Sets the font size.
    pub fn handle_set_font_size(&mut self, p: &SetFontSizeParams)
        ensures
            final(self)@ == with_font_size(old(self)@, p.size as int),
    {
        self.font_size = p.size;
    }

    /// Sets the fill colour.
    pub fn handle_set_fill_color(&mut self, p: &SetFillColorParams)
        ensures
            final(self)@ == with_fill_color(old(self)@, fill_of(*p)),
    {
        if p.col2 == -1 {
            self.fill_color = Color { r: p.col1, g: p.col1, b: p.col1 };
        } else {
            self.fill_color = Color { r: p.col1, g: p.col2, b: p.col3 };
        }
    }

    /// Carries out one recorded call.
    pub fn render_element(&mut self, element: &Element, grid: i32)
        requires
            grid > 0,
            kind_of(element.element_type@) == CommandKind::AddPage ==> old(self).page_count
                < u32::MAX,
        ensures
            final(self)@ == step(old(self)@, *element, grid as int),
    {
        match command_kind(element.element_type.as_str()) {
            CommandKind::AddPage => self.handle_add_page(),
            CommandKind::MultiCell => match &element.params {
                Params::MultiCell(p) => self.handle_multi_cell(p, grid),
                _ => {},
            },
            CommandKind::Cell => match &element.params {
                Params::Cell(p) => self.handle_cell(p),
                _ => {},
            },
            CommandKind::Line => match &element.params {
                Params::Line(p) => self.handle_line(p),
                _ => {},
            },
            CommandKind::Link => match &element.params {
                Params::Link(p) => self.handle_link(p),
                _ => {},
            },
            CommandKind::SetFont => match &element.params {
                Params::SetFont(p) => self.handle_set_font(p),
                _ => {},
            },
            CommandKind::SetFontSize => match &element.params {
                Params::SetFontSize(p) => self.handle_set_font_size(p),
                _ => {},
            },
            CommandKind::SetFillColor => match &element.params {
                Params::SetFillColor(p) => self.handle_set_fill_color(p),
                _ => {},
            },
            CommandKind::SetAbsX => {},
            CommandKind::SetAbsY => {},
            CommandKind::Ln => {},
            CommandKind::Unknown => {},
        }
    }

    /// Carries out the recorded calls in order, snapping cells to `grid`.
    pub fn render_elements_on_grid(&mut self, elements: &Vec<Element>, grid: i32)
        requires
            grid > 0,
            old(self).page_count + added_pages(elements@) <= u32::MAX,
        ensures
            final(self)@ == run(old(self)@, elements@, grid as int),
            final(self).page_count == old(self).page_count + added_pages(elements@),
    {
        let mut i: usize = 0;
        while i < elements.len()
            invariant
                grid > 0,
                i <= elements.len(),
                old(self).page_count + added_pages(elements@) <= u32::MAX,
                self@ == run(old(self)@, elements@.take(i as int), grid as int),
                self.page_count == old(self).page_count + added_pages(elements@.take(i as int)),
            decreases elements.len() - i,
        {
            proof {
                assert(elements@.take(i + 1).drop_last() =~= elements@.take(i as int));
                lemma_added_pages_prefix(elements@, i + 1);
            }
            self.render_element(&elements[i], grid);
            i = i + 1;
        }
        proof {
            assert(elements@.take(elements@.len() as int) =~= elements@);
        }
    }

    /// Carries out the recorded calls in order, snapping cells to whole
    /// millimetres, if the page counter can count the pages they add;
    /// otherwise nothing changes. Says whether the calls were carried out.
    pub fn try_render_elements(&mut self, elements: &Vec<Element>) -> (done: bool)
        ensures
            done == (old(self).page_count + added_pages(elements@) <= u32::MAX),
            done ==> final(self)@ == run(old(self)@, elements@, TRACE_GRID as int),
            !done ==> *final(self) == *old(self),
    {
        let added: usize = count_added_pages(elements);
        if added <= (u32::MAX - self.page_count) as usize {
            self.render_elements(elements);
            true
        } else {
            false
        }
    }

    /// Carries out the recorded calls in order, snapping cells to whole
    /// millimetres.
    pub fn render_elements(&mut self, elements: &Vec<Element>)
        requires
            old(self).page_count + added_pages(elements@) <= u32::MAX,
        ensures
            final(self)@ == run(old(self)@, elements@, TRACE_GRID as int),
            final(self).page_count == old(self).page_count + added_pages(elements@),
    {
        self.render_elements_on_grid(elements, TRACE_GRID);
    }
}

/// Whether two states agree on the page size, the number of pages and the
/// font size.
pub open spec fn same_frame(a: DocView, b: DocView) -> bool {
    &&& a.page_width == b.page_width
    &&& a.page_height == b.page_height
    &&& a.page_count == b.page_count
    &&& a.font_size == b.font_size
}

/// Drawing a cell changes neither the page size, the number of pages, the
/// font size, the fill colour nor the hyperlinks.
pub proof fn lemma_cell_frame(
    s: DocView,
    x: int,
    y: int,
    w: int,
    h: int,
    text: Option<Seq<char>>,
    align: Align,
    border: bool,
    fill: bool,
)
    ensures
        same_frame(s, with_cell(s, x, y, w, h, text, align, border, fill)),
        with_cell(s, x, y, w, h, text, align, border, fill).fill_color == s.fill_color,
        with_cell(s, x, y, w, h, text, align, border, fill).links == s.links,
{
}

/// Handing an instruction to the active page keeps a state consistent.
pub proof fn lemma_emit_consistent(s: DocView, op: OpView)
    requires
        consistent(s),
    ensures
        consistent(emit(s, op)),
{
}

/// A cell without visible text puts no text on the page: only its fill and
/// its outline are drawn, each if asked for.
pub proof fn lemma_cell_without_text(s: DocView, p: MultiCellParams, grid: int)
    requires
        visible_text(p.text) is None,
    ensures
        with_multi_cell(s, p, grid) == cell_bordered(
            cell_filled(s, p.x as int, snap_down(p.y as int, grid), p.w as int, p.h as int, p.fill),
            p.x as int,
            snap_down(p.y as int, grid),
            p.w as int,
            p.h as int,
            p.border == Some(1i64),
        ),
        forall|i: int|
            s.ops.len() <= i < with_multi_cell(s, p, grid).ops.len() ==> !(#[trigger] with_multi_cell(
                s,
                p,
                grid,
            ).ops[i].op is Text),
{
}

/// A cell whose payload is a number shows that number's decimal
/// representation: on a page, the instruction that follows the fill is
/// the text run of exactly those characters.
pub proof fn lemma_cell_with_number(
    s: DocView,
    x: int,
    y: int,
    w: int,
    h: int,
    number: String,
    align: Align,
)
    requires
        s.page_count != 0,
    ensures
        visible_text(crate::text::TextValue::Number(number)) == Some(number@),
        cell_texted(s, x, y, w, h, Some(number@), align).ops.len() == s.ops.len() + 1,
        cell_texted(s, x, y, w, h, Some(number@), align).ops.last().op matches OpView::Text {
            text,
            ..
        } && text == number@,
{
}

/// Drawing a cell keeps a state consistent.
pub proof fn lemma_cell_consistent(
    s: DocView,
    x: int,
    y: int,
    w: int,
    h: int,
    text: Option<Seq<char>>,
    align: Align,
    border: bool,
    fill: bool,
)
    requires
        consistent(s),
    ensures
        consistent(with_cell(s, x, y, w, h, text, align, border, fill)),
{
    let filled = cell_filled(s, x, y, w, h, fill);
    let texted = cell_texted(filled, x, y, w, h, text, align);
    assert(consistent(filled));
    assert(consistent(texted));
}

/// Two recorded cells that differ only in where their top edges lie
/// within one step of the grid are drawn alike.
pub proof fn lemma_cells_share_row(s: DocView, p: MultiCellParams, q: MultiCellParams, grid: int)
    requires
        grid > 0,
        p.x == q.x,
        p.w == q.w,
        p.h == q.h,
        visible_text(p.text) == visible_text(q.text),
        align_of(p.align@) == align_of(q.align@),
        (p.border == Some(1i64)) == (q.border == Some(1i64)),
        p.fill == q.fill,
        snap_down(p.y as int, grid) == snap_down(q.y as int, grid),
    ensures
        with_multi_cell(s, p, grid) == with_multi_cell(s, q, grid),
{
}

/// One recorded call keeps a state consistent.
pub proof fn lemma_step_consistent(s: DocView, e: Element, grid: int)
    requires
        consistent(s),
    ensures
        consistent(step(s, e, grid)),
{
    match kind_of(e.element_type@) {
        CommandKind::MultiCell => match e.params {
            Params::MultiCell(p) => {
                lemma_cell_consistent(
                    s,
                    p.x as int,
                    snap_down(p.y as int, grid),
                    p.w as int,
                    p.h as int,
                    visible_text(p.text),
                    align_of(p.align@),
                    p.border == Some(1i64),
                    p.fill,
                );
            },
            _ => {},
        },
        _ => {},
    }
}

/// Any trace keeps a state consistent: instructions stay in page order on
/// pages that exist, and hyperlinks name no page beyond the last.
pub proof fn lemma_run_consistent(s: DocView, elements: Seq<Element>, grid: int)
    requires
        consistent(s),
    ensures
        consistent(run(s, elements, grid)),
    decreases elements.len(),
{
    if elements.len() > 0 {
        lemma_run_consistent(s, elements.drop_last(), grid);
        lemma_step_consistent(run(s, elements.drop_last(), grid), elements.last(), grid);
    }
}

/// Without a page nothing is drawn: a trace that adds no page leaves the
/// instructions of a state without pages as they were.
pub proof fn lemma_no_page_draws_nothing(s: DocView, elements: Seq<Element>, grid: int)
    requires
        s.page_count == 0,
        added_pages(elements) == 0,
    ensures
        run(s, elements, grid).ops == s.ops,
        run(s, elements, grid).page_count == 0,
    decreases elements.len(),
{
    if elements.len() > 0 {
        lemma_no_page_draws_nothing(s, elements.drop_last(), grid);
    }
}

/// What a trace draws depends on nothing but the page size and the trace:
/// two renderers made alike end alike on the same trace, with the same
/// drawing instructions in the same order on the same pages, the same
/// number of pages, the same font size and fill colour and the same
/// hyperlinks. This holds of every trace, however many pages it adds.
pub proof fn lemma_trace_is_deterministic(
    page_width: int,
    page_height: int,
    a: DocView,
    b: DocView,
    elements: Seq<Element>,
    grid: int,
)
    requires
        a == fresh(page_width, page_height),
        b == fresh(page_width, page_height),
    ensures
        run(a, elements, grid) == run(b, elements, grid),
        run(a, elements, grid).ops == run(b, elements, grid).ops,
        run(a, elements, grid).links == run(b, elements, grid).links,
        run(a, elements, grid).page_count == run(b, elements, grid).page_count,
        run(a, elements, grid).font_size == run(b, elements, grid).font_size,
        run(a, elements, grid).fill_color == run(b, elements, grid).fill_color,
        run(a, elements, grid).page_count == added_pages(elements),
{
    lemma_run_extends(a, elements, grid);
}

/// A trace changes neither the page size nor what was drawn or linked
/// before it: earlier instructions and hyperlinks keep their places.
pub proof fn lemma_run_extends(s: DocView, elements: Seq<Element>, grid: int)
    ensures
        run(s, elements, grid).page_width == s.page_width,
        run(s, elements, grid).page_height == s.page_height,
        run(s, elements, grid).page_count == s.page_count + added_pages(elements),
        s.ops.is_prefix_of(run(s, elements, grid).ops),
        s.links.is_prefix_of(run(s, elements, grid).links),
    decreases elements.len(),
{
    if elements.len() > 0 {
        lemma_run_extends(s, elements.drop_last(), grid);
    }
}

/// The hyperlinks of two link calls are recorded in the order of the
/// calls, each for the page that is active when it is reached.
pub proof fn lemma_links_in_call_order(s: DocView, a: Element, b: Element, grid: int)
    requires
        kind_of(a.element_type@) == CommandKind::Link,
        kind_of(b.element_type@) == CommandKind::Link,
        a.params is Link,
        b.params is Link,
    ensures
        ({
            let t = step(step(s, a, grid), b, grid);
            let n = s.links.len() as int;
            &&& t.links.len() == n + 2
            &&& t.links.subrange(0, n) == s.links
            &&& t.links[n].url == a.params->Link_0.link@
            &&& t.links[n + 1].url == b.params->Link_0.link@
            &&& t.links[n].page == s.page_count
            &&& t.links[n + 1].page == s.page_count
        }),
{
    let t = step(step(s, a, grid), b, grid);
    assert(t.links.subrange(0, s.links.len() as int) =~= s.links);
}

} // verus!
