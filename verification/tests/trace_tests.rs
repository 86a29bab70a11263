use timecard_pdf::coordinate_data::{
    command_kind, count_added_pages, AddPageParams, CellParams, CommandKind, Element, LineParams,
    LinkParams, LnParams, MultiCellParams, Params, SetAbsXParams, SetAbsYParams,
    SetFillColorParams, SetFontParams, SetFontSizeParams,
};
use timecard_pdf::tcpdf_compat::{Color, DrawOp, LinkInfo, PlacedOp, TcpdfCompat};
use timecard_pdf::text::TextValue;

fn element(tag: &str, params: Params) -> Element {
    Element { seq: 0, element_type: tag.to_string(), page: 1, params }
}

fn add_page() -> Element {
    element(
        "AddPage",
        Params::AddPage(AddPageParams { orientation: "L".to_string(), format: vec![297_000, 210_000] }),
    )
}

fn cell(y: i32, text: TextValue, border: Option<i64>, align: &str, fill: bool) -> Element {
    element(
        "MultiCell",
        Params::MultiCell(MultiCellParams {
            x: 10_000,
            y,
            w: 30_000,
            h: 5_000,
            text,
            border,
            align: align.to_string(),
            fill,
            ln: 1,
        }),
    )
}

fn line() -> Element {
    element("Line", Params::Line(LineParams { x1: 10_000, y1: 20_000, x2: 110_000, y2: 20_500 }))
}

fn link(url: &str) -> Element {
    element(
        "Link",
        Params::Link(LinkParams { x: 10_000, y: 20_000, w: 30_000, h: 5_000, link: url.to_string() }),
    )
}

fn a4() -> TcpdfCompat {
    TcpdfCompat::new(297_000, 210_000, "L")
}

const BLACK: Color = Color { r: 0, g: 0, b: 0 };

#[test]
fn new_renderer_has_no_page() {
    let pdf = a4();
    assert_eq!(pdf.page_width, 297_000);
    assert_eq!(pdf.page_height, 210_000);
    assert_eq!(pdf.font_size, 10_000);
    assert_eq!(pdf.fill_color, BLACK);
    assert_eq!(pdf.page_count, 0);
    assert!(pdf.ops.is_empty());
    assert!(pdf.links.is_empty());
}

#[test]
fn names_of_calls() {
    assert_eq!(command_kind("AddPage"), CommandKind::AddPage);
    assert_eq!(command_kind("MultiCell"), CommandKind::MultiCell);
    assert_eq!(command_kind("Cell"), CommandKind::Cell);
    assert_eq!(command_kind("Line"), CommandKind::Line);
    assert_eq!(command_kind("Link"), CommandKind::Link);
    assert_eq!(command_kind("SetFont"), CommandKind::SetFont);
    assert_eq!(command_kind("setFontSize"), CommandKind::SetFontSize);
    assert_eq!(command_kind("setFillColor"), CommandKind::SetFillColor);
    assert_eq!(command_kind("setAbsX"), CommandKind::SetAbsX);
    assert_eq!(command_kind("setAbsY"), CommandKind::SetAbsY);
    assert_eq!(command_kind("Ln"), CommandKind::Ln);
    assert_eq!(command_kind("addpage"), CommandKind::Unknown);
    assert_eq!(command_kind("SetFontSize"), CommandKind::Unknown);
    assert_eq!(command_kind(""), CommandKind::Unknown);
    assert_eq!(command_kind("Image"), CommandKind::Unknown);
}

#[test]
fn line_without_a_page_draws_nothing() {
    let mut pdf = a4();
    pdf.render_elements(&vec![line()]);
    assert!(pdf.ops.is_empty());
    assert_eq!(pdf.page_count, 0);
}

#[test]
fn primitives_without_a_page_draw_nothing() {
    let mut pdf = a4();
    pdf.draw_rect(0, 0, 10_000, 10_000);
    pdf.fill_rect(0, 0, 10_000, 10_000);
    pdf.line(0, 0, 10_000, 10_000);
    pdf.text(0, 0, 5_000, "x".to_string(), 10_000);
    pdf.render_elements(&vec![cell(10_000, TextValue::Text("x".to_string()), Some(1), "L", true)]);
    assert!(pdf.ops.is_empty());
}

#[test]
fn line_is_drawn_between_its_end_points() {
    let mut pdf = a4();
    pdf.render_elements(&vec![add_page(), line()]);
    assert_eq!(pdf.page_count, 1);
    assert_eq!(
        pdf.ops,
        vec![PlacedOp {
            page: 1,
            op: DrawOp::Line { x1: 10_000, y1: 190_000, x2: 110_000, y2: 189_500 },
        }]
    );
}

#[test]
fn primitives_transform_to_pdf_space() {
    let mut pdf = a4();
    pdf.handle_add_page();
    pdf.draw_rect(10_000, 20_000, 30_000, 5_000);
    pdf.handle_set_fill_color(&SetFillColorParams { col1: 200, col2: 100, col3: 50, col4: 0 });
    pdf.fill_rect(10_000, 20_000, 30_000, 5_000);
    pdf.line(1_000, 2_000, 3_000, 4_000);
    pdf.text(12_000, 20_000, 5_000, "abc".to_string(), 10_000);
    assert_eq!(
        pdf.ops,
        vec![
            PlacedOp {
                page: 1,
                op: DrawOp::StrokeRect { left: 10_000, top: 190_000, right: 40_000, bottom: 185_000, thickness: 200 },
            },
            PlacedOp {
                page: 1,
                op: DrawOp::FillRect {
                    left: 10_000,
                    top: 190_000,
                    right: 40_000,
                    bottom: 185_000,
                    color: Color { r: 200, g: 100, b: 50 },
                },
            },
            PlacedOp { page: 1, op: DrawOp::Line { x1: 1_000, y1: 208_000, x2: 3_000, y2: 206_000 } },
            PlacedOp {
                page: 1,
                op: DrawOp::Text { x: 12_000, y: 186_442, size: 10_000, text: "abc".to_string(), color: BLACK },
            },
        ]
    );
}

#[test]
fn cell_draws_fill_then_text_then_outline() {
    let mut pdf = a4();
    pdf.render_elements(&vec![
        add_page(),
        element(
            "setFillColor",
            Params::SetFillColor(SetFillColorParams { col1: 128, col2: -1, col3: 0, col4: 0 }),
        ),
        cell(20_000, TextValue::Text("abc".to_string()), Some(1), "L", true),
    ]);
    assert_eq!(
        pdf.ops,
        vec![
            PlacedOp {
                page: 1,
                op: DrawOp::FillRect {
                    left: 10_000,
                    top: 190_000,
                    right: 40_000,
                    bottom: 185_000,
                    color: Color { r: 128, g: 128, b: 128 },
                },
            },
            PlacedOp {
                page: 1,
                op: DrawOp::Text { x: 10_500, y: 186_442, size: 10_000, text: "abc".to_string(), color: BLACK },
            },
            PlacedOp {
                page: 1,
                op: DrawOp::StrokeRect { left: 10_000, top: 190_000, right: 40_000, bottom: 185_000, thickness: 200 },
            },
        ]
    );
}

#[test]
fn cell_with_null_text_draws_no_text() {
    let mut pdf = a4();
    pdf.render_elements(&vec![add_page(), cell(20_000, TextValue::Absent, Some(1), "L", true)]);
    assert_eq!(pdf.ops.len(), 2);
    assert!(matches!(pdf.ops[0].op, DrawOp::FillRect { .. }));
    assert!(matches!(pdf.ops[1].op, DrawOp::StrokeRect { .. }));
    let mut bare = a4();
    bare.render_elements(&vec![add_page(), cell(20_000, TextValue::Absent, Some(0), "L", false)]);
    assert!(bare.ops.is_empty());
    let mut blank = a4();
    blank.render_elements(&vec![
        add_page(),
        cell(20_000, TextValue::Text("  ".to_string()), None, "L", false),
    ]);
    assert!(blank.ops.is_empty());
}

#[test]
fn cell_with_a_number_shows_its_decimal_representation() {
    let mut pdf = a4();
    pdf.render_elements(&vec![
        add_page(),
        cell(20_000, TextValue::Number("31".to_string()), None, "R", false),
    ]);
    assert_eq!(
        pdf.ops,
        vec![PlacedOp {
            page: 1,
            op: DrawOp::Text {
                x: 10_000 + 30_000 - 3_528 - 500,
                y: 186_442,
                size: 10_000,
                text: "31".to_string(),
                color: BLACK,
            },
        }]
    );
}

#[test]
fn border_is_drawn_only_for_flag_one() {
    for (flag, drawn) in [(Some(1), true), (Some(0), false), (Some(2), false), (Some(-1), false), (None, false)] {
        let mut pdf = a4();
        pdf.render_elements(&vec![add_page(), cell(20_000, TextValue::Absent, flag, "L", false)]);
        assert_eq!(pdf.ops.len(), if drawn { 1 } else { 0 }, "{:?}", flag);
    }
}

#[test]
fn cells_within_a_millimetre_share_a_row() {
    let mut noisy = a4();
    noisy.render_elements(&vec![
        add_page(),
        cell(15_930, TextValue::Text("a".to_string()), Some(1), "C", true),
    ]);
    let mut exact = a4();
    exact.render_elements(&vec![
        add_page(),
        cell(15_000, TextValue::Text("a".to_string()), Some(1), "C", true),
    ]);
    assert_eq!(noisy.ops, exact.ops);
    assert_eq!(
        noisy.ops[2].op,
        DrawOp::StrokeRect { left: 10_000, top: 195_000, right: 40_000, bottom: 190_000, thickness: 200 }
    );
}

#[test]
fn grid_is_chosen_by_the_caller() {
    let mut coarse = a4();
    coarse.render_elements_on_grid(
        &vec![add_page(), cell(19_000, TextValue::Absent, Some(1), "L", false)],
        5_000,
    );
    assert_eq!(
        coarse.ops[0].op,
        DrawOp::StrokeRect { left: 10_000, top: 195_000, right: 40_000, bottom: 190_000, thickness: 200 }
    );
    let mut fine = a4();
    fine.render_elements(&vec![add_page(), cell(19_000, TextValue::Absent, Some(1), "L", false)]);
    assert_eq!(
        fine.ops[0].op,
        DrawOp::StrokeRect { left: 10_000, top: 191_000, right: 40_000, bottom: 186_000, thickness: 200 }
    );
}

#[test]
fn lines_are_not_snapped() {
    let mut pdf = a4();
    pdf.render_elements_on_grid(&vec![add_page(), line()], 5_000);
    assert_eq!(pdf.ops[0].op, DrawOp::Line { x1: 10_000, y1: 190_000, x2: 110_000, y2: 189_500 });
}

#[test]
fn font_size_changes_only_when_given() {
    let mut pdf = a4();
    pdf.render_elements(&vec![element(
        "SetFont",
        Params::SetFont(SetFontParams { family: "msmincho".to_string(), style: "".to_string(), size: None }),
    )]);
    assert_eq!(pdf.font_size, 10_000);
    pdf.render_elements(&vec![element(
        "SetFont",
        Params::SetFont(SetFontParams {
            family: "msmincho".to_string(),
            style: "B".to_string(),
            size: Some(8_000),
        }),
    )]);
    assert_eq!(pdf.font_size, 8_000);
    pdf.render_elements(&vec![element(
        "setFontSize",
        Params::SetFontSize(SetFontSizeParams { size: 6_500 }),
    )]);
    assert_eq!(pdf.font_size, 6_500);
    pdf.render_elements(&vec![add_page(), cell(0, TextValue::Text("a".to_string()), None, "L", false)]);
    assert!(matches!(pdf.ops[0].op, DrawOp::Text { size: 6_500, .. }));
}

#[test]
fn fill_colour_is_gray_or_rgb() {
    let mut pdf = a4();
    pdf.render_elements(&vec![element(
        "setFillColor",
        Params::SetFillColor(SetFillColorParams { col1: 200, col2: -1, col3: -1, col4: -1 }),
    )]);
    assert_eq!(pdf.fill_color, Color { r: 200, g: 200, b: 200 });
    pdf.render_elements(&vec![element(
        "setFillColor",
        Params::SetFillColor(SetFillColorParams { col1: 255, col2: 128, col3: 0, col4: -1 }),
    )]);
    assert_eq!(pdf.fill_color, Color { r: 255, g: 128, b: 0 });
}

#[test]
fn calls_without_effect() {
    let mut pdf = a4();
    pdf.render_elements(&vec![
        add_page(),
        element(
            "Cell",
            Params::Cell(CellParams {
                x: 0,
                y: 0,
                w: 10_000,
                h: 5_000,
                text: TextValue::Text("dup".to_string()),
                border: Some(1),
                align: "L".to_string(),
                fill: true,
                ln: 0,
                link: "".to_string(),
            }),
        ),
        element("setAbsX", Params::SetAbsX(SetAbsXParams { x: 5_000 })),
        element("setAbsY", Params::SetAbsY(SetAbsYParams { y: 5_000 })),
        element("Ln", Params::Ln(LnParams { h: None, y_before: 10_000 })),
        element("Image", Params::Malformed),
        element("", Params::Line(LineParams { x1: 0, y1: 0, x2: 1, y2: 1 })),
    ]);
    assert_eq!(pdf.page_count, 1);
    assert!(pdf.ops.is_empty());
    assert!(pdf.links.is_empty());
    assert_eq!(pdf.font_size, 10_000);
    assert_eq!(pdf.fill_color, BLACK);
}

#[test]
fn malformed_parameters_are_skipped() {
    let mut pdf = a4();
    pdf.render_elements(&vec![
        add_page(),
        element("MultiCell", Params::Malformed),
        element("Line", Params::Malformed),
        element("Link", Params::Malformed),
        element("SetFont", Params::Malformed),
        element("setFontSize", Params::Malformed),
        element("setFillColor", Params::Malformed),
        element("Line", Params::SetFontSize(SetFontSizeParams { size: 1 })),
        element("setFontSize", Params::Line(LineParams { x1: 0, y1: 0, x2: 1, y2: 1 })),
        line(),
    ]);
    assert_eq!(pdf.ops.len(), 1);
    assert_eq!(pdf.font_size, 10_000);
    assert!(pdf.links.is_empty());
}

#[test]
fn first_page_is_the_one_a_document_starts_with() {
    let mut pdf = a4();
    assert_eq!(pdf.extra_pages(), 0);
    pdf.handle_add_page();
    assert_eq!(pdf.extra_pages(), 0);
    pdf.handle_add_page();
    pdf.handle_add_page();
    assert_eq!(pdf.extra_pages(), 2);
}

#[test]
fn add_page_ignores_its_parameters() {
    let mut pdf = a4();
    pdf.render_elements(&vec![element("AddPage", Params::Malformed), line()]);
    assert_eq!(pdf.page_count, 1);
    assert_eq!(pdf.ops.len(), 1);
}

#[test]
fn instructions_go_to_the_active_page() {
    let mut pdf = a4();
    let elements = vec![add_page(), line(), add_page(), line(), line(), add_page()];
    assert_eq!(count_added_pages(&elements), 3);
    pdf.render_elements(&elements);
    assert_eq!(pdf.page_count, 3);
    let pages: Vec<u32> = pdf.ops.iter().map(|o| o.page).collect();
    assert_eq!(pages, vec![1, 2, 2]);
}

#[test]
fn links_are_recorded_for_the_active_page() {
    let mut pdf = a4();
    pdf.render_elements(&vec![link("/early"), add_page(), link("/a"), link("/b"), add_page(), link("/c")]);
    assert!(pdf.ops.is_empty());
    assert_eq!(
        pdf.links,
        vec![
            LinkInfo { page: 0, x: 10_000, y: 20_000, w: 30_000, h: 5_000, url: "/early".to_string() },
            LinkInfo { page: 1, x: 10_000, y: 20_000, w: 30_000, h: 5_000, url: "/a".to_string() },
            LinkInfo { page: 1, x: 10_000, y: 20_000, w: 30_000, h: 5_000, url: "/b".to_string() },
            LinkInfo { page: 2, x: 10_000, y: 20_000, w: 30_000, h: 5_000, url: "/c".to_string() },
        ]
    );
}

#[test]
fn rendering_a_trace_twice_gives_the_same_instructions() {
    let elements = vec![
        add_page(),
        cell(15_930, TextValue::Text("出勤".to_string()), Some(1), "C", true),
        line(),
        link("/x"),
        add_page(),
        cell(0, TextValue::Number("7".to_string()), Some(1), "R", false),
    ];
    let mut first = a4();
    first.render_elements(&elements);
    let mut second = a4();
    second.render_elements(&elements);
    assert_eq!(first.ops, second.ops);
    assert_eq!(first.links, second.links);
    assert_eq!(first.page_count, second.page_count);
}

#[test]
fn a_trace_can_be_rendered_in_parts() {
    let elements = vec![add_page(), line(), link("/x"), add_page(), line()];
    let mut whole = a4();
    whole.render_elements(&elements);
    let mut parts = a4();
    parts.render_elements(&elements[..2].to_vec());
    parts.render_elements(&elements[2..].to_vec());
    assert_eq!(whole.ops, parts.ops);
    assert_eq!(whole.links, parts.links);
    let mut single = a4();
    for e in &elements {
        single.render_element(e, 1_000);
    }
    assert_eq!(whole.ops, single.ops);
}

#[test]
fn traces_beyond_the_page_counter_are_not_begun() {
    let mut pdf = a4();
    assert!(pdf.try_render_elements(&vec![add_page(), line()]));
    assert_eq!(pdf.page_count, 1);
    assert_eq!(pdf.ops.len(), 1);
    pdf.page_count = u32::MAX - 1;
    assert!(pdf.try_render_elements(&vec![line(), add_page(), line()]));
    assert_eq!(pdf.page_count, u32::MAX);
    assert_eq!(pdf.ops.len(), 3);
    assert!(!pdf.try_render_elements(&vec![line(), add_page(), link("/x")]));
    assert_eq!(pdf.page_count, u32::MAX);
    assert_eq!(pdf.ops.len(), 3);
    assert!(pdf.links.is_empty());
    assert!(pdf.try_render_elements(&vec![line(), link("/x")]));
    assert_eq!(pdf.ops.len(), 4);
    assert_eq!(pdf.links.len(), 1);
}

#[test]
fn renderers_made_alike_end_alike() {
    let elements = vec![
        element("setFontSize", Params::SetFontSize(SetFontSizeParams { size: 8_000 })),
        add_page(),
        element(
            "setFillColor",
            Params::SetFillColor(SetFillColorParams { col1: 200, col2: -1, col3: 0, col4: 0 }),
        ),
        cell(15_930, TextValue::Text("出勤 8:00".to_string()), Some(1), "R", true),
        link("/a"),
        add_page(),
        line(),
        link("/b"),
    ];
    let mut first = TcpdfCompat::new(297_000, 210_000, "L");
    let mut second = TcpdfCompat::new(297_000, 210_000, "L");
    assert!(first.try_render_elements(&elements));
    assert!(second.try_render_elements(&elements.clone()));
    assert_eq!(first.ops, second.ops);
    assert_eq!(first.links, second.links);
    assert_eq!(first.page_count, second.page_count);
    assert_eq!(first.font_size, second.font_size);
    assert_eq!(first.fill_color, second.fill_color);
    assert_eq!(first.page_count, 2);
    assert_eq!(first.font_size, 8_000);
}
