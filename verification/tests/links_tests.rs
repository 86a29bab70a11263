use timecard_pdf::links::{
    annotate, extend_annots, group_by_page, plan_link_annotations, LinkAnnotation, LinkError,
};
use timecard_pdf::tcpdf_compat::{LinkInfo, TcpdfCompat};

fn link(page: u32, url: &str) -> LinkInfo {
    LinkInfo { page, x: 10_000, y: 20_000, w: 30_000, h: 5_000, url: url.to_string() }
}

#[test]
fn annotation_rectangle_in_points() {
    let a = annotate(&link(1, "/detail"), 210_000);
    assert_eq!(
        a,
        LinkAnnotation {
            page: 1,
            x1: 28_346_456,
            y1: 595_275_590 - 70_866_141,
            x2: 113_385_826,
            y2: 595_275_590 - 56_692_913,
            uri: "/detail".to_string(),
        }
    );
}

#[test]
fn annotation_rectangle_agrees_with_the_factor() {
    let a = annotate(&link(1, "/detail"), 210_000);
    let pt = |mm: f64| mm * 2.834645669;
    let height = pt(210.0);
    let expected = [pt(10.0), height - pt(25.0), pt(40.0), height - pt(20.0)];
    let got = [a.x1, a.y1, a.x2, a.y2];
    for (g, e) in got.iter().zip(expected.iter()) {
        assert!((*g as f64 / 1_000_000.0 - e).abs() < 0.000_01, "{g} vs {e}");
    }
    assert!(a.y1 < a.y2);
    assert!(a.x1 < a.x2);
}

#[test]
fn annotation_uses_the_height_of_its_own_page() {
    let links = vec![link(1, "/a"), link(2, "/b")];
    let plan = plan_link_annotations(&links, &vec![210_000, 297_000]).unwrap();
    assert_eq!(plan[0], annotate(&links[0], 210_000));
    assert_eq!(plan[1], annotate(&links[1], 297_000));
    assert_eq!(plan[1].y2, 841_889_763 - 56_692_913);
}

#[test]
fn plan_keeps_the_order_of_the_links() {
    let links = vec![link(1, "/a"), link(1, "/b"), link(2, "/c"), link(1, "/d")];
    let plan = plan_link_annotations(&links, &vec![210_000, 210_000]).unwrap();
    let uris: Vec<&str> = plan.iter().map(|a| a.uri.as_str()).collect();
    assert_eq!(uris, vec!["/a", "/b", "/c", "/d"]);
    let groups = group_by_page(&plan, 2);
    assert_eq!(groups, vec![vec![0, 1, 3], vec![2]]);
}

#[test]
fn link_beyond_the_last_page_is_an_error() {
    let links = vec![link(1, "/a"), link(5, "/b"), link(9, "/c")];
    assert_eq!(
        plan_link_annotations(&links, &vec![210_000, 210_000, 210_000]),
        Err(LinkError::PageOutOfRange { index: 1, page: 5, page_count: 3 })
    );
    assert_eq!(
        plan_link_annotations(&links, &vec![210_000, 210_000, 210_000]),
        Err(LinkError::PageOutOfRange { index: 1, page: 5, page_count: 3 })
    );
}

#[test]
fn link_before_the_first_page_is_an_error() {
    assert_eq!(
        plan_link_annotations(&vec![link(0, "/a")], &vec![210_000]),
        Err(LinkError::PageOutOfRange { index: 0, page: 0, page_count: 1 })
    );
    assert_eq!(
        plan_link_annotations(&vec![link(1, "/a")], &Vec::new()),
        Err(LinkError::PageOutOfRange { index: 0, page: 1, page_count: 0 })
    );
}

#[test]
fn no_links_need_no_pages() {
    assert_eq!(plan_link_annotations(&Vec::new(), &Vec::new()), Ok(Vec::new()));
    let pdf = TcpdfCompat::new(297_000, 210_000, "L");
    assert!(!pdf.has_links());
    assert_eq!(pdf.link_annotations(), Ok(Vec::new()));
    assert!(pdf.page_heights().is_empty());
}

#[test]
fn renderer_plans_on_its_own_pages() {
    let mut pdf = TcpdfCompat::new(297_000, 210_000, "L");
    pdf.handle_add_page();
    pdf.add_link(10_000, 20_000, 30_000, 5_000, "/a".to_string());
    pdf.handle_add_page();
    pdf.add_link(10_000, 20_000, 30_000, 5_000, "/b".to_string());
    assert!(pdf.has_links());
    assert_eq!(pdf.page_heights(), vec![210_000, 210_000]);
    let plan = pdf.link_annotations().unwrap();
    assert_eq!(plan.len(), 2);
    assert_eq!(plan[0], annotate(&link(1, "/a"), 210_000));
    assert_eq!(plan[1], annotate(&link(2, "/b"), 210_000));
    pdf.links[1].page = 5;
    assert_eq!(
        pdf.link_annotations(),
        Err(LinkError::PageOutOfRange { index: 1, page: 5, page_count: 2 })
    );
}

#[test]
fn planning_twice_gives_the_same_plan() {
    let links = vec![link(2, "/a"), link(1, "/b")];
    let heights = vec![210_000, 148_000];
    assert_eq!(plan_link_annotations(&links, &heights), plan_link_annotations(&links, &heights));
}

#[test]
fn annotation_arrays_grow_at_the_end() {
    assert_eq!(extend_annots(None, 7u32), vec![7]);
    assert_eq!(extend_annots(Some(Vec::new()), 7u32), vec![7]);
    assert_eq!(extend_annots(Some(vec![1, 2]), 7u32), vec![1, 2, 7]);
    let a = "A".to_string();
    let b = "B".to_string();
    let both = extend_annots(Some(extend_annots(None, a)), b);
    assert_eq!(both, vec!["A".to_string(), "B".to_string()]);
}

#[test]
fn groups_skip_pages_that_do_not_exist() {
    let plan = vec![annotate(&link(3, "/a"), 210_000), annotate(&link(1, "/b"), 210_000)];
    assert_eq!(group_by_page(&plan, 2), vec![vec![1], Vec::<usize>::new()]);
    assert_eq!(group_by_page(&plan, 0), Vec::<Vec<usize>>::new());
}
