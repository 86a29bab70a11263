//! Hyperlink annotations: from the hyperlinks a renderer has recorded to
//! the annotation rectangles, in PDF user space, to attach to each page.

use vstd::prelude::*;
use crate::tcpdf_compat::{links_view, LinkInfo, LinkView, TcpdfCompat};
use crate::units::{lemma_micropoints_monotonic, micropoints, mm_to_pt};

verus! {

/// A link annotation to attach to a page: the page, counted from 1, the
/// corners of its rectangle in micropoints from the bottom-left corner of
/// that page, and the target of its URI action.
#[derive(Clone, Debug, PartialEq, Eq)]
pub struct LinkAnnotation {
    pub page: u32,
    pub x1: i64,
    pub y1: i64,
    pub x2: i64,
    pub y2: i64,
    pub uri: String,
}

/// What a link annotation says.
pub struct AnnotationView {
    pub page: int,
    pub x1: int,
    pub y1: int,
    pub x2: int,
    pub y2: int,
    pub uri: Seq<char>,
}

/// Why hyperlinks cannot be attached.
#[derive(Clone, Copy, Debug, PartialEq, Eq, Structural)]
pub enum LinkError {
    /// The hyperlink at `index` names `page`, which is not one of the
    /// `page_count` pages of the document.
    PageOutOfRange { index: usize, page: u32, page_count: usize },
}

impl View for LinkAnnotation {
    type V = AnnotationView;

    open spec fn view(&self) -> AnnotationView {
        AnnotationView {
            page: self.page as int,
            x1: self.x1 as int,
            y1: self.y1 as int,
            x2: self.x2 as int,
            y2: self.y2 as int,
            uri: self.uri@,
        }
    }
}

/// What a list of link annotations says.
pub open spec fn plan_view(plan: Seq<LinkAnnotation>) -> Seq<AnnotationView> {
    plan.map_values(|a: LinkAnnotation| a@)
}

/// Whether the page of a hyperlink is one of `page_count` pages.
pub open spec fn page_exists(link: LinkView, page_count: int) -> bool {
    1 <= link.page <= page_count
}

/// The annotation of a hyperlink on a page of height `page_height`: its
/// rectangle converted to points, with the vertical axis flipped.
pub open spec fn annotation_of(link: LinkView, page_height: int) -> AnnotationView {
    AnnotationView {
        page: link.page,
        x1: micropoints(link.x),
        y1: micropoints(page_height) - micropoints(link.y + link.h),
        x2: micropoints(link.x + link.w),
        y2: micropoints(page_height) - micropoints(link.y),
        uri: link.url,
    }
}

/// The annotations of `links`, in their order, each on its own page's
/// height.
pub open spec fn planned(links: Seq<LinkView>, page_heights: Seq<i32>) -> Seq<AnnotationView> {
    Seq::new(
        links.len(),
        |i: int| annotation_of(links[i], page_heights[links[i].page - 1] as int),
    )
}

/// The positions in `plan` of the annotations of `page`, in ascending
/// order.
pub open spec fn indices_on_page(plan: Seq<AnnotationView>, page: int) -> Seq<int>
    decreases plan.len(),
{
    if plan.len() == 0 {
        Seq::empty()
    } else if plan.last().page == page {
        indices_on_page(plan.drop_last(), page).push(plan.len() - 1)
    } else {
        indices_on_page(plan.drop_last(), page)
    }
}

/// A page's annotation array after one more entry: appended to the array
/// if the page has one, alone in a new array otherwise.
pub open spec fn extended<T>(existing: Option<Seq<T>>, added: T) -> Seq<T> {
    match existing {
        Some(entries) => entries.push(added),
        None => seq![added],
    }
}

/// What an optional array holds.
pub open spec fn entries_of<T>(existing: Option<Vec<T>>) -> Option<Seq<T>> {
    match existing {
        Some(entries) => Some(entries@),
        None => None,
    }
}

/// The annotation of one hyperlink on a page of height `page_height`.
pub fn annotate(link: &LinkInfo, page_height: i32) -> (r: LinkAnnotation)
    ensures
        r@ == annotation_of(link@, page_height as int),
{
    let height: i64 = mm_to_pt(page_height as i64);
    LinkAnnotation {
        page: link.page,
        x1: mm_to_pt(link.x as i64),
        y1: height - mm_to_pt(link.y as i64 + link.h as i64),
        x2: mm_to_pt(link.x as i64 + link.w as i64),
        y2: height - mm_to_pt(link.y as i64),
        uri: link.url.clone(),
    }
}

/// Plans the annotations of `links` for a document whose pages have the
/// heights `page_heights`. Fails at the first hyperlink whose page the
/// document does not have.
pub fn plan_link_annotations(links: &Vec<LinkInfo>, page_heights: &Vec<i32>) -> (r: Result<
    Vec<LinkAnnotation>,
    LinkError,
>)
    ensures
        match r {
            Ok(plan) => {
                &&& forall|i: int|
                    0 <= i < links.len() ==> page_exists(
                        #[trigger] links_view(links@)[i],
                        page_heights.len() as int,
                    )
                &&& plan_view(plan@) == planned(links_view(links@), page_heights@)
            },
            Err(LinkError::PageOutOfRange { index, page, page_count }) => {
                &&& index < links.len()
                &&& !page_exists(links_view(links@)[index as int], page_heights.len() as int)
                &&& forall|i: int|
                    0 <= i < index ==> page_exists(
                        #[trigger] links_view(links@)[i],
                        page_heights.len() as int,
                    )
                &&& page == links[index as int].page
                &&& page_count == page_heights.len()
            },
        },
{
    let mut plan: Vec<LinkAnnotation> = Vec::new();
    let mut i: usize = 0;
    while i < links.len()
        invariant
            i <= links.len(),
            plan.len() == i,
            forall|j: int|
                0 <= j < i ==> page_exists(
                    #[trigger] links_view(links@)[j],
                    page_heights.len() as int,
                ),
            forall|j: int|
                0 <= j < i ==> (#[trigger] plan[j])@ == annotation_of(
                    links[j]@,
                    page_heights[links[j].page - 1] as int,
                ),
        decreases links.len() - i,
    {
        let link: &LinkInfo = &links[i];
        if link.page == 0 || link.page as usize > page_heights.len() {
            return Err(
                LinkError::PageOutOfRange {
                    index: i,
                    page: link.page,
                    page_count: page_heights.len(),
                },
            );
        }
        let annotation = annotate(link, page_heights[(link.page - 1) as usize]);
        plan.push(annotation);
        i = i + 1;
    }
    assert(plan_view(plan@) =~= planned(links_view(links@), page_heights@));
    Ok(plan)
}

/// For each page, the positions in `plan` of the annotations to append to
/// that page's array, in the order in which to append them.
pub fn group_by_page(plan: &Vec<LinkAnnotation>, page_count: usize) -> (r: Vec<Vec<usize>>)
    ensures
        r.len() == page_count,
        forall|p: int|
            0 <= p < page_count ==> (#[trigger] r[p])@.map_values(|i: usize| i as int)
                == indices_on_page(plan_view(plan@), p + 1),
{
    let mut groups: Vec<Vec<usize>> = Vec::new();
    let mut p: usize = 0;
    while p < page_count
        invariant
            p <= page_count,
            groups.len() == p,
            forall|q: int| 0 <= q < p ==> (#[trigger] groups[q])@.len() == 0,
        decreases page_count - p,
    {
        groups.push(Vec::new());
        p = p + 1;
    }
    let mut i: usize = 0;
    proof {
        assert(plan_view(plan@).take(0) =~= Seq::empty());
        assert forall|q: int| 0 <= q < page_count implies (#[trigger] groups[q])@.map_values(
            |i: usize| i as int,
        ) == indices_on_page(plan_view(plan@).take(0), q + 1) by {
            assert(groups[q]@.map_values(|i: usize| i as int) =~= Seq::<int>::empty());
        }
    }
    while i < plan.len()
        invariant
            i <= plan.len(),
            groups.len() == page_count,
            forall|q: int|
                0 <= q < page_count ==> (#[trigger] groups[q])@.map_values(|i: usize| i as int)
                    == indices_on_page(plan_view(plan@).take(i as int), q + 1),
        decreases plan.len() - i,
    {
        let page: u32 = plan[i].page;
        let ghost before = groups@;
        proof {
            assert(plan_view(plan@).take(i + 1).drop_last() =~= plan_view(plan@).take(i as int));
            assert(plan_view(plan@).take(i + 1).last().page == page);
        }
        if page >= 1 && page as usize <= page_count {
            let slot: usize = (page - 1) as usize;
            let mut group: Vec<usize> = Vec::new();
            std::mem::swap(&mut group, &mut groups[slot]);
            group.push(i);
            groups.set(slot, group);
            proof {
                assert(groups[slot as int]@.map_values(|i: usize| i as int) =~= before[slot as int]@.map_values(
                    |i: usize| i as int,
                ).push(i as int));
                assert forall|q: int| 0 <= q < page_count && q != slot implies groups[q]
                    == before[q] by {}
            }
        }
        i = i + 1;
    }
    proof {
        assert(plan_view(plan@).take(plan@.len() as int) =~= plan_view(plan@));
    }
    groups
}

/// Adds one entry to a page's annotation array, creating the array if the
/// page has none.
pub fn extend_annots<T>(existing: Option<Vec<T>>, added: T) -> (r: Vec<T>)
    ensures
        r@ == extended(entries_of(existing), added),
{
    match existing {
        Some(mut entries) => {
            entries.push(added);
            entries
        },
        None => {
            let mut entries: Vec<T> = Vec::new();
            entries.push(added);
            entries
        },
    }
}

impl TcpdfCompat {
    /// Whether any hyperlink waits to be attached. Without one the
    /// document is final as drawn.
    pub fn has_links(&self) -> (r: bool)
        ensures
            r == (self@.links.len() > 0),
    {
        self.links.len() > 0
    }

    /// The height of each page, first page first.
    pub fn page_heights(&self) -> (r: Vec<i32>)
        ensures
            r.len() == self.page_count,
            forall|i: int| 0 <= i < r.len() ==> r[i] == self.page_height,
    {
        let mut heights: Vec<i32> = Vec::new();
        let mut i: u32 = 0;
        while i < self.page_count
            invariant
                i <= self.page_count,
                heights.len() == i,
                forall|j: int| 0 <= j < heights.len() ==> heights[j] == self.page_height,
            decreases self.page_count - i,
        {
            heights.push(self.page_height);
            i = i + 1;
        }
        heights
    }

    /// Plans the annotations of the recorded hyperlinks on the pages of
    /// this renderer.
    pub fn link_annotations(&self) -> (r: Result<Vec<LinkAnnotation>, LinkError>)
        ensures
            match r {
                Ok(plan) => {
                    &&& forall|i: int|
                        0 <= i < self@.links.len() ==> page_exists(
                            #[trigger] self@.links[i],
                            self@.page_count,
                        )
                    &&& plan_view(plan@).len() == self@.links.len()
                    &&& forall|i: int|
                        0 <= i < self@.links.len() ==> (#[trigger] plan_view(plan@)[i])
                            == annotation_of(self@.links[i], self@.page_height)
                },
                Err(LinkError::PageOutOfRange { index, page, page_count }) => {
                    &&& index < self@.links.len()
                    &&& !page_exists(self@.links[index as int], self@.page_count)
                    &&& forall|i: int|
                        0 <= i < index ==> page_exists(#[trigger] self@.links[i], self@.page_count)
                    &&& page == self@.links[index as int].page
                    &&& page_count == self@.page_count
                },
            },
    {
        let heights: Vec<i32> = self.page_heights();
        plan_link_annotations(&self.links, &heights)
    }
}

/// Entries are appended in the order in which they are added: of two
/// entries added one after the other, the first comes before the second,
/// behind everything the array held.
pub proof fn lemma_annots_keep_order<T>(existing: Option<Seq<T>>, first: T, second: T)
    ensures
        ({
            let n = match existing {
                Some(entries) => entries.len() as int,
                None => 0,
            };
            let both = extended(Some(extended(existing, first)), second);
            &&& both.len() == n + 2
            &&& both[n] == first
            &&& both[n + 1] == second
            &&& existing matches Some(entries) ==> both.subrange(0, n) == entries
        }),
{
    let both = extended(Some(extended(existing, first)), second);
    match existing {
        Some(entries) => {
            assert(both.subrange(0, entries.len() as int) =~= entries);
        },
        None => {},
    }
}

/// The positions listed for a page are exactly those of the annotations
/// of that page, in strictly ascending order: annotations reach a page's
/// array in the order of the hyperlinks they come from.
pub proof fn lemma_indices_on_page(plan: Seq<AnnotationView>, page: int)
    ensures
        forall|k: int|
            0 <= k < indices_on_page(plan, page).len() ==> 0 <= (#[trigger] indices_on_page(
                plan,
                page,
            )[k]) < plan.len() && plan[indices_on_page(plan, page)[k]].page == page,
        forall|k: int, l: int|
            0 <= k < l < indices_on_page(plan, page).len() ==> (#[trigger] indices_on_page(
                plan,
                page,
            )[k]) < (#[trigger] indices_on_page(plan, page)[l]),
        forall|i: int|
            0 <= i < plan.len() && (#[trigger] plan[i]).page == page ==> indices_on_page(
                plan,
                page,
            ).contains(i),
    decreases plan.len(),
{
    if plan.len() > 0 {
        let rest = plan.drop_last();
        lemma_indices_on_page(rest, page);
        let inner = indices_on_page(rest, page);
        let all = indices_on_page(plan, page);
        assert forall|i: int| 0 <= i < plan.len() && (#[trigger] plan[i]).page == page implies all.contains(
            i,
        ) by {
            if i < plan.len() - 1 {
                assert(rest[i].page == page);
                assert(inner.contains(i));
                let k = choose|k: int| 0 <= k < inner.len() && inner[k] == i;
                assert(all[k] == i);
            } else {
                assert(all[all.len() - 1] == i);
            }
        }
    }
}

/// The rectangle of an annotation stands upright: for a hyperlink that is
/// neither narrower nor lower than nothing, the first corner is the lower
/// left one and the second the upper right one.
pub proof fn lemma_annotation_upright(link: LinkView, page_height: int)
    requires
        link.w >= 0,
        link.h >= 0,
    ensures
        annotation_of(link, page_height).x1 <= annotation_of(link, page_height).x2,
        annotation_of(link, page_height).y1 <= annotation_of(link, page_height).y2,
{
    lemma_micropoints_monotonic(link.x, link.x + link.w);
    lemma_micropoints_monotonic(link.y, link.y + link.h);
}

/// The plan of a list of hyperlinks keeps their order and their targets.
pub proof fn lemma_plan_keeps_order(links: Seq<LinkView>, page_heights: Seq<i32>, i: int)
    requires
        0 <= i < links.len(),
    ensures
        planned(links, page_heights).len() == links.len(),
        planned(links, page_heights)[i].page == links[i].page,
        planned(links, page_heights)[i].uri == links[i].url,
{
}

} // verus!
