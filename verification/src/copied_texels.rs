//! What a present copy does to single texels: which ones of the destination it
//! writes, and where each of them comes from.

use vstd::prelude::*;
use crate::present_copy::{CopyGeometry, CopyRect, CopyRegion, GeometryRefusal};

verus! {

/// The number of rectangles that are asked for.
pub open spec fn asked_count(g: CopyGeometry<'_>) -> int {
    if g.sub_rects@.len() == 0 {
        1
    } else {
        g.sub_rects@.len() as int
    }
}

/// The rectangle with index `i` that is asked for. Where no part is named, the whole
/// destination rectangle is.
pub open spec fn asked(g: CopyGeometry<'_>, i: int) -> CopyRect {
    if g.sub_rects@.len() == 0 {
        g.dst_rect
    } else {
        g.sub_rects@[i]
    }
}

/// The texel (`x`, `y`) lies in the rectangle.
pub open spec fn in_rect(r: CopyRect, x: int, y: int) -> bool {
    r.left <= x < r.right && r.top <= y < r.bottom
}

/// The texel (`x`, `y`) lies in an image of this extent.
pub open spec fn in_image(extent: (u32, u32), x: int, y: int) -> bool {
    0 <= x < extent.0 && 0 <= y < extent.1
}

/// The destination texel (`x`, `y`) is to be copied for the rectangle with index `i`:
/// it lies in that rectangle, in the destination rectangle and in the destination
/// image, and the texel that falls on it lies in the source image.
pub open spec fn shown(g: CopyGeometry<'_>, i: int, x: int, y: int) -> bool {
    &&& in_rect(asked(g, i), x, y)
    &&& in_rect(g.dst_rect, x, y)
    &&& in_image(g.dst_extent, x, y)
    &&& in_image(
        g.src_extent,
        x - g.dst_rect.left + g.src_rect.left,
        y - g.dst_rect.top + g.src_rect.top,
    )
}

/// Something is to be copied for the rectangle with index `i`.
pub open spec fn shows_any(g: CopyGeometry<'_>, i: int) -> bool {
    exists|x: int, y: int| #[trigger] shown(g, i, x, y)
}

/// The region writes the destination texel (`x`, `y`).
pub open spec fn writes(c: CopyRegion, x: int, y: int) -> bool {
    c.dst_x <= x < c.dst_x + c.width && c.dst_y <= y < c.dst_y + c.height
}

/// The region writes what is to be copied for the rectangle with index `i`, no more
/// and no less, and takes it from where the source rectangle lies.
pub open spec fn copies(g: CopyGeometry<'_>, c: CopyRegion, i: int) -> bool {
    &&& c.src_x - c.dst_x == g.src_rect.left - g.dst_rect.left
    &&& c.src_y - c.dst_y == g.src_rect.top - g.dst_rect.top
    &&& forall|x: int, y: int| #[trigger] writes(c, x, y) <==> shown(g, i, x, y)
}

/// The regions copy, in order, the first `n` rectangles of which anything is to be
/// copied, and `places` are the indices of those.
pub open spec fn copies_all(
    g: CopyGeometry<'_>,
    regions: Seq<CopyRegion>,
    places: Seq<int>,
    n: int,
) -> bool {
    &&& regions.len() == places.len()
    &&& forall|j: int|
        0 <= j < places.len() ==> 0 <= #[trigger] places[j] < n && copies(
            g,
            regions[j],
            places[j],
        ) && regions[j].width > 0 && regions[j].height > 0
    &&& forall|j: int, k: int|
        0 <= j < k < places.len() ==> #[trigger] places[j] < #[trigger] places[k]
    &&& forall|i: int| 0 <= i < n ==> (#[trigger] shows_any(g, i) <==> places.contains(i))
}

/// The images have texels, and their extents are coordinates.
pub open spec fn has_extents(g: CopyGeometry<'_>) -> bool {
    &&& 0 < g.src_extent.0 <= 0x7FFF_FFFF
    &&& 0 < g.src_extent.1 <= 0x7FFF_FFFF
    &&& 0 < g.dst_extent.0 <= 0x7FFF_FFFF
    &&& 0 < g.dst_extent.1 <= 0x7FFF_FFFF
}

proof fn lemma_region_copies(g: CopyGeometry<'_>, i: int)
    requires
        has_extents(g),
        0 <= i < asked_count(g),
    ensures
        g.is_visible(asked(g, i)) ==> copies(g, g.region(asked(g, i)), i) && g.region(
            asked(g, i),
        ).width > 0 && g.region(asked(g, i)).height > 0,
        g.is_visible(asked(g, i)) <==> shows_any(g, i),
{
    let r = asked(g, i);
    let c = g.region(r);
    if g.is_visible(r) {
        assert(shown(g, i, g.left(r), g.top(r)));
        assert forall|x: int, y: int| #[trigger] writes(c, x, y) <==> shown(g, i, x, y) by {}
    }
}

proof fn lemma_first_regions(g: CopyGeometry<'_>, n: int) -> (places: Seq<int>)
    requires
        has_extents(g),
        0 <= n <= asked_count(g),
    ensures
        copies_all(g, g.first_regions(n), places, n),
    decreases n,
{
    if n == 0 {
        Seq::empty()
    } else {
        let before = lemma_first_regions(g, n - 1);
        lemma_region_copies(g, n - 1);
        assert(g.rects()[n - 1] == asked(g, n - 1));
        if g.is_visible(asked(g, n - 1)) {
            let places = before.push(n - 1);
            assert forall|i: int| 0 <= i < n implies (#[trigger] shows_any(g, i)
                <==> places.contains(i)) by {
                if i == n - 1 {
                    assert(places[before.len() as int] == i);
                } else if shows_any(g, i) {
                    let j = choose|j: int| 0 <= j < before.len() && before[j] == i;
                    assert(places[j] == i);
                } else if places.contains(i) {
                    let j = choose|j: int| 0 <= j < places.len() && places[j] == i;
                    assert(before[j] == i);
                }
            }
            places
        } else {
            before
        }
    }
}

/// The regions of a present copy are the rectangles that it is asked for, one region
/// for each of which anything is to be copied, in their order. Every region is a pure
/// translation, and it writes a texel exactly if that texel is to be copied.
pub proof fn law_regions_are_what_is_shown(g: CopyGeometry<'_>)
    requires
        has_extents(g),
    ensures
        exists|places: Seq<int>| #[trigger]
            copies_all(g, g.all_regions(), places, asked_count(g)),
        g.all_regions().len() <= asked_count(g),
{
    let places = lemma_first_regions(g, asked_count(g));
    assert(copies_all(g, g.all_regions(), places, asked_count(g)));
    lemma_increasing_len(places, asked_count(g));
}

proof fn lemma_increasing_len(places: Seq<int>, n: int)
    requires
        0 <= n,
        forall|j: int| 0 <= j < places.len() ==> 0 <= #[trigger] places[j] < n,
        forall|j: int, k: int|
            0 <= j < k < places.len() ==> #[trigger] places[j] < #[trigger] places[k],
    ensures
        places.len() <= n,
    decreases places.len(),
{
    if places.len() > 0 {
        let front = places.drop_last();
        assert forall|j: int| 0 <= j < front.len() implies 0 <= #[trigger] front[j]
            < places.last() by {
            assert(front[j] == places[j]);
        }
        lemma_increasing_len(front, places.last());
    }
}

/// A destination texel is written exactly if it is to be copied for one of the
/// rectangles that are asked for.
pub proof fn law_a_texel_is_copied_if_it_is_shown(g: CopyGeometry<'_>, x: int, y: int)
    requires
        has_extents(g),
    ensures
        (exists|j: int|
            0 <= j < g.all_regions().len() && #[trigger] writes(g.all_regions()[j], x, y)) <==> (
        exists|i: int| 0 <= i < asked_count(g) && #[trigger] shown(g, i, x, y)),
{
    let places = lemma_first_regions(g, asked_count(g));
    let regions = g.all_regions();
    if exists|j: int| 0 <= j < regions.len() && #[trigger] writes(regions[j], x, y) {
        let j = choose|j: int| 0 <= j < regions.len() && #[trigger] writes(regions[j], x, y);
        assert(0 <= places[j] < asked_count(g));
        assert(shown(g, places[j], x, y));
    }
    if exists|i: int| 0 <= i < asked_count(g) && #[trigger] shown(g, i, x, y) {
        let i = choose|i: int| 0 <= i < asked_count(g) && #[trigger] shown(g, i, x, y);
        assert(shows_any(g, i));
        let j = choose|j: int| 0 <= j < places.len() && places[j] == i;
        assert(writes(regions[j], x, y));
    }
}

/// The rectangle has texels.
pub open spec fn has_area(r: CopyRect) -> bool {
    exists|x: int, y: int| #[trigger] in_rect(r, x, y)
}

proof fn lemma_area(r: CopyRect)
    ensures
        has_area(r) <==> r.left < r.right && r.top < r.bottom,
{
    if r.left < r.right && r.top < r.bottom {
        assert(in_rect(r, r.left as int, r.top as int));
    }
}

/// The two rectangles have the same size.
pub open spec fn same_size(g: CopyGeometry<'_>) -> bool {
    g.src_rect.right - g.src_rect.left == g.dst_rect.right - g.dst_rect.left
        && g.src_rect.bottom - g.src_rect.top == g.dst_rect.bottom - g.dst_rect.top
}

/// The way from the destination to the source fits a coordinate.
pub open spec fn way_fits(g: CopyGeometry<'_>) -> bool {
    -0x8000_0000 <= g.src_rect.left - g.dst_rect.left <= 0x7FFF_FFFF && -0x8000_0000
        <= g.src_rect.top - g.dst_rect.top <= 0x7FFF_FFFF
}

/// A present copy is refused for the first of these that holds, and for nothing else:
/// more than 32 rectangles, an image without texels, an extent that is no coordinate,
/// a rectangle without texels, rectangles of different sizes, a way that is no
/// coordinate, and nothing to copy.
pub proof fn law_a_copy_is_refused_for_its_first_fault(g: CopyGeometry<'_>)
    ensures
        g.sub_rects@.len() > 32 <==> g.refusal() == Some(GeometryRefusal::TooManyRects),
        g.sub_rects@.len() <= 32 && (g.src_extent.0 == 0 || g.src_extent.1 == 0 || g.dst_extent.0
            == 0 || g.dst_extent.1 == 0) ==> g.refusal() == Some(GeometryRefusal::Empty),
        g.sub_rects@.len() <= 32 && g.src_extent.0 > 0 && g.src_extent.1 > 0 && g.dst_extent.0 > 0
            && g.dst_extent.1 > 0 && !has_extents(g) ==> g.refusal() == Some(
            GeometryRefusal::OutOfRange,
        ),
        g.sub_rects@.len() <= 32 && has_extents(g) ==> g.refusal() == (if !has_area(g.src_rect)
            || !has_area(g.dst_rect) {
            Some(GeometryRefusal::Empty)
        } else if !same_size(g) {
            Some(GeometryRefusal::Stretch)
        } else if !way_fits(g) {
            Some(GeometryRefusal::OutOfRange)
        } else if forall|i: int| 0 <= i < asked_count(g) ==> !#[trigger] shows_any(g, i) {
            Some(GeometryRefusal::Empty)
        } else {
            None
        }),
{
    lemma_area(g.src_rect);
    lemma_area(g.dst_rect);
    if has_extents(g) {
        let places = lemma_first_regions(g, asked_count(g));
        if g.all_regions().len() > 0 {
            assert(places[0] == places[0]);
            assert(places.contains(places[0]));
            assert(shows_any(g, places[0]));
        }
    }
}

} // verus!
