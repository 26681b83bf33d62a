use vstd::prelude::*;

use crate::geometry::Rect;
use crate::size::{fits_i64, Axis, CalculatedSize};

verus! {

/// The sum of the fixed parts.
pub open spec fn total_fixed(sizes: Seq<CalculatedSize>) -> int
    decreases sizes.len(),
{
    if sizes.len() == 0 {
        0
    } else {
        total_fixed(sizes.drop_last()) + sizes.last().spec_fixed_part()
    }
}

/// How many entries stretch.
pub open spec fn stretch_count(sizes: Seq<CalculatedSize>) -> int
    decreases sizes.len(),
{
    if sizes.len() == 0 {
        0
    } else {
        stretch_count(sizes.drop_last()) + if sizes.last().spec_is_stretch() {
            1int
        } else {
            0int
        }
    }
}

/// The extent of the area along the axis, and where it starts.
pub open spec fn extent_along(area: Rect, axis: Axis) -> int {
    match axis {
        Axis::Horizontal => area.w as int,
        Axis::Vertical => area.h as int,
    }
}

pub open spec fn start_along(area: Rect, axis: Axis) -> int {
    match axis {
        Axis::Horizontal => area.x as int,
        Axis::Vertical => area.y as int,
    }
}

/// The share of the leftover space that each stretching entry receives,
/// rounded toward zero; zero when nothing stretches.
pub open spec fn stretch_unit(extent: int, sizes: Seq<CalculatedSize>) -> int {
    let count = stretch_count(sizes);
    let left = extent - total_fixed(sizes);
    if count == 0 {
        0
    } else if left >= 0 {
        left / count
    } else {
        -((-left) / count)
    }
}

/// The extent an entry occupies along the axis.
pub open spec fn child_extent(s: CalculatedSize, unit: int) -> int {
    if s.spec_is_stretch() {
        s.spec_fixed_part() + unit
    } else {
        s.spec_fixed_part()
    }
}

/// Where the entry at position `i` starts: each entry follows the previous one.
pub open spec fn offset_at(start: int, sizes: Seq<CalculatedSize>, unit: int, i: int) -> int
    decreases i,
{
    if i <= 0 {
        start
    } else {
        offset_at(start, sizes, unit, i - 1) + child_extent(sizes[i - 1], unit)
    }
}

/// The rectangle of an entry: its offset and extent along the axis, the
/// whole area across it.
pub open spec fn child_rect(area: Rect, axis: Axis, offset: int, extent: int) -> Rect {
    match axis {
        Axis::Horizontal => Rect { x: offset as i64, y: area.y, w: extent as i64, h: area.h },
        Axis::Vertical => Rect { x: area.x, y: offset as i64, w: area.w, h: extent as i64 },
    }
}

/// The rectangle of the entry at position `i`.
pub open spec fn arranged_rect(area: Rect, axis: Axis, sizes: Seq<CalculatedSize>, i: int) -> Rect {
    let unit = stretch_unit(extent_along(area, axis), sizes);
    child_rect(
        area,
        axis,
        offset_at(start_along(area, axis), sizes, unit, i),
        child_extent(sizes[i], unit),
    )
}

/// Every number the arrangement computes fits in an `i64`: the running
/// total of fixed parts, the stretch unit, and each offset and extent.
pub open spec fn arrangement_fits(area: Rect, axis: Axis, sizes: Seq<CalculatedSize>) -> bool {
    let unit = stretch_unit(extent_along(area, axis), sizes);
    &&& forall|k: int| 0 <= k <= sizes.len() ==> fits_i64(#[trigger] total_fixed(sizes.subrange(0, k)))
    &&& fits_i64(unit)
    &&& forall|i: int|
        0 <= i < sizes.len() ==> fits_i64(
            #[trigger] offset_at(start_along(area, axis), sizes, unit, i),
        ) && fits_i64(child_extent(sizes[i], unit))
}

proof fn lemma_prefix_step(sizes: Seq<CalculatedSize>, i: int)
    requires
        0 <= i < sizes.len(),
    ensures
        total_fixed(sizes.subrange(0, i + 1)) == total_fixed(sizes.subrange(0, i))
            + sizes[i].spec_fixed_part(),
        stretch_count(sizes.subrange(0, i + 1)) == stretch_count(sizes.subrange(0, i)) + if sizes[i].spec_is_stretch() {
            1int
        } else {
            0int
        },
{
    let s = sizes.subrange(0, i + 1);
    assert(s.drop_last() =~= sizes.subrange(0, i));
}

proof fn lemma_count_bound(sizes: Seq<CalculatedSize>)
    ensures
        0 <= stretch_count(sizes) <= sizes.len(),
    decreases sizes.len(),
{
    if sizes.len() > 0 {
        lemma_count_bound(sizes.drop_last());
    }
}

/// Places the entries one after another along the axis of `area`. Fixed
/// entries get their fixed extent; stretching ones get their fixed part
/// plus an equal share of what is left. `None` when a number leaves `i64`.
pub fn layout_areas(area: Rect, axis: Axis, sizes: &Vec<CalculatedSize>) -> (r: Option<Vec<Rect>>)
    ensures
        r is Some <==> arrangement_fits(area, axis, sizes@),
        r is Some ==> r->0@.len() == sizes@.len() && forall|i: int|
            0 <= i < sizes@.len() ==> #[trigger] r->0@[i] == arranged_rect(area, axis, sizes@, i),
{
    let ghost s = sizes@;
    let mut total: i64 = 0;
    let mut count: usize = 0;
    let mut i: usize = 0;
    assert(s.subrange(0, 0) =~= Seq::<CalculatedSize>::empty());
    while i < sizes.len()
        invariant
            s == sizes@,
            i <= s.len(),
            total == total_fixed(s.subrange(0, i as int)),
            count == stretch_count(s.subrange(0, i as int)),
            count <= i,
            forall|k: int| 0 <= k <= i ==> fits_i64(#[trigger] total_fixed(s.subrange(0, k))),
        decreases s.len() - i,
    {
        proof {
            lemma_prefix_step(s, i as int);
        }
        let part = sizes[i].get_fixed_part();
        match total.checked_add(part) {
            None => {
                proof {
                    assert(!fits_i64(total_fixed(s.subrange(0, i as int + 1))));
                }
                return None;
            },
            Some(t) => {
                total = t;
            },
        }
        if sizes[i].is_stretch() {
            count = count + 1;
        }
        i = i + 1;
    }
    assert(s.subrange(0, s.len() as int) =~= s);
    let extent: i64 = match axis {
        Axis::Horizontal => area.w,
        Axis::Vertical => area.h,
    };
    let left: i128 = extent as i128 - total as i128;
    let unit: i128 = if count == 0 {
        0
    } else if left >= 0 {
        left / (count as i128)
    } else {
        0 - ((0 - left) / (count as i128))
    };
    let ghost gunit = stretch_unit(extent_along(area, axis), s);
    assert(unit == gunit);
    if unit < i64::MIN as i128 || unit > i64::MAX as i128 {
        return None;
    }
    let mut offset: i128 = match axis {
        Axis::Horizontal => area.x as i128,
        Axis::Vertical => area.y as i128,
    };
    let mut rects: Vec<Rect> = Vec::new();
    let mut j: usize = 0;
    while j < sizes.len()
        invariant
            s == sizes@,
            j <= s.len(),
            unit == gunit,
            gunit == stretch_unit(extent_along(area, axis), s),
            fits_i64(gunit),
            offset == offset_at(start_along(area, axis), s, gunit, j as int),
            rects@.len() == j,
            forall|k: int| 0 <= k <= s.len() ==> fits_i64(#[trigger] total_fixed(s.subrange(0, k))),
            forall|k: int|
                0 <= k < j ==> fits_i64(
                    #[trigger] offset_at(start_along(area, axis), s, gunit, k),
                ) && fits_i64(child_extent(s[k], gunit)),
            forall|k: int| 0 <= k < j ==> #[trigger] rects@[k] == arranged_rect(area, axis, s, k),
        decreases s.len() - j,
    {
        let sz = sizes[j];
        let ext: i128 = if sz.is_stretch() {
            sz.get_fixed_part() as i128 + unit
        } else {
            sz.get_fixed_part() as i128
        };
        if offset < i64::MIN as i128 || offset > i64::MAX as i128 || ext < i64::MIN as i128 || ext
            > i64::MAX as i128 {
            proof {
                assert(ext == child_extent(s[j as int], gunit));
                let o = offset_at(start_along(area, axis), s, gunit, j as int);
                assert(!(fits_i64(o) && fits_i64(child_extent(s[j as int], gunit))));
                assert(!arrangement_fits(area, axis, s));
            }
            return None;
        }
        let rect = match axis {
            Axis::Horizontal => Rect { x: offset as i64, y: area.y, w: ext as i64, h: area.h },
            Axis::Vertical => Rect { x: area.x, y: offset as i64, w: area.w, h: ext as i64 },
        };
        assert(ext == child_extent(s[j as int], gunit));
        proof {
            let o = offset_at(start_along(area, axis), s, gunit, j as int);
            assert(o == offset);
            assert(child_rect(area, axis, o, ext as int) == rect);
            assert(rect == arranged_rect(area, axis, s, j as int));
        }
        let ghost old_rects = rects@;
        rects.push(rect);
        assert(forall|k: int| 0 <= k < j ==> rects@[k] == old_rects[k]);
        offset = offset + ext;
        let ghost oj = j as int;
        let ghost oext = ext as int;
        let ghost ooff = offset - ext;
        assert(fits_i64(ooff) && fits_i64(oext));
        assert(oext == child_extent(s[oj], gunit));
        assert(ooff == offset_at(start_along(area, axis), s, gunit, oj));
        j = j + 1;
        proof {
            assert forall|k: int| 0 <= k < j implies fits_i64(
                #[trigger] offset_at(start_along(area, axis), s, gunit, k),
            ) && fits_i64(child_extent(s[k], gunit)) by {
                if k == oj {
                    assert(offset_at(start_along(area, axis), s, gunit, k) == ooff);
                    assert(child_extent(s[k], gunit) == oext);
                    assert(fits_i64(offset_at(start_along(area, axis), s, gunit, k)));
                    assert(fits_i64(child_extent(s[k], gunit)));
                } else {
                    assert(k < oj);
                    assert(fits_i64(offset_at(start_along(area, axis), s, gunit, k)));
                    assert(fits_i64(child_extent(s[k], gunit)));
                }
            }
        }
    }
    Some(rects)
}

} // verus!
