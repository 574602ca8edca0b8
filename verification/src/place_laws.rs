//! Where panes lie: side by side or one above the other, in order, each with the share
//! that its weight gives it, and with room that goes over where panes come and go.

use vstd::prelude::*;

#[allow(unused_imports)]
use crate::geometry::{
    dealt, extent, fits_along, halves, lane, usable_weights, weight_sum, weighted_part, Rect,
};
#[allow(unused_imports)]
use crate::layout::{even_layout, PaneLayout};
#[allow(unused_imports)]
use crate::protocol::{ResizeDirection, SplitAxis};
#[allow(unused_imports)]
use crate::resize_laws::{parts, place_of, stretched};

verus! {

/// Whether two rectangles lie in a third next to each other along an axis, the first of
/// them first, and fill it.
pub open spec fn side_by_side(area: Rect, axis: SplitAxis, first: Rect, second: Rect) -> bool {
    match axis {
        SplitAxis::Horizontal => {
            &&& first.x == area.x
            &&& second.x == first.x + first.width
            &&& second.x + second.width == area.x + area.width
            &&& first.y == area.y && first.height == area.height
            &&& second.y == area.y && second.height == area.height
        },
        SplitAxis::Vertical => {
            &&& first.y == area.y
            &&& second.y == first.y + first.height
            &&& second.y + second.height == area.y + area.height
            &&& first.x == area.x && first.width == area.width
            &&& second.x == area.x && second.width == area.width
        },
    }
}

/// Whether a part of a length is the share of a weight in a total: the whole cells of
/// it, and one where that is none.
pub open spec fn is_share(part: int, length: int, weight: int, total: int) -> bool {
    if length == 0 {
        part == 0
    } else {
        ||| part >= 1 && part * total <= length * weight < (part + 1) * total
        ||| part == 1 && length * weight < total
    }
}

proof fn lemma_is_share(length: int, weight: int, total: int)
    requires
        0 <= length,
        0 <= weight <= total,
        0 < total,
    ensures
        is_share(
            crate::geometry::at_most(
                crate::geometry::at_least((length * weight) / total, 1),
                length,
            ),
            length,
            weight,
            total,
        ),
{
    crate::resize_laws::lemma_part_fits(length, weight, total);
    let n = length * weight;
    let q = n / total;
    vstd::arithmetic::div_mod::lemma_fundamental_div_mod(n, total);
    vstd::arithmetic::div_mod::lemma_mod_bound(n, total);
    assert(q * total <= n < (q + 1) * total) by (nonlinear_arith)
        requires
            n == total * q + n % total,
            0 <= n % total < total,
    ;
}

/// The two parts of a split lie next to each other along its axis, the first part on
/// the left or on top, and the first has the share that its weight gives it.
pub proof fn law_halves_lie_in_order(area: Rect, axis: SplitAxis, first: u16, second: u16)
    requires
        area.fits(),
        first + second > 0,
    ensures
        side_by_side(
            area,
            axis,
            halves(area, axis, first, second).0,
            halves(area, axis, first, second).1,
        ),
        is_share(
            match axis {
                SplitAxis::Horizontal => halves(area, axis, first, second).0.width as int,
                SplitAxis::Vertical => halves(area, axis, first, second).0.height as int,
            },
            match axis {
                SplitAxis::Horizontal => area.width as int,
                SplitAxis::Vertical => area.height as int,
            },
            first as int,
            first + second,
        ),
{
    lemma_is_share(area.width as int, first as int, first + second);
    lemma_is_share(area.height as int, first as int, first + second);
}

proof fn lemma_sum_before(parts: Seq<u16>, i: int)
    requires
        0 <= i < parts.len(),
    ensures
        weight_sum(parts.take(i + 1)) == weight_sum(parts.take(i)) + parts[i],
        weight_sum(parts.take(0)) == 0,
        weight_sum(parts.take(parts.len() as int)) == weight_sum(parts),
        weight_sum(parts.take(i + 1)) <= weight_sum(parts),
    decreases parts.len(),
{
    assert(parts.take(parts.len() as int) =~= parts);
    let rest = parts.skip(1);
    assert(parts.take(i + 1).skip(1) =~= rest.take(i));
    if i > 0 {
        lemma_sum_before(rest, i - 1);
        assert(parts.take(i).skip(1) =~= rest.take(i - 1));
        assert(rest.take(rest.len() as int) =~= rest);
    } else {
        assert(rest.take(0) =~= Seq::<u16>::empty());
        assert(parts.take(0) =~= Seq::<u16>::empty());
    }
}

/// Panes that are dealt out along an axis fill the area from end to end, each right
/// behind the one before it.
pub proof fn law_lanes_lie_in_order(area: Rect, axis: SplitAxis, weights: Seq<u16>, i: int)
    requires
        fits_along(area, axis),
        0 <= i < weights.len(),
    ensures
        ({
            let parts = dealt(extent(area, axis), weights);
            let own = lane(area, axis, parts, i);
            let first = lane(area, axis, parts, 0);
            let last = lane(area, axis, parts, weights.len() - 1);
            match axis {
                SplitAxis::Horizontal => {
                    &&& own.y == area.y && own.height == area.height
                    &&& first.x == area.x
                    &&& last.x + last.width == area.x + area.width
                    &&& i + 1 < weights.len() ==> lane(area, axis, parts, i + 1).x == own.x
                        + own.width
                },
                SplitAxis::Vertical => {
                    &&& own.x == area.x && own.width == area.width
                    &&& first.y == area.y
                    &&& last.y + last.height == area.y + area.height
                    &&& i + 1 < weights.len() ==> lane(area, axis, parts, i + 1).y == own.y
                        + own.height
                },
            }
        }),
{
    let parts = dealt(extent(area, axis), weights);
    crate::geometry::law_dealt_parts_fill(extent(area, axis), weights);
    lemma_sum_before(parts, i);
    lemma_sum_before(parts, weights.len() - 1);
    assert(parts.take(weights.len() as int) =~= parts);
}

proof fn lemma_sum_skip(weights: Seq<u16>)
    requires
        weights.len() > 0,
    ensures
        weight_sum(weights) == weights[0] + weight_sum(weights.skip(1)),
{
}

/// Of what is left to deal out, each pane but the last is given the share of its weight
/// in the weights that are left.
pub proof fn law_dealt_parts_follow_weights(length: u16, weights: Seq<u16>, i: int)
    requires
        0 <= i < weights.len() - 1,
        forall|k: int| 0 <= k < weights.len() ==> #[trigger] weights[k] > 0,
    ensures
        is_share(
            dealt(length, weights)[i] as int,
            length - weight_sum(dealt(length, weights).take(i)),
            weights[i] as int,
            weight_sum(weights.skip(i)) as int,
        ),
    decreases weights.len(),
{
    let all = dealt(length, weights);
    lemma_sum_skip(weights);
    let part = weighted_part(length, weights[0], weight_sum(weights));
    if i == 0 {
        assert(all.take(0) =~= Seq::<u16>::empty());
        assert(weights.skip(0) =~= weights);
        lemma_is_share(length as int, weights[0] as int, weight_sum(weights) as int);
    } else {
        let rest = weights.skip(1);
        let left = (length - part) as u16;
        assert forall|k: int| 0 <= k < rest.len() implies #[trigger] rest[k] > 0 by {
            assert(rest[k] == weights[k + 1]);
        }
        law_dealt_parts_follow_weights(left, rest, i - 1);
        crate::geometry::law_dealt_parts_fill(left, rest);
        assert(all =~= seq![part] + dealt(left, rest));
        assert(all.take(i).skip(1) =~= dealt(left, rest).take(i - 1));
        assert(weights.skip(i) =~= rest.skip(i - 1));
        lemma_sum_skip(all.take(i));
    }
}

proof fn lemma_split_places(
    layout: PaneLayout,
    target: usize,
    axis: SplitAxis,
    new_index: usize,
    area: Rect,
    pane: usize,
)
    requires
        layout.leaves().no_duplicates(),
        layout.leaves().contains(target),
        !layout.leaves().contains(new_index),
        area.fits(),
    ensures
        ({
            let split = layout.split_at(target, axis, new_index);
            let was = place_of(layout, area, target);
            let sides = halves(was, axis, 100, 100);
            &&& was.fits()
            &&& place_of(split, area, target) == sides.0
            &&& place_of(split, area, new_index) == sides.1
            &&& layout.leaves().contains(pane) && pane != target ==> place_of(split, area, pane)
                == place_of(layout, area, pane)
        }),
    decreases layout,
{
    let split = layout.split_at(target, axis, new_index);
    match layout {
        PaneLayout::Leaf(index) => {
            assert(layout.leaves()[0] == index);
            assert(seq![new_index][0] == new_index);
            assert(split->second.leaves() =~= seq![new_index]);
            assert(split->second.leaves()[0] == new_index);
            assert(!split->second.leaves().contains(target));
            let sides = halves(area, axis, 100, 100);
            assert(place_of(*split->first, sides.0, target) == sides.0);
            assert(place_of(*split->second, sides.1, new_index) == sides.1);
            assert forall|i: usize| layout.leaves().contains(i) implies i == index by {
                let k = choose|k: int|
                    0 <= k < layout.leaves().len() && layout.leaves()[k] == i;
            }
        },
        PaneLayout::Split { axis: own, first_weight, second_weight, first, second } => {
            crate::resize_laws::lemma_sides(layout);
            crate::layout_laws::law_removal_gives_tree_back(layout, target, axis, new_index);
            let direction = crate::protocol::ResizeDirection::Right;
            crate::resize_laws::lemma_halves_stretched(
                area,
                area,
                direction,
                own,
                first_weight,
                second_weight,
            );
            let sides = halves(area, own, first_weight, second_weight);
            if first.leaves().contains(target) {
                lemma_split_places(*first, target, axis, new_index, sides.0, pane);
            } else {
                lemma_split_places(*second, target, axis, new_index, sides.1, pane);
                let part = second.split_at(target, axis, new_index);
                crate::layout_laws::law_removal_gives_tree_back(*second, target, axis, new_index);
                let at = second.leaves().index_of(target);
                let grown = second.leaves().insert(at + 1, new_index);
                assert(part.leaves() == grown);
                assert(grown[at + 1] == new_index);
                assert(grown[at] == target);
                if second.leaves().contains(pane) {
                    let i = second.leaves().index_of(pane);
                    assert(grown[if i <= at {
                        i
                    } else {
                        i + 1
                    }] == pane);
                } else if grown.contains(pane) {
                    let i = choose|i: int| 0 <= i < grown.len() && grown[i] == pane;
                    if i <= at {
                        assert(second.leaves()[i] == pane);
                    } else if i > at + 1 {
                        assert(second.leaves()[i - 1] == pane);
                    }
                }
            }
        },
    }
}

/// A pane that is split shares its rectangle evenly with the new one, which lies to the
/// right of it or below it, and no other pane moves.
pub proof fn law_split_shares_rectangle(
    layout: PaneLayout,
    target: usize,
    axis: SplitAxis,
    new_index: usize,
    area: Rect,
    out: Seq<Rect>,
)
    requires
        layout.leaves().no_duplicates(),
        layout.leaves().contains(target),
        !layout.leaves().contains(new_index),
        target < out.len(),
        new_index < out.len(),
        area.fits(),
    ensures
        ({
            let was = layout.placed(area, out);
            let now = layout.split_at(target, axis, new_index).placed(area, out);
            let own = now[target as int];
            let new = now[new_index as int];
            &&& side_by_side(was[target as int], axis, own, new)
            &&& match axis {
                SplitAxis::Horizontal => -1 <= own.width - new.width <= 1,
                SplitAxis::Vertical => -1 <= own.height - new.height <= 1,
            }
            &&& forall|pane: usize|
                layout.leaves().contains(pane) && pane != target && pane < out.len()
                    ==> #[trigger] now[pane as int] == was[pane as int]
        }),
{
    let split = layout.split_at(target, axis, new_index);
    crate::layout_laws::law_removal_gives_tree_back(layout, target, axis, new_index);
    let at = layout.leaves().index_of(target);
    let grown = layout.leaves().insert(at + 1, new_index);
    assert(grown.no_duplicates()) by {
        assert forall|i: int, j: int| 0 <= i < grown.len() && 0 <= j < grown.len() && i != j implies
        grown[i] != grown[j] by {
            let leaves = layout.leaves();
            if i == at + 1 {
                assert(leaves.contains(leaves[if j <= at {
                    j
                } else {
                    j - 1
                }]));
            } else if j == at + 1 {
                assert(leaves.contains(leaves[if i <= at {
                    i
                } else {
                    i - 1
                }]));
            }
        }
    }
    assert(grown[at] == target && grown[at + 1] == new_index);
    lemma_split_places(layout, target, axis, new_index, area, target);
    crate::resize_laws::lemma_place_of(layout, area, out, target);
    crate::resize_laws::lemma_place_of(split, area, out, target);
    crate::resize_laws::lemma_place_of(split, area, out, new_index);
    let place = place_of(layout, area, target);
    law_halves_lie_in_order(place, axis, 100, 100);
    let was = layout.placed(area, out);
    let now = split.placed(area, out);
    assert forall|pane: usize|
        layout.leaves().contains(pane) && pane != target && pane < out.len() implies
    #[trigger] now[pane as int] == was[pane as int] by {
        lemma_split_places(layout, target, axis, new_index, area, pane);
        crate::resize_laws::lemma_place_of(layout, area, out, pane);
        crate::resize_laws::lemma_place_of(split, area, out, pane);
        let i = layout.leaves().index_of(pane);
        assert(grown[if i <= at {
            i
        } else {
            i + 1
        }] == pane);
    }
}

/// What shares a split with a pane that is the whole of the other side.
pub open spec fn beside(split: PaneLayout, pane: usize) -> Option<PaneLayout> {
    match split {
        PaneLayout::Leaf(_) => None,
        PaneLayout::Split { first, second, .. } => if *first == PaneLayout::Leaf(pane) {
            Some(*second)
        } else if *second == PaneLayout::Leaf(pane) {
            Some(*first)
        } else {
            None
        },
    }
}

/// The direction in which a pane lies from what shares a split with it.
pub open spec fn towards(split: PaneLayout, pane: usize) -> ResizeDirection {
    match split->axis {
        SplitAxis::Horizontal => if *split->first == PaneLayout::Leaf(pane) {
            ResizeDirection::Left
        } else {
            ResizeDirection::Right
        },
        SplitAxis::Vertical => if *split->first == PaneLayout::Leaf(pane) {
            ResizeDirection::Up
        } else {
            ResizeDirection::Down
        },
    }
}

proof fn lemma_removed_places(
    layout: PaneLayout,
    target: usize,
    area: Rect,
    s: PaneLayout,
    pane: usize,
)
    requires
        layout.leaves().no_duplicates(),
        parts(layout).contains(s),
        beside(s, target) is Some,
        layout.leaves().contains(pane),
        pane != target,
        area.fits(),
    ensures
        ({
            let was = place_of(layout, area, pane);
            let now = place_of(layout.without(target), area, pane);
            &&& layout.without(target).leaves().contains(pane)
            &&& beside(s, target)->0.leaves().contains(pane) ==> stretched(
                was,
                now,
                towards(s, target),
            )
            &&& !beside(s, target)->0.leaves().contains(pane) ==> now == was
        }),
    decreases layout,
{
    crate::resize_laws::lemma_parts_contain(layout, s);
    if let PaneLayout::Split { axis, first_weight, second_weight, first, second } = layout {
        crate::resize_laws::lemma_sides(layout);
        let direction = towards(s, target);
        crate::resize_laws::lemma_halves_stretched(
            area,
            area,
            direction,
            axis,
            first_weight,
            second_weight,
        );
        let sides = halves(area, axis, first_weight, second_weight);
        lemma_part_has_leaves(*first, s);
        lemma_part_has_leaves(*second, s);
        lemma_part_has_leaves(layout, s);
        lemma_beside_has(s, target);
        lemma_sole(*first);
        lemma_sole(*second);
        if *first == PaneLayout::Leaf(target) || *second == PaneLayout::Leaf(target) {
            if s != layout {
                if parts(*first).contains(s) {
                    assert(first.leaves().contains(target));
                    crate::resize_laws::lemma_parts_contain(*first, s);
                } else {
                    assert(second.leaves().contains(target));
                    crate::resize_laws::lemma_parts_contain(*second, s);
                }
                assert(false);
            }
            if first_weight + second_weight > 0 {
                law_halves_lie_in_order(area, axis, first_weight, second_weight);
            }
            if *first == PaneLayout::Leaf(target) {
                crate::resize_laws::lemma_place_stretched(*second, sides.1, area, pane, direction);
            } else {
                crate::resize_laws::lemma_place_stretched(*first, sides.0, area, pane, direction);
            }
        } else {
            assert(s != layout);
            if parts(*first).contains(s) {
                assert(first.leaves().contains(target));
                assert(first.can_lose(target));
                if first.leaves().contains(pane) {
                    lemma_removed_places(*first, target, sides.0, s, pane);
                }
                lemma_without_leaves(*first, target, pane);
                lemma_beside_in(*first, s, target, pane);
            } else {
                assert(second.leaves().contains(target));
                assert(!first.leaves().contains(target));
                if second.leaves().contains(pane) {
                    lemma_removed_places(*second, target, sides.1, s, pane);
                }
                lemma_without_leaves(*second, target, pane);
                lemma_beside_in(*second, s, target, pane);
            }
            let rest = layout.without(target);
            reveal(PaneLayout::has);
            crate::layout::lemma_leaves_of_split(rest, pane);
        }
    } else {
        assert(false);
    }
}

proof fn lemma_sole(layout: PaneLayout)
    ensures
        layout matches PaneLayout::Leaf(i) ==> layout.leaves().contains(i) && forall|j: usize|
            #[trigger] layout.leaves().contains(j) ==> j == i,
{
    if let PaneLayout::Leaf(i) = layout {
        assert(layout.leaves()[0] == i);
    }
}

proof fn lemma_part_has_leaves(layout: PaneLayout, s: PaneLayout)
    ensures
        parts(layout).contains(s) ==> forall|i: usize| #[trigger]
            s.leaves().contains(i) ==> layout.leaves().contains(i),
    decreases layout,
{
    crate::resize_laws::lemma_parts_contain(layout, s);
    if let PaneLayout::Split { first, second, .. } = layout {
        lemma_part_has_leaves(*first, s);
        lemma_part_has_leaves(*second, s);
        assert forall|i: usize|
            first.leaves().contains(i) || second.leaves().contains(i) implies #[trigger] layout.leaves().contains(
            i,
        ) by {
            reveal(PaneLayout::has);
            crate::layout::lemma_leaves_of_split(layout, i);
        }
    }
}

proof fn lemma_beside_has(s: PaneLayout, target: usize)
    ensures
        beside(s, target) is Some ==> s.leaves().contains(target) && forall|i: usize| #[trigger]
            beside(s, target)->0.leaves().contains(i) ==> s.leaves().contains(i),
{
    if let PaneLayout::Split { first, second, .. } = s {
        lemma_sole(*first);
        lemma_sole(*second);
        assert forall|i: usize|
            first.leaves().contains(i) || second.leaves().contains(i) implies #[trigger] s.leaves().contains(
            i,
        ) by {
            reveal(PaneLayout::has);
            crate::layout::lemma_leaves_of_split(s, i);
        }
    }
}

proof fn lemma_beside_in(layout: PaneLayout, s: PaneLayout, target: usize, pane: usize)
    requires
        parts(layout).contains(s),
        beside(s, target) is Some,
    ensures
        beside(s, target)->0.leaves().contains(pane) ==> layout.leaves().contains(pane),
{
    lemma_part_has_leaves(layout, s);
    lemma_beside_has(s, target);
}

/// Taking a pane out puts no other into the tree.
proof fn lemma_without_leaves(layout: PaneLayout, target: usize, pane: usize)
    ensures
        layout.without(target).leaves().contains(pane) ==> layout.leaves().contains(pane),
{
    crate::layout_laws::lemma_without_shrinks(layout, target);
    reveal(PaneLayout::has);
    assert(layout.without(target).has(pane) ==> layout.has(pane));
}

/// The room of a pane that is taken out goes to what shared a split with it: those panes
/// stretch towards where it was, and no other pane moves.
pub proof fn law_removed_pane_leaves_its_room(
    layout: PaneLayout,
    target: usize,
    area: Rect,
    out: Seq<Rect>,
    s: PaneLayout,
    pane: usize,
)
    requires
        layout.leaves().no_duplicates(),
        layout.leaves().contains(target),
        parts(layout).contains(s),
        beside(s, target) is Some,
        layout.leaves().contains(pane),
        pane != target,
        pane < out.len(),
        area.fits(),
    ensures
        ({
            let was = layout.placed(area, out)[pane as int];
            let now = layout.without(target).placed(area, out)[pane as int];
            if beside(s, target)->0.leaves().contains(pane) {
                stretched(was, now, towards(s, target))
            } else {
                now == was
            }
        }),
{
    lemma_removed_places(layout, target, area, s, pane);
    lemma_sole(layout);
    crate::layout_laws::lemma_distinct(layout);
    crate::layout_laws::lemma_distinct(layout.without(target));
    assert(layout.has(target)) by {
        reveal(PaneLayout::has);
    }
    crate::layout_laws::lemma_without(layout, target);
    crate::resize_laws::lemma_place_of(layout, area, out, pane);
    crate::resize_laws::lemma_place_of(layout.without(target), area, out, pane);
}

/// The cells of a rectangle along an axis.
pub open spec fn length_along(rect: Rect, axis: SplitAxis) -> int {
    match axis {
        SplitAxis::Horizontal => rect.width as int,
        SplitAxis::Vertical => rect.height as int,
    }
}

/// Whether a rectangle lies across the whole of an area and starts `offset` cells into
/// it along an axis.
pub open spec fn lies_across(rect: Rect, area: Rect, axis: SplitAxis, offset: int) -> bool {
    match axis {
        SplitAxis::Horizontal => {
            &&& rect.y == area.y && rect.height == area.height
            &&& rect.x == area.x + offset
        },
        SplitAxis::Vertical => {
            &&& rect.x == area.x && rect.width == area.width
            &&& rect.y == area.y + offset
        },
    }
}

/// The cells along an axis that the first `count` of some rectangles take together.
pub open spec fn lengths_along(rects: Seq<Rect>, axis: SplitAxis, count: int) -> int
    decreases count,
{
    if count <= 0 {
        0
    } else {
        lengths_along(rects, axis, count - 1) + length_along(rects[count - 1], axis)
    }
}

proof fn lemma_even_part(length: int, count: int, part: int, share: int)
    requires
        count >= 2,
        share >= 0,
        count * share <= length <= count * (share + 1),
        is_share(part, length, 100, 100 * count),
    ensures
        part == share || part == share + 1,
        (count - 1) * share <= length - part <= (count - 1) * (share + 1),
        0 <= part <= length,
{
    if length == 0 {
        assert(share == 0) by (nonlinear_arith)
            requires
                count * share <= 0,
                count >= 2,
                share >= 0,
        ;
    } else if part >= 1 && part * (100 * count) <= length * 100 < (part + 1) * (100 * count) {
        assert(part * count <= length < (part + 1) * count) by (nonlinear_arith)
            requires
                part * (100 * count) <= length * 100 < (part + 1) * (100 * count),
        ;
        assert(share <= part <= share + 1) by (nonlinear_arith)
            requires
                part * count <= length < (part + 1) * count,
                count * share <= length <= count * (share + 1),
                count >= 2,
        ;
        assert((count - 1) * share <= length - part <= (count - 1) * (share + 1)) by (
        nonlinear_arith)
            requires
                part * count <= length < (part + 1) * count,
                count * share <= length <= count * (share + 1),
                part == share || part == share + 1,
                count >= 2,
        ;
        assert(part <= length) by (nonlinear_arith)
            requires
                part * count <= length,
                count >= 2,
                part >= 1,
        ;
    } else {
        assert(length < count) by (nonlinear_arith)
            requires
                length * 100 < 100 * count,
        ;
        assert(share == 0) by (nonlinear_arith)
            requires
                count * share <= length,
                length < count,
                share >= 0,
                count >= 2,
        ;
    }
}

proof fn lemma_even_places(axis: SplitAxis, start: nat, count: nat, area: Rect, share: int)
    requires
        1 <= count <= 656,
        start + count <= usize::MAX,
        area.fits(),
        share >= 0,
        count * share <= length_along(area, axis) <= count * (share + 1),
    ensures
        ({
            let layout = even_layout(axis, start, count);
            let rects = Seq::new(
                count,
                |i: int| place_of(layout, area, (start + i) as usize),
            );
            &&& forall|i: int|
                #![trigger rects[i]]
                0 <= i < count ==> {
                    &&& lies_across(rects[i], area, axis, lengths_along(rects, axis, i))
                    &&& share <= length_along(rects[i], axis) <= share + 1
                }
            &&& lengths_along(rects, axis, count as int) == length_along(area, axis)
        }),
    decreases count,
{
    let layout = even_layout(axis, start, count);
    let rects = Seq::new(count, |i: int| place_of(layout, area, (start + i) as usize));
    if count == 1 {
        assert(rects[0] == area);
        assert(share <= length_along(area, axis) <= share + 1) by (nonlinear_arith)
            requires
                count * share <= length_along(area, axis) <= count * (share + 1),
                count == 1,
        ;
        reveal_with_fuel(lengths_along, 2);
    } else {
        let first = *layout->first;
        let second = *layout->second;
        let rest_weight = crate::layout::even_rest_weight(count);
        assert((count - 1) % 0x1_0000 == count - 1) by {
            vstd::arithmetic::div_mod::lemma_small_mod((count - 1) as nat, 0x1_0000);
        }
        assert(rest_weight == 100 * (count - 1));
        law_halves_lie_in_order(area, axis, 100, rest_weight);
        let sides = halves(area, axis, 100, rest_weight);
        let part = length_along(sides.0, axis);
        assert(100 + rest_weight == 100 * count);
        lemma_even_part(length_along(area, axis), count as int, part, share);
        lemma_even_places(axis, start + 1, (count - 1) as nat, sides.1, share);
        crate::layout_laws::law_even_leaves(axis, start + 1, (count - 1) as nat);
        let rest = Seq::new(
            (count - 1) as nat,
            |i: int| place_of(second, sides.1, (start + 1 + i) as usize),
        );
        assert(second == even_layout(axis, start + 1, (count - 1) as nat));
        assert(!second.leaves().contains(start as usize));
        assert(place_of(first, sides.0, start as usize) == sides.0);
        assert(rects[0] == sides.0);
        assert forall|i: int| 0 <= i < count - 1 implies rects[i + 1] == #[trigger] rest[i] by {
            assert(second.leaves().contains((start + 1 + i) as usize));
        }
        assert forall|i: int| 0 <= i <= count - 1 implies #[trigger] lengths_along(
            rects,
            axis,
            i + 1,
        ) == part + lengths_along(rest, axis, i) by {
            lemma_lengths_shift(rects, rest, axis, i);
        }
        assert forall|i: int| #![trigger rects[i]] 0 <= i < count implies {
            &&& lies_across(rects[i], area, axis, lengths_along(rects, axis, i))
            &&& share <= length_along(rects[i], axis) <= share + 1
        } by {
            if i > 0 {
                assert(rects[(i - 1) + 1] == rest[i - 1]);
                assert(lengths_along(rects, axis, (i - 1) + 1) == part + lengths_along(
                    rest,
                    axis,
                    i - 1,
                ));
            }
        }
        assert(lengths_along(rects, axis, (count - 1) + 1) == part + lengths_along(
            rest,
            axis,
            count - 1,
        ));
    }
}

proof fn lemma_lengths_shift(rects: Seq<Rect>, rest: Seq<Rect>, axis: SplitAxis, i: int)
    requires
        0 <= i <= rest.len(),
        rects.len() == rest.len() + 1,
        forall|k: int| 0 <= k < rest.len() ==> rects[k + 1] == #[trigger] rest[k],
    ensures
        lengths_along(rects, axis, i + 1) == length_along(rects[0], axis) + lengths_along(
            rest,
            axis,
            i,
        ),
    decreases i,
{
    if i > 0 {
        lemma_lengths_shift(rects, rest, axis, i - 1);
        assert(rects[(i - 1) + 1] == rest[i - 1]);
    } else {
        reveal_with_fuel(lengths_along, 2);
    }
}

/// Panes that are laid out evenly lie one behind the other along the axis, in order and
/// from end to end, each across the whole area, and no two of them differ by more than a
/// cell. (Of more panes than a window may have, the weights would no longer be even.)
pub proof fn law_even_panes_lie_evenly(axis: SplitAxis, count: nat, area: Rect, out: Seq<Rect>)
    requires
        1 <= count <= crate::window::MAX_PANES_PER_WINDOW,
        out.len() == count,
        area.fits(),
    ensures
        ({
            let rects = even_layout(axis, 0, count).placed(area, out);
            &&& rects.len() == count
            &&& forall|i: int|
                #![trigger rects[i]]
                0 <= i < count ==> lies_across(
                    rects[i],
                    area,
                    axis,
                    lengths_along(rects, axis, i),
                )
            &&& lengths_along(rects, axis, count as int) == length_along(area, axis)
            &&& forall|i: int, j: int|
                #![trigger rects[i], rects[j]]
                0 <= i < count && 0 <= j < count ==> length_along(rects[i], axis) - length_along(
                    rects[j],
                    axis,
                ) <= 1
        }),
{
    let length = length_along(area, axis);
    let share = length / (count as int);
    let layout = even_layout(axis, 0, count);
    vstd::arithmetic::div_mod::lemma_fundamental_div_mod(length, count as int);
    vstd::arithmetic::div_mod::lemma_mod_bound(length, count as int);
    assert(share >= 0) by {
        vstd::arithmetic::div_mod::lemma_div_pos_is_pos(length, count as int);
    }
    assert(count * share <= length <= count * (share + 1)) by (nonlinear_arith)
        requires
            length == count * share + length % (count as int),
            0 <= length % (count as int) < count,
    ;
    lemma_even_places(axis, 0, count, area, share);
    crate::layout_laws::law_even_leaves(axis, 0, count);
    let places = Seq::new(count, |i: int| place_of(layout, area, (0 + i) as usize));
    let rects = layout.placed(area, out);
    crate::layout::lemma_placed_len(layout, area, out);
    assert forall|i: int| 0 <= i < count implies #[trigger] rects[i] == places[i] by {
        crate::resize_laws::lemma_place_of(layout, area, out, i as usize);
        assert(layout.leaves().contains(i as usize));
    }
    assert(rects =~= places);
}

/// The weights that panes are laid out by are the given ones where there is one for each
/// pane and none is zero, and else the same for all; so each pane has a weight, and none is
/// left without.
pub proof fn law_every_pane_has_weight(count: nat, weights: Seq<u16>, i: int)
    requires
        0 <= i < count,
    ensures
        usable_weights(count, weights).len() == count,
        usable_weights(count, weights)[i] > 0,
        weights.len() == count && (forall|k: int| 0 <= k < count ==> #[trigger] weights[k] > 0)
            ==> usable_weights(count, weights) == weights,
        weights.len() != count ==> usable_weights(count, weights)[i] == usable_weights(
            count,
            weights,
        )[0],
{
}

} // verus!
