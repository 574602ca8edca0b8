//! What resizing is for: a pane takes room from what lies beyond its edge in the
//! direction asked for, and that edge moves outward.

use vstd::prelude::*;

#[allow(unused_imports)]
use crate::geometry::{halves, Rect};
#[allow(unused_imports)]
use crate::layout::PaneLayout;
#[allow(unused_imports)]
use crate::protocol::{ResizeDirection, SplitAxis};

verus! {

/// A tree and all trees in it, a split before what it is made of.
pub open spec fn parts(layout: PaneLayout) -> Seq<PaneLayout>
    decreases layout,
{
    match layout {
        PaneLayout::Leaf(_) => seq![layout],
        PaneLayout::Split { first, second, .. } => seq![layout] + parts(*first) + parts(*second),
    }
}

/// Whether a split has a pane on one side, and weight to give on the side that a
/// direction points to from there.
pub open spec fn gives_room(split: PaneLayout, pane: usize, direction: ResizeDirection) -> bool {
    match split {
        PaneLayout::Leaf(_) => false,
        PaneLayout::Split { axis, first_weight, second_weight, first, second } => match direction {
            ResizeDirection::Right => axis == SplitAxis::Horizontal && first.leaves().contains(pane)
                && second_weight > 1,
            ResizeDirection::Left => axis == SplitAxis::Horizontal && second.leaves().contains(pane)
                && first_weight > 1,
            ResizeDirection::Down => axis == SplitAxis::Vertical && first.leaves().contains(pane)
                && second_weight > 1,
            ResizeDirection::Up => axis == SplitAxis::Vertical && second.leaves().contains(pane)
                && first_weight > 1,
        },
    }
}

/// Whether some split of a tree gives a pane room in a direction.
pub open spec fn room_found(layout: PaneLayout, pane: usize, direction: ResizeDirection) -> bool {
    exists|s: PaneLayout| #[trigger] parts(layout).contains(s) && gives_room(s, pane, direction)
}

pub proof fn lemma_parts_contain(layout: PaneLayout, s: PaneLayout)
    ensures
        parts(layout).contains(s) <==> s == layout || layout is Split && (parts(
            *layout->first,
        ).contains(s) || parts(*layout->second).contains(s)),
{
    let all = parts(layout);
    if let PaneLayout::Split { first, second, .. } = layout {
        let a = parts(*first);
        let b = parts(*second);
        assert(all =~= seq![layout] + a + b);
        if all.contains(s) {
            let k = choose|k: int| 0 <= k < all.len() && all[k] == s;
            if k > 0 && k <= a.len() {
                assert(a[k - 1] == s);
            } else if k > a.len() {
                assert(b[k - 1 - a.len()] == s);
            }
        }
        assert(all[0] == layout);
        if a.contains(s) {
            let k = choose|k: int| 0 <= k < a.len() && a[k] == s;
            assert(all[k + 1] == s);
        }
        if b.contains(s) {
            let k = choose|k: int| 0 <= k < b.len() && b[k] == s;
            assert(all[k + 1 + a.len()] == s);
        }
    } else {
        assert(all[0] == layout);
    }
}

proof fn lemma_room_found(layout: PaneLayout, pane: usize, direction: ResizeDirection)
    ensures
        room_found(layout, pane, direction) <==> gives_room(layout, pane, direction) || layout
            is Split && (room_found(*layout->first, pane, direction) || room_found(
            *layout->second,
            pane,
            direction,
        )),
{
    lemma_parts_contain(layout, layout);
    if room_found(layout, pane, direction) {
        let s = choose|s: PaneLayout| #[trigger]
            parts(layout).contains(s) && gives_room(s, pane, direction);
        lemma_parts_contain(layout, s);
    }
    if let PaneLayout::Split { first, second, .. } = layout {
        if room_found(*first, pane, direction) {
            let s = choose|s: PaneLayout| #[trigger]
                parts(*first).contains(s) && gives_room(s, pane, direction);
            lemma_parts_contain(layout, s);
        }
        if room_found(*second, pane, direction) {
            let s = choose|s: PaneLayout| #[trigger]
                parts(*second).contains(s) && gives_room(s, pane, direction);
            lemma_parts_contain(layout, s);
        }
    }
}

pub proof fn lemma_sides(layout: PaneLayout)
    requires
        layout is Split,
        layout.leaves().no_duplicates(),
    ensures
        layout->first.leaves().no_duplicates(),
        layout->second.leaves().no_duplicates(),
        forall|i: usize|
            #![trigger layout->first.leaves().contains(i)]
            #![trigger layout->second.leaves().contains(i)]
            !(layout->first.leaves().contains(i) && layout->second.leaves().contains(i)),
        forall|i: usize|
            #![trigger layout.leaves().contains(i)]
            layout.leaves().contains(i) <==> layout->first.leaves().contains(i)
                || layout->second.leaves().contains(i),
        forall|i: usize| #[trigger] layout->first.has(i) == layout->first.leaves().contains(i),
        forall|i: usize| #[trigger] layout->second.has(i) == layout->second.leaves().contains(i),
{
    reveal(PaneLayout::has);
    let a = layout->first.leaves();
    let b = layout->second.leaves();
    let s = layout.leaves();
    assert(s =~= a + b);
    assert forall|i: int, j: int| 0 <= i < a.len() && 0 <= j < a.len() && i != j implies a[i]
        != a[j] by {
        assert(s[i] == a[i] && s[j] == a[j]);
    }
    assert forall|i: int, j: int| 0 <= i < b.len() && 0 <= j < b.len() && i != j implies b[i]
        != b[j] by {
        assert(s[a.len() + i] == b[i] && s[a.len() + j] == b[j]);
    }
    assert forall|i: usize| !(#[trigger] a.contains(i) && b.contains(i)) by {
        if a.contains(i) && b.contains(i) {
            let k = choose|k: int| 0 <= k < a.len() && a[k] == i;
            let l = choose|l: int| 0 <= l < b.len() && b[l] == i;
            assert(s[k] == s[a.len() + l]);
        }
    }
    assert forall|i: usize| #[trigger] s.contains(i) <==> a.contains(i) || b.contains(i) by {
        crate::layout::lemma_leaves_of_split(layout, i);
    }
}

/// Resizing succeeds exactly where something is asked for and some split has the
/// pane on one side and, on the side that the direction points to, weight to give.
pub proof fn law_resize_needs_room(
    layout: PaneLayout,
    pane: usize,
    direction: ResizeDirection,
    amount: u16,
)
    requires
        layout.leaves().no_duplicates(),
    ensures
        layout.resized(pane, direction, amount) is Some <==> amount > 0 && room_found(
            layout,
            pane,
            direction,
        ),
    decreases layout,
{
    lemma_room_found(layout, pane, direction);
    if let PaneLayout::Split { first, second, .. } = layout {
        lemma_sides(layout);
        law_resize_needs_room(*first, pane, direction, amount);
        law_resize_needs_room(*second, pane, direction, amount);
    }
}

/// The axis and the weights of a split.
pub open spec fn division(layout: PaneLayout) -> Option<(SplitAxis, u16, u16)> {
    match layout {
        PaneLayout::Leaf(_) => None,
        PaneLayout::Split { axis, first_weight, second_weight, .. } => Some(
            (axis, first_weight, second_weight),
        ),
    }
}

/// Whether one split of a tree, the `k`th part of it, gave a pane `given` of its
/// weight in a direction, and no other split changed.
pub open spec fn gave(
    before: PaneLayout,
    after: PaneLayout,
    k: int,
    pane: usize,
    direction: ResizeDirection,
    given: int,
) -> bool {
    let was = parts(before)[k];
    let now = parts(after)[k];
    &&& 0 <= k < parts(before).len() == parts(after).len()
    &&& gives_room(was, pane, direction)
    &&& now is Split
    &&& now->axis == was->axis
    &&& match direction {
        ResizeDirection::Right | ResizeDirection::Down => {
            &&& now->second_weight == was->second_weight - given
            &&& now->first_weight == if was->first_weight + given > u16::MAX {
                u16::MAX as int
            } else {
                was->first_weight + given
            }
            &&& !room_found(*was->first, pane, direction)
        },
        ResizeDirection::Left | ResizeDirection::Up => {
            &&& now->first_weight == was->first_weight - given
            &&& now->second_weight == if was->second_weight + given > u16::MAX {
                u16::MAX as int
            } else {
                was->second_weight + given
            }
            &&& !room_found(*was->second, pane, direction)
        },
    }
    &&& forall|j: int|
        0 <= j < parts(before).len() && j != k ==> division(#[trigger] parts(after)[j]) == division(
            parts(before)[j],
        )
}

/// What a pane is given of a weight: what is asked for, as long as one is left.
pub open spec fn given_of(weight: u16, amount: u16) -> int {
    if amount < weight - 1 {
        amount as int
    } else {
        weight - 1
    }
}

/// A resize that succeeds changes one split, the innermost that has room to give:
/// the side of the pane gains what the other side loses, which is what is asked
/// for as long as one is left, and the tree is otherwise as it was.
pub proof fn law_resize_takes_from_one_split(
    layout: PaneLayout,
    pane: usize,
    direction: ResizeDirection,
    amount: u16,
)
    requires
        layout.leaves().no_duplicates(),
        layout.resized(pane, direction, amount) is Some,
    ensures
        layout.resized(pane, direction, amount)->0.leaves() == layout.leaves(),
        exists|k: int, given: int| #[trigger]
            gave(
                layout,
                layout.resized(pane, direction, amount)->0,
                k,
                pane,
                direction,
                given,
            ) && given > 0 && given == given_of(
                match direction {
                    ResizeDirection::Right | ResizeDirection::Down => parts(
                        layout,
                    )[k]->second_weight,
                    ResizeDirection::Left | ResizeDirection::Up => parts(layout)[k]->first_weight,
                },
                amount,
            ),
    decreases layout,
{
    let after = layout.resized(pane, direction, amount)->0;
    crate::layout_laws::law_resizing_keeps_panes(layout, pane, direction, amount);
    lemma_sides(layout);
    let first = *layout->first;
    let second = *layout->second;
    law_resize_needs_room(first, pane, direction, amount);
    law_resize_needs_room(second, pane, direction, amount);
    let a = parts(first);
    let b = parts(second);
    assert(parts(layout) =~= seq![layout] + a + b);
    if first.resized(pane, direction, amount) is Some {
        law_resize_takes_from_one_split(first, pane, direction, amount);
        let part = first.resized(pane, direction, amount)->0;
        let (k, given) = choose|k: int, given: int| #[trigger]
            gave(first, part, k, pane, direction, given) && given > 0 && given == given_of(
                match direction {
                    ResizeDirection::Right | ResizeDirection::Down => a[k]->second_weight,
                    ResizeDirection::Left | ResizeDirection::Up => a[k]->first_weight,
                },
                amount,
            );
        let c = parts(part);
        assert(parts(after) =~= seq![after] + c + b);
        assert(parts(layout)[k + 1] == a[k] && parts(after)[k + 1] == c[k]);
        assert forall|j: int|
            0 <= j < parts(layout).len() && j != k + 1 implies division(#[trigger] parts(after)[j])
            == division(parts(layout)[j]) by {
            if 1 <= j <= a.len() {
                assert(parts(after)[j] == c[j - 1]);
                assert(parts(layout)[j] == a[j - 1]);
            }
        }
        assert(gave(layout, after, k + 1, pane, direction, given));
    } else if second.resized(pane, direction, amount) is Some {
        law_resize_takes_from_one_split(second, pane, direction, amount);
        let part = second.resized(pane, direction, amount)->0;
        let (k, given) = choose|k: int, given: int| #[trigger]
            gave(second, part, k, pane, direction, given) && given > 0 && given == given_of(
                match direction {
                    ResizeDirection::Right | ResizeDirection::Down => b[k]->second_weight,
                    ResizeDirection::Left | ResizeDirection::Up => b[k]->first_weight,
                },
                amount,
            );
        let c = parts(part);
        let at = k + 1 + a.len();
        assert(parts(after) =~= seq![after] + a + c);
        assert(parts(layout)[at] == b[k] && parts(after)[at] == c[k]);
        assert forall|j: int|
            0 <= j < parts(layout).len() && j != at implies division(#[trigger] parts(after)[j])
            == division(parts(layout)[j]) by {
            if j > a.len() {
                assert(parts(after)[j] == c[j - 1 - a.len()]);
                assert(parts(layout)[j] == b[j - 1 - a.len()]);
            }
        }
        assert(gave(layout, after, at, pane, direction, given));
    } else {
        let given = match direction {
            ResizeDirection::Right | ResizeDirection::Down => given_of(
                layout->second_weight,
                amount,
            ),
            ResizeDirection::Left | ResizeDirection::Up => given_of(layout->first_weight, amount),
        };
        assert(parts(after) =~= seq![after] + a + b);
        assert(parts(layout)[0] == layout && parts(after)[0] == after);
        assert(gave(layout, after, 0, pane, direction, given));
    }
}

/// The rectangle that a tree gives a pane of it.
pub open spec fn place_of(layout: PaneLayout, area: Rect, pane: usize) -> Rect
    decreases layout,
{
    match layout {
        PaneLayout::Leaf(_) => area,
        PaneLayout::Split { axis, first_weight, second_weight, first, second } => {
            let sides = halves(area, axis, first_weight, second_weight);
            if second.leaves().contains(pane) {
                place_of(*second, sides.1, pane)
            } else {
                place_of(*first, sides.0, pane)
            }
        },
    }
}

pub proof fn lemma_place_of(layout: PaneLayout, area: Rect, out: Seq<Rect>, pane: usize)
    requires
        layout.leaves().no_duplicates(),
        pane < out.len(),
    ensures
        layout.placed(area, out).len() == out.len(),
        layout.leaves().contains(pane) ==> layout.placed(area, out)[pane as int] == place_of(
            layout,
            area,
            pane,
        ),
        !layout.leaves().contains(pane) ==> layout.placed(area, out)[pane as int]
            == out[pane as int],
    decreases layout,
{
    match layout {
        PaneLayout::Leaf(index) => {
            assert(layout.leaves()[0] == index);
        },
        PaneLayout::Split { axis, first_weight, second_weight, first, second } => {
            lemma_sides(layout);
            let sides = halves(area, axis, first_weight, second_weight);
            lemma_place_of(*first, sides.0, out, pane);
            lemma_place_of(*second, sides.1, first.placed(sides.0, out), pane);
        },
    }
}

/// A share of a longer stretch is no shorter, and neither is what it leaves.
proof fn lemma_share_of_longer(shorter: u16, longer: u16, first: u16, second: u16)
    requires
        shorter <= longer,
        first + second > 0,
    ensures
        crate::geometry::first_share(shorter, first, second) <= crate::geometry::first_share(
            longer,
            first,
            second,
        ),
        shorter - crate::geometry::first_share(shorter, first, second) <= longer
            - crate::geometry::first_share(longer, first, second),
{
    let total = first + second;
    let a = shorter * first;
    let b = longer * first;
    let more = longer - shorter;
    assert(a <= b) by (nonlinear_arith)
        requires
            a == shorter * first,
            b == longer * first,
            shorter <= longer,
            first >= 0,
    ;
    assert(b <= a + more * total) by (nonlinear_arith)
        requires
            a == shorter * first,
            b == longer * first,
            more == longer - shorter,
            more >= 0,
            first <= total,
    ;
    vstd::arithmetic::div_mod::lemma_div_is_ordered(a, b, total);
    vstd::arithmetic::div_mod::lemma_div_is_ordered(b, a + more * total, total);
    assert((a + more * total) / total == a / total + more) by {
        vstd::arithmetic::div_mod::lemma_hoist_over_denominator(a, more, total as nat);
    }
    assert(0 <= a / total) by (nonlinear_arith)
        requires
            a >= 0,
            total > 0,
    ;
    lemma_part_fits(shorter as int, first as int, total);
    lemma_part_fits(longer as int, first as int, total);
}

pub proof fn lemma_part_fits(length: int, part: int, total: int)
    requires
        0 <= length,
        0 <= part <= total,
        0 < total,
    ensures
        0 <= (length * part) / total <= length,
{
    assert(0 <= length * part <= length * total) by (nonlinear_arith)
        requires
            0 <= length,
            0 <= part <= total,
    ;
    vstd::arithmetic::div_mod::lemma_div_pos_is_pos(length * part, total);
    vstd::arithmetic::div_mod::lemma_div_is_ordered(length * part, length * total, total);
    vstd::arithmetic::div_mod::lemma_div_by_multiple(length, total);
}

/// The first share is no less where the first weight is no less and the second no
/// more.
proof fn lemma_share_of_heavier(length: u16, first: u16, second: u16, more: u16, less: u16)
    requires
        first <= more,
        less <= second,
        first + second > 0,
        more + less > 0,
    ensures
        crate::geometry::first_share(length, first, second) <= crate::geometry::first_share(
            length,
            more,
            less,
        ),
{
    let a = length * first;
    let b = first + second;
    let c = length * more;
    let d = more + less;
    let q = a / b;
    vstd::arithmetic::div_mod::lemma_fundamental_div_mod(a, b);
    vstd::arithmetic::div_mod::lemma_mod_bound(a, b);
    assert(q * b <= a) by (nonlinear_arith)
        requires
            a == b * q + a % b,
            0 <= a % b,
    ;
    assert(q >= 0) by {
        lemma_part_fits(length as int, first as int, b);
    }
    assert(a * d <= c * b) by (nonlinear_arith)
        requires
            a == length * first,
            c == length * more,
            b == first + second,
            d == more + less,
            0 <= first <= more,
            0 <= less <= second,
            length >= 0,
    ;
    assert(q * d <= c) by (nonlinear_arith)
        requires
            q * b <= a,
            a * d <= c * b,
            b > 0,
            d > 0,
            q >= 0,
            a >= 0,
    ;
    vstd::arithmetic::div_mod::lemma_div_is_ordered(q * d, c, d);
    vstd::arithmetic::div_mod::lemma_div_by_multiple(q, d);
    lemma_part_fits(length as int, more as int, d);
}

/// Whether the edge of a rectangle that faces a direction has moved outward or
/// stayed, the rectangle is no narrower for it, and nothing changed across.
pub open spec fn stretched(before: Rect, after: Rect, direction: ResizeDirection) -> bool {
    match direction {
        ResizeDirection::Right => {
            &&& after.x + after.width >= before.x + before.width
            &&& after.width >= before.width
            &&& after.x >= before.x
            &&& after.y == before.y && after.height == before.height
        },
        ResizeDirection::Left => {
            &&& after.x <= before.x
            &&& after.width >= before.width
            &&& after.x + after.width <= before.x + before.width
            &&& after.y == before.y && after.height == before.height
        },
        ResizeDirection::Down => {
            &&& after.y + after.height >= before.y + before.height
            &&& after.height >= before.height
            &&& after.y >= before.y
            &&& after.x == before.x && after.width == before.width
        },
        ResizeDirection::Up => {
            &&& after.y <= before.y
            &&& after.height >= before.height
            &&& after.y + after.height <= before.y + before.height
            &&& after.x == before.x && after.width == before.width
        },
    }
}

/// Whether the edge of a rectangle that a direction points away from is where it
/// was.
pub open spec fn anchored(before: Rect, after: Rect, direction: ResizeDirection) -> bool {
    match direction {
        ResizeDirection::Right => after.x == before.x,
        ResizeDirection::Left => after.x + after.width == before.x + before.width,
        ResizeDirection::Down => after.y == before.y,
        ResizeDirection::Up => after.y + after.height == before.y + before.height,
    }
}

pub proof fn lemma_halves_stretched(
    before: Rect,
    after: Rect,
    direction: ResizeDirection,
    axis: SplitAxis,
    first: u16,
    second: u16,
)
    requires
        before.fits(),
        after.fits(),
        stretched(before, after, direction),
    ensures
        halves(before, axis, first, second).0.fits(),
        halves(before, axis, first, second).1.fits(),
        halves(after, axis, first, second).0.fits(),
        halves(after, axis, first, second).1.fits(),
        stretched(
            halves(before, axis, first, second).0,
            halves(after, axis, first, second).0,
            direction,
        ),
        stretched(
            halves(before, axis, first, second).1,
            halves(after, axis, first, second).1,
            direction,
        ),
{
    if first + second > 0 {
        lemma_share_of_longer(before.width, after.width, first, second);
        lemma_share_of_longer(before.height, after.height, first, second);
    }
}

pub proof fn lemma_place_stretched(
    layout: PaneLayout,
    before: Rect,
    after: Rect,
    pane: usize,
    direction: ResizeDirection,
)
    requires
        before.fits(),
        after.fits(),
        stretched(before, after, direction),
    ensures
        stretched(
            place_of(layout, before, pane),
            place_of(layout, after, pane),
            direction,
        ),
    decreases layout,
{
    if let PaneLayout::Split { axis, first_weight, second_weight, first, second } = layout {
        lemma_halves_stretched(before, after, direction, axis, first_weight, second_weight);
        let was = halves(before, axis, first_weight, second_weight);
        let now = halves(after, axis, first_weight, second_weight);
        lemma_place_stretched(*first, was.0, now.0, pane, direction);
        lemma_place_stretched(*second, was.1, now.1, pane, direction);
    }
}

/// Whether a split has a pane as the whole of one side, and weight to give on the
/// side that a direction points to from there.
pub open spec fn gives_alone(split: PaneLayout, pane: usize, direction: ResizeDirection) -> bool {
    &&& gives_room(split, pane, direction)
    &&& match direction {
        ResizeDirection::Right | ResizeDirection::Down => *split->first == PaneLayout::Leaf(pane),
        ResizeDirection::Left | ResizeDirection::Up => *split->second == PaneLayout::Leaf(pane),
    }
}

proof fn lemma_resized_place(
    layout: PaneLayout,
    area: Rect,
    pane: usize,
    direction: ResizeDirection,
    amount: u16,
)
    requires
        layout.leaves().no_duplicates(),
        layout.resized(pane, direction, amount) is Some,
        area.fits(),
    ensures
        ({
            let after = layout.resized(pane, direction, amount)->0;
            let was = place_of(layout, area, pane);
            let now = place_of(after, area, pane);
            &&& stretched(was, now, direction)
            &&& (exists|s: PaneLayout| #[trigger]
                parts(layout).contains(s) && gives_alone(s, pane, direction)) ==> anchored(
                was,
                now,
                direction,
            )
        }),
    decreases layout,
{
    lemma_sides(layout);
    let after = layout.resized(pane, direction, amount)->0;
    let first = *layout->first;
    let second = *layout->second;
    let axis = layout->axis;
    let f = layout->first_weight;
    let s = layout->second_weight;
    law_resize_needs_room(layout, pane, direction, amount);
    law_resize_needs_room(first, pane, direction, amount);
    law_resize_needs_room(second, pane, direction, amount);
    crate::layout_laws::law_resizing_keeps_panes(first, pane, direction, amount);
    crate::layout_laws::law_resizing_keeps_panes(second, pane, direction, amount);
    lemma_room_means_pane(first, pane, direction);
    lemma_room_means_pane(second, pane, direction);
    lemma_halves_stretched(area, area, direction, axis, f, s);
    let sides = halves(area, axis, f, s);
    let alone = exists|x: PaneLayout| #[trigger]
        parts(layout).contains(x) && gives_alone(x, pane, direction);
    if alone {
        let x = choose|x: PaneLayout| #[trigger]
            parts(layout).contains(x) && gives_alone(x, pane, direction);
        lemma_parts_contain(layout, x);
        lemma_alone_is_innermost(layout, pane, direction);
    }
    if first.resized(pane, direction, amount) is Some {
        lemma_resized_place(first, sides.0, pane, direction, amount);
    } else if second.resized(pane, direction, amount) is Some {
        lemma_resized_place(second, sides.1, pane, direction, amount);
    } else {
        let moved = halves(area, axis, after->first_weight, after->second_weight);
        if direction == ResizeDirection::Right || direction == ResizeDirection::Down {
            lemma_share_of_heavier(
                area.width,
                f,
                s,
                after->first_weight,
                after->second_weight,
            );
            lemma_share_of_heavier(
                area.height,
                f,
                s,
                after->first_weight,
                after->second_weight,
            );
            lemma_place_stretched(first, sides.0, moved.0, pane, direction);
        } else {
            lemma_share_of_heavier(
                area.width,
                after->first_weight,
                after->second_weight,
                f,
                s,
            );
            lemma_share_of_heavier(
                area.height,
                after->first_weight,
                after->second_weight,
                f,
                s,
            );
            lemma_place_stretched(second, sides.1, moved.1, pane, direction);
        }
    }
}

proof fn lemma_room_means_pane(layout: PaneLayout, pane: usize, direction: ResizeDirection)
    ensures
        room_found(layout, pane, direction) ==> layout.leaves().contains(pane),
    decreases layout,
{
    lemma_room_found(layout, pane, direction);
    if let PaneLayout::Split { first, second, .. } = layout {
        lemma_room_means_pane(*first, pane, direction);
        lemma_room_means_pane(*second, pane, direction);
        reveal(PaneLayout::has);
        crate::layout::lemma_leaves_of_split(layout, pane);
    }
}

/// Where a pane is the whole side of the split itself, nothing inside has room.
proof fn lemma_alone_is_innermost(layout: PaneLayout, pane: usize, direction: ResizeDirection)
    requires
        layout is Split,
        layout.leaves().no_duplicates(),
    ensures
        gives_alone(layout, pane, direction) ==> !room_found(*layout->first, pane, direction)
            && !room_found(*layout->second, pane, direction),
{
    lemma_sides(layout);
    if gives_alone(layout, pane, direction) {
        lemma_room_means_pane(*layout->first, pane, direction);
        lemma_room_means_pane(*layout->second, pane, direction);
        lemma_room_found(PaneLayout::Leaf(pane), pane, direction);
    }
}

/// A resize that succeeds moves the edge of the pane that faces the direction
/// outward or leaves it, makes the pane no narrower, and changes nothing across.
/// Where the pane is the whole of the side that gains, its other edge stays.
pub proof fn law_resize_moves_edge(
    layout: PaneLayout,
    area: Rect,
    out: Seq<Rect>,
    pane: usize,
    direction: ResizeDirection,
    amount: u16,
)
    requires
        layout.leaves().no_duplicates(),
        layout.leaves().contains(pane),
        pane < out.len(),
        area.fits(),
        layout.resized(pane, direction, amount) is Some,
    ensures
        ({
            let after = layout.resized(pane, direction, amount)->0;
            let was = layout.placed(area, out)[pane as int];
            let now = after.placed(area, out)[pane as int];
            &&& stretched(was, now, direction)
            &&& (exists|s: PaneLayout| #[trigger]
                parts(layout).contains(s) && gives_alone(s, pane, direction)) ==> anchored(
                was,
                now,
                direction,
            )
        }),
{
    crate::layout_laws::law_resizing_keeps_panes(layout, pane, direction, amount);
    let after = layout.resized(pane, direction, amount)->0;
    lemma_place_of(layout, area, out, pane);
    lemma_place_of(after, area, out, pane);
    lemma_resized_place(layout, area, pane, direction, amount);
}

/// Whether a rectangle in an area reaches the edge of the area in a direction.
pub open spec fn reaches_edge(rect: Rect, area: Rect, direction: ResizeDirection) -> bool {
    match direction {
        ResizeDirection::Right => rect.x + rect.width == area.x + area.width,
        ResizeDirection::Left => rect.x == area.x,
        ResizeDirection::Down => rect.y + rect.height == area.y + area.height,
        ResizeDirection::Up => rect.y == area.y,
    }
}

/// Whether both sides of every split have weight to give.
pub open spec fn all_can_give(layout: PaneLayout) -> bool {
    forall|s: PaneLayout| #[trigger]
        parts(layout).contains(s) && s is Split ==> s->first_weight > 1 && s->second_weight > 1
}

proof fn lemma_edge_of_place(
    layout: PaneLayout,
    area: Rect,
    pane: usize,
    direction: ResizeDirection,
)
    requires
        layout.leaves().no_duplicates(),
        layout.leaves().contains(pane),
        area.fits(),
        all_can_give(layout),
    ensures
        ({
            let place = place_of(layout, area, pane);
            &&& place.fits()
            &&& area.x <= place.x && place.x + place.width <= area.x + area.width
            &&& area.y <= place.y && place.y + place.height <= area.y + area.height
            &&& !room_found(layout, pane, direction) ==> reaches_edge(place, area, direction)
            &&& room_found(layout, pane, direction) && (forall|i: usize| #[trigger]
                layout.leaves().contains(i) ==> place_of(layout, area, i).width > 0 && place_of(
                    layout,
                    area,
                    i,
                ).height > 0) ==> !reaches_edge(place, area, direction)
        }),
    decreases layout,
{
    if let PaneLayout::Split { axis, first_weight, second_weight, first, second } = layout {
        lemma_sides(layout);
        lemma_room_found(layout, pane, direction);
        lemma_parts_contain(layout, layout);
        lemma_room_means_pane(*first, pane, direction);
        lemma_room_means_pane(*second, pane, direction);
        assert forall|s: PaneLayout| #[trigger] parts(*first).contains(s) && s is Split implies
        s->first_weight > 1 && s->second_weight > 1 by {
            lemma_parts_contain(layout, s);
        }
        assert forall|s: PaneLayout| #[trigger] parts(*second).contains(s) && s is Split implies
        s->first_weight > 1 && s->second_weight > 1 by {
            lemma_parts_contain(layout, s);
        }
        lemma_halves_stretched(area, area, direction, axis, first_weight, second_weight);
        let sides = halves(area, axis, first_weight, second_weight);
        let filled = forall|i: usize| #[trigger]
            layout.leaves().contains(i) ==> place_of(layout, area, i).width > 0 && place_of(
                layout,
                area,
                i,
            ).height > 0;
        let a = first.leaves()[0];
        let b = second.leaves()[0];
        lemma_has_leaf(*first);
        lemma_has_leaf(*second);
        assert(first.leaves().contains(a) && second.leaves().contains(b));
        lemma_edge_of_place(*first, sides.0, a, direction);
        lemma_edge_of_place(*second, sides.1, b, direction);
        if filled {
            assert(layout.leaves().contains(a) && layout.leaves().contains(b));
            assert forall|i: usize| #[trigger] first.leaves().contains(i) implies place_of(
                *first,
                sides.0,
                i,
            ).width > 0 && place_of(*first, sides.0, i).height > 0 by {
                assert(layout.leaves().contains(i));
            }
            assert forall|i: usize| #[trigger] second.leaves().contains(i) implies place_of(
                *second,
                sides.1,
                i,
            ).width > 0 && place_of(*second, sides.1, i).height > 0 by {
                assert(layout.leaves().contains(i));
            }
        }
        if second.leaves().contains(pane) {
            lemma_edge_of_place(*second, sides.1, pane, direction);
        } else {
            lemma_edge_of_place(*first, sides.0, pane, direction);
        }
    } else {
        lemma_room_found(layout, pane, direction);
    }
}

pub proof fn lemma_has_leaf(layout: PaneLayout)
    ensures
        layout.leaves().len() > 0,
    decreases layout,
{
    if let PaneLayout::Split { first, .. } = layout {
        lemma_has_leaf(*first);
    }
}

/// A pane is refused more room in a direction exactly where it reaches the edge of
/// the window there, as long as every pane is shown and all can give.
pub proof fn law_resize_is_refused_at_edge(
    layout: PaneLayout,
    area: Rect,
    out: Seq<Rect>,
    pane: usize,
    direction: ResizeDirection,
    amount: u16,
)
    requires
        layout.leaves().no_duplicates(),
        forall|i: usize| #[trigger] layout.leaves().contains(i) ==> i < out.len(),
        layout.leaves().contains(pane),
        area.fits(),
        amount > 0,
        all_can_give(layout),
    ensures
        layout.resized(pane, direction, amount) is None ==> reaches_edge(
            layout.placed(area, out)[pane as int],
            area,
            direction,
        ),
        (forall|i: usize| #[trigger]
            layout.leaves().contains(i) ==> layout.placed(area, out)[i as int].width > 0
                && layout.placed(area, out)[i as int].height > 0) ==> (layout.resized(
            pane,
            direction,
            amount,
        ) is None <==> reaches_edge(layout.placed(area, out)[pane as int], area, direction)),
{
    law_resize_needs_room(layout, pane, direction, amount);
    assert forall|i: usize| #[trigger] layout.leaves().contains(i) implies layout.placed(
        area,
        out,
    )[i as int] == place_of(layout, area, i) by {
        lemma_place_of(layout, area, out, i);
    }
    lemma_edge_of_place(layout, area, pane, direction);
}

} // verus!
