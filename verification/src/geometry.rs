//! Rectangles of character cells and how they are divided.

use vstd::prelude::*;

use crate::protocol::SplitAxis;

verus! {

#[derive(Debug, Clone, Copy, PartialEq, Eq, Structural)]
pub struct Rect {
    pub x: u16,
    pub y: u16,
    pub width: u16,
    pub height: u16,
}

impl Rect {
    /// Whether the rectangle ends within the coordinates that exist.
    pub open spec fn fits(self) -> bool {
        &&& self.x + self.width <= u16::MAX
        &&& self.y + self.height <= u16::MAX
    }

    /// Whether a cell lies in the rectangle.
    pub open spec fn covers(self, col: int, row: int) -> bool {
        &&& self.x <= col < self.x + self.width
        &&& self.y <= row < self.y + self.height
    }
}

pub open spec fn at_most(n: int, limit: int) -> int {
    if n < limit {
        n
    } else {
        limit
    }
}

pub open spec fn at_least(n: int, limit: int) -> int {
    if n > limit {
        n
    } else {
        limit
    }
}

/// The sum of two coordinates, held at the last coordinate that exists.
pub open spec fn capped_sum(a: u16, b: u16) -> u16 {
    at_most(a + b, u16::MAX as int) as u16
}

/// The difference of two coordinates, held at zero.
pub open spec fn floored_difference(a: u16, b: u16) -> u16 {
    at_least(a - b, 0) as u16
}

/// Whether a cell lies in a rectangle that is cut off at the last coordinate.
pub open spec fn hits(rect: Rect, col: u16, row: u16) -> bool {
    &&& rect.x <= col < capped_sum(rect.x, rect.width)
    &&& rect.y <= row < capped_sum(rect.y, rect.height)
}

pub fn rect_contains(rect: Rect, col: u16, row: u16) -> (result: bool)
    ensures
        result == hits(rect, col, row),
        rect.fits() ==> result == rect.covers(col as int, row as int),
{
    col >= rect.x && col < rect.x.saturating_add(rect.width) && row >= rect.y && row
        < rect.y.saturating_add(rect.height)
}

/// The part of `length` that falls to the first of two weights: at least one
/// cell, and at most all of them.
pub open spec fn first_share(length: u16, first: u16, second: u16) -> u16 {
    at_most(at_least((length * first) / (first + second), 1), length as int) as u16
}

/// An area divided in two by weight along an axis. Without any weight both
/// parts are the whole area.
pub open spec fn halves(area: Rect, axis: SplitAxis, first: u16, second: u16) -> (Rect, Rect) {
    if first + second == 0 {
        (area, area)
    } else {
        match axis {
            SplitAxis::Horizontal => {
                let width = first_share(area.width, first, second);
                (
                    Rect { width, ..area },
                    Rect {
                        x: capped_sum(area.x, width),
                        width: (area.width - width) as u16,
                        ..area
                    },
                )
            },
            SplitAxis::Vertical => {
                let height = first_share(area.height, first, second);
                (
                    Rect { height, ..area },
                    Rect {
                        y: capped_sum(area.y, height),
                        height: (area.height - height) as u16,
                        ..area
                    },
                )
            },
        }
    }
}

proof fn lemma_share_fits(length: int, part: int, total: int)
    requires
        0 <= length,
        0 <= part <= total,
        0 < total,
    ensures
        0 <= (length * part) / total <= length,
{
    assert(0 <= length * part <= length * total) by (nonlinear_arith)
        requires
            0 <= length,
            0 <= part <= total,
    ;
    vstd::arithmetic::div_mod::lemma_div_is_ordered(0, length * part, total);
    vstd::arithmetic::div_mod::lemma_div_is_ordered(length * part, length * total, total);
    vstd::arithmetic::div_mod::lemma_div_multiples_vanish(length, total);
    assert(length * total == total * length) by (nonlinear_arith);
    assert(0int / total == 0) by (nonlinear_arith)
        requires
            0 < total,
    ;
}

/// `length` cells, `part` of `total` of them, held between one and all.
fn share(length: u16, part: u16, total: u32) -> (result: u16)
    requires
        0 < total,
    ensures
        result == at_most(at_least((length * part) / (total as int), 1), length as int),
{
    proof {
        assert(0 <= length * part <= 0xffff * 0xffff) by (nonlinear_arith)
            requires
                0 <= length <= 0xffff,
                0 <= part <= 0xffff,
        ;
    }
    let scaled: u32 = (length as u32 * part as u32) / total;
    let cells: u32 = if scaled < 1 {
        1
    } else {
        scaled
    };
    if cells < length as u32 {
        cells as u16
    } else {
        length
    }
}

pub fn split_rect(area: Rect, axis: SplitAxis, first_weight: u16, second_weight: u16) -> (result: (
    Rect,
    Rect,
))
    ensures
        result == halves(area, axis, first_weight, second_weight),
{
    let total: u32 = first_weight as u32 + second_weight as u32;
    if total == 0 {
        return (area, area);
    }
    match axis {
        SplitAxis::Horizontal => {
            let width: u16 = share(area.width, first_weight, total);
            (
                Rect { width, ..area },
                Rect {
                    x: area.x.saturating_add(width),
                    width: area.width.saturating_sub(width),
                    ..area
                },
            )
        },
        SplitAxis::Vertical => {
            let height: u16 = share(area.height, first_weight, total);
            (
                Rect { height, ..area },
                Rect {
                    y: area.y.saturating_add(height),
                    height: area.height.saturating_sub(height),
                    ..area
                },
            )
        },
    }
}

/// Two weighted parts of an area cover every cell of it once and no cell
/// outside it.
pub proof fn law_halves_tile(area: Rect, axis: SplitAxis, first: u16, second: u16)
    requires
        area.fits(),
        first + second > 0,
    ensures
        halves(area, axis, first, second).0.fits(),
        halves(area, axis, first, second).1.fits(),
        forall|col: int, row: int| #[trigger]
            area.covers(col, row) <==> {
                ||| halves(area, axis, first, second).0.covers(col, row)
                ||| halves(area, axis, first, second).1.covers(col, row)
            },
        forall|col: int, row: int|
            !(#[trigger] halves(area, axis, first, second).0.covers(col, row) && halves(
                area,
                axis,
                first,
                second,
            ).1.covers(col, row)),
{
    lemma_share_fits(area.width as int, first as int, first + second);
    lemma_share_fits(area.height as int, first as int, first + second);
}

/// The weights to lay `count` panes out by: the given ones where there is a
/// positive one for each pane, and otherwise the same for all.
pub open spec fn usable_weights(count: nat, weights: Seq<u16>) -> Seq<u16> {
    if weights.len() == count && forall|i: int| 0 <= i < count ==> #[trigger] weights[i] > 0 {
        weights
    } else {
        Seq::new(count, |i: int| 1u16)
    }
}

pub open spec fn weight_sum(weights: Seq<u16>) -> nat
    decreases weights.len(),
{
    if weights.len() == 0 {
        0
    } else {
        weights[0] as nat + weight_sum(weights.skip(1))
    }
}

/// The cells that fall to one weight out of a total: at least one, where any
/// are left.
pub open spec fn weighted_part(remaining: u16, weight: u16, total: nat) -> u16 {
    if total == 0 {
        0
    } else {
        at_most(at_least((remaining * weight) / (total as int), 1), remaining as int) as u16
    }
}

/// `length` cells dealt out by weight from the front; the last weight takes
/// whatever is left.
pub open spec fn dealt(length: u16, weights: Seq<u16>) -> Seq<u16>
    decreases weights.len(),
{
    if weights.len() == 0 {
        seq![]
    } else if weights.len() == 1 {
        seq![length]
    } else {
        let part = weighted_part(length, weights[0], weight_sum(weights));
        seq![part] + dealt((length - part) as u16, weights.skip(1))
    }
}

/// The rectangle of pane `index` where `parts` are dealt out along an axis.
pub open spec fn lane(area: Rect, axis: SplitAxis, parts: Seq<u16>, index: int) -> Rect {
    let before = weight_sum(parts.take(index));
    match axis {
        SplitAxis::Horizontal => Rect { x: (area.x + before) as u16, width: parts[index], ..area },
        SplitAxis::Vertical => Rect { y: (area.y + before) as u16, height: parts[index], ..area },
    }
}

/// The cells along an axis of an area.
pub open spec fn extent(area: Rect, axis: SplitAxis) -> u16 {
    match axis {
        SplitAxis::Horizontal => area.width,
        SplitAxis::Vertical => area.height,
    }
}

/// Whether an area ends within the coordinates that exist along an axis.
pub open spec fn fits_along(area: Rect, axis: SplitAxis) -> bool {
    match axis {
        SplitAxis::Horizontal => area.x + area.width <= u16::MAX,
        SplitAxis::Vertical => area.y + area.height <= u16::MAX,
    }
}

pub fn normalized_weights(pane_count: usize, weights: &[u16]) -> (result: Vec<u16>)
    ensures
        result@ == usable_weights(pane_count as nat, weights@),
{
    let mut usable = weights.len() == pane_count;
    let mut kept: Vec<u16> = Vec::new();
    let mut i: usize = 0;
    while usable && i < weights.len()
        invariant
            i <= weights@.len(),
            usable ==> weights@.len() == pane_count && kept@ == weights@.take(i as int),
            usable ==> forall|k: int| 0 <= k < i ==> #[trigger] weights@[k] > 0,
            !usable ==> usable_weights(pane_count as nat, weights@) == Seq::new(
                pane_count as nat,
                |i: int| 1u16,
            ),
        ensures
            usable ==> i == weights@.len(),
        decreases weights@.len() - i,
    {
        if weights[i] == 0 {
            return vec![1; pane_count];
        }
        kept.push(weights[i]);
        i = i + 1;
    }
    if usable {
        assert(weights@.take(i as int) == weights@);
        kept
    } else {
        vec![1; pane_count]
    }
}

pub fn weighted_span(remaining: u16, weight: u16, total_weight: u16) -> (result: u16)
    ensures
        result == weighted_part(remaining, weight, total_weight as nat),
{
    if total_weight == 0 {
        return 0;
    }
    share(remaining, weight, total_weight as u32)
}

/// The sum of the parts dealt out is what there was to deal.
pub proof fn law_dealt_parts_fill(length: u16, weights: Seq<u16>)
    requires
        weights.len() > 0,
    ensures
        dealt(length, weights).len() == weights.len(),
        weight_sum(dealt(length, weights)) == length,
    decreases weights.len(),
{
    let parts = dealt(length, weights);
    if weights.len() == 1 {
        assert(parts.skip(1) =~= Seq::<u16>::empty());
        assert(weight_sum(parts.skip(1)) == 0);
    } else {
        let part = weighted_part(length, weights[0], weight_sum(weights));
        let rest = dealt((length - part) as u16, weights.skip(1));
        law_dealt_parts_fill((length - part) as u16, weights.skip(1));
        assert(parts.skip(1) =~= rest);
    }
}

proof fn lemma_weight_sum_split(weights: Seq<u16>, i: int)
    requires
        0 <= i <= weights.len(),
    ensures
        weight_sum(weights) == weight_sum(weights.take(i)) + weight_sum(weights.skip(i)),
    decreases i,
{
    if i == 0 {
        assert(weights.skip(0) == weights);
    } else {
        let rest = weights.skip(1);
        lemma_weight_sum_split(rest, i - 1);
        assert(weights.take(i).skip(1) == rest.take(i - 1));
        assert(weights.skip(i) == rest.skip(i - 1));
    }
}

fn total_weight(weights: &Vec<u16>) -> (result: u16)
    requires
        weight_sum(weights@) <= u16::MAX,
    ensures
        result == weight_sum(weights@),
{
    let mut total: u16 = 0;
    let mut i: usize = 0;
    assert(weights@.skip(0) == weights@);
    while i < weights.len()
        invariant
            i <= weights@.len(),
            weight_sum(weights@) == total + weight_sum(weights@.skip(i as int)),
            weight_sum(weights@) <= u16::MAX,
        decreases weights@.len() - i,
    {
        assert(weights@.skip(i as int).skip(1) == weights@.skip(i + 1));
        total = total + weights[i];
        i = i + 1;
    }
    total
}

fn deal(length: u16, weights: &Vec<u16>) -> (result: Vec<u16>)
    requires
        weight_sum(weights@) <= u16::MAX,
    ensures
        result@ == dealt(length, weights@),
{
    let mut parts: Vec<u16> = Vec::new();
    let mut remaining: u16 = length;
    let mut remaining_weight: u16 = total_weight(weights);
    let mut i: usize = 0;
    assert(weights@.skip(0) == weights@);
    while i < weights.len()
        invariant
            i <= weights@.len(),
            remaining_weight == weight_sum(weights@.skip(i as int)),
            dealt(length, weights@) == parts@ + dealt(remaining, weights@.skip(i as int)),
        decreases weights@.len() - i,
    {
        let ghost rest = weights@.skip(i as int);
        assert(rest.skip(1) == weights@.skip(i + 1));
        let part: u16 = if i + 1 == weights.len() {
            remaining
        } else {
            weighted_span(remaining, weights[i], remaining_weight)
        };
        proof {
            if i + 1 == weights@.len() {
                assert(dealt(0, rest.skip(1)) =~= Seq::<u16>::empty());
            }
        }
        parts.push(part);
        remaining = remaining.saturating_sub(part);
        remaining_weight = remaining_weight.saturating_sub(weights[i]);
        i = i + 1;
        assert(dealt(length, weights@) =~= parts@ + dealt(remaining, weights@.skip(i as int)));
    }
    assert(dealt(remaining, weights@.skip(i as int)) =~= Seq::<u16>::empty());
    parts
}

/// The rectangles of `pane_count` panes that stand side by side, or one above
/// the other, with the given weights.
pub fn compute_pane_rects(
    area: Rect,
    pane_count: usize,
    axis: SplitAxis,
    weights: &[u16],
) -> (result: Vec<Rect>)
    requires
        pane_count > 0 ==> fits_along(area, axis),
        weight_sum(usable_weights(pane_count as nat, weights@)) <= u16::MAX,
    ensures
        ({
            let parts = dealt(extent(area, axis), usable_weights(pane_count as nat, weights@));
            &&& result@.len() == pane_count
            &&& parts.len() == pane_count
            &&& forall|i: int|
                0 <= i < pane_count ==> #[trigger] result@[i] == lane(area, axis, parts, i)
        }),
{
    let mut rects: Vec<Rect> = Vec::new();
    if pane_count == 0 {
        assert(usable_weights(0, weights@) =~= Seq::<u16>::empty());
        return rects;
    }
    let weights = normalized_weights(pane_count, weights);
    let length: u16 = match axis {
        SplitAxis::Horizontal => area.width,
        SplitAxis::Vertical => area.height,
    };
    let parts = deal(length, &weights);
    proof {
        law_dealt_parts_fill(length, weights@);
    }
    let mut before: u16 = 0;
    let mut i: usize = 0;
    while i < parts.len()
        invariant
            i <= parts@.len(),
            rects@.len() == i,
            before == weight_sum(parts@.take(i as int)),
            weight_sum(parts@) == length,
            length == extent(area, axis),
            fits_along(area, axis),
            forall|k: int| 0 <= k < i ==> #[trigger] rects@[k] == lane(area, axis, parts@, k),
        decreases parts@.len() - i,
    {
        proof {
            lemma_weight_sum_split(parts@, i as int);
            lemma_weight_sum_split(parts@, i + 1);
            lemma_weight_sum_split(parts@.take(i + 1), i as int);
            assert(parts@.take(i + 1).take(i as int) == parts@.take(i as int));
            assert(parts@.take(i + 1).skip(i as int) =~= seq![parts@[i as int]]);
            assert(seq![parts@[i as int]].skip(1) =~= Seq::<u16>::empty());
            assert(weight_sum(seq![parts@[i as int]].skip(1)) == 0);
            assert(weight_sum(seq![parts@[i as int]]) == parts@[i as int]);
        }
        let rect = match axis {
            SplitAxis::Horizontal => Rect { x: area.x + before, width: parts[i], ..area },
            SplitAxis::Vertical => Rect { y: area.y + before, height: parts[i], ..area },
        };
        rects.push(rect);
        before = before + parts[i];
        i = i + 1;
    }
    rects
}

} // verus!
