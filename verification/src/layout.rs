//! The tree that divides a window among its panes.

use vstd::prelude::*;

use crate::geometry::{split_rect, Rect};
use crate::protocol::{ResizeDirection, SplitAxis};

verus! {

/// The weight of a pane that was given no other.
pub const EVEN_PANE_WEIGHT: u16 = 100;

/// A leaf stands for a pane, by its place in the window; a split divides its
/// area between two parts by weight.
#[derive(Debug)]
pub enum PaneLayout {
    Leaf(usize),
    Split {
        axis: SplitAxis,
        first_weight: u16,
        second_weight: u16,
        first: Box<PaneLayout>,
        second: Box<PaneLayout>,
    },
}

/// How leaves are renumbered when the panes of a window change.
#[derive(Debug, Clone, Copy)]
pub enum Renumber {
    /// A pane is put in at this place.
    Insert(usize),
    /// The pane at this place is taken out.
    Remove(usize),
}

impl Renumber {
    pub open spec fn applied(self, index: usize) -> usize {
        match self {
            Renumber::Insert(at) => if index >= at {
                (index + 1) as usize
            } else {
                index
            },
            Renumber::Remove(at) => if index > at {
                (index - 1) as usize
            } else {
                index
            },
        }
    }
}

/// The weight of all but the first of `count` even panes.
pub open spec fn even_rest_weight(count: nat) -> u16 {
    let rest = ((count - 1) % 0x1_0000) * EVEN_PANE_WEIGHT;
    if rest > u16::MAX {
        u16::MAX
    } else {
        rest as u16
    }
}

/// `count` panes from number `start` on, each with the same share.
pub open spec fn even_layout(axis: SplitAxis, start: nat, count: nat) -> PaneLayout
    decreases count,
{
    if count <= 1 {
        PaneLayout::Leaf(start as usize)
    } else {
        PaneLayout::Split {
            axis,
            first_weight: EVEN_PANE_WEIGHT,
            second_weight: even_rest_weight(count),
            first: Box::new(PaneLayout::Leaf(start as usize)),
            second: Box::new(even_layout(axis, start + 1, (count - 1) as nat)),
        }
    }
}

/// The weights after `amount` of `shrink` goes to `grow`, which leaves at least
/// one behind; `None` where nothing can go over.
pub open spec fn shifted_weights(grow: u16, shrink: u16, amount: u16) -> Option<(u16, u16)> {
    let spare = if shrink > 0 {
        shrink - 1
    } else {
        0
    };
    let applied = if amount < spare {
        amount as int
    } else {
        spare
    };
    if applied == 0 {
        None
    } else {
        let grown = grow + applied;
        Some(
            (
                if grown > u16::MAX {
                    u16::MAX
                } else {
                    grown as u16
                },
                (shrink - applied) as u16,
            ),
        )
    }
}

impl PaneLayout {
    /// The panes of the tree, first part before second.
    pub open spec fn leaves(self) -> Seq<usize>
        decreases self,
    {
        match self {
            PaneLayout::Leaf(index) => seq![index],
            PaneLayout::Split { first, second, .. } => first.leaves() + second.leaves(),
        }
    }

    /// Whether a pane stands in the tree.
    #[verifier::opaque]
    pub open spec fn has(self, target: usize) -> bool {
        self.leaves().contains(target)
    }

    /// Whether the tree holds each of `count` panes once and nothing else.
    pub open spec fn matches_panes(self, count: nat) -> bool {
        &&& self.leaves().len() == count
        &&& forall|i: usize| i < count ==> #[trigger] self.has(i)
    }

    /// Whether every part of every split has some weight.
    pub open spec fn weighted(self) -> bool
        decreases self,
    {
        match self {
            PaneLayout::Leaf(_) => true,
            PaneLayout::Split { first_weight, second_weight, first, second, .. } => {
                &&& first_weight > 0
                &&& second_weight > 0
                &&& first.weighted()
                &&& second.weighted()
            },
        }
    }

    /// Whether at least one part of every split has some weight.
    pub open spec fn divided(self) -> bool
        decreases self,
    {
        match self {
            PaneLayout::Leaf(_) => true,
            PaneLayout::Split { first_weight, second_weight, first, second, .. } => {
                &&& first_weight + second_weight > 0
                &&& first.divided()
                &&& second.divided()
            },
        }
    }

    /// `out` with the rectangle of each pane put at the pane's place.
    pub open spec fn placed(self, area: Rect, out: Seq<Rect>) -> Seq<Rect>
        decreases self,
    {
        match self {
            PaneLayout::Leaf(index) => if index < out.len() {
                out.update(index as int, area)
            } else {
                out
            },
            PaneLayout::Split { axis, first_weight, second_weight, first, second } => {
                let parts = crate::geometry::halves(area, axis, first_weight, second_weight);
                second.placed(parts.1, first.placed(parts.0, out))
            },
        }
    }

    /// The tree with the first leaf `target` divided evenly between `target`
    /// and `new_index`.
    pub open spec fn split_at(self, target: usize, axis: SplitAxis, new_index: usize) -> PaneLayout
        decreases self,
    {
        match self {
            PaneLayout::Leaf(index) => if index == target {
                PaneLayout::Split {
                    axis,
                    first_weight: EVEN_PANE_WEIGHT,
                    second_weight: EVEN_PANE_WEIGHT,
                    first: Box::new(PaneLayout::Leaf(target)),
                    second: Box::new(PaneLayout::Leaf(new_index)),
                }
            } else {
                self
            },
            PaneLayout::Split { axis: own, first_weight, second_weight, first, second } => {
                if first.has(target) {
                    PaneLayout::Split {
                        axis: own,
                        first_weight,
                        second_weight,
                        first: Box::new(first.split_at(target, axis, new_index)),
                        second,
                    }
                } else {
                    PaneLayout::Split {
                        axis: own,
                        first_weight,
                        second_weight,
                        first,
                        second: Box::new(second.split_at(target, axis, new_index)),
                    }
                }
            },
        }
    }

    /// Whether a leaf can be taken out: it is there, and not the whole tree.
    pub open spec fn can_lose(self, target: usize) -> bool {
        self is Split && self.has(target)
    }

    /// The tree with a leaf `target` taken out and its sibling in its parent's
    /// place.
    pub open spec fn without(self, target: usize) -> PaneLayout
        decreases self,
    {
        match self {
            PaneLayout::Leaf(_) => self,
            PaneLayout::Split { axis, first_weight, second_weight, first, second } => {
                if *first == PaneLayout::Leaf(target) {
                    *second
                } else if *second == PaneLayout::Leaf(target) {
                    *first
                } else if first.can_lose(target) {
                    PaneLayout::Split {
                        axis,
                        first_weight,
                        second_weight,
                        first: Box::new(first.without(target)),
                        second,
                    }
                } else {
                    PaneLayout::Split {
                        axis,
                        first_weight,
                        second_weight,
                        first,
                        second: Box::new(second.without(target)),
                    }
                }
            },
        }
    }

    /// The tree with every leaf renumbered.
    pub open spec fn renumbered(self, renumber: Renumber) -> PaneLayout
        decreases self,
    {
        match self {
            PaneLayout::Leaf(index) => PaneLayout::Leaf(renumber.applied(index)),
            PaneLayout::Split { axis, first_weight, second_weight, first, second } =>
                PaneLayout::Split {
                axis,
                first_weight,
                second_weight,
                first: Box::new(first.renumbered(renumber)),
                second: Box::new(second.renumbered(renumber)),
            },
        }
    }

    /// The tree after the innermost split that can give the pane `target` more
    /// room in a direction has done so; `None` where no split can.
    pub open spec fn resized(self, target: usize, direction: ResizeDirection, amount: u16) -> Option<
        PaneLayout,
    >
        decreases self,
    {
        match self {
            PaneLayout::Leaf(_) => None,
            PaneLayout::Split { axis, first_weight, second_weight, first, second } => {
                if first.resized(target, direction, amount) is Some {
                    Some(
                        PaneLayout::Split {
                            axis,
                            first_weight,
                            second_weight,
                            first: Box::new(first.resized(target, direction, amount)->0),
                            second,
                        },
                    )
                } else if second.resized(target, direction, amount) is Some {
                    Some(
                        PaneLayout::Split {
                            axis,
                            first_weight,
                            second_weight,
                            first,
                            second: Box::new(second.resized(target, direction, amount)->0),
                        },
                    )
                } else {
                    let only_first = first.has(target) && !second.has(target);
                    let only_second = second.has(target) && !first.has(target);
                    let grow_first = only_first && (axis == SplitAxis::Horizontal && direction
                        == ResizeDirection::Right || axis == SplitAxis::Vertical && direction
                        == ResizeDirection::Down);
                    let grow_second = only_second && (axis == SplitAxis::Horizontal && direction
                        == ResizeDirection::Left || axis == SplitAxis::Vertical && direction
                        == ResizeDirection::Up);
                    if grow_first {
                        match shifted_weights(first_weight, second_weight, amount) {
                            Some((grown, shrunk)) => Some(
                                PaneLayout::Split {
                                    axis,
                                    first_weight: grown,
                                    second_weight: shrunk,
                                    first,
                                    second,
                                },
                            ),
                            None => None,
                        }
                    } else if grow_second {
                        match shifted_weights(second_weight, first_weight, amount) {
                            Some((grown, shrunk)) => Some(
                                PaneLayout::Split {
                                    axis,
                                    first_weight: shrunk,
                                    second_weight: grown,
                                    first,
                                    second,
                                },
                            ),
                            None => None,
                        }
                    } else {
                        None
                    }
                }
            },
        }
    }

    /// The axis of the outermost split.
    pub open spec fn outer_axis(self) -> SplitAxis {
        match self {
            PaneLayout::Leaf(_) => SplitAxis::Horizontal,
            PaneLayout::Split { axis, .. } => axis,
        }
    }

    /// The weights shown for `count` panes: those of a plain split in two, or
    /// the even weight for each.
    pub open spec fn shown_weights(self, count: nat) -> Seq<u16> {
        let even = Seq::new(count, |i: int| EVEN_PANE_WEIGHT);
        match self {
            PaneLayout::Split { first_weight, second_weight, first, second, .. } => {
                if count == 2 && *first == PaneLayout::Leaf(0) && *second == PaneLayout::Leaf(1) {
                    seq![first_weight, second_weight]
                } else {
                    even
                }
            },
            PaneLayout::Leaf(_) => even,
        }
    }

    /// The tree itself where it holds each of `count` panes once, and an even
    /// layout along its outermost axis where it does not.
    pub open spec fn repaired(self, count: nat) -> PaneLayout {
        if self.matches_panes(count) {
            self
        } else {
            even_layout(self.outer_axis(), 0, count)
        }
    }

    pub fn single() -> (result: Self)
        ensures
            result == PaneLayout::Leaf(0),
    {
        PaneLayout::Leaf(0)
    }

    pub fn even(axis: SplitAxis, count: usize) -> (result: Self)
        ensures
            result == even_layout(axis, 0, count as nat),
    {
        PaneLayout::even_from(axis, 0, count)
    }

    pub fn even_from(axis: SplitAxis, start: usize, count: usize) -> (result: Self)
        requires
            start + count <= usize::MAX,
        ensures
            result == even_layout(axis, start as nat, count as nat),
        decreases count,
    {
        if count <= 1 {
            return PaneLayout::Leaf(start);
        }
        let rest: u64 = ((count - 1) as u64 % 0x1_0000) * EVEN_PANE_WEIGHT as u64;
        let second_weight: u16 = if rest > u16::MAX as u64 {
            u16::MAX
        } else {
            rest as u16
        };
        PaneLayout::Split {
            axis,
            first_weight: EVEN_PANE_WEIGHT,
            second_weight,
            first: Box::new(PaneLayout::Leaf(start)),
            second: Box::new(PaneLayout::even_from(axis, start + 1, count - 1)),
        }
    }

    /// Puts the rectangle of each pane at the pane's place in `out`.
    pub fn rects(&self, area: Rect, out: &mut Vec<Rect>)
        ensures
            final(out)@ == self.placed(area, old(out)@),
        decreases self,
    {
        match self {
            PaneLayout::Leaf(index) => {
                if *index < out.len() {
                    out.set(*index, area);
                }
            },
            PaneLayout::Split { axis, first_weight, second_weight, first, second } => {
                let (first_rect, second_rect) = split_rect(
                    area,
                    *axis,
                    *first_weight,
                    *second_weight,
                );
                first.rects(first_rect, out);
                second.rects(second_rect, out);
            },
        }
    }

    pub fn split_leaf(&mut self, target: usize, axis: SplitAxis, new_index: usize) -> (result: bool)
        ensures
            result == old(self).has(target),
            *final(self) == old(self).split_at(target, axis, new_index),
        decreases *old(self),
    {
        if let PaneLayout::Leaf(index) = self {
            let index: usize = *index;
            proof {
                lemma_has_leaf(*old(self), target);
            }
            if index != target {
                return false;
            }
            *self = PaneLayout::Split {
                axis,
                first_weight: EVEN_PANE_WEIGHT,
                second_weight: EVEN_PANE_WEIGHT,
                first: Box::new(PaneLayout::Leaf(target)),
                second: Box::new(PaneLayout::Leaf(new_index)),
            };
            return true;
        }
        match self {
            PaneLayout::Leaf(_) => false,
            PaneLayout::Split { first, second, .. } => {
                proof {
                    lemma_leaves_of_split(*old(self), target);
                }
                let ghost before = **first;
                if first.split_leaf(target, axis, new_index) {
                    return true;
                }
                proof {
                    lemma_split_at_absent(before, target, axis, new_index);
                }
                second.split_leaf(target, axis, new_index)
            },
        }
    }

    pub fn remove_leaf(&mut self, target: usize) -> (result: bool)
        ensures
            result == old(self).can_lose(target),
            *final(self) == old(self).without(target),
        decreases *old(self),
    {
        match self {
            PaneLayout::Leaf(_) => false,
            PaneLayout::Split { first, second, .. } => {
                proof {
                    lemma_leaves_of_split(*old(self), target);
                    lemma_has_leaf(**first, target);
                    lemma_has_leaf(**second, target);
                }
                let ghost before = **first;
                if first.is_leaf(target) {
                    let mut replacement = PaneLayout::single();
                    std::mem::swap(&mut replacement, &mut **second);
                    *self = replacement;
                    return true;
                }
                if second.is_leaf(target) {
                    let mut replacement = PaneLayout::single();
                    std::mem::swap(&mut replacement, &mut **first);
                    *self = replacement;
                    return true;
                }
                if first.remove_leaf(target) {
                    return true;
                }
                proof {
                    lemma_without_absent(before, target);
                }
                second.remove_leaf(target)
            },
        }
    }

    fn is_leaf(&self, target: usize) -> (result: bool)
        ensures
            result == (*self == PaneLayout::Leaf(target)),
    {
        match self {
            PaneLayout::Leaf(index) => *index == target,
            PaneLayout::Split { .. } => false,
        }
    }

    pub fn leaf_count(&self) -> (result: usize)
        requires
            self.leaves().len() <= usize::MAX,
        ensures
            result == self.leaves().len(),
        decreases self,
    {
        match self {
            PaneLayout::Leaf(_) => 1,
            PaneLayout::Split { first, second, .. } => first.leaf_count() + second.leaf_count(),
        }
    }

    pub fn remap_indices(&mut self, renumber: Renumber)
        requires
            !old(self).has(usize::MAX),
        ensures
            *final(self) == old(self).renumbered(renumber),
        decreases *old(self),
    {
        match self {
            PaneLayout::Leaf(index) => {
                proof {
                    lemma_has_leaf(*old(self), usize::MAX);
                }
                match renumber {
                    Renumber::Insert(at) => {
                        if *index >= at {
                            *index = *index + 1;
                        }
                    },
                    Renumber::Remove(at) => {
                        if *index > at {
                            *index = *index - 1;
                        }
                    },
                }
            },
            PaneLayout::Split { first, second, .. } => {
                proof {
                    lemma_leaves_of_split(*old(self), usize::MAX);
                }
                first.remap_indices(renumber);
                second.remap_indices(renumber);
            },
        }
    }

    pub fn contains_leaf(&self, target: usize) -> (result: bool)
        ensures
            result == self.has(target),
        decreases self,
    {
        match self {
            PaneLayout::Leaf(index) => {
                proof {
                    lemma_has_leaf(*self, target);
                }
                *index == target
            },
            PaneLayout::Split { first, second, .. } => {
                proof {
                    lemma_leaves_of_split(*self, target);
                }
                first.contains_leaf(target) || second.contains_leaf(target)
            },
        }
    }

    pub fn resize_leaf(
        &mut self,
        target: usize,
        direction: ResizeDirection,
        amount: u16,
    ) -> (result: bool)
        ensures
            match old(self).resized(target, direction, amount) {
                Some(layout) => result && *final(self) == layout,
                None => !result && *final(self) == *old(self),
            },
        decreases *old(self),
    {
        match self {
            PaneLayout::Leaf(_) => false,
            PaneLayout::Split { axis, first_weight, second_weight, first, second } => {
                if first.resize_leaf(target, direction, amount) {
                    return true;
                }
                if second.resize_leaf(target, direction, amount) {
                    return true;
                }
                let in_first = first.contains_leaf(target);
                let in_second = second.contains_leaf(target);
                let grow_first = in_first && !in_second && match (*axis, direction) {
                    (SplitAxis::Horizontal, ResizeDirection::Right) => true,
                    (SplitAxis::Vertical, ResizeDirection::Down) => true,
                    _ => false,
                };
                let grow_second = in_second && !in_first && match (*axis, direction) {
                    (SplitAxis::Horizontal, ResizeDirection::Left) => true,
                    (SplitAxis::Vertical, ResizeDirection::Up) => true,
                    _ => false,
                };
                if grow_first {
                    return apply_weight_delta(first_weight, second_weight, amount);
                }
                if grow_second {
                    return apply_weight_delta(second_weight, first_weight, amount);
                }
                false
            },
        }
    }

    pub fn root_axis(&self) -> (result: SplitAxis)
        ensures
            result == self.outer_axis(),
    {
        match self {
            PaneLayout::Leaf(_) => SplitAxis::Horizontal,
            PaneLayout::Split { axis, .. } => *axis,
        }
    }

    pub fn pane_weights(&self, pane_count: usize) -> (result: Vec<u16>)
        ensures
            result@ == self.shown_weights(pane_count as nat),
    {
        if pane_count == 2 {
            if let PaneLayout::Split { first_weight, second_weight, first, second, .. } = self {
                if first.is_leaf(0) && second.is_leaf(1) {
                    let mut weights: Vec<u16> = Vec::new();
                    weights.push(*first_weight);
                    weights.push(*second_weight);
                    assert(weights@ =~= self.shown_weights(2));
                    return weights;
                }
            }
        }
        let weights = vec![EVEN_PANE_WEIGHT; pane_count];
        assert(weights@ =~= self.shown_weights(pane_count as nat));
        weights
    }

    /// Rebuilds an even layout where the tree no longer maps one leaf to each
    /// of `count` panes.
    pub fn repair(&mut self, count: usize)
        requires
            old(self).leaves().len() <= usize::MAX,
        ensures
            *final(self) == old(self).repaired(count as nat),
    {
        if !self.maps_panes(count) {
            *self = PaneLayout::even(self.root_axis(), count);
        }
    }

    fn maps_panes(&self, count: usize) -> (result: bool)
        requires
            self.leaves().len() <= usize::MAX,
        ensures
            result == self.matches_panes(count as nat),
    {
        if self.leaf_count() != count {
            return false;
        }
        let mut index: usize = 0;
        while index < count
            invariant
                index <= count,
                self.leaves().len() == count,
                forall|i: usize| i < index ==> #[trigger] self.has(i),
            decreases count - index,
        {
            if !self.contains_leaf(index) {
                return false;
            }
            index = index + 1;
        }
        true
    }
}

/// Moves up to `amount` from one weight to the other and leaves one behind.
pub fn apply_weight_delta(grow: &mut u16, shrink: &mut u16, amount: u16) -> (result: bool)
    ensures
        match shifted_weights(*old(grow), *old(shrink), amount) {
            Some((grown, shrunk)) => result && *final(grow) == grown && *final(shrink) == shrunk,
            None => !result && *final(grow) == *old(grow) && *final(shrink) == *old(shrink),
        },
{
    let spare: u16 = shrink.saturating_sub(1);
    let applied: u16 = if amount < spare {
        amount
    } else {
        spare
    };
    if applied == 0 {
        return false;
    }
    *grow = grow.saturating_add(applied);
    *shrink = shrink.saturating_sub(applied);
    true
}

/// A split holds what its parts hold.
pub proof fn lemma_leaves_of_split(layout: PaneLayout, target: usize)
    requires
        layout is Split,
    ensures
        layout.has(target) <==> layout->first.has(target) || layout->second.has(target),
{
    reveal(PaneLayout::has);
    let a = layout->first.leaves();
    let b = layout->second.leaves();
    assert(layout.leaves() == a + b);
    if a.contains(target) {
        let i = choose|i: int| 0 <= i < a.len() && a[i] == target;
        assert((a + b)[i] == target);
    }
    if b.contains(target) {
        let i = choose|i: int| 0 <= i < b.len() && b[i] == target;
        assert((a + b)[a.len() + i] == target);
    }
    if (a + b).contains(target) {
        let i = choose|i: int| 0 <= i < (a + b).len() && (a + b)[i] == target;
        if i < a.len() {
            assert(a[i] == target);
        } else {
            assert(b[i - a.len()] == target);
        }
    }
}

proof fn lemma_split_at_absent(layout: PaneLayout, target: usize, axis: SplitAxis, new_index: usize)
    requires
        !layout.has(target),
    ensures
        layout.split_at(target, axis, new_index) == layout,
    decreases layout,
{
    match layout {
        PaneLayout::Leaf(_) => {
            lemma_has_leaf(layout, target);
        },
        PaneLayout::Split { first, second, .. } => {
            lemma_leaves_of_split(layout, target);
            lemma_split_at_absent(*second, target, axis, new_index);
        },
    }
}

proof fn lemma_has_leaf(layout: PaneLayout, target: usize)
    ensures
        layout == PaneLayout::Leaf(target) ==> layout.has(target),
        layout is Leaf && layout.has(target) ==> layout == PaneLayout::Leaf(target),
{
    reveal(PaneLayout::has);
    if let PaneLayout::Leaf(index) = layout {
        assert(layout.leaves()[0] == index);
    }
}

proof fn lemma_without_absent(layout: PaneLayout, target: usize)
    requires
        !layout.can_lose(target),
    ensures
        layout.without(target) == layout,
    decreases layout,
{
    if let PaneLayout::Split { first, second, .. } = layout {
        lemma_leaves_of_split(layout, target);
        lemma_has_leaf(*first, target);
        lemma_has_leaf(*second, target);
        lemma_without_absent(*second, target);
    }
}

/// Placing panes keeps the number of rectangles.
pub proof fn lemma_placed_len(layout: PaneLayout, area: Rect, out: Seq<Rect>)
    ensures
        layout.placed(area, out).len() == out.len(),
    decreases layout,
{
    if let PaneLayout::Split { axis, first_weight, second_weight, first, second } = layout {
        let parts = crate::geometry::halves(area, axis, first_weight, second_weight);
        lemma_placed_len(*first, parts.0, out);
        lemma_placed_len(*second, parts.1, first.placed(parts.0, out));
    }
}

} // verus!
