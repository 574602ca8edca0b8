//! What holds of every layout: each pane has one place, the places tile the
//! window, and taking out what a split put in gives back what was there.

use vstd::prelude::*;

#[allow(unused_imports)]
use crate::geometry::Rect;
#[allow(unused_imports)]
use crate::layout::{PaneLayout, Renumber};
#[allow(unused_imports)]
use crate::protocol::{ResizeDirection, SplitAxis};

verus! {

/// Whether no pane stands in two places of a tree.
pub open spec fn distinct(layout: PaneLayout) -> bool
    decreases layout,
{
    match layout {
        PaneLayout::Leaf(_) => true,
        PaneLayout::Split { first, second, .. } => {
            &&& distinct(*first)
            &&& distinct(*second)
            &&& forall|i: usize| !(#[trigger] first.has(i) && second.has(i))
        },
    }
}

proof fn lemma_has_all(layout: PaneLayout)
    ensures
        layout is Split ==> forall|i: usize|
            #![trigger layout.has(i)]
            #![trigger layout->first.has(i)]
            #![trigger layout->second.has(i)]
            layout.has(i) <==> layout->first.has(i) || layout->second.has(i),
        layout is Leaf ==> forall|i: usize| #[trigger] layout.has(i) <==> i == layout->Leaf_0,
{
    if layout is Split {
        assert forall|i: usize|
            #![trigger layout.has(i)]
            #![trigger layout->first.has(i)]
            #![trigger layout->second.has(i)]
            layout.has(i) <==> layout->first.has(i) || layout->second.has(i) by {
            crate::layout::lemma_leaves_of_split(layout, i);
        }
    } else {
        reveal(PaneLayout::has);
        assert(layout.leaves()[0] == layout->Leaf_0);
    }
}

pub proof fn lemma_distinct(layout: PaneLayout)
    ensures
        distinct(layout) <==> layout.leaves().no_duplicates(),
    decreases layout,
{
    reveal(PaneLayout::has);
    if let PaneLayout::Split { first, second, .. } = layout {
        lemma_distinct(*first);
        lemma_distinct(*second);
        let a = first.leaves();
        let b = second.leaves();
        let s = a + b;
        if distinct(layout) {
            assert forall|i: int, j: int| 0 <= i < j < s.len() implies s[i] != s[j] by {
                if i < a.len() && j >= a.len() {
                    assert(a[i] == s[i]);
                    assert(b[j - a.len()] == s[j]);
                    assert(first.has(a[i]));
                    if s[i] == s[j] {
                        assert(second.has(a[i]));
                    }
                } else if j < a.len() {
                    assert(a[i] == s[i] && a[j] == s[j]);
                } else {
                    assert(b[i - a.len()] == s[i] && b[j - a.len()] == s[j]);
                }
            }
        }
        if s.no_duplicates() {
            assert forall|i: int, j: int| 0 <= i < a.len() && 0 <= j < a.len() && i != j implies a[i]
                != a[j] by {
                assert(a[i] == s[i] && a[j] == s[j]);
            }
            assert forall|i: int, j: int| 0 <= i < b.len() && 0 <= j < b.len() && i != j implies b[i]
                != b[j] by {
                assert(b[i] == s[a.len() + i] && b[j] == s[a.len() + j]);
            }
            assert forall|p: usize| !(#[trigger] first.has(p) && second.has(p)) by {
                if first.has(p) && second.has(p) {
                    let i = choose|i: int| 0 <= i < a.len() && a[i] == p;
                    let j = choose|j: int| 0 <= j < b.len() && b[j] == p;
                    assert(s[i] == s[a.len() + j]);
                }
            }
        }
    }
}

proof fn lemma_numbers_once(s: Seq<usize>, n: nat)
    requires
        s.len() == n,
        n <= usize::MAX,
        forall|i: usize| i < n ==> #[trigger] s.contains(i),
    ensures
        s.no_duplicates(),
        forall|i: usize| #[trigger] s.contains(i) ==> i < n,
    decreases n,
{
    if n > 0 {
        let last = (n - 1) as usize;
        assert(s.contains(last));
        let k = choose|k: int| 0 <= k < s.len() && s[k] == last;
        let rest = s.remove(k);
        assert forall|i: usize| i < n - 1 implies #[trigger] rest.contains(i) by {
            assert(s.contains(i));
            let j = choose|j: int| 0 <= j < s.len() && s[j] == i;
            if j < k {
                assert(rest[j] == i);
            } else {
                assert(rest[j - 1] == i);
            }
        }
        lemma_numbers_once(rest, (n - 1) as nat);
        assert forall|i: int| 0 <= i < s.len() && i != k implies s[i] < n - 1 by {
            let j = if i < k {
                i
            } else {
                i - 1
            };
            assert(rest[j] == s[i]);
            assert(rest.contains(s[i]));
        }
        assert forall|i: int, j: int| 0 <= i < j < s.len() implies s[i] != s[j] by {
            if i != k && j != k {
                let a = if i < k {
                    i
                } else {
                    i - 1
                };
                let b = if j < k {
                    j
                } else {
                    j - 1
                };
                assert(rest[a] == s[i] && rest[b] == s[j]);
            }
        }
    }
}

proof fn lemma_numbers_counted(s: Seq<usize>, n: nat)
    requires
        s.no_duplicates(),
        n <= usize::MAX,
        forall|i: usize| #[trigger] s.contains(i) <==> i < n,
    ensures
        s.len() == n,
    decreases n,
{
    if n == 0 {
        if s.len() > 0 {
            assert(s.contains(s[0]));
        }
    } else {
        let last = (n - 1) as usize;
        assert(s.contains(last));
        let k = choose|k: int| 0 <= k < s.len() && s[k] == last;
        let rest = s.remove(k);
        assert forall|i: usize| #[trigger] rest.contains(i) <==> i < n - 1 by {
            if rest.contains(i) {
                let j = choose|j: int| 0 <= j < rest.len() && rest[j] == i;
                let j2 = if j < k {
                    j
                } else {
                    j + 1
                };
                assert(s[j2] == i);
                assert(s.contains(i));
            }
            if i < n - 1 {
                assert(s.contains(i));
                let j = choose|j: int| 0 <= j < s.len() && s[j] == i;
                if j < k {
                    assert(rest[j] == i);
                } else {
                    assert(rest[j - 1] == i);
                }
            }
        }
        lemma_numbers_counted(rest, (n - 1) as nat);
    }
}

/// A tree holds each of `count` panes once exactly where no pane stands twice
/// and the panes that stand in it are those numbered below `count`.
pub proof fn lemma_matches_panes(layout: PaneLayout, count: nat)
    requires
        count <= usize::MAX,
    ensures
        layout.matches_panes(count) <==> {
            &&& distinct(layout)
            &&& forall|i: usize| #[trigger] layout.has(i) <==> i < count
        },
{
    reveal(PaneLayout::has);
    lemma_distinct(layout);
    let s = layout.leaves();
    if layout.matches_panes(count) {
        assert forall|i: usize| i < count implies #[trigger] s.contains(i) by {
            assert(layout.has(i));
        }
        lemma_numbers_once(s, count);
        assert forall|i: usize| #[trigger] layout.has(i) <==> i < count by {
            assert(layout.has(i) == s.contains(i));
        }
    }
    if distinct(layout) && (forall|i: usize| #[trigger] layout.has(i) <==> i < count) {
        assert forall|i: usize| #[trigger] s.contains(i) <==> i < count by {
            assert(layout.has(i) == s.contains(i));
        }
        lemma_numbers_counted(s, count);
    }
}

/// A tree that holds each of `count` panes once has those numbered below `count`
/// as its leaves, none of them twice.
pub proof fn lemma_matches_leaves(layout: PaneLayout, count: nat)
    requires
        count <= usize::MAX,
        layout.matches_panes(count),
    ensures
        layout.leaves().no_duplicates(),
        forall|i: usize| #[trigger] layout.leaves().contains(i) <==> i < count,
{
    lemma_matches_panes(layout, count);
    lemma_distinct(layout);
    assert forall|i: usize| #[trigger] layout.leaves().contains(i) <==> i < count by {
        reveal(PaneLayout::has);
        assert(layout.has(i) <==> i < count);
    }
}

proof fn lemma_even_has(axis: SplitAxis, start: nat, count: nat)
    requires
        count >= 1,
        start + count <= usize::MAX,
    ensures
        distinct(crate::layout::even_layout(axis, start, count)),
        forall|i: usize| #[trigger]
            crate::layout::even_layout(axis, start, count).has(i) <==> start <= i < start + count,
    decreases count,
{
    let layout = crate::layout::even_layout(axis, start, count);
    lemma_has_all(layout);
    if count > 1 {
        lemma_has_all(*layout->first);
        lemma_even_has(axis, start + 1, (count - 1) as nat);
        assert(distinct(*layout->first));
    }
}

/// The leaves of an even layout are its panes in order.
pub proof fn law_even_leaves(axis: SplitAxis, start: nat, count: nat)
    requires
        1 <= count,
        start + count <= usize::MAX,
    ensures
        ({
            let leaves = crate::layout::even_layout(axis, start, count).leaves();
            &&& leaves == Seq::new(count, |i: int| (start + i) as usize)
            &&& leaves.no_duplicates()
            &&& forall|i: usize| #[trigger] leaves.contains(i) <==> start <= i < start + count
        }),
    decreases count,
{
    let layout = crate::layout::even_layout(axis, start, count);
    let leaves = layout.leaves();
    let wanted = Seq::new(count, |i: int| (start + i) as usize);
    if count == 1 {
        assert(leaves =~= wanted);
    } else {
        law_even_leaves(axis, start + 1, (count - 1) as nat);
        assert(layout->first.leaves() =~= seq![start as usize]);
        assert(leaves =~= wanted);
    }
    assert forall|i: usize| #[trigger] leaves.contains(i) <==> start <= i < start + count by {
        if start <= i < start + count {
            assert(wanted[i - start] == i);
        }
    }
}

/// An even layout of some panes has one place for each of them.
pub proof fn law_even_layout_maps_panes(axis: SplitAxis, count: nat)
    requires
        1 <= count <= usize::MAX,
    ensures
        crate::layout::even_layout(axis, 0, count).matches_panes(count),
{
    lemma_even_has(axis, 0, count);
    lemma_matches_panes(crate::layout::even_layout(axis, 0, count), count);
}

/// Every part of an even layout has some weight. (With one pane more than a
/// multiple of 65536 the weight of the rest comes out as none.)
pub proof fn law_even_layout_is_weighted(axis: SplitAxis, start: nat, count: nat)
    requires
        count <= 0x1_0000,
    ensures
        crate::layout::even_layout(axis, start, count).weighted(),
    decreases count,
{
    if count > 1 {
        assert((count - 1) % 0x1_0000 == count - 1) by {
            vstd::arithmetic::div_mod::lemma_small_mod((count - 1) as nat, 0x1_0000);
        }
        law_even_layout_is_weighted(axis, start + 1, (count - 1) as nat);
        assert(crate::layout::even_layout(axis, start, count)->first.weighted());
    }
}

/// An even layout divides each part of it between two, however many panes it has.
pub proof fn law_even_layout_is_divided(axis: SplitAxis, start: nat, count: nat)
    ensures
        crate::layout::even_layout(axis, start, count).divided(),
    decreases count,
{
    if count > 1 {
        law_even_layout_is_divided(axis, start + 1, (count - 1) as nat);
        assert(crate::layout::even_layout(axis, start, count)->first.divided());
    }
}

/// A repaired layout has one place for each pane.
pub proof fn law_repaired_maps_panes(layout: PaneLayout, count: nat)
    requires
        1 <= count <= usize::MAX,
    ensures
        layout.repaired(count).matches_panes(count),
{
    law_even_layout_maps_panes(layout.outer_axis(), count);
}

pub proof fn lemma_renumbered(layout: PaneLayout, renumber: Renumber)
    requires
        !layout.has(usize::MAX),
    ensures
        layout.weighted() ==> layout.renumbered(renumber).weighted(),
        layout.divided() ==> layout.renumbered(renumber).divided(),
        renumber matches Renumber::Insert(at) ==> {
            &&& forall|j: usize| #[trigger]
                layout.renumbered(renumber).has(j) <==> (j < at && layout.has(j)) || (j > at
                    && layout.has((j - 1) as usize))
            &&& distinct(layout) ==> distinct(layout.renumbered(renumber))
        },
        renumber matches Renumber::Remove(at) ==> {
            &&& !layout.has(at) ==> forall|j: usize| #[trigger]
                layout.renumbered(renumber).has(j) <==> (j < at && layout.has(j)) || (at <= j
                    < usize::MAX && layout.has((j + 1) as usize))
            &&& distinct(layout) && !layout.has(at) ==> distinct(layout.renumbered(renumber))
        },
    decreases layout,
{
    lemma_has_all(layout);
    lemma_has_all(layout.renumbered(renumber));
    if let PaneLayout::Split { first, second, .. } = layout {
        lemma_renumbered(*first, renumber);
        lemma_renumbered(*second, renumber);
    }
}

pub proof fn lemma_split_at(layout: PaneLayout, target: usize, axis: SplitAxis, new_index: usize)
    requires
        layout.has(target),
        target != new_index,
    ensures
        layout.weighted() ==> layout.split_at(target, axis, new_index).weighted(),
        layout.divided() ==> layout.split_at(target, axis, new_index).divided(),
        forall|j: usize| #[trigger]
            layout.split_at(target, axis, new_index).has(j) <==> layout.has(j) || j == new_index,
        distinct(layout) && !layout.has(new_index) ==> distinct(
            layout.split_at(target, axis, new_index),
        ),
    decreases layout,
{
    let split = layout.split_at(target, axis, new_index);
    lemma_has_all(layout);
    lemma_has_all(split);
    match layout {
        PaneLayout::Leaf(index) => {
            lemma_has_all(*split->first);
            lemma_has_all(*split->second);
            assert(split->first.weighted() && split->second.weighted());
            assert(split->first.divided() && split->second.divided());
            assert(distinct(*split->first) && distinct(*split->second));
        },
        PaneLayout::Split { first, second, .. } => {
            if first.has(target) {
                lemma_split_at(*first, target, axis, new_index);
            } else {
                lemma_split_at(*second, target, axis, new_index);
            }
        },
    }
}

pub proof fn lemma_without(layout: PaneLayout, target: usize)
    requires
        layout.can_lose(target),
        distinct(layout),
    ensures
        layout.weighted() ==> layout.without(target).weighted(),
        layout.divided() ==> layout.without(target).divided(),
        forall|j: usize| #[trigger] layout.without(target).has(j) <==> layout.has(j) && j != target,
        distinct(layout.without(target)),
    decreases layout,
{
    let rest = layout.without(target);
    lemma_has_all(layout);
    lemma_has_all(rest);
    let first = *layout->first;
    let second = *layout->second;
    lemma_has_all(first);
    lemma_has_all(second);
    assert(!(first.has(target) && second.has(target)));
    if first == PaneLayout::Leaf(target) || second == PaneLayout::Leaf(target) {
    } else if first.can_lose(target) {
        lemma_without(first, target);
    } else {
        lemma_without(second, target);
    }
}

/// Splitting a pane in two gives the new pane a place beside it, moves the
/// panes after it up by one, and keeps one place for each.
pub proof fn law_split_maps_panes(layout: PaneLayout, count: nat, active: usize, axis: SplitAxis)
    requires
        layout.matches_panes(count),
        active < count < usize::MAX,
    ensures
        ({
            let at = (active + 1) as usize;
            let split = layout.renumbered(Renumber::Insert(at)).split_at(active, axis, at);
            &&& split.matches_panes(count + 1)
            &&& layout.weighted() ==> split.weighted()
            &&& layout.divided() ==> split.divided()
        }),
{
    let at = (active + 1) as usize;
    lemma_matches_panes(layout, count);
    let moved = layout.renumbered(Renumber::Insert(at));
    lemma_renumbered(layout, Renumber::Insert(at));
    assert(layout.has(active));
    assert(moved.has(active));
    lemma_split_at(moved, active, axis, at);
    assert forall|j: usize| #[trigger] moved.split_at(active, axis, at).has(j) <==> j < count + 1 by {
        if j > at {
            assert(layout.has((j - 1) as usize) <==> j - 1 < count);
        }
        assert(moved.has(j) <==> (j < at && layout.has(j)) || (j > at && layout.has(
            (j - 1) as usize,
        )));
    }
    lemma_matches_panes(moved.split_at(active, axis, at), count + 1);
}

/// Taking a pane out moves the panes after it down by one and keeps one place
/// for each that is left.
pub proof fn law_removal_maps_panes(layout: PaneLayout, count: nat, index: usize)
    requires
        layout.matches_panes(count),
        index < count <= usize::MAX,
        count >= 2,
    ensures
        ({
            let rest = layout.without(index).renumbered(Renumber::Remove(index));
            &&& rest.matches_panes((count - 1) as nat)
            &&& layout.weighted() ==> rest.weighted()
            &&& layout.divided() ==> rest.divided()
        }),
{
    lemma_matches_panes(layout, count);
    assert(layout.has(index));
    lemma_has_all(layout);
    if layout is Leaf {
        assert(layout.leaves().len() == 1);
    }
    lemma_without(layout, index);
    let rest = layout.without(index);
    assert(!layout.has(usize::MAX));
    lemma_renumbered(rest, Renumber::Remove(index));
    let moved = rest.renumbered(Renumber::Remove(index));
    assert forall|j: usize| #[trigger] moved.has(j) <==> j < count - 1 by {
        if index <= j < usize::MAX {
            assert(rest.has((j + 1) as usize) <==> layout.has((j + 1) as usize) && j + 1 != index);
        }
    }
    lemma_matches_panes(moved, (count - 1) as nat);
}

proof fn lemma_split_then_removed(
    layout: PaneLayout,
    active: usize,
    axis: SplitAxis,
    at: usize,
)
    requires
        distinct(layout),
        layout.has(active),
        !layout.has(usize::MAX),
        at == active + 1,
    ensures
        layout.renumbered(Renumber::Insert(at)).split_at(active, axis, at).without(at).renumbered(
            Renumber::Remove(at),
        ) == layout,
    decreases layout,
{
    let moved = layout.renumbered(Renumber::Insert(at));
    let split = moved.split_at(active, axis, at);
    lemma_has_all(layout);
    lemma_has_all(moved);
    lemma_renumbered(layout, Renumber::Insert(at));
    assert(moved.has(active));
    assert(!moved.has(at));
    lemma_split_at(moved, active, axis, at);
    lemma_has_all(split);
    match layout {
        PaneLayout::Leaf(index) => {},
        PaneLayout::Split { first, second, .. } => {
            lemma_renumbered(*first, Renumber::Insert(at));
            lemma_renumbered(*second, Renumber::Insert(at));
            let first_moved = first.renumbered(Renumber::Insert(at));
            let second_moved = second.renumbered(Renumber::Insert(at));
            lemma_has_all(first_moved);
            lemma_has_all(second_moved);
            if first.has(active) {
                assert(first_moved.has(active));
                lemma_split_then_removed(*first, active, axis, at);
                lemma_put_back(*second, at);
                let part = first_moved.split_at(active, axis, at);
                lemma_split_at(first_moved, active, axis, at);
                assert(part.has(at));
                assert(part is Split) by {
                    if first_moved is Leaf {
                        assert(first_moved == PaneLayout::Leaf(active));
                    }
                }
                assert(!second_moved.has(at));
                assert(part.can_lose(at));
                assert(*split->first == part);
                assert(*split->second == second_moved);
            } else {
                assert(second.has(active));
                assert(!first_moved.has(active));
                assert(second_moved.has(active));
                lemma_split_then_removed(*second, active, axis, at);
                lemma_put_back(*first, at);
                let part = second_moved.split_at(active, axis, at);
                lemma_split_at(second_moved, active, axis, at);
                assert(part.has(at));
                assert(part is Split) by {
                    if second_moved is Leaf {
                        assert(second_moved == PaneLayout::Leaf(active));
                    }
                }
                assert(!first_moved.has(at));
                assert(!first_moved.can_lose(at));
                assert(*split->first == first_moved);
                assert(*split->second == part);
            }
        },
    }
}

proof fn lemma_put_back(layout: PaneLayout, at: usize)
    requires
        !layout.has(usize::MAX),
    ensures
        layout.renumbered(Renumber::Insert(at)).renumbered(Renumber::Remove(at)) == layout,
    decreases layout,
{
    lemma_has_all(layout);
    if let PaneLayout::Split { first, second, .. } = layout {
        lemma_put_back(*first, at);
        lemma_put_back(*second, at);
    }
}

/// Splitting a pane of any tree puts the new one right after it, and taking that
/// one out again gives back the very tree.
pub proof fn law_removal_gives_tree_back(
    layout: PaneLayout,
    target: usize,
    axis: SplitAxis,
    new_index: usize,
)
    requires
        layout.leaves().no_duplicates(),
        layout.leaves().contains(target),
        !layout.leaves().contains(new_index),
    ensures
        layout.split_at(target, axis, new_index).without(new_index) == layout,
        ({
            let at = layout.leaves().index_of(target);
            layout.split_at(target, axis, new_index).leaves() == layout.leaves().insert(
                at + 1,
                new_index,
            )
        }),
    decreases layout,
{
    lemma_distinct(layout);
    lemma_has_all(layout);
    reveal(PaneLayout::has);
    let split = layout.split_at(target, axis, new_index);
    let leaves = layout.leaves();
    let at = leaves.index_of(target);
    match layout {
        PaneLayout::Leaf(index) => {
            assert(leaves[0] == target);
            assert(at == 0);
            assert(split->first.leaves() =~= seq![target]);
            assert(split->second.leaves() =~= seq![new_index]);
            assert(split.leaves() =~= leaves.insert(1, new_index));
        },
        PaneLayout::Split { first, second, .. } => {
            lemma_distinct(*first);
            lemma_distinct(*second);
            lemma_has_all(*first);
            lemma_has_all(*second);
            let a = first.leaves();
            let b = second.leaves();
            assert(leaves =~= a + b);
            if first.has(target) {
                law_removal_gives_tree_back(*first, target, axis, new_index);
                let part = first.split_at(target, axis, new_index);
                let i = a.index_of(target);
                assert(leaves[i] == target);
                assert(at == i);
                assert(part.leaves() + b =~= leaves.insert(at + 1, new_index));
                assert(part.leaves()[i + 1] == new_index);
                assert(part.has(new_index));
                assert(part is Split);
            } else {
                assert(second.has(target));
                law_removal_gives_tree_back(*second, target, axis, new_index);
                let part = second.split_at(target, axis, new_index);
                let i = b.index_of(target);
                assert(leaves[a.len() + i] == target);
                assert(at == a.len() + i);
                assert(a + part.leaves() =~= leaves.insert(at + 1, new_index));
                assert(!first.has(new_index));
                assert(part is Split);
            }
        },
    }
}

/// Taking out the pane that a split made gives back the layout from before.
pub proof fn law_removal_undoes_split(
    layout: PaneLayout,
    count: nat,
    active: usize,
    axis: SplitAxis,
)
    requires
        layout.matches_panes(count),
        active < count < usize::MAX,
    ensures
        ({
            let at = (active + 1) as usize;
            layout.renumbered(Renumber::Insert(at)).split_at(active, axis, at).without(
                at,
            ).renumbered(Renumber::Remove(at)) == layout
        }),
{
    lemma_matches_panes(layout, count);
    assert(layout.has(active));
    lemma_split_then_removed(layout, active, axis, (active + 1) as usize);
}

/// Resizing moves weight between the two parts of one split: every pane keeps
/// its place, and no part is left without weight.
pub proof fn law_resizing_keeps_panes(
    layout: PaneLayout,
    target: usize,
    direction: ResizeDirection,
    amount: u16,
)
    ensures
        match layout.resized(target, direction, amount) {
            Some(resized) => {
                &&& resized.leaves() == layout.leaves()
                &&& layout.weighted() ==> resized.weighted()
                &&& layout.divided() ==> resized.divided()
            },
            None => true,
        },
    decreases layout,
{
    if let PaneLayout::Split { first, second, .. } = layout {
        law_resizing_keeps_panes(*first, target, direction, amount);
        law_resizing_keeps_panes(*second, target, direction, amount);
    }
}

/// Whether a rectangle lies inside another.
pub open spec fn within(inner: Rect, outer: Rect) -> bool {
    forall|col: int, row: int| #[trigger] inner.covers(col, row) ==> outer.covers(col, row)
}

proof fn lemma_placed(layout: PaneLayout, area: Rect, out: Seq<Rect>)
    requires
        distinct(layout),
        layout.divided(),
        area.fits(),
        forall|i: usize| #[trigger] layout.has(i) ==> i < out.len(),
    ensures
        layout.placed(area, out).len() == out.len(),
        forall|i: usize|
            i < out.len() && !layout.has(i) ==> #[trigger] layout.placed(area, out)[i as int]
                == out[i as int],
        forall|i: usize| #[trigger]
            layout.has(i) ==> within(layout.placed(area, out)[i as int], area)
                && layout.placed(area, out)[i as int].fits(),
        forall|i: usize, j: usize, col: int, row: int|
            #![trigger layout.placed(area, out)[i as int].covers(col, row), layout.placed(area, out)[j as int].covers(col, row)]
            layout.has(i) && layout.has(j) && layout.placed(area, out)[i as int].covers(col, row)
                && layout.placed(area, out)[j as int].covers(col, row) ==> i == j,
        forall|col: int, row: int| #[trigger]
            area.covers(col, row) ==> exists|i: usize| #[trigger]
                layout.has(i) && layout.placed(area, out)[i as int].covers(col, row),
    decreases layout,
{
    lemma_has_all(layout);
    let placed = layout.placed(area, out);
    match layout {
        PaneLayout::Leaf(index) => {
            assert(layout.has(index));
            assert(placed[index as int] == area);
            assert forall|col: int, row: int| #[trigger] area.covers(col, row) implies exists|
                i: usize,
            | #[trigger] layout.has(i) && placed[i as int].covers(col, row) by {
                assert(layout.has(index) && placed[index as int].covers(col, row));
            }
        },
        PaneLayout::Split { axis, first_weight, second_weight, first, second } => {
            let parts = crate::geometry::halves(area, axis, first_weight, second_weight);
            crate::geometry::law_halves_tile(area, axis, first_weight, second_weight);
            let half = first.placed(parts.0, out);
            lemma_placed(*first, parts.0, out);
            lemma_placed(*second, parts.1, half);
            assert(placed == second.placed(parts.1, half));
            assert forall|i: usize| #[trigger] first.has(i) implies placed[i as int]
                == half[i as int] by {
                assert(!second.has(i));
                assert(layout.has(i));
            }
            assert forall|i: usize| i < out.len() && !layout.has(i) implies #[trigger] placed[i as int]
                == out[i as int] by {
                assert(half[i as int] == out[i as int]);
            }
            assert forall|i: usize| #[trigger] layout.has(i) implies within(placed[i as int], area)
                && placed[i as int].fits() by {
                if first.has(i) {
                    assert(within(half[i as int], parts.0));
                    assert forall|col: int, row: int| #[trigger]
                        placed[i as int].covers(col, row) implies area.covers(col, row) by {
                        assert(parts.0.covers(col, row));
                    }
                } else {
                    assert(second.has(i));
                    assert forall|col: int, row: int| #[trigger]
                        placed[i as int].covers(col, row) implies area.covers(col, row) by {
                        assert(parts.1.covers(col, row));
                    }
                }
            }
            assert forall|i: usize, j: usize, col: int, row: int|
                #![trigger placed[i as int].covers(col, row), placed[j as int].covers(col, row)]
                layout.has(i) && layout.has(j) && placed[i as int].covers(col, row)
                    && placed[j as int].covers(col, row) implies i == j by {
                if first.has(i) && first.has(j) {
                    assert(half[i as int].covers(col, row));
                    assert(half[j as int].covers(col, row));
                } else if first.has(i) {
                    assert(second.has(j));
                    assert(within(half[i as int], parts.0));
                    assert(half[i as int].covers(col, row));
                    assert(within(placed[j as int], parts.1));
                    assert(parts.0.covers(col, row) && parts.1.covers(col, row));
                } else if first.has(j) {
                    assert(second.has(i));
                    assert(within(half[j as int], parts.0));
                    assert(half[j as int].covers(col, row));
                    assert(within(placed[i as int], parts.1));
                    assert(parts.0.covers(col, row) && parts.1.covers(col, row));
                } else {
                    assert(second.has(i) && second.has(j));
                }
            }
            assert forall|col: int, row: int| #[trigger] area.covers(col, row) implies exists|
                i: usize,
            | #[trigger] layout.has(i) && placed[i as int].covers(col, row) by {
                if parts.0.covers(col, row) {
                    let i = choose|i: usize| #[trigger]
                        first.has(i) && half[i as int].covers(col, row);
                    assert(layout.has(i) && placed[i as int].covers(col, row));
                } else {
                    assert(parts.1.covers(col, row));
                    let i = choose|i: usize| #[trigger]
                        second.has(i) && placed[i as int].covers(col, row);
                    assert(layout.has(i) && placed[i as int].covers(col, row));
                }
            }
        },
    }
}

/// The rectangles of the panes tile the area, whatever panes the tree has:
/// every cell of it lies in the rectangle of exactly one of them, no rectangle
/// reaches outside it, and what is not a pane of the tree keeps its rectangle.
pub proof fn law_panes_tile_area(layout: PaneLayout, area: Rect, out: Seq<Rect>)
    requires
        layout.leaves().no_duplicates(),
        forall|i: usize| #[trigger] layout.leaves().contains(i) ==> i < out.len(),
        layout.divided(),
        area.fits(),
    ensures
        layout.placed(area, out).len() == out.len(),
        forall|i: usize| #[trigger]
            layout.leaves().contains(i) ==> within(layout.placed(area, out)[i as int], area),
        forall|i: usize, j: usize, col: int, row: int|
            #![trigger layout.placed(area, out)[i as int].covers(col, row), layout.placed(area, out)[j as int].covers(col, row)]
            layout.leaves().contains(i) && layout.leaves().contains(j) && layout.placed(
                area,
                out,
            )[i as int].covers(col, row) && layout.placed(area, out)[j as int].covers(col, row)
                ==> i == j,
        forall|col: int, row: int| #[trigger]
            area.covers(col, row) ==> exists|i: usize| #[trigger]
                layout.leaves().contains(i) && layout.placed(area, out)[i as int].covers(col, row),
        forall|i: usize|
            i < out.len() && !layout.leaves().contains(i) ==> #[trigger] layout.placed(
                area,
                out,
            )[i as int] == out[i as int],
{
    lemma_distinct(layout);
    assert forall|i: usize| #![auto] layout.has(i) == layout.leaves().contains(i) by {
        reveal(PaneLayout::has);
    }
    lemma_placed(layout, area, out);
    let placed = layout.placed(area, out);
    assert forall|col: int, row: int| #[trigger] area.covers(col, row) implies exists|i: usize|
     #[trigger]
        layout.leaves().contains(i) && placed[i as int].covers(col, row) by {
        let i = choose|i: usize| #[trigger] layout.has(i) && placed[i as int].covers(col, row);
        assert(layout.leaves().contains(i) && placed[i as int].covers(col, row));
    }
}

/// Renumbering keeps the number of leaves.
pub proof fn lemma_renumbered_leaves(layout: PaneLayout, renumber: Renumber)
    ensures
        layout.renumbered(renumber).leaves().len() == layout.leaves().len(),
    decreases layout,
{
    if let PaneLayout::Split { first, second, .. } = layout {
        lemma_renumbered_leaves(*first, renumber);
        lemma_renumbered_leaves(*second, renumber);
    }
}

/// Taking a leaf out leaves no leaf that was not there.
pub proof fn lemma_without_shrinks(layout: PaneLayout, target: usize)
    ensures
        layout.without(target).leaves().len() <= layout.leaves().len(),
        forall|i: usize| #[trigger] layout.without(target).has(i) ==> layout.has(i),
    decreases layout,
{
    lemma_has_all(layout);
    lemma_has_all(layout.without(target));
    if let PaneLayout::Split { first, second, .. } = layout {
        lemma_without_shrinks(*first, target);
        lemma_without_shrinks(*second, target);
    }
}

/// Splitting a leaf adds at most one.
pub proof fn lemma_split_at_grows(
    layout: PaneLayout,
    target: usize,
    axis: SplitAxis,
    new_index: usize,
)
    ensures
        layout.split_at(target, axis, new_index).leaves().len() <= layout.leaves().len() + 1,
        forall|i: usize| #[trigger]
            layout.split_at(target, axis, new_index).has(i) ==> layout.has(i) || i == new_index,
    decreases layout,
{
    let split = layout.split_at(target, axis, new_index);
    lemma_has_all(layout);
    lemma_has_all(split);
    match layout {
        PaneLayout::Leaf(index) => {
            if index == target {
                lemma_has_all(*split->first);
                lemma_has_all(*split->second);
                assert(split->first.leaves().len() == 1 && split->second.leaves().len() == 1);
            }
        },
        PaneLayout::Split { first, second, .. } => {
            lemma_split_at_grows(*first, target, axis, new_index);
            lemma_split_at_grows(*second, target, axis, new_index);
        },
    }
}

} // verus!
