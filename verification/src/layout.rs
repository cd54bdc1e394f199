//! Deterministic layout solver for branch nodes of the component tree.
//!
//! A branch partitions its rectangle along one axis according to a list of
//! size constraints. The solver guarantees that the partitions exactly tile
//! the parent extent (no gap, no overlap), that fixed constraints are honored
//! exactly whenever the constraint list fits the extent, that the remaining
//! space is distributed evenly among flexible constraints, and that the
//! rounding remainder is assigned deterministically to the last flexible
//! partition.

use vstd::prelude::*;

use crate::geometry::{Orientation, Position, Rect};

verus! {

/// A size constraint for one child of a branch: either an exact number of
/// cells along the split axis, or a flexible share of whatever remains.
#[derive(Debug, Clone, Copy, PartialEq, Eq, Structural)]
pub enum Constraint {
    Fixed(usize),
    Flexible,
}

/// The sum of the fixed amounts in a constraint list.
pub open spec fn fixed_total(cs: Seq<Constraint>) -> int
    decreases cs.len(),
{
    if cs.len() == 0 {
        0
    } else {
        fixed_total(cs.drop_last()) + match cs.last() {
            Constraint::Fixed(k) => k as int,
            Constraint::Flexible => 0,
        }
    }
}

/// The number of flexible constraints in a list.
pub open spec fn flex_count(cs: Seq<Constraint>) -> int
    decreases cs.len(),
{
    if cs.len() == 0 {
        0
    } else {
        flex_count(cs.drop_last()) + if cs.last() is Flexible {
            1int
        } else {
            0int
        }
    }
}

/// The index of the last flexible constraint, or -1 if there is none.
pub open spec fn last_flex(cs: Seq<Constraint>) -> int
    decreases cs.len(),
{
    if cs.len() == 0 {
        -1
    } else if cs.last() is Flexible {
        cs.len() - 1
    } else {
        last_flex(cs.drop_last())
    }
}

/// A constraint list fits an extent when the fixed amounts leave room for the
/// flexible children, and, if there is no flexible child, match the extent
/// exactly.
pub open spec fn fits(cs: Seq<Constraint>, extent: int) -> bool {
    if flex_count(cs) > 0 {
        fixed_total(cs) <= extent
    } else {
        fixed_total(cs) == extent
    }
}

/// The even share of the remaining space that each flexible child receives.
pub open spec fn flex_share(cs: Seq<Constraint>, extent: int) -> int {
    if flex_count(cs) > 0 {
        (extent - fixed_total(cs)) / flex_count(cs)
    } else {
        0
    }
}

/// The rounding remainder left after distributing even flexible shares; it is
/// assigned to the last flexible child.
pub open spec fn flex_extra(cs: Seq<Constraint>, extent: int) -> int {
    if flex_count(cs) > 0 {
        (extent - fixed_total(cs)) % flex_count(cs)
    } else {
        0
    }
}

/// The size owed to child `i` when the constraint list fits the extent.
pub open spec fn nominal_size(cs: Seq<Constraint>, extent: int, i: int) -> int {
    match cs[i] {
        Constraint::Fixed(k) => k as int,
        Constraint::Flexible => flex_share(cs, extent) + if i == last_flex(cs) {
            flex_extra(cs, extent)
        } else {
            0
        },
    }
}

/// The sum of the first `i` elements of a size list.
pub open spec fn size_prefix_sum(sizes: Seq<usize>, i: int) -> int
    decreases i,
{
    if i <= 0 {
        0
    } else {
        size_prefix_sum(sizes, i - 1) + sizes[i - 1]
    }
}

/// The sum of the sizes owed to the first `i` children.
pub open spec fn nominal_prefix_sum(cs: Seq<Constraint>, extent: int, i: int) -> int
    decreases i,
{
    if i <= 0 {
        0
    } else {
        nominal_prefix_sum(cs, extent, i - 1) + nominal_size(cs, extent, i - 1)
    }
}

proof fn lemma_counts_nonneg(cs: Seq<Constraint>)
    ensures
        fixed_total(cs) >= 0,
        flex_count(cs) >= 0,
        flex_count(cs) <= cs.len(),
        -1 <= last_flex(cs) < cs.len(),
        last_flex(cs) >= 0 ==> cs[last_flex(cs)] is Flexible,
        flex_count(cs) > 0 <==> last_flex(cs) >= 0,
        forall|j: int| last_flex(cs) < j < cs.len() ==> !(cs[j] is Flexible),
    decreases cs.len(),
{
    if cs.len() > 0 {
        lemma_counts_nonneg(cs.drop_last());
        if !(cs.last() is Flexible) {
            assert(flex_count(cs) == flex_count(cs.drop_last()));
            assert forall|j: int| last_flex(cs) < j < cs.len() implies !(cs[j] is Flexible) by {
                if j < cs.len() - 1 {
                    assert(cs.drop_last()[j] == cs[j]);
                }
            }
        }
        assert forall|j: int|
            cs.last() is Flexible && last_flex(cs) < j < cs.len() implies !(cs[j]
            is Flexible) by {}
    }
}

/// Counting flexible children in a prefix never exceeds the full count, and
/// prefixes agree with the full list on fixed sums.
proof fn lemma_take_counts(cs: Seq<Constraint>, i: int)
    requires
        0 <= i <= cs.len(),
    ensures
        flex_count(cs.take(i)) >= 0,
        fixed_total(cs.take(i)) >= 0,
        flex_count(cs.take(i)) <= flex_count(cs),
        fixed_total(cs.take(i)) <= fixed_total(cs),
        i == cs.len() ==> flex_count(cs.take(i)) == flex_count(cs) && fixed_total(cs.take(i))
            == fixed_total(cs),
    decreases cs.len() - i,
{
    lemma_counts_nonneg(cs.take(i));
    if i == cs.len() {
        assert(cs.take(i) =~= cs);
    } else {
        lemma_take_counts(cs, i + 1);
        assert(cs.take(i + 1).drop_last() =~= cs.take(i));
        assert(cs.take(i + 1).last() == cs[i]);
    }
}

/// One step of the prefix bookkeeping: extending a prefix by element `i`
/// adds that element's contribution.
proof fn lemma_take_step(cs: Seq<Constraint>, i: int)
    requires
        0 <= i < cs.len(),
    ensures
        fixed_total(cs.take(i + 1)) == fixed_total(cs.take(i)) + match cs[i] {
            Constraint::Fixed(k) => k as int,
            Constraint::Flexible => 0,
        },
        flex_count(cs.take(i + 1)) == flex_count(cs.take(i)) + if cs[i] is Flexible {
            1int
        } else {
            0int
        },
{
    assert(cs.take(i + 1).drop_last() =~= cs.take(i));
    assert(cs.take(i + 1).last() == cs[i]);
}

/// The running sum of nominal sizes over a whole prefix equals the fixed
/// amounts plus the flexible shares granted so far.
proof fn lemma_nominal_prefix(cs: Seq<Constraint>, extent: int, i: int)
    requires
        0 <= i <= cs.len(),
        fits(cs, extent),
    ensures
        nominal_prefix_sum(cs, extent, i) == fixed_total(cs.take(i)) + flex_share(cs, extent)
            * flex_count(cs.take(i)) + if 0 <= last_flex(cs) < i {
            flex_extra(cs, extent)
        } else {
            0
        },
    decreases i,
{
    lemma_counts_nonneg(cs);
    if i > 0 {
        lemma_nominal_prefix(cs, extent, i - 1);
        lemma_take_step(cs, i - 1);
        lemma_counts_nonneg(cs.take(i));
        let sh = flex_share(cs, extent);
        let fc0 = flex_count(cs.take(i - 1));
        assert(sh * (fc0 + 1) == sh * fc0 + sh) by (nonlinear_arith);
    }
}

/// Under a fitting constraint list the nominal sizes sum exactly to the
/// extent.
proof fn lemma_nominal_total(cs: Seq<Constraint>, extent: int)
    requires
        fits(cs, extent),
        extent >= 0,
    ensures
        nominal_prefix_sum(cs, extent, cs.len() as int) == extent,
{
    lemma_counts_nonneg(cs);
    lemma_nominal_prefix(cs, extent, cs.len() as int);
    lemma_take_counts(cs, cs.len() as int);
    if flex_count(cs) > 0 {
        vstd::arithmetic::div_mod::lemma_fundamental_div_mod(
            extent - fixed_total(cs),
            flex_count(cs),
        );
        assert(0 <= last_flex(cs) < cs.len());
        let sh = flex_share(cs, extent);
        let fc = flex_count(cs);
        assert(sh * fc == fc * sh) by (nonlinear_arith);
    }
}

/// Nominal sizes are never negative, so prefix sums never decrease.
proof fn lemma_nominal_prefix_monotone(cs: Seq<Constraint>, extent: int, i: int, j: int)
    requires
        fits(cs, extent),
        extent >= 0,
        0 <= i <= j <= cs.len(),
    ensures
        nominal_prefix_sum(cs, extent, i) <= nominal_prefix_sum(cs, extent, j),
    decreases j - i,
{
    lemma_counts_nonneg(cs);
    if i < j {
        lemma_nominal_prefix_monotone(cs, extent, i, j - 1);
        if flex_count(cs) > 0 {
            vstd::arithmetic::div_mod::lemma_div_is_ordered(
                0,
                extent - fixed_total(cs),
                flex_count(cs),
            );
            vstd::arithmetic::div_mod::lemma_mod_bound(
                extent - fixed_total(cs),
                flex_count(cs),
            );
        }
        assert(nominal_size(cs, extent, j - 1) >= 0);
    }
}


/// The space left for the flexible children: the extent minus the fixed
/// demands, clamped at zero when the fixed demands alone exceed the extent.
pub open spec fn flex_room(cs: Seq<Constraint>, extent: int) -> int {
    if fixed_total(cs) <= extent {
        extent - fixed_total(cs)
    } else {
        0
    }
}

/// The even share of the clamped remaining space per flexible child.
pub open spec fn room_share(cs: Seq<Constraint>, extent: int) -> int {
    if flex_count(cs) > 0 {
        flex_room(cs, extent) / flex_count(cs)
    } else {
        0
    }
}

/// The rounding remainder of the clamped remaining space; it goes to the
/// last flexible child.
pub open spec fn room_extra(cs: Seq<Constraint>, extent: int) -> int {
    if flex_count(cs) > 0 {
        flex_room(cs, extent) % flex_count(cs)
    } else {
        0
    }
}

/// The size child `i` asks for, before clipping to the space available.
pub open spec fn asked_size(cs: Seq<Constraint>, extent: int, i: int) -> int {
    match cs[i] {
        Constraint::Fixed(k) => k as int,
        Constraint::Flexible => room_share(cs, extent) + if i == last_flex(cs) {
            room_extra(cs, extent)
        } else {
            0
        },
    }
}

/// The space granted to the children before `i`.
pub open spec fn granted_used(cs: Seq<Constraint>, extent: int, i: int) -> int
    decreases i, 0int,
{
    if i <= 0 {
        0
    } else {
        granted_used(cs, extent, i - 1) + granted_size(cs, extent, i - 1)
    }
}

/// The size actually granted to child `i`: what it asks for, clipped to
/// the space still available; the last child takes exactly what is left,
/// so the grants always tile the extent.
pub open spec fn granted_size(cs: Seq<Constraint>, extent: int, i: int) -> int
    decreases i, 1int,
{
    let avail = extent - granted_used(cs, extent, i);
    if i == cs.len() - 1 {
        avail
    } else {
        let a = asked_size(cs, extent, i);
        if a > avail {
            avail
        } else {
            a
        }
    }
}

/// A constraint can only ask for a non-negative size.
proof fn lemma_asked_nonneg(cs: Seq<Constraint>, extent: int, i: int)
    requires
        0 <= i < cs.len(),
        extent >= 0,
    ensures
        asked_size(cs, extent, i) >= 0,
{
    lemma_counts_nonneg(cs);
    if cs[i] is Flexible {
        assert(flex_count(cs) > 0);
        vstd::arithmetic::div_mod::lemma_div_is_ordered(0, flex_room(cs, extent), flex_count(cs));
        vstd::arithmetic::div_mod::lemma_mod_bound(flex_room(cs, extent), flex_count(cs));
    }
}

/// Grants are non-negative and never overdraw the extent.
pub proof fn lemma_granted_bounds(cs: Seq<Constraint>, extent: int, i: int)
    requires
        0 <= i <= cs.len(),
        extent >= 0,
    ensures
        0 <= granted_used(cs, extent, i) <= extent,
        i < cs.len() ==> granted_size(cs, extent, i) >= 0,
        i < cs.len() ==> granted_used(cs, extent, i) + granted_size(cs, extent, i) <= extent,
    decreases i,
{
    if i > 0 {
        lemma_granted_bounds(cs, extent, i - 1);
    }
    if i < cs.len() {
        lemma_asked_nonneg(cs, extent, i);
    }
}

/// Grants accumulate monotonically.
pub proof fn lemma_granted_monotone(cs: Seq<Constraint>, extent: int, i: int, j: int)
    requires
        0 <= i <= j <= cs.len(),
        extent >= 0,
    ensures
        granted_used(cs, extent, i) <= granted_used(cs, extent, j),
    decreases j - i,
{
    if i < j {
        lemma_granted_monotone(cs, extent, i, j - 1);
        lemma_granted_bounds(cs, extent, j - 1);
    }
}

/// With at least one child, the grants sum to the whole extent.
pub proof fn lemma_granted_total(cs: Seq<Constraint>, extent: int)
    requires
        cs.len() > 0,
        extent >= 0,
    ensures
        granted_used(cs, extent, cs.len() as int) == extent,
{
    lemma_granted_bounds(cs, extent, cs.len() - 1);
}

/// Sizes that match the grants pointwise have the grants' running sums.
proof fn lemma_prefix_eq_granted(cs: Seq<Constraint>, extent: int, sizes: Seq<usize>, i: int)
    requires
        0 <= i <= sizes.len(),
        i <= cs.len(),
        forall|k: int| 0 <= k < i ==> sizes[k] == granted_size(cs, extent, k),
    ensures
        size_prefix_sum(sizes, i) == granted_used(cs, extent, i),
    decreases i,
{
    if i > 0 {
        lemma_prefix_eq_granted(cs, extent, sizes, i - 1);
    }
}

/// The sub-rectangle granted to child `i` when `rect` is split along
/// `orientation`: the grants laid side by side from the parent's near edge.
pub open spec fn child_rect(rect: Rect, orientation: Orientation, cs: Seq<Constraint>, i: int) -> Rect {
    match orientation {
        Orientation::Horizontal => Rect {
            corner1: Position {
                x: (rect.corner1.x + granted_used(cs, rect.spec_width(), i)) as usize,
                y: rect.corner1.y,
            },
            corner2: Position {
                x: (rect.corner1.x + granted_used(cs, rect.spec_width(), i + 1)) as usize,
                y: rect.corner2.y,
            },
        },
        Orientation::Vertical => Rect {
            corner1: Position {
                x: rect.corner1.x,
                y: (rect.corner1.y + granted_used(cs, rect.spec_height(), i)) as usize,
            },
            corner2: Position {
                x: rect.corner2.x,
                y: (rect.corner1.y + granted_used(cs, rect.spec_height(), i + 1)) as usize,
            },
        },
    }
}

/// Computes the size of each child along the split axis.
///
/// The sizes always tile the extent exactly when there is at least one child.
/// When the constraint list fits the extent, each child receives exactly its
/// nominal size: fixed children their fixed amount, flexible children an even
/// share of the rest, with the rounding remainder going to the last flexible
/// child.
pub fn split_sizes(cs: &Vec<Constraint>, extent: usize) -> (sizes: Vec<usize>)
    ensures
        sizes.len() == cs.len(),
        cs.len() > 0 ==> size_prefix_sum(sizes@, sizes.len() as int) == extent,
        forall|i: int|
            0 <= i < cs.len() && fits(cs@, extent as int) ==> sizes@[i] == nominal_size(
                cs@,
                extent as int,
                i,
            ),
        forall|i: int|
            0 <= i < cs.len() ==> sizes@[i] == granted_size(cs@, extent as int, i),
{
    let n = cs.len();
    proof {
        lemma_counts_nonneg(cs@);
    }

    // First pass: count the flexible children, cap the fixed total at the
    // extent, and remember the last flexible index.
    let mut nf: usize = 0;
    let mut fixed_capped: usize = 0;
    let mut lf: usize = 0;
    let mut has_flex: bool = false;
    let mut i: usize = 0;
    while i < n
        invariant
            0 <= i <= n,
            n == cs.len(),
            nf == flex_count(cs@.take(i as int)),
            fixed_capped <= extent,
            fixed_total(cs@.take(i as int)) <= extent ==> fixed_capped == fixed_total(
                cs@.take(i as int),
            ),
            fixed_total(cs@.take(i as int)) > extent ==> fixed_capped == extent,
            has_flex <==> flex_count(cs@.take(i as int)) > 0,
            has_flex ==> lf == last_flex(cs@.take(i as int)) && lf < i,
        decreases n - i,
    {
        proof {
            lemma_take_step(cs@, i as int);
            lemma_counts_nonneg(cs@.take(i as int));
            lemma_counts_nonneg(cs@.take(i as int + 1));
            assert(cs@.take(i as int + 1).drop_last() =~= cs@.take(i as int));
        }
        match cs[i] {
            Constraint::Fixed(k) => {
                if k > extent - fixed_capped {
                    fixed_capped = extent;
                } else {
                    fixed_capped = fixed_capped + k;
                }
            },
            Constraint::Flexible => {
                nf = nf + 1;
                lf = i;
                has_flex = true;
            },
        }
        i = i + 1;
    }
    proof {
        lemma_take_counts(cs@, n as int);
        assert(cs@.take(n as int) =~= cs@);
    }

    let rem: usize = extent - fixed_capped;
    let share: usize = if nf > 0 {
        rem / nf
    } else {
        0
    };
    let extra: usize = if nf > 0 {
        rem % nf
    } else {
        0
    };
    proof {
        if nf > 0 {
            vstd::arithmetic::div_mod::lemma_fundamental_div_mod(rem as int, nf as int);
            vstd::arithmetic::div_mod::lemma_div_is_ordered(0, rem as int, nf as int);
            vstd::arithmetic::div_mod::lemma_mod_bound(rem as int, nf as int);
        }
        if nf > 0 {
            assert(share as int + extra as int <= rem as int) by (nonlinear_arith)
                requires
                    rem as int == nf as int * (share as int) + extra as int,
                    nf as int >= 1,
                    share as int >= 0,
                    extra as int >= 0,
            ;
        }
        if fits(cs@, extent as int) {
            assert(flex_share(cs@, extent as int) == share as int);
            assert(flex_extra(cs@, extent as int) == extra as int);
        }
        assert(rem as int == flex_room(cs@, extent as int));
        assert(share as int == room_share(cs@, extent as int));
        assert(extra as int == room_extra(cs@, extent as int));
    }

    // Second pass: hand out the sizes. Every child but the last is clipped to
    // the space still available; the last child takes exactly what is left,
    // so the sizes always tile the extent.
    let mut sizes: Vec<usize> = Vec::new();
    let mut used: usize = 0;
    let mut j: usize = 0;
    while j < n
        invariant
            0 <= j <= n,
            n == cs.len(),
            sizes.len() == j,
            used <= extent,
            used == size_prefix_sum(sizes@, j as int),
            j == n && n > 0 ==> used == extent,
            nf == flex_count(cs@),
            nf > 0 ==> lf == last_flex(cs@),
            share == room_share(cs@, extent as int),
            extra == room_extra(cs@, extent as int),
            fits(cs@, extent as int) ==> share == flex_share(cs@, extent as int) && extra
                == flex_extra(cs@, extent as int),
            share + extra <= extent,
            used == granted_used(cs@, extent as int, j as int),
            forall|m: int|
                0 <= m < j ==> sizes@[m] == granted_size(cs@, extent as int, m),
            fits(cs@, extent as int) ==> used == nominal_prefix_sum(cs@, extent as int, j as int),
            forall|m: int|
                0 <= m < j && fits(cs@, extent as int) ==> sizes@[m] == nominal_size(
                    cs@,
                    extent as int,
                    m,
                ),
        decreases n - j,
    {
        let nominal: usize = match cs[j] {
            Constraint::Fixed(k) => k,
            Constraint::Flexible => {
                if nf > 0 && j == lf {
                    share + extra
                } else {
                    share
                }
            },
        };
        let avail: usize = extent - used;
        let s: usize = if j == n - 1 {
            avail
        } else if nominal > avail {
            avail
        } else {
            nominal
        };
        proof {
            lemma_counts_nonneg(cs@);
            if cs@[j as int] is Flexible {
                assert(flex_count(cs@) > 0);
            }
            assert(nominal as int == asked_size(cs@, extent as int, j as int));
            assert(s as int == granted_size(cs@, extent as int, j as int));
            if fits(cs@, extent as int) {
                lemma_nominal_total(cs@, extent as int);
                lemma_nominal_prefix_monotone(cs@, extent as int, j as int + 1, cs@.len() as int);
                assert(nominal_prefix_sum(cs@, extent as int, j as int + 1) == nominal_prefix_sum(
                    cs@,
                    extent as int,
                    j as int,
                ) + nominal_size(cs@, extent as int, j as int));
                assert(nominal as int == nominal_size(cs@, extent as int, j as int));
            }
        }
        let ghost prev = sizes@;
        sizes.push(s);
        used = used + s;
        proof {
            lemma_size_prefix_push(prev, s, j as int);
            assert(sizes@[j as int] == s);
        }
        j = j + 1;
    }
    sizes
}

/// Partitions `rect` along `orientation` into one sub-rectangle per
/// constraint.
///
/// The sub-rectangles exactly tile `rect` along the split axis: the first
/// starts at the parent's near edge, each subsequent one starts where its
/// predecessor ends, and the last one ends at the parent's far edge. Across
/// the other axis every sub-rectangle spans the parent in full. When the
/// constraint list fits the extent, every child's measure along the split
/// axis is exactly its nominal size.
pub fn split_rect(rect: Rect, orientation: Orientation, cs: &Vec<Constraint>) -> (rects: Vec<Rect>)
    requires
        rect.wf(),
    ensures
        rects.len() == cs.len(),
        forall|i: int| 0 <= i < rects@.len() ==> (#[trigger] rects@[i]).wf(),
        forall|i: int|
            0 <= i < rects@.len() ==> rect.corner1.x <= (#[trigger] rects@[i]).corner1.x
                && rects@[i].corner2.x <= rect.corner2.x && rect.corner1.y <= rects@[i].corner1.y
                && rects@[i].corner2.y <= rect.corner2.y,
        orientation is Horizontal ==> forall|i: int|
            0 <= i < rects@.len() ==> (#[trigger] rects@[i]).corner1.y == rect.corner1.y
                && rects@[i].corner2.y == rect.corner2.y,
        orientation is Vertical ==> forall|i: int|
            0 <= i < rects@.len() ==> (#[trigger] rects@[i]).corner1.x == rect.corner1.x
                && rects@[i].corner2.x == rect.corner2.x,
        orientation is Horizontal && rects@.len() > 0 ==> rects@[0].corner1.x == rect.corner1.x
            && rects@.last().corner2.x == rect.corner2.x,
        orientation is Vertical && rects@.len() > 0 ==> rects@[0].corner1.y == rect.corner1.y
            && rects@.last().corner2.y == rect.corner2.y,
        orientation is Horizontal ==> forall|i: int|
            0 <= i < rects@.len() - 1 ==> (#[trigger] rects@[i]).corner2.x == rects@[i
                + 1].corner1.x,
        orientation is Vertical ==> forall|i: int|
            0 <= i < rects@.len() - 1 ==> (#[trigger] rects@[i]).corner2.y == rects@[i
                + 1].corner1.y,
        orientation is Horizontal && fits(cs@, rect.spec_width()) ==> forall|i: int|
            0 <= i < rects@.len() ==> (#[trigger] rects@[i]).spec_width() == nominal_size(
                cs@,
                rect.spec_width(),
                i,
            ),
        orientation is Vertical && fits(cs@, rect.spec_height()) ==> forall|i: int|
            0 <= i < rects@.len() ==> (#[trigger] rects@[i]).spec_height() == nominal_size(
                cs@,
                rect.spec_height(),
                i,
            ),
        forall|i: int|
            0 <= i < rects@.len() ==> (#[trigger] rects@[i]) == child_rect(
                rect,
                orientation,
                cs@,
                i,
            ),
{
    let extent: usize = match orientation {
        Orientation::Horizontal => rect.width(),
        Orientation::Vertical => rect.height(),
    };
    let sizes = split_sizes(cs, extent);
    let n = sizes.len();
    let mut rects: Vec<Rect> = Vec::new();
    let mut offset: usize = 0;
    let mut i: usize = 0;
    while i < n
        invariant
            0 <= i <= n,
            n == sizes.len(),
            n == cs.len(),
            rect.wf(),
            extent == match orientation {
                Orientation::Horizontal => rect.spec_width(),
                Orientation::Vertical => rect.spec_height(),
            },
            n > 0 ==> size_prefix_sum(sizes@, n as int) == extent,
            forall|m: int|
                0 <= m < n && fits(cs@, extent as int) ==> sizes@[m] == nominal_size(
                    cs@,
                    extent as int,
                    m,
                ),
            forall|m: int| 0 <= m < n ==> sizes@[m] == granted_size(cs@, extent as int, m),
            rects.len() == i,
            offset == size_prefix_sum(sizes@, i as int),
            offset <= extent,
            forall|m: int| 0 <= m < i ==> (#[trigger] rects@[m]).wf(),
            orientation is Horizontal ==> forall|m: int|
                0 <= m < i ==> (#[trigger] rects@[m]).corner1.y == rect.corner1.y
                    && rects@[m].corner2.y == rect.corner2.y,
            orientation is Vertical ==> forall|m: int|
                0 <= m < i ==> (#[trigger] rects@[m]).corner1.x == rect.corner1.x
                    && rects@[m].corner2.x == rect.corner2.x,
            orientation is Horizontal ==> forall|m: int|
                0 <= m < i ==> (#[trigger] rects@[m]).corner1.x == rect.corner1.x
                    + size_prefix_sum(sizes@, m) && rects@[m].corner2.x == rect.corner1.x
                    + size_prefix_sum(sizes@, m + 1),
            orientation is Vertical ==> forall|m: int|
                0 <= m < i ==> (#[trigger] rects@[m]).corner1.y == rect.corner1.y
                    + size_prefix_sum(sizes@, m) && rects@[m].corner2.y == rect.corner1.y
                    + size_prefix_sum(sizes@, m + 1),
        decreases n - i,
    {
        proof {
            lemma_size_prefix_bound(sizes@, i as int + 1, n as int);
        }
        let s = sizes[i];
        let r = match orientation {
            Orientation::Horizontal => Rect {
                corner1: Position { x: rect.corner1.x + offset, y: rect.corner1.y },
                corner2: Position { x: rect.corner1.x + offset + s, y: rect.corner2.y },
            },
            Orientation::Vertical => Rect {
                corner1: Position { x: rect.corner1.x, y: rect.corner1.y + offset },
                corner2: Position { x: rect.corner2.x, y: rect.corner1.y + offset + s },
            },
        };
        rects.push(r);
        offset = offset + s;
        i = i + 1;
    }
    proof {
        if n > 0 {
            assert(size_prefix_sum(sizes@, n as int) == extent);
        }
        assert forall|m: int| 0 <= m < rects@.len() implies rect.corner1.x <= (
        #[trigger] rects@[m]).corner1.x && rects@[m].corner2.x <= rect.corner2.x
            && rect.corner1.y <= rects@[m].corner1.y && rects@[m].corner2.y
            <= rect.corner2.y by {
            lemma_size_prefix_bound(sizes@, 0, m);
            lemma_size_prefix_bound(sizes@, m, m + 1);
            lemma_size_prefix_bound(sizes@, m + 1, n as int);
        }
        assert forall|m: int| 0 <= m < rects@.len() implies (#[trigger] rects@[m]) == child_rect(
            rect,
            orientation,
            cs@,
            m,
        ) by {
            lemma_prefix_eq_granted(cs@, extent as int, sizes@, m);
            lemma_prefix_eq_granted(cs@, extent as int, sizes@, m + 1);
            lemma_granted_bounds(cs@, extent as int, m);
            lemma_granted_bounds(cs@, extent as int, m + 1);
        }
    }
    rects
}

/// Appending an element to a size list leaves earlier prefix sums unchanged.
proof fn lemma_size_prefix_push(s: Seq<usize>, x: usize, i: int)
    requires
        0 <= i <= s.len(),
    ensures
        size_prefix_sum(s.push(x), i) == size_prefix_sum(s, i),
    decreases i,
{
    if i > 0 {
        lemma_size_prefix_push(s, x, i - 1);
        assert(s.push(x)[i - 1] == s[i - 1]);
    }
}

/// Prefix sums of a size list are bounded by the total.
proof fn lemma_size_prefix_bound(sizes: Seq<usize>, i: int, n: int)
    requires
        0 <= i <= n <= sizes.len(),
    ensures
        size_prefix_sum(sizes, i) <= size_prefix_sum(sizes, n),
    decreases n - i,
{
    if i < n {
        lemma_size_prefix_bound(sizes, i + 1, n);
    }
}

} // verus!
