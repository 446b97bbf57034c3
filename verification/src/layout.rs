//! The pane layout tree: recursive horizontal/vertical splits terminating
//! in panes, with geometry, splitting, removal, swap, resize and presets.
//!
//! Split ratios are fixed-point fractions of `RATIO_SCALE`; a well-formed
//! split's ratios always sum to exactly `RATIO_SCALE`, so the floating
//! tolerance questions of fractional ratios do not arise.

use vstd::prelude::*;

use crate::geometry::Rect;
use crate::PaneId;

verus! {

/// Denominator of all split ratios: a ratio `r` stands for `r / RATIO_SCALE`.
pub const RATIO_SCALE: u32 = 10000;

/// Smallest ratio a user resize may leave behind: 5% of the axis.
pub const MIN_RATIO: u32 = 500;

/// Split orientation.
#[derive(Debug, Clone, Copy, PartialEq, Eq, Structural)]
pub enum Orientation {
    Horizontal,
    Vertical,
}

/// Direction for pane navigation and resize.
#[derive(Debug, Clone, Copy, PartialEq, Eq, Structural)]
pub enum Direction {
    Up,
    Down,
    Left,
    Right,
}

/// Tree-based layout node.
#[derive(Debug)]
pub enum LayoutNode {
    Leaf(PaneId),
    Split { orientation: Orientation, children: Vec<LayoutNode>, ratios: Vec<u32> },
}

/// Sum of a ratio vector.
pub open spec fn sum_ratios(s: Seq<u32>) -> int
    decreases s.len(),
{
    if s.len() == 0 {
        0
    } else {
        sum_ratios(s.drop_last()) + s.last()
    }
}

/// The pane identifiers of a tree, in pre-order.
pub open spec fn pane_ids_spec(n: LayoutNode) -> Seq<PaneId>
    decreases n,
{
    match n {
        LayoutNode::Leaf(id) => seq![id],
        LayoutNode::Split { children, .. } => pane_ids_children(children@),
    }
}

/// The pane identifiers of a forest, in order.
pub open spec fn pane_ids_children(s: Seq<LayoutNode>) -> Seq<PaneId>
    decreases s,
{
    if s.len() == 0 {
        Seq::empty()
    } else {
        pane_ids_spec(s[0]) + pane_ids_children(s.drop_first())
    }
}

/// Structural well-formedness: every split has at least two children, one
/// ratio per child, each ratio positive, and the ratios sum to exactly
/// `RATIO_SCALE`.
pub open spec fn wf_node(n: LayoutNode) -> bool
    decreases n,
{
    match n {
        LayoutNode::Leaf(_) => true,
        LayoutNode::Split { children, ratios, .. } => {
            &&& children@.len() >= 2
            &&& ratios@.len() == children@.len()
            &&& sum_ratios(ratios@) == RATIO_SCALE
            &&& forall|i: int| 0 <= i < ratios@.len() ==> #[trigger] ratios@[i] >= 1
            &&& wf_children(children@)
        },
    }
}

/// Structural well-formedness of a forest.
pub open spec fn wf_children(s: Seq<LayoutNode>) -> bool
    decreases s,
{
    if s.len() == 0 {
        true
    } else {
        wf_node(s[0]) && wf_children(s.drop_first())
    }
}

/// No pane identifier occurs twice in the tree.
pub open spec fn ids_distinct(n: LayoutNode) -> bool {
    let ids = pane_ids_spec(n);
    forall|i: int, j: int| 0 <= i < j < ids.len() ==> ids[i] != ids[j]
}

/// The label `id` after exchanging `a` and `b`.
pub open spec fn swap_label(id: PaneId, a: PaneId, b: PaneId) -> PaneId {
    if id == a {
        b
    } else if id == b {
        a
    } else {
        id
    }
}

/// `m` is `n` with the labels `a` and `b` exchanged wherever they occur;
/// the tree shape, orientations and ratios are identical.
pub open spec fn swapped(n: LayoutNode, m: LayoutNode, a: PaneId, b: PaneId) -> bool
    decreases n,
{
    match n {
        LayoutNode::Leaf(id) => m == LayoutNode::Leaf(swap_label(id, a, b)),
        LayoutNode::Split { orientation, children, ratios } => match m {
            LayoutNode::Leaf(_) => false,
            LayoutNode::Split { orientation: o2, children: c2, ratios: r2 } => {
                &&& o2 == orientation
                &&& r2@ == ratios@
                &&& c2@.len() == children@.len()
                &&& forall|i: int|
                    0 <= i < children@.len() ==> swapped(
                        #[trigger] children@[i],
                        c2@[i],
                        a,
                        b,
                    )
            },
        },
    }
}

/// `n` and `m` are the same tree: same shape, same labels, same
/// orientations, same ratios.
pub open spec fn same_tree(n: LayoutNode, m: LayoutNode) -> bool
    decreases n,
{
    match n {
        LayoutNode::Leaf(id) => m == LayoutNode::Leaf(id),
        LayoutNode::Split { orientation, children, ratios } => match m {
            LayoutNode::Leaf(_) => false,
            LayoutNode::Split { orientation: o2, children: c2, ratios: r2 } => {
                &&& o2 == orientation
                &&& r2@ == ratios@
                &&& c2@.len() == children@.len()
                &&& forall|i: int|
                    0 <= i < children@.len() ==> same_tree(#[trigger] children@[i], c2@[i])
            },
        },
    }
}

/// Exchanging the same pair of labels twice restores the tree: shape,
/// labels, orientations and ratios all return to what they were.
pub proof fn lemma_swap_involution(n: LayoutNode, m: LayoutNode, k: LayoutNode, a: PaneId, b: PaneId)
    requires
        swapped(n, m, a, b),
        swapped(m, k, a, b),
    ensures
        same_tree(n, k),
    decreases n,
{
    match n {
        LayoutNode::Leaf(id) => {
        },
        LayoutNode::Split { orientation, children, ratios } => {
            match m {
                LayoutNode::Leaf(_) => {
                },
                LayoutNode::Split { orientation: o2, children: c2, ratios: r2 } => {
                    match k {
                        LayoutNode::Leaf(_) => {
                        },
                        LayoutNode::Split { orientation: o3, children: c3, ratios: r3 } => {
                            assert forall|i: int| 0 <= i < children@.len() implies same_tree(
                                #[trigger] children@[i],
                                c3@[i],
                            ) by {
                                lemma_swap_involution(children@[i], c2@[i], c3@[i], a, b);
                            }
                        },
                    }
                },
            }
        },
    }
}

/// `ids` with `x` inserted right after position `k`.
pub open spec fn insert_after(ids: Seq<PaneId>, k: int, x: PaneId) -> Seq<PaneId> {
    ids.subrange(0, k + 1) + seq![x] + ids.subrange(k + 1, ids.len() as int)
}

/// `ids` with position `k` removed.
pub open spec fn remove_at(ids: Seq<PaneId>, k: int) -> Seq<PaneId> {
    ids.subrange(0, k) + ids.subrange(k + 1, ids.len() as int)
}

pub proof fn lemma_sum_insert(s: Seq<u32>, i: int, x: u32)
    requires
        0 <= i <= s.len(),
    ensures
        sum_ratios(s.insert(i, x)) == sum_ratios(s) + x,
    decreases s.len(),
{
    if i == s.len() {
        assert(s.insert(i, x) =~= s.push(x));
        assert(s.push(x).drop_last() =~= s);
    } else {
        let t = s.insert(i, x);
        assert(t.last() == s.last());
        assert(t.drop_last() =~= s.drop_last().insert(i, x));
        lemma_sum_insert(s.drop_last(), i, x);
    }
}

pub proof fn lemma_sum_remove(s: Seq<u32>, i: int)
    requires
        0 <= i < s.len(),
    ensures
        sum_ratios(s.remove(i)) == sum_ratios(s) - s[i],
    decreases s.len(),
{
    if i == s.len() - 1 {
        assert(s.remove(i) =~= s.drop_last());
    } else {
        let t = s.remove(i);
        assert(t.last() == s.last());
        assert(t.drop_last() =~= s.drop_last().remove(i));
        lemma_sum_remove(s.drop_last(), i);
    }
}

pub proof fn lemma_sum_update(s: Seq<u32>, i: int, x: u32)
    requires
        0 <= i < s.len(),
    ensures
        sum_ratios(s.update(i, x)) == sum_ratios(s) - s[i] + x,
    decreases s.len(),
{
    if i == s.len() - 1 {
        assert(s.update(i, x).drop_last() =~= s.drop_last());
        assert(s.update(i, x).last() == x);
    } else {
        let t = s.update(i, x);
        assert(t.last() == s.last());
        assert(t.drop_last() =~= s.drop_last().update(i, x));
        lemma_sum_update(s.drop_last(), i, x);
    }
}

/// A forest is well-formed exactly when each of its trees is.
pub proof fn lemma_wfc_iff(s: Seq<LayoutNode>)
    ensures
        wf_children(s) <==> (forall|i: int| 0 <= i < s.len() ==> wf_node(#[trigger] s[i])),
    decreases s.len(),
{
    if s.len() > 0 {
        lemma_wfc_iff(s.drop_first());
        if wf_node(s[0]) && (forall|i: int|
            0 <= i < s.drop_first().len() ==> wf_node(#[trigger] s.drop_first()[i])) {
            assert forall|i: int| 0 <= i < s.len() implies wf_node(#[trigger] s[i]) by {
                if i > 0 {
                    assert(s[i] == s.drop_first()[i - 1]);
                }
            }
        }
        if forall|i: int| 0 <= i < s.len() ==> wf_node(#[trigger] s[i]) {
            assert forall|i: int| 0 <= i < s.drop_first().len() implies wf_node(
                #[trigger] s.drop_first()[i],
            ) by {
                assert(s.drop_first()[i] == s[i + 1]);
            }
        }
    }
}

/// Splitting the pane id sequence of a forest around one child.
pub proof fn lemma_pic_decompose(s: Seq<LayoutNode>, i: int)
    requires
        0 <= i < s.len(),
    ensures
        pane_ids_children(s) == pane_ids_children(s.subrange(0, i)) + pane_ids_spec(s[i])
            + pane_ids_children(s.subrange(i + 1, s.len() as int)),
    decreases i,
{
    if i == 0 {
        assert(s.subrange(0, 0) =~= Seq::<LayoutNode>::empty());
        assert(s.subrange(1, s.len() as int) =~= s.drop_first());
        assert(pane_ids_children(s) =~= pane_ids_children(s.subrange(0, 0)) + pane_ids_spec(s[0])
            + pane_ids_children(s.subrange(1, s.len() as int)));
    } else {
        let d = s.drop_first();
        lemma_pic_decompose(d, i - 1);
        assert(d.subrange(0, i - 1) =~= s.subrange(1, i));
        assert(d.subrange(i, d.len() as int) =~= s.subrange(i + 1, s.len() as int));
        assert(d[i - 1] == s[i]);
        // pane_ids_children(s) == ids(s[0]) + pic(d)
        // pic(s.subrange(0, i)) == ids(s[0]) + pic(s.subrange(1, i))
        let t = s.subrange(0, i);
        assert(t[0] == s[0]);
        assert(t.drop_first() =~= s.subrange(1, i));
        assert(pane_ids_children(s) =~= pane_ids_children(s.subrange(0, i)) + pane_ids_spec(s[i])
            + pane_ids_children(s.subrange(i + 1, s.len() as int)));
    }
}

/// Forest id sequences distribute over concatenation.
pub proof fn lemma_pic_concat(s: Seq<LayoutNode>, t: Seq<LayoutNode>)
    ensures
        pane_ids_children(s + t) == pane_ids_children(s) + pane_ids_children(t),
    decreases s.len(),
{
    if s.len() == 0 {
        assert(s + t =~= t);
        assert(pane_ids_children(s) =~= Seq::<PaneId>::empty());
        assert(pane_ids_children(s) + pane_ids_children(t) =~= pane_ids_children(t));
    } else {
        assert((s + t)[0] == s[0]);
        assert((s + t).drop_first() =~= s.drop_first() + t);
        lemma_pic_concat(s.drop_first(), t);
        assert(pane_ids_children(s + t) =~= pane_ids_children(s) + pane_ids_children(t));
    }
}

/// Every entry of a ratio vector is bounded by the vector's sum.
pub proof fn lemma_sum_ge_element(s: Seq<u32>, i: int)
    requires
        0 <= i < s.len(),
    ensures
        sum_ratios(s) >= s[i],
        sum_ratios(s) >= 0,
    decreases s.len(),
{
    if s.len() == 1 {
        assert(s.drop_last() =~= Seq::<u32>::empty());
        assert(sum_ratios(Seq::<u32>::empty()) == 0);
        assert(s.last() == s[i]);
    } else if i == s.len() - 1 {
        lemma_sum_nonneg(s.drop_last());
        assert(s.last() == s[i]);
    } else {
        lemma_sum_ge_element(s.drop_last(), i);
        assert(s.drop_last()[i] == s[i]);
    }
}

/// Ratio sums are never negative.
pub proof fn lemma_sum_nonneg(s: Seq<u32>)
    ensures
        sum_ratios(s) >= 0,
    decreases s.len(),
{
    if s.len() > 0 {
        lemma_sum_nonneg(s.drop_last());
    }
}

/// Total area covered by a list of pane rectangles.
pub open spec fn sum_areas(s: Seq<(PaneId, Rect)>) -> int
    decreases s.len(),
{
    if s.len() == 0 {
        0
    } else {
        sum_areas(s.drop_last()) + s.last().1.spec_area()
    }
}

pub proof fn lemma_sum_areas_concat(a: Seq<(PaneId, Rect)>, b: Seq<(PaneId, Rect)>)
    ensures
        sum_areas(a + b) == sum_areas(a) + sum_areas(b),
    decreases b.len(),
{
    if b.len() == 0 {
        assert(a + b =~= a);
    } else {
        assert((a + b).drop_last() =~= a + b.drop_last());
        assert((a + b).last() == b.last());
        lemma_sum_areas_concat(a, b.drop_last());
    }
}

/// Every ratio of every split in the tree is at least `MIN_RATIO`.
pub open spec fn min_ratios_ok(n: LayoutNode) -> bool
    decreases n,
{
    match n {
        LayoutNode::Leaf(_) => true,
        LayoutNode::Split { children, ratios, .. } => {
            &&& forall|i: int| 0 <= i < ratios@.len() ==> #[trigger] ratios@[i] >= MIN_RATIO
            &&& min_ratios_children(children@)
        },
    }
}

/// `min_ratios_ok` over a forest.
pub open spec fn min_ratios_children(s: Seq<LayoutNode>) -> bool
    decreases s,
{
    if s.len() == 0 {
        true
    } else {
        min_ratios_ok(s[0]) && min_ratios_children(s.drop_first())
    }
}

/// A forest keeps all ratios above the minimum exactly when each tree does.
pub proof fn lemma_mrc_iff(s: Seq<LayoutNode>)
    ensures
        min_ratios_children(s) <==> (forall|i: int|
            0 <= i < s.len() ==> min_ratios_ok(#[trigger] s[i])),
    decreases s.len(),
{
    if s.len() > 0 {
        lemma_mrc_iff(s.drop_first());
        if min_ratios_ok(s[0]) && (forall|i: int|
            0 <= i < s.drop_first().len() ==> min_ratios_ok(#[trigger] s.drop_first()[i])) {
            assert forall|i: int| 0 <= i < s.len() implies min_ratios_ok(#[trigger] s[i]) by {
                if i > 0 {
                    assert(s[i] == s.drop_first()[i - 1]);
                }
            }
        }
        if forall|i: int| 0 <= i < s.len() ==> min_ratios_ok(#[trigger] s[i]) {
            assert forall|i: int| 0 <= i < s.drop_first().len() implies min_ratios_ok(
                #[trigger] s.drop_first()[i],
            ) by {
                assert(s.drop_first()[i] == s[i + 1]);
            }
        }
    }
}


/// A well-formed tree names at least one pane.
pub proof fn lemma_ids_nonempty(n: LayoutNode)
    requires
        wf_node(n),
    ensures
        pane_ids_spec(n).len() >= 1,
    decreases n,
{
    match n {
        LayoutNode::Leaf(_) => {
        },
        LayoutNode::Split { orientation, children, ratios } => {
            lemma_wfc_iff(children@);
            lemma_ids_nonempty(children@[0]);
            lemma_pic_decompose(children@, 0);
        },
    }
}

/// A well-formed tree with a single pane id is that pane's leaf.
pub proof fn lemma_single_id_is_leaf(n: LayoutNode)
    requires
        wf_node(n),
        pane_ids_spec(n).len() == 1,
    ensures
        n == LayoutNode::Leaf(pane_ids_spec(n)[0]),
{
    match n {
        LayoutNode::Leaf(id) => {
            assert(pane_ids_spec(n) =~= seq![id]);
        },
        LayoutNode::Split { orientation, children, ratios } => {
            lemma_wfc_iff(children@);
            lemma_ids_nonempty(children@[0]);
            lemma_ids_nonempty(children@[1]);
            lemma_pic_decompose(children@, 0);
            lemma_pic_decompose(children@.subrange(1, children@.len() as int), 0);
            assert(children@.subrange(1, children@.len() as int)[0] == children@[1]);
            assert(pane_ids_children(children@.subrange(1, children@.len() as int)).len() >= 1);
            assert(false);
        },
    }
}

/// A forest's id sequence contains `t` exactly when some tree's does.
pub proof fn lemma_pic_contains(s: Seq<LayoutNode>, t: PaneId)
    ensures
        pane_ids_children(s).contains(t) <==> exists|j: int|
            0 <= j < s.len() && pane_ids_spec(#[trigger] s[j]).contains(t),
    decreases s.len(),
{
    if s.len() > 0 {
        lemma_pic_contains(s.drop_first(), t);
        let head = pane_ids_spec(s[0]);
        let tail = pane_ids_children(s.drop_first());
        if head.contains(t) {
            let w = choose|w: int| 0 <= w < head.len() && head[w] == t;
            assert(pane_ids_children(s)[w] == t);
            assert(pane_ids_children(s).contains(t));
        }
        if tail.contains(t) {
            let w = choose|w: int| 0 <= w < tail.len() && tail[w] == t;
            assert(pane_ids_children(s)[head.len() + w] == t);
            assert(pane_ids_children(s).contains(t));
        }
        if exists|j: int| 0 <= j < s.len() && pane_ids_spec(#[trigger] s[j]).contains(t) {
            let j = choose|j: int| 0 <= j < s.len() && pane_ids_spec(#[trigger] s[j]).contains(t);
            if j > 0 {
                assert(s.drop_first()[j - 1] == s[j]);
            }
        }
        if pane_ids_children(s).contains(t) {
            let w = choose|w: int| 0 <= w < pane_ids_children(s).len() && pane_ids_children(s)[w]
                == t;
            if w < head.len() {
                assert(head[w] == t);
            } else {
                assert(tail[w - head.len()] == t);
            }
        }
    }
}

/// Equal pane id sequences element-wise give an equal forest id sequence.
pub proof fn lemma_pic_elementwise(s1: Seq<LayoutNode>, s2: Seq<LayoutNode>)
    requires
        s1.len() == s2.len(),
        forall|j: int|
            0 <= j < s1.len() ==> pane_ids_spec(#[trigger] s1[j]) == pane_ids_spec(s2[j]),
    ensures
        pane_ids_children(s1) == pane_ids_children(s2),
    decreases s1.len(),
{
    if s1.len() > 0 {
        assert forall|j: int| 0 <= j < s1.drop_first().len() implies pane_ids_spec(
            #[trigger] s1.drop_first()[j],
        ) == pane_ids_spec(s2.drop_first()[j]) by {
            assert(s1.drop_first()[j] == s1[j + 1]);
            assert(s2.drop_first()[j] == s2[j + 1]);
        }
        lemma_pic_elementwise(s1.drop_first(), s2.drop_first());
    }
}

/// No sequence with distinct entries loses distinctness by dropping one.
pub proof fn lemma_remove_at_distinct(ids: Seq<PaneId>, k: int)
    requires
        0 <= k < ids.len(),
        forall|i: int, j: int| 0 <= i < j < ids.len() ==> ids[i] != ids[j],
    ensures
        forall|i: int, j: int|
            0 <= i < j < remove_at(ids, k).len() ==> remove_at(ids, k)[i] != remove_at(ids, k)[j],
{
    let r = remove_at(ids, k);
    assert forall|i: int, j: int| 0 <= i < j < r.len() implies r[i] != r[j] by {
        let i0 = if i < k {
            i
        } else {
            i + 1
        };
        let j0 = if j < k {
            j
        } else {
            j + 1
        };
        assert(r[i] == ids[i0]);
        assert(r[j] == ids[j0]);
    }
}

/// Inserting a fresh entry keeps a sequence's entries distinct.
pub proof fn lemma_insert_after_distinct(ids: Seq<PaneId>, k: int, x: PaneId)
    requires
        0 <= k < ids.len(),
        !ids.contains(x),
        forall|i: int, j: int| 0 <= i < j < ids.len() ==> ids[i] != ids[j],
    ensures
        forall|i: int, j: int|
            0 <= i < j < insert_after(ids, k, x).len() ==> insert_after(ids, k, x)[i]
                != insert_after(ids, k, x)[j],
{
    let r = insert_after(ids, k, x);
    assert(r.len() == ids.len() + 1);
    assert forall|i: int, j: int| 0 <= i < j < r.len() implies r[i] != r[j] by {
        if i == k + 1 {
            assert(r[i] == x);
            assert(r[j] == ids[j - 1]);
            assert(ids.contains(x) == false);
            assert(ids[j - 1] != x) by {
                if ids[j - 1] == x {
                    assert(ids.contains(x));
                }
            }
        } else if j == k + 1 {
            assert(r[j] == x);
            let i0 = if i <= k {
                i
            } else {
                i - 1
            };
            assert(r[i] == ids[i0]);
            if ids[i0] == x {
                assert(ids.contains(x));
            }
        } else {
            let i0 = if i <= k {
                i
            } else {
                i - 1
            };
            let j0 = if j <= k {
                j
            } else {
                j - 1
            };
            assert(r[i] == ids[i0]);
            assert(r[j] == ids[j0]);
        }
    }
}

/// Spread `removed` evenly over the ratios: every entry gains the equal
/// share `removed / len`, the first also takes the division remainder, so
/// the sum is exactly `RATIO_SCALE` again.
pub fn redistribute_ratios(ratios: &mut Vec<u32>, removed: u32)
    requires
        old(ratios)@.len() >= 1,
        removed <= RATIO_SCALE,
        sum_ratios(old(ratios)@) == RATIO_SCALE - removed,
        forall|k: int| 0 <= k < old(ratios)@.len() ==> #[trigger] old(ratios)@[k] >= 1,
        forall|k: int| 0 <= k < old(ratios)@.len() ==> #[trigger] old(ratios)@[k] <= RATIO_SCALE,
    ensures
        final(ratios)@.len() == old(ratios)@.len(),
        sum_ratios(final(ratios)@) == RATIO_SCALE,
        forall|k: int| 0 <= k < final(ratios)@.len() ==> #[trigger] final(ratios)@[k] >= 1,
        forall|k: int|
            0 <= k < final(ratios)@.len() ==> #[trigger] final(ratios)@[k] == old(ratios)@[k] + (
            removed as int) / (old(ratios)@.len() as int) + if k == 0 {
                (removed as int) % (old(ratios)@.len() as int)
            } else {
                0int
            },
{
    let m = ratios.len();
    let m64: u64 = m as u64;
    let b64: u64 = (removed as u64) / m64;
    let r64: u64 = (removed as u64) % m64;
    proof {
        vstd::arithmetic::div_mod::lemma_fundamental_div_mod(removed as int, m64 as int);
        vstd::arithmetic::mul::lemma_mul_nonnegative(m64 as int, b64 as int);
        vstd::arithmetic::mul::lemma_mul_inequality(1, m64 as int, b64 as int);
        assert(r64 <= removed);
        assert(b64 <= removed);
    }
    let bonus: u32 = b64 as u32;
    let rem: u32 = r64 as u32;
    let ghost mut added: int = 0;
    let mut j: usize = 0;
    while j < m
        invariant
            m == ratios@.len(),
            m >= 1,
            j <= m,
            bonus <= RATIO_SCALE,
            rem <= RATIO_SCALE,
            removed <= RATIO_SCALE,
            m64 == m,
            b64 == bonus,
            r64 == rem,
            removed == m64 * b64 + r64,
            sum_ratios(ratios@) == RATIO_SCALE - removed + added,
            added == j * bonus + if j > 0 {
                rem as int
            } else {
                0
            },
            forall|k: int| 0 <= k < m ==> #[trigger] ratios@[k] >= 1,
            forall|k: int| j <= k < m ==> #[trigger] ratios@[k] <= RATIO_SCALE,
            forall|k: int| 0 <= k < j ==> #[trigger] ratios@[k] <= 3 * RATIO_SCALE,
            forall|k: int| j <= k < m ==> #[trigger] ratios@[k] == old(ratios)@[k],
            forall|k: int|
                0 <= k < j ==> #[trigger] ratios@[k] == old(ratios)@[k] + bonus + if k == 0 {
                    rem as int
                } else {
                    0int
                },
            bonus as int == (removed as int) / (m as int),
            rem as int == (removed as int) % (m as int),
        decreases m - j,
    {
        let extra: u32 = if j == 0 {
            rem
        } else {
            0
        };
        let ghost rs_mid = ratios@;
        let rr = &mut ratios[j];
        *rr = *rr + bonus + extra;
        proof {
            lemma_sum_update(rs_mid, j as int, (rs_mid[j as int] + bonus + extra) as u32);
            added = added + bonus + extra;
            assert((j + 1) * bonus == j * bonus + bonus) by (nonlinear_arith);
        }
        j += 1;
    }
    proof {
        assert(added == removed);
    }
}


/// The extent of `area` along the split axis.
pub open spec fn axis_total(area: Rect, horizontal: bool) -> int {
    if horizontal {
        area.width as int
    } else {
        area.height as int
    }
}

/// The size one child takes: its ratio share of the axis, rounded, never
/// more than the room left; the last child absorbs the remainder.
pub open spec fn child_size_spec(total: int, ratio: u32, offset: int, last: bool) -> int {
    if offset > total {
        0
    } else if last {
        total - offset
    } else {
        let raw = (total * ratio + RATIO_SCALE / 2) / (RATIO_SCALE as int);
        if raw < total - offset {
            raw
        } else {
            total - offset
        }
    }
}

/// The rectangle one child occupies at `offset` into the axis.
pub open spec fn child_area_spec(area: Rect, horizontal: bool, offset: int, size: int) -> Rect {
    if horizontal {
        Rect {
            x: (area.x + offset) as u16,
            y: area.y,
            width: size as u16,
            height: area.height,
        }
    } else {
        Rect { x: area.x, y: (area.y + offset) as u16, width: area.width, height: size as u16 }
    }
}

/// The geometry of every pane in the tree, in pre-order: each split
/// partitions its axis by the rounded ratio shares with the last child
/// absorbing the remainder, and passes the other axis through unchanged.
pub open spec fn geo_spec(n: LayoutNode, area: Rect) -> Seq<(PaneId, Rect)>
    decreases n, 0int,
{
    match n {
        LayoutNode::Leaf(id) => seq![(id, area)],
        LayoutNode::Split { orientation, children, ratios } => geo_children_spec(
            children@,
            ratios@,
            orientation is Horizontal,
            area,
            0,
            0,
        ),
    }
}

/// The geometries of the children from index `idx` on, starting at
/// `offset` into the axis.
pub open spec fn geo_children_spec(
    cs: Seq<LayoutNode>,
    rs: Seq<u32>,
    horizontal: bool,
    area: Rect,
    offset: int,
    idx: int,
) -> Seq<(PaneId, Rect)>
    decreases cs, cs.len() - idx,
{
    if idx < 0 || idx >= cs.len() {
        Seq::empty()
    } else {
        let size = child_size_spec(
            axis_total(area, horizontal),
            if idx < rs.len() {
                rs[idx]
            } else {
                0
            },
            offset,
            idx == cs.len() - 1,
        );
        geo_spec(cs[idx], child_area_spec(area, horizontal, offset, size)) + geo_children_spec(
            cs,
            rs,
            horizontal,
            area,
            offset + size,
            idx + 1,
        )
    }
}

impl LayoutNode {
    /// Create a new leaf node.
    pub fn leaf(pane_id: PaneId) -> (r: Self)
        ensures
            r == LayoutNode::Leaf(pane_id),
    {
        LayoutNode::Leaf(pane_id)
    }

    /// All pane identifiers in the tree, in pre-order.
    pub fn pane_ids(&self) -> (r: Vec<PaneId>)
        ensures
            r@ == pane_ids_spec(*self),
        decreases *self,
    {
        match self {
            LayoutNode::Leaf(id) => {
                let mut v: Vec<PaneId> = Vec::new();
                v.push(*id);
                proof {
                    assert(v@ =~= pane_ids_spec(*self));
                }
                v
            },
            LayoutNode::Split { children, .. } => {
                let ghost cs = children@;
                let mut ids: Vec<PaneId> = Vec::new();
                let mut i: usize = 0;
                while i < children.len()
                    invariant
                        cs == children@,
                        cs == (*self)->children@,
                        *self is Split,
                        i <= cs.len(),
                        ids@ == pane_ids_children(cs.subrange(0, i as int)),
                    decreases cs.len() - i,
                {
                    let child = &children[i];
                    proof {
                        assert(decreases_to!(*self => (*self)->children));
                        assert(decreases_to!((*self)->children => cs));
                        assert(decreases_to!(cs => cs[i as int]));
                    }
                    let mut child_ids = child.pane_ids();
                    ids.append(&mut child_ids);
                    proof {
                        let pre = cs.subrange(0, i + 1 as int);
                        lemma_pic_decompose(pre, i as int);
                        assert(pre.subrange(0, i as int) =~= cs.subrange(0, i as int));
                        assert(pre.subrange(i + 1 as int, pre.len() as int) =~= Seq::<
                            LayoutNode,
                        >::empty());
                        assert(pre[i as int] == cs[i as int]);
                        assert(ids@ =~= pane_ids_children(cs.subrange(0, i + 1 as int)));
                    }
                    i += 1;
                }
                proof {
                    assert(cs.subrange(0, cs.len() as int) =~= cs);
                }
                ids
            },
        }
    }

    /// Replace this node by a split of the old node and a fresh leaf, half
    /// and half.
    pub fn split(&mut self, new_pane: PaneId, orientation: Orientation)
        ensures
            *final(self) is Split,
            (*final(self))->orientation == orientation,
            (*final(self))->children@.len() == 2,
            (*final(self))->children@[0] == *old(self),
            (*final(self))->children@[1] == LayoutNode::Leaf(new_pane),
            (*final(self))->ratios@ == seq![RATIO_SCALE / 2, RATIO_SCALE / 2],
            pane_ids_spec(*final(self)) == pane_ids_spec(*old(self)) + seq![new_pane],
            wf_node(*old(self)) ==> wf_node(*final(self)),
    {
        let mut tmp = LayoutNode::Leaf(new_pane);
        core::mem::swap(self, &mut tmp);
        let mut children: Vec<LayoutNode> = Vec::new();
        children.push(tmp);
        children.push(LayoutNode::Leaf(new_pane));
        let mut ratios: Vec<u32> = Vec::new();
        ratios.push(RATIO_SCALE / 2);
        ratios.push(RATIO_SCALE / 2);
        *self = LayoutNode::Split { orientation, children, ratios };
        proof {
            let two = seq![RATIO_SCALE / 2, RATIO_SCALE / 2];
            let one_r = seq![RATIO_SCALE / 2];
            assert(two.drop_last() =~= one_r);
            assert(one_r.drop_last() =~= Seq::<u32>::empty());
            assert(sum_ratios(Seq::<u32>::empty()) == 0);
            assert(sum_ratios(one_r) == RATIO_SCALE / 2);
            assert(sum_ratios(two) == RATIO_SCALE);
            assert(self->ratios@ =~= two);
            let cs = self->children@;
            let leaf_new = LayoutNode::Leaf(new_pane);
            assert(pane_ids_children(Seq::<LayoutNode>::empty()) =~= Seq::<PaneId>::empty());
            assert(pane_ids_spec(leaf_new) =~= seq![new_pane]);
            let tail = seq![leaf_new];
            assert(tail.drop_first() =~= Seq::<LayoutNode>::empty());
            assert(pane_ids_children(tail) =~= seq![new_pane]);
            assert(cs.drop_first() =~= tail);
            assert(pane_ids_children(cs) =~= pane_ids_spec(*old(self)) + seq![new_pane]);
            assert(pane_ids_spec(*self) =~= pane_ids_spec(*old(self)) + seq![new_pane]);
            if wf_node(*old(self)) {
                assert(wf_children(Seq::<LayoutNode>::empty()));
                assert(tail[0] == leaf_new);
                assert(wf_node(leaf_new));
                assert(wf_children(tail));
                assert(wf_children(cs));
            }
        }
    }

    /// Split the leaf holding `target`, adding `new_pane` directly after it.
    ///
    /// Returns whether `target` was found. On success the pane id sequence
    /// gains `new_pane` immediately after `target` and the tree stays
    /// well-formed; when the target is absent the pane ids are unchanged.
    #[verifier::rlimit(100)]
    #[verifier::spinoff_prover]
    #[verifier::loop_isolation(false)]
    pub fn split_pane(&mut self, target: PaneId, new_pane: PaneId, orientation: Orientation) -> (r:
        bool)
        requires
            wf_node(*old(self)),
        ensures
            wf_node(*final(self)),
            r == pane_ids_spec(*old(self)).contains(target),
            !r ==> pane_ids_spec(*final(self)) == pane_ids_spec(*old(self)),
            r ==> exists|k: int|
                0 <= k < pane_ids_spec(*old(self)).len() && pane_ids_spec(*old(self))[k] == target
                    && pane_ids_spec(*final(self)) == insert_after(
                    #[trigger] pane_ids_spec(*old(self)),
                    k,
                    new_pane,
                ),
            r && *old(self) is Leaf ==> (*final(self)) is Split && (*final(self))->orientation
                == orientation && (*final(self))->children@ =~= seq![
                *old(self),
                LayoutNode::Leaf(new_pane),
            ] && (*final(self))->ratios@ == seq![RATIO_SCALE / 2, RATIO_SCALE / 2],
        decreases *old(self),
    {
        let ghost orig = *self;
        let ghost old_ids = pane_ids_spec(*old(self));
        match self {
            LayoutNode::Leaf(id) => {
                if *id == target {
                    self.split(new_pane, orientation);
                    proof {
                        assert(old_ids[0] == target);
                        assert(old_ids.contains(target));
                        assert(pane_ids_spec(*self) =~= insert_after(old_ids, 0, new_pane));
                    }
                    true
                } else {
                    proof {
                        if old_ids.contains(target) {
                            assert(old_ids[0] == target);
                        }
                    }
                    false
                }
            },
            LayoutNode::Split { orientation: orient, children, ratios } => {
                let ghost cs = orig->children@;
                let ghost rs = orig->ratios@;
                let n = children.len();
                let mut i: usize = 0;
                while i < n
                    invariant
                        orig == *old(self),
                        orig is Split,
                        wf_node(orig),
                        n == cs.len(),
                        cs == orig->children@,
                        rs == orig->ratios@,
                        children@.len() == n,
                        ratios@ == rs,
                        *orient == orig->orientation,
                        i <= n,
                        old_ids == pane_ids_spec(orig),
                        forall|j: int|
                            0 <= j < i ==> !pane_ids_spec(#[trigger] cs[j]).contains(target),
                        forall|j: int|
                            0 <= j < i ==> pane_ids_spec(#[trigger] children@[j]) == pane_ids_spec(
                                cs[j],
                            ),
                        forall|j: int| 0 <= j < i ==> wf_node(#[trigger] children@[j]),
                        forall|j: int| i <= j < n ==> #[trigger] children@[j] == cs[j],
                    decreases n - i,
                {
                    let ghost pre = children@;
                    proof {
                        lemma_wfc_iff(cs);
                        assert forall|j: int|
                            0 <= j < pre.subrange(0, i as int).len() implies pane_ids_spec(
                            #[trigger] pre.subrange(0, i as int)[j],
                        ) == pane_ids_spec(cs.subrange(0, i as int)[j]) by {
                            assert(pre.subrange(0, i as int)[j] == pre[j]);
                            assert(cs.subrange(0, i as int)[j] == cs[j]);
                        }
                        lemma_pic_elementwise(pre.subrange(0, i as int), cs.subrange(0, i as int));
                        lemma_pic_decompose(cs, i as int);
                    }
                    let ghost kk = pane_ids_children(cs.subrange(0, i as int)).len() as int;
                    let is_leaf_target = match &children[i] {
                        LayoutNode::Leaf(id) => *id == target,
                        _ => false,
                    };
                    if is_leaf_target {
                        proof {
                            assert(pane_ids_spec(cs[i as int]) =~= seq![target]);
                            assert(old_ids[kk] == target);
                        }
                        let rat = ratios[i];
                        if *orient == orientation && rat >= 2 {
                            let half = rat / 2;
                            let r_ref = &mut ratios[i];
                            *r_ref = half;
                            children.insert(i + 1, LayoutNode::Leaf(new_pane));
                            ratios.insert(i + 1, rat - half);
                            proof {
                                lemma_sum_update(rs, i as int, half);
                                lemma_sum_insert(rs.update(i as int, half), i + 1, (rat - half) as u32);
                                assert(sum_ratios(ratios@) == RATIO_SCALE);
                                assert forall|j: int| 0 <= j < ratios@.len() implies #[trigger] ratios@[j]
                                    >= 1 by {
                                    if j < i as int {
                                        assert(ratios@[j] == rs[j]);
                                    } else if j > i + 1 {
                                        assert(ratios@[j] == rs[j - 1]);
                                    }
                                }
                                assert forall|j: int| 0 <= j < children@.len() implies wf_node(
                                    #[trigger] children@[j],
                                ) by {
                                    if j < i as int {
                                        assert(children@[j] == pre[j]);
                                    } else if j == i as int {
                                        assert(children@[j] == pre[j]);
                                        assert(pre[j] == cs[j]);
                                    } else if j == i + 1 {
                                    } else {
                                        assert(children@[j] == pre[j - 1]);
                                        assert(pre[j - 1] == cs[j - 1]);
                                    }
                                }
                                lemma_wfc_iff(children@);
                                lemma_pic_decompose(children@, i + 1 as int);
                                assert(children@.subrange(0, i + 1 as int) =~= pre.subrange(
                                    0,
                                    i + 1 as int,
                                ));
                                assert(children@.subrange(i + 2 as int, children@.len() as int)
                                    =~= cs.subrange(i + 1 as int, n as int));
                                lemma_pic_decompose(pre.subrange(0, i + 1 as int), i as int);
                                assert(pre.subrange(0, i + 1 as int).subrange(0, i as int)
                                    =~= pre.subrange(0, i as int));
                                assert(pre.subrange(0, i + 1 as int).subrange(
                                    i + 1 as int,
                                    i + 1 as int,
                                ) =~= Seq::<LayoutNode>::empty());
                                assert(pre.subrange(0, i + 1 as int)[i as int] == cs[i as int]);
                                assert(pane_ids_children(children@) =~= insert_after(
                                    old_ids,
                                    kk,
                                    new_pane,
                                ));
                                assert(0 <= kk < old_ids.len());
                                assert(wf_children(children@));
                                assert(sum_ratios(ratios@) == RATIO_SCALE);
                                assert(children@.len() >= 2);
                                assert(ratios@.len() == children@.len());
                            }
                            return true;
                        } else {
                            let child = &mut children[i];
                            proof {
                                assert(decreases_to!(orig => orig->children));
                                assert(decreases_to!(orig->children => cs));
                                assert(decreases_to!(cs => cs[i as int]));
                            }
                            child.split(new_pane, orientation);
                            proof {
                                assert(children@ == pre.update(i as int, children@[i as int]));
                                assert forall|j: int| 0 <= j < children@.len() implies wf_node(
                                    #[trigger] children@[j],
                                ) by {
                                    if j < i as int {
                                        assert(children@[j] == pre[j]);
                                    } else if j > i as int {
                                        assert(children@[j] == cs[j]);
                                    }
                                }
                                lemma_wfc_iff(children@);
                                lemma_pic_decompose(children@, i as int);
                                assert(children@.subrange(0, i as int) =~= pre.subrange(
                                    0,
                                    i as int,
                                ));
                                assert(children@.subrange(i + 1 as int, children@.len() as int)
                                    =~= cs.subrange(i + 1 as int, n as int));
                                assert(pane_ids_spec(children@[i as int]) =~= seq![
                                    target,
                                    new_pane,
                                ]);
                                assert(pane_ids_children(children@) =~= insert_after(
                                    old_ids,
                                    kk,
                                    new_pane,
                                ));
                            }
                            return true;
                        }
                    } else {
                        let child = &mut children[i];
                        proof {
                            assert(decreases_to!(orig => orig->children));
                            assert(decreases_to!(orig->children => cs));
                            assert(decreases_to!(cs => cs[i as int]));
                        }
                        let found = child.split_pane(target, new_pane, orientation);
                        if found {
                            proof {
                                assert(children@ == pre.update(i as int, children@[i as int]));
                                assert forall|j: int| 0 <= j < children@.len() implies wf_node(
                                    #[trigger] children@[j],
                                ) by {
                                    if j < i as int {
                                        assert(children@[j] == pre[j]);
                                    } else if j > i as int {
                                        assert(children@[j] == cs[j]);
                                    }
                                }
                                lemma_wfc_iff(children@);
                                lemma_pic_decompose(children@, i as int);
                                assert(children@.subrange(0, i as int) =~= pre.subrange(
                                    0,
                                    i as int,
                                ));
                                assert(children@.subrange(i + 1 as int, children@.len() as int)
                                    =~= cs.subrange(i + 1 as int, n as int));
                                let child_old_ids = pane_ids_spec(cs[i as int]);
                                let kc = choose|kc: int|
                                    0 <= kc < child_old_ids.len() && child_old_ids[kc] == target
                                        && pane_ids_spec(children@[i as int]) == insert_after(
                                        child_old_ids,
                                        kc,
                                        new_pane,
                                    );
                                let kg = kk + kc;
                                assert(old_ids[kg] == target);
                                assert(pane_ids_children(children@) =~= insert_after(
                                    old_ids,
                                    kg,
                                    new_pane,
                                ));
                            }
                            return true;
                        }
                        proof {
                            assert(children@ == pre.update(i as int, children@[i as int]));
                        }
                    }
                    i += 1;
                }
                proof {
                    lemma_pic_contains(cs, target);
                    assert forall|j: int| 0 <= j < children@.len() implies wf_node(
                        #[trigger] children@[j],
                    ) by {}
                    lemma_wfc_iff(children@);
                    lemma_pic_elementwise(children@, cs);
                }
                false
            },
        }
    }

    /// Remove the leaf holding `target` from the tree.
    ///
    /// Returns whether the pane was found and removed; the root itself is
    /// never removed, so a leaf root always reports `false`. On success the
    /// pane id sequence loses exactly the target's entry, the removed
    /// pane's ratio is spread evenly over its former siblings, a split left
    /// with one child collapses to that child, and the tree stays
    /// well-formed.
    #[verifier::rlimit(100)]
    #[verifier::spinoff_prover]
    #[verifier::loop_isolation(false)]
    pub fn remove_pane(&mut self, target: PaneId) -> (r: bool)
        requires
            wf_node(*old(self)),
        ensures
            wf_node(*final(self)),
            r == (*old(self) is Split && pane_ids_spec(*old(self)).contains(target)),
            !r ==> pane_ids_spec(*final(self)) == pane_ids_spec(*old(self)),
            r ==> exists|k: int|
                0 <= k < pane_ids_spec(*old(self)).len() && pane_ids_spec(*old(self))[k] == target
                    && pane_ids_spec(*final(self)) == remove_at(
                    #[trigger] pane_ids_spec(*old(self)),
                    k,
                ),
        decreases *old(self),
    {
        let ghost orig = *self;
        let ghost old_ids = pane_ids_spec(*old(self));
        match self {
            LayoutNode::Leaf(_) => false,
            LayoutNode::Split { orientation: orient, children, ratios } => {
                let ghost cs = orig->children@;
                let ghost rs = orig->ratios@;
                let n = children.len();
                // Read-only scan: find the child whose subtree holds the
                // target, noting whether it is that child's own label.
                let mut idx: usize = 0;
                let mut is_direct: bool = false;
                let mut found: bool = false;
                while idx < n && !found
                    invariant
                        orig == *old(self),
                        orig is Split,
                        wf_node(orig),
                        n == cs.len(),
                        cs == orig->children@,
                        rs == orig->ratios@,
                        children@ == cs,
                        ratios@ == rs,
                        *orient == orig->orientation,
                        idx <= n,
                        old_ids == pane_ids_spec(orig),
                        forall|j: int|
                            0 <= j < idx ==> !pane_ids_spec(#[trigger] cs[j]).contains(target),
                        found ==> idx < n && pane_ids_spec(cs[idx as int]).contains(target),
                        found ==> (is_direct <==> cs[idx as int] == LayoutNode::Leaf(target)),
                        !found ==> !is_direct,
                    decreases n - idx, if found { 0int } else { 1int },
                {
                    let child_ids = children[idx].pane_ids();
                    let mut t: usize = 0;
                    let m = child_ids.len();
                    while t < m && !found
                        invariant
                            m == child_ids@.len(),
                            t <= m,
                            child_ids@ == pane_ids_spec(cs[idx as int]),
                            idx < n,
                            forall|q: int| 0 <= q < t ==> child_ids@[q] != target,
                            found ==> pane_ids_spec(cs[idx as int]).contains(target),
                        decreases m - t, if found { 0int } else { 1int },
                    {
                        if child_ids[t] == target {
                            found = true;
                            proof {
                                assert(child_ids@.contains(target));
                            }
                        } else {
                            t += 1;
                        }
                    }
                    if found {
                        is_direct = match &children[idx] {
                            LayoutNode::Leaf(id) => *id == target,
                            _ => false,
                        };
                        proof {
                            if cs[idx as int] is Leaf {
                                assert(pane_ids_spec(cs[idx as int]) =~= seq![cs[idx as int]->0]);
                            }
                        }
                    } else {
                        idx += 1;
                    }
                }
                proof {
                    lemma_pic_contains(cs, target);
                    lemma_wfc_iff(cs);
                    if found {
                        assert(old_ids.contains(target)) by {
                            lemma_pic_decompose(cs, idx as int);
                            let w = choose|w: int|
                                0 <= w < pane_ids_spec(cs[idx as int]).len() && pane_ids_spec(
                                    cs[idx as int],
                                )[w] == target;
                            assert(old_ids[pane_ids_children(cs.subrange(0, idx as int)).len()
                                + w] == target);
                        }
                    }
                }
                if !found {
                    return false;
                }
                proof {
                    lemma_pic_decompose(cs, idx as int);
                    assert forall|j: int|
                        0 <= j < cs.subrange(0, idx as int).len() implies pane_ids_spec(
                        #[trigger] cs.subrange(0, idx as int)[j],
                    ) == pane_ids_spec(cs.subrange(0, idx as int)[j]) by {}
                }
                let ghost kk = pane_ids_children(cs.subrange(0, idx as int)).len() as int;
                if is_direct {
                    proof {
                        assert(pane_ids_spec(cs[idx as int]) =~= seq![target]);
                        assert(old_ids[kk] == target);
                    }
                    children.remove(idx);
                    let removed = ratios.remove(idx);
                    proof {
                        lemma_sum_remove(rs, idx as int);
                        assert(children@ =~= cs.subrange(0, idx as int) + cs.subrange(
                            idx + 1 as int,
                            n as int,
                        ));
                        lemma_pic_concat(
                            cs.subrange(0, idx as int),
                            cs.subrange(idx + 1 as int, n as int),
                        );
                        assert(old_ids.subrange(0, kk) =~= pane_ids_children(
                            cs.subrange(0, idx as int),
                        ));
                        assert(old_ids.subrange(kk + 1, old_ids.len() as int)
                            =~= pane_ids_children(cs.subrange(idx + 1 as int, n as int)));
                        assert(pane_ids_children(children@) =~= remove_at(old_ids, kk));
                        assert forall|j: int| 0 <= j < children@.len() implies wf_node(
                            #[trigger] children@[j],
                        ) by {
                            if j < idx as int {
                                assert(children@[j] == cs[j]);
                            } else {
                                assert(children@[j] == cs[j + 1]);
                            }
                        }
                        lemma_wfc_iff(children@);
                    }
                    if children.len() == 1 {
                        let ghost pre2 = children@;
                        let only = children.remove(0);
                        proof {
                            assert(pre2.drop_first() =~= Seq::<LayoutNode>::empty());
                            assert(pane_ids_children(pre2.drop_first()) =~= Seq::<PaneId>::empty());
                            assert(pane_ids_children(pre2) =~= pane_ids_spec(pre2[0]));
                            assert(pane_ids_spec(only) =~= remove_at(old_ids, kk));
                        }
                        *self = only;
                        proof {
                            assert(pane_ids_spec(*self) =~= remove_at(old_ids, kk));
                        }
                        true
                    } else {
                        proof {
                            lemma_sum_ge_element(rs, idx as int);
                            assert forall|k: int| 0 <= k < ratios@.len() implies #[trigger] ratios@[k]
                                <= RATIO_SCALE by {
                                lemma_sum_ge_element(ratios@, k);
                            }
                        }
                        redistribute_ratios(ratios, removed);
                        true
                    }
                } else {
                    let child = &mut children[idx];
                    proof {
                        assert(decreases_to!(orig => orig->children));
                        assert(decreases_to!(orig->children => cs));
                        assert(decreases_to!(cs => cs[idx as int]));
                        assert(*child is Split) by {
                            if cs[idx as int] is Leaf {
                                assert(pane_ids_spec(cs[idx as int]) =~= seq![cs[idx as int]->0]);
                            }
                        }
                    }
                    let fr = child.remove_pane(target);
                    proof {
                        assert(fr);
                        assert(children@ == cs.update(idx as int, children@[idx as int]));
                        assert forall|j: int| 0 <= j < children@.len() implies wf_node(
                            #[trigger] children@[j],
                        ) by {
                            if j != idx as int {
                                assert(children@[j] == cs[j]);
                            }
                        }
                        lemma_wfc_iff(children@);
                        lemma_pic_decompose(children@, idx as int);
                        assert(children@.subrange(0, idx as int) =~= cs.subrange(0, idx as int));
                        assert(children@.subrange(idx + 1 as int, children@.len() as int)
                            =~= cs.subrange(idx + 1 as int, n as int));
                        let child_old_ids = pane_ids_spec(cs[idx as int]);
                        let kc = choose|kc: int|
                            0 <= kc < child_old_ids.len() && child_old_ids[kc] == target
                                && pane_ids_spec(children@[idx as int]) == remove_at(
                                child_old_ids,
                                kc,
                            );
                        let kg = kk + kc;
                        assert(old_ids[kg] == target);
                        assert(pane_ids_children(children@) =~= remove_at(old_ids, kg));
                    }
                    true
                }
            },
        }
    }

    /// The geometry of every pane when the tree tiles `area`: one
    /// `(pane, rectangle)` pair per leaf, in pre-order. The rectangles'
    /// areas add up to exactly the area of `area`: the panes tile it.
    pub fn calculate_geometries(&self, area: Rect) -> (r: Vec<(PaneId, Rect)>)
        requires
            wf_node(*self),
            area.in_bounds(),
        ensures
            r@ == geo_spec(*self, area),
            r@.len() == pane_ids_spec(*self).len(),
            forall|i: int|
                0 <= i < r@.len() ==> (#[trigger] r@[i]).0 == pane_ids_spec(*self)[i],
            sum_areas(r@) == area.spec_area(),
    {
        let mut out: Vec<(PaneId, Rect)> = Vec::new();
        self.calc_geo_inner(area, &mut out);
        proof {
            assert(out@ =~= out@.subrange(0, out@.len() as int));
            assert(Seq::<(PaneId, Rect)>::empty() + out@ =~= out@);
            lemma_sum_areas_concat(Seq::<(PaneId, Rect)>::empty(), out@);
            assert forall|i: int| 0 <= i < out@.len() implies (#[trigger] out@[i]).0
                == pane_ids_spec(*self)[i] by {
                assert(out@[0 + i].0 == pane_ids_spec(*self)[i]);
            }
        }
        out
    }

    /// Append the geometries of this subtree within `area` to `result`.
    #[verifier::rlimit(100)]
    #[verifier::spinoff_prover]
    #[verifier::loop_isolation(false)]
    fn calc_geo_inner(&self, area: Rect, result: &mut Vec<(PaneId, Rect)>)
        requires
            wf_node(*self),
            area.in_bounds(),
        ensures
            final(result)@ == old(result)@ + geo_spec(*self, area),
            final(result)@.len() == old(result)@.len() + pane_ids_spec(*self).len(),
            forall|i: int|
                0 <= i < old(result)@.len() ==> #[trigger] final(result)@[i] == old(result)@[i],
            forall|i: int|
                0 <= i < pane_ids_spec(*self).len() ==> (#[trigger] final(result)@[old(
                    result,
                )@.len() + i]).0 == pane_ids_spec(*self)[i],
            sum_areas(
                final(result)@.subrange(old(result)@.len() as int, final(result)@.len() as int),
            ) == area.spec_area(),
        decreases *self,
    {
        let ghost base = result@.len() as int;
        match self {
            LayoutNode::Leaf(id) => {
                result.push((*id, area));
                proof {
                    let app = result@.subrange(base, result@.len() as int);
                    assert(app =~= seq![(*id, area)]);
                    assert(result@ =~= old(result)@ + geo_spec(*self, area));
                    assert(app.drop_last() =~= Seq::<(PaneId, Rect)>::empty());
                    assert(sum_areas(Seq::<(PaneId, Rect)>::empty()) == 0);
                    assert(app.last() == (*id, area));
                    assert(sum_areas(app) == area.spec_area());
                }
            },
            LayoutNode::Split { orientation, children, ratios } => {
                let ghost cs = children@;
                let ghost rs = ratios@;
                let horizontal = match orientation {
                    Orientation::Horizontal => true,
                    Orientation::Vertical => false,
                };
                let total: u16 = if horizontal {
                    area.width
                } else {
                    area.height
                };
                let ghost orth: int = if horizontal {
                    area.height as int
                } else {
                    area.width as int
                };
                let n = children.len();
                let mut offset: u16 = 0;
                let mut i: usize = 0;
                while i < n
                    invariant
                        wf_node(*self),
                        area.in_bounds(),
                        *self is Split,
                        cs == (*self)->children@,
                        rs == (*self)->ratios@,
                        n == cs.len(),
                        n == rs.len(),
                        horizontal == ((*self)->orientation is Horizontal),
                        total == if horizontal {
                            area.width
                        } else {
                            area.height
                        },
                        orth == if horizontal {
                            area.height as int
                        } else {
                            area.width as int
                        },
                        i <= n,
                        offset <= total,
                        i == 0 ==> offset == 0,
                        i == n ==> offset == total,
                        base <= result@.len(),
                        result@.len() == base + pane_ids_children(cs.subrange(0, i as int)).len(),
                        forall|q: int| 0 <= q < base ==> #[trigger] result@[q] == old(result)@[q],
                        forall|q: int|
                            0 <= q < pane_ids_children(cs.subrange(0, i as int)).len() ==> (
                            #[trigger] result@[base + q]).0 == pane_ids_children(
                                cs.subrange(0, i as int),
                            )[q],
                        sum_areas(result@.subrange(base, result@.len() as int)) == offset as int
                            * orth,
                        geo_children_spec(cs, rs, horizontal, area, 0, 0) == result@.subrange(
                            base,
                            result@.len() as int,
                        ) + geo_children_spec(cs, rs, horizontal, area, offset as int, i as int),
                    decreases n - i,
                {
                    proof {
                        lemma_wfc_iff(cs);
                    }
                    let size: u16 = if i == n - 1 {
                        total - offset
                    } else {
                        proof {
                            lemma_sum_ge_element(rs, i as int);
                            assert((total as int) * (rs[i as int] as int) <= 655350000)
                                by (nonlinear_arith)
                                requires
                                    (total as int) <= 65535,
                                    0 <= (rs[i as int] as int) <= 10000,
                            ;
                        }
                        let raw: u64 = ((total as u64) * (ratios[i] as u64) + (RATIO_SCALE as u64)
                            / 2) / (RATIO_SCALE as u64);
                        let room: u64 = (total - offset) as u64;
                        let chosen: u64 = if raw < room {
                            raw
                        } else {
                            room
                        };
                        chosen as u16
                    };
                    let child_area: Rect = if horizontal {
                        Rect {
                            x: area.x + offset,
                            y: area.y,
                            width: size,
                            height: area.height,
                        }
                    } else {
                        Rect { x: area.x, y: area.y + offset, width: area.width, height: size }
                    };
                    let ghost mid = result@.len() as int;
                    let ghost res_mid = result@;
                    let child = &children[i];
                    proof {
                        assert(decreases_to!(*self => (*self)->children));
                        assert(decreases_to!((*self)->children => cs));
                        assert(decreases_to!(cs => cs[i as int]));
                    }
                    child.calc_geo_inner(child_area, result);
                    proof {
                        let pre = cs.subrange(0, i + 1 as int);
                        lemma_pic_decompose(pre, i as int);
                        assert(pre.subrange(0, i as int) =~= cs.subrange(0, i as int));
                        assert(pre.subrange(i + 1 as int, pre.len() as int) =~= Seq::<
                            LayoutNode,
                        >::empty());
                        assert(pre[i as int] == cs[i as int]);
                        let seg_old = res_mid.subrange(base, mid);
                        let seg_new = result@.subrange(mid, result@.len() as int);
                        assert(result@.subrange(base, result@.len() as int) =~= seg_old + seg_new);
                        lemma_sum_areas_concat(seg_old, seg_new);
                        assert(seg_old =~= result@.subrange(base, mid));
                        assert(offset as int * orth + size as int * orth == (offset + size) * orth)
                            by (nonlinear_arith);
                        assert(size as int == child_size_spec(
                            axis_total(area, horizontal),
                            rs[i as int],
                            offset as int,
                            i as int == cs.len() - 1,
                        ));
                        assert(child_area == child_area_spec(
                            area,
                            horizontal,
                            offset as int,
                            size as int,
                        ));
                        assert(geo_children_spec(cs, rs, horizontal, area, offset as int, i as int)
                            == geo_spec(cs[i as int], child_area) + geo_children_spec(
                            cs,
                            rs,
                            horizontal,
                            area,
                            offset + size as int,
                            i + 1 as int,
                        ));
                        assert(result@.subrange(base, result@.len() as int) =~= result@.subrange(
                            base,
                            mid,
                        ) + result@.subrange(mid, result@.len() as int));
                        assert forall|q: int|
                            0 <= q < pane_ids_children(cs.subrange(0, i + 1 as int)).len() implies (
                        #[trigger] result@[base + q]).0 == pane_ids_children(
                            cs.subrange(0, i + 1 as int),
                        )[q] by {
                            let plen = pane_ids_children(cs.subrange(0, i as int)).len() as int;
                            if q < plen {
                                assert(result@[base + q] == res_mid[base + q]);
                                assert(res_mid[base + q].0 == pane_ids_children(
                                    cs.subrange(0, i as int),
                                )[q]);
                            } else {
                                assert(result@[mid + (q - plen)].0 == pane_ids_spec(
                                    cs[i as int],
                                )[q - plen]);
                            }
                        }
                    }
                    offset = offset + size;
                    i += 1;
                }
                proof {
                    assert(cs.subrange(0, n as int) =~= cs);
                    assert(offset == total);
                    assert(geo_children_spec(cs, rs, horizontal, area, offset as int, n as int)
                        =~= Seq::<(PaneId, Rect)>::empty());
                    assert(result@.subrange(base, result@.len() as int) + Seq::<(
                        PaneId,
                        Rect,
                    )>::empty() =~= result@.subrange(base, result@.len() as int));
                    assert(result@ =~= old(result)@ + geo_spec(*self, area));
                    assert(total as int * orth == area.spec_area()) by (nonlinear_arith)
                        requires
                            total == if horizontal {
                                area.width
                            } else {
                                area.height
                            },
                            orth == if horizontal {
                                area.height as int
                            } else {
                                area.width as int
                            },
                            area.spec_area() == area.width * area.height,
                    ;
                }
            },
        }
    }

    /// Grow or shrink the pane holding `target` by moving `amount` ratio
    /// units (out of `RATIO_SCALE`) between it and its neighbour in the
    /// split whose axis matches `direction`, never pushing either below
    /// `MIN_RATIO`.
    ///
    /// The ratios keep their exact sum of `RATIO_SCALE`, the pane ids are
    /// untouched, and a tree whose ratios all met the minimum still meets
    /// it afterwards.
    #[verifier::rlimit(100)]
    #[verifier::spinoff_prover]
    #[verifier::loop_isolation(false)]
    pub fn resize_pane(&mut self, target: PaneId, direction: Direction, amount: u32) -> (r: bool)
        requires
            wf_node(*old(self)),
        ensures
            wf_node(*final(self)),
            pane_ids_spec(*final(self)) == pane_ids_spec(*old(self)),
            min_ratios_ok(*old(self)) ==> min_ratios_ok(*final(self)),
            r ==> pane_ids_spec(*old(self)).contains(target),
        decreases *old(self),
    {
        let ghost orig = *self;
        let ghost old_ids = pane_ids_spec(*old(self));
        match self {
            LayoutNode::Leaf(_) => false,
            LayoutNode::Split { orientation: orient, children, ratios } => {
                let ghost cs = orig->children@;
                let ghost rs = orig->ratios@;
                let n = children.len();
                // Read-only scan for the child whose subtree holds the target.
                let mut idx: usize = 0;
                let mut found: bool = false;
                while idx < n && !found
                    invariant
                        orig == *old(self),
                        orig is Split,
                        wf_node(orig),
                        n == cs.len(),
                        cs == orig->children@,
                        rs == orig->ratios@,
                        children@ == cs,
                        ratios@ == rs,
                        *orient == orig->orientation,
                        idx <= n,
                        found ==> idx < n && pane_ids_spec(cs[idx as int]).contains(target),
                    decreases n - idx, if found {
                        0int
                    } else {
                        1int
                    },
                {
                    let child_ids = children[idx].pane_ids();
                    let mut t: usize = 0;
                    let m = child_ids.len();
                    while t < m && !found
                        invariant
                            m == child_ids@.len(),
                            t <= m,
                            child_ids@ == pane_ids_spec(cs[idx as int]),
                            idx < n,
                            found ==> pane_ids_spec(cs[idx as int]).contains(target),
                        decreases m - t, if found {
                            0int
                        } else {
                            1int
                        },
                    {
                        if child_ids[t] == target {
                            found = true;
                            proof {
                                assert(child_ids@.contains(target));
                            }
                        } else {
                            t += 1;
                        }
                    }
                    if !found {
                        idx += 1;
                    }
                }
                if !found {
                    proof {
                        lemma_wfc_iff(cs);
                        if min_ratios_ok(orig) {
                            lemma_mrc_iff(cs);
                        }
                    }
                    return false;
                }
                proof {
                    lemma_pic_decompose(cs, idx as int);
                    let w = choose|w: int|
                        0 <= w < pane_ids_spec(cs[idx as int]).len() && pane_ids_spec(
                            cs[idx as int],
                        )[w] == target;
                    assert(old_ids[pane_ids_children(cs.subrange(0, idx as int)).len() + w]
                        == target);
                    assert(old_ids.contains(target));
                }
                let matches_axis = match (*orient, direction) {
                    (Orientation::Horizontal, Direction::Left) => true,
                    (Orientation::Horizontal, Direction::Right) => true,
                    (Orientation::Vertical, Direction::Up) => true,
                    (Orientation::Vertical, Direction::Down) => true,
                    _ => false,
                };
                let grow = match direction {
                    Direction::Right => true,
                    Direction::Down => true,
                    _ => false,
                };
                let has_neighbor = if grow {
                    idx + 1 < n
                } else {
                    idx > 0
                };
                if matches_axis && has_neighbor {
                    let nb: usize = if grow {
                        idx + 1
                    } else {
                        idx - 1
                    };
                    let nb_ratio = ratios[nb];
                    let d_eff: u32 = if nb_ratio >= MIN_RATIO {
                        if amount < nb_ratio - MIN_RATIO {
                            amount
                        } else {
                            nb_ratio - MIN_RATIO
                        }
                    } else {
                        0
                    };
                    proof {
                        lemma_sum_ge_element(rs, idx as int);
                        lemma_sum_ge_element(rs, nb as int);
                    }
                    let cur = ratios[idx];
                    let r1 = &mut ratios[idx];
                    *r1 = cur + d_eff;
                    let ghost rs_mid = ratios@;
                    let r2 = &mut ratios[nb];
                    *r2 = nb_ratio - d_eff;
                    proof {
                        lemma_sum_update(rs, idx as int, (cur + d_eff) as u32);
                        lemma_sum_update(rs_mid, nb as int, (nb_ratio - d_eff) as u32);
                        assert(sum_ratios(ratios@) == RATIO_SCALE);
                        assert forall|k: int| 0 <= k < ratios@.len() implies #[trigger] ratios@[k]
                            >= 1 by {
                            if k != idx as int && k != nb as int {
                                assert(ratios@[k] == rs[k]);
                            }
                        }
                        lemma_wfc_iff(cs);
                        if min_ratios_ok(orig) {
                            lemma_mrc_iff(cs);
                            assert forall|k: int| 0 <= k < ratios@.len() implies #[trigger] ratios@[k]
                                >= MIN_RATIO by {
                                if k != idx as int && k != nb as int {
                                    assert(ratios@[k] == rs[k]);
                                }
                            }
                        }
                    }
                    true
                } else {
                    let child = &mut children[idx];
                    proof {
                        assert(decreases_to!(orig => orig->children));
                        assert(decreases_to!(orig->children => cs));
                        assert(decreases_to!(cs => cs[idx as int]));
                        lemma_wfc_iff(cs);
                    }
                    let sub = child.resize_pane(target, direction, amount);
                    proof {
                        assert(children@ == cs.update(idx as int, children@[idx as int]));
                        assert forall|j: int| 0 <= j < children@.len() implies wf_node(
                            #[trigger] children@[j],
                        ) by {
                            if j != idx as int {
                                assert(children@[j] == cs[j]);
                            }
                        }
                        lemma_wfc_iff(children@);
                        assert forall|j: int|
                            0 <= j < children@.len() implies pane_ids_spec(#[trigger] children@[j])
                            == pane_ids_spec(cs[j]) by {
                            if j != idx as int {
                                assert(children@[j] == cs[j]);
                            }
                        }
                        lemma_pic_elementwise(children@, cs);
                        if min_ratios_ok(orig) {
                            lemma_mrc_iff(cs);
                            assert forall|j: int| 0 <= j < children@.len() implies min_ratios_ok(
                                #[trigger] children@[j],
                            ) by {
                                if j != idx as int {
                                    assert(children@[j] == cs[j]);
                                }
                            }
                            lemma_mrc_iff(children@);
                        }
                    }
                    sub
                }
            },
        }
    }

    /// Swap the labels `a` and `b` wherever they occur; the tree shape and
    /// the ratios are unchanged. Swapping the same pair again restores the
    /// original tree (see `lemma_swap_involution`).
    pub fn swap_panes(&mut self, a: PaneId, b: PaneId)
        ensures
            swapped(*old(self), *final(self), a, b),
        decreases *old(self),
    {
        let ghost orig = *self;
        match self {
            LayoutNode::Leaf(id) => {
                if *id == a {
                    *id = b;
                } else if *id == b {
                    *id = a;
                }
            },
            LayoutNode::Split { children, .. } => {
                let n = children.len();
                let mut i: usize = 0;
                while i < n
                    invariant
                        orig == *old(self),
                        orig is Split,
                        n == orig->children@.len(),
                        children@.len() == n,
                        i <= n,
                        forall|j: int|
                            0 <= j < i ==> swapped(orig->children@[j], #[trigger] children@[j], a, b),
                        forall|j: int| i <= j < n ==> #[trigger] children@[j] == orig->children@[j],
                    decreases n - i,
                {
                    let child = &mut children[i];
                    proof {
                        assert(*child == orig->children@[i as int]);
                        assert(decreases_to!(orig => orig->children));
                        assert(decreases_to!(orig->children => orig->children@));
                        assert(decreases_to!(orig->children@ => orig->children@[i as int]));
                    }
                    child.swap_panes(a, b);
                    i += 1;
                }
            },
        }
    }

    /// The pane adjacent to `target` in the given direction: among the
    /// panes whose centre lies strictly in that half-plane, the one at the
    /// smallest weighted distance (twice the distance along the direction's
    /// axis plus the distance across it), earliest in pre-order on ties.
    #[verifier::rlimit(100)]
    #[verifier::spinoff_prover]
    #[verifier::loop_isolation(false)]
    pub fn find_adjacent_pane(&self, target: PaneId, direction: Direction, area: Rect) -> (r:
        Option<PaneId>)
        requires
            wf_node(*self),
            ids_distinct(*self),
            area.in_bounds(),
        ensures
            match r {
                Some(p) => pane_ids_spec(*self).contains(p) && p != target && pane_ids_spec(
                    *self,
                ).contains(target),
                None => true,
            },
            !pane_ids_spec(*self).contains(target) ==> r is None,
            ({
                let geos = geo_spec(*self, area);
                pane_ids_spec(*self).contains(target) ==> ({
                    let ti = choose|ti: int|
                        0 <= ti < geos.len() && (#[trigger] geos[ti]).0 == target;
                    let t = geos[ti].1;
                    match r {
                        Some(p) => exists|bj: int|
                            0 <= bj < geos.len() && (#[trigger] geos[bj]).0 == p && p != target
                                && dir_valid(direction, t, geos[bj].1) && (forall|q: int|
                                0 <= q < geos.len() && (#[trigger] geos[q]).0 != target
                                    && dir_valid(direction, t, geos[q].1) ==> weighted_dist(
                                    direction,
                                    t,
                                    geos[bj].1,
                                ) <= weighted_dist(direction, t, geos[q].1) && (weighted_dist(
                                    direction,
                                    t,
                                    geos[bj].1,
                                ) == weighted_dist(direction, t, geos[q].1) ==> bj <= q)),
                        None => forall|q: int|
                            0 <= q < geos.len() ==> !((#[trigger] geos[q]).0 != target
                                && dir_valid(direction, t, geos[q].1)),
                    }
                })
            }),
    {
        let geos = self.calculate_geometries(area);
        let len = geos.len();
        let mut ti: usize = 0;
        let mut tfound: bool = false;
        while ti < len && !tfound
            invariant
                len == geos@.len(),
                ti <= len,
                tfound ==> ti < len && geos@[ti as int].0 == target,
                !tfound ==> forall|q: int| 0 <= q < ti ==> (#[trigger] geos@[q]).0 != target,
            decreases len - ti, if tfound {
                0int
            } else {
                1int
            },
        {
            if geos[ti].0 == target {
                tfound = true;
            } else {
                ti += 1;
            }
        }
        if !tfound {
            proof {
                assert forall|q: int|
                    0 <= q < pane_ids_spec(*self).len() implies pane_ids_spec(*self)[q]
                    != target by {
                    assert(geos@[q].0 == pane_ids_spec(*self)[q]);
                }
                if pane_ids_spec(*self).contains(target) {
                    let w = choose|w: int|
                        0 <= w < pane_ids_spec(*self).len() && pane_ids_spec(*self)[w] == target;
                    assert(false);
                }
            }
            return None;
        }
        proof {
            assert(pane_ids_spec(*self)[ti as int] == target);
            assert(pane_ids_spec(*self).contains(target));
        }
        let ghost tis = choose|q: int|
            0 <= q < geos@.len() && (#[trigger] geos@[q]).0 == target;
        proof {
            if tis != ti as int {
                assert(pane_ids_spec(*self)[tis] == target);
                assert(pane_ids_spec(*self)[ti as int] == target);
                assert(false);
            }
        }
        let trect = geos[ti].1;
        let tcx: u32 = trect.x as u32 + (trect.width / 2) as u32;
        let tcy: u32 = trect.y as u32 + (trect.height / 2) as u32;
        proof {
            assert(tcx as int == centre_of(trect).0);
            assert(tcy as int == centre_of(trect).1);
        }
        let mut best_idx: usize = 0;
        let mut best_dist: u32 = 0;
        let mut have_best: bool = false;
        let mut j: usize = 0;
        while j < len
            invariant
                len == geos@.len(),
                geos@.len() == pane_ids_spec(*self).len(),
                forall|q: int|
                    0 <= q < geos@.len() ==> (#[trigger] geos@[q]).0 == pane_ids_spec(*self)[q],
                j <= len,
                tcx as int == centre_of(trect).0,
                tcy as int == centre_of(trect).1,
                have_best ==> best_idx < j && geos@[best_idx as int].0 != target && dir_valid(
                    direction,
                    trect,
                    geos@[best_idx as int].1,
                ) && best_dist as int == weighted_dist(direction, trect, geos@[best_idx as int].1),
                forall|q: int|
                    0 <= q < j && (#[trigger] geos@[q]).0 != target && dir_valid(
                        direction,
                        trect,
                        geos@[q].1,
                    ) ==> have_best && best_dist as int <= weighted_dist(direction, trect, geos@[q].1)
                        && (best_dist as int == weighted_dist(direction, trect, geos@[q].1)
                        ==> best_idx <= q),
            decreases len - j,
        {
            let pid = geos[j].0;
            if !(pid == target) {
                let rect = geos[j].1;
                let cx: u32 = rect.x as u32 + (rect.width / 2) as u32;
                let cy: u32 = rect.y as u32 + (rect.height / 2) as u32;
                proof {
                    assert(cx as int == centre_of(rect).0);
                    assert(cy as int == centre_of(rect).1);
                }
                let valid = match direction {
                    Direction::Left => cx < tcx,
                    Direction::Right => cx > tcx,
                    Direction::Up => cy < tcy,
                    Direction::Down => cy > tcy,
                };
                proof {
                    assert(valid == dir_valid(direction, trect, rect));
                }
                if valid {
                    let dx: u32 = if cx >= tcx {
                        cx - tcx
                    } else {
                        tcx - cx
                    };
                    let dy: u32 = if cy >= tcy {
                        cy - tcy
                    } else {
                        tcy - cy
                    };
                    let dist: u32 = match direction {
                        Direction::Left | Direction::Right => dx * 2 + dy,
                        Direction::Up | Direction::Down => dy * 2 + dx,
                    };
                    proof {
                        assert(dist as int == weighted_dist(direction, trect, rect));
                    }
                    if !have_best || dist < best_dist {
                        best_idx = j;
                        best_dist = dist;
                        have_best = true;
                    }
                }
            }
            j += 1;
        }
        if have_best {
            proof {
                assert(pane_ids_spec(*self)[best_idx as int] == geos@[best_idx as int].0);
                assert(pane_ids_spec(*self).contains(geos@[best_idx as int].0));
                assert(geos@ == geo_spec(*self, area));
            }
            Some(geos[best_idx].0)
        } else {
            proof {
                assert(geos@ == geo_spec(*self, area));
            }
            None
        }
    }
}


/// The centre of a rectangle, x then y.
pub open spec fn centre_of(r: Rect) -> (int, int) {
    (r.x + r.width as int / 2, r.y + r.height as int / 2)
}

/// Whether `c`'s centre lies strictly in the half-plane `direction` of
/// `t`'s centre.
pub open spec fn dir_valid(direction: Direction, t: Rect, c: Rect) -> bool {
    match direction {
        Direction::Left => centre_of(c).0 < centre_of(t).0,
        Direction::Right => centre_of(c).0 > centre_of(t).0,
        Direction::Up => centre_of(c).1 < centre_of(t).1,
        Direction::Down => centre_of(c).1 > centre_of(t).1,
    }
}

/// The weighted centre distance from `t` to `c`: twice the distance along
/// the direction's axis plus the distance across it.
pub open spec fn weighted_dist(direction: Direction, t: Rect, c: Rect) -> int {
    let dx = if centre_of(c).0 >= centre_of(t).0 {
        centre_of(c).0 - centre_of(t).0
    } else {
        centre_of(t).0 - centre_of(c).0
    };
    let dy = if centre_of(c).1 >= centre_of(t).1 {
        centre_of(c).1 - centre_of(t).1
    } else {
        centre_of(t).1 - centre_of(c).1
    };
    match direction {
        Direction::Left | Direction::Right => 2 * dx + dy,
        Direction::Up | Direction::Down => 2 * dy + dx,
    }
}

/// One leaf node per id from `ids[lo..hi]`.
fn leaves_of(ids: &Vec<PaneId>, lo: usize, hi: usize) -> (r: Vec<LayoutNode>)
    requires
        lo <= hi <= ids@.len(),
    ensures
        r@.len() == hi - lo,
        wf_children(r@),
        pane_ids_children(r@) == ids@.subrange(lo as int, hi as int),
        forall|i: int| 0 <= i < r@.len() ==> #[trigger] r@[i] == LayoutNode::Leaf(ids@[lo + i]),
{
    let mut out: Vec<LayoutNode> = Vec::new();
    let mut i: usize = lo;
    while i < hi
        invariant
            lo <= i <= hi <= ids@.len(),
            out@.len() == i - lo,
            forall|q: int| 0 <= q < out@.len() ==> #[trigger] out@[q] == LayoutNode::Leaf(
                ids@[lo + q],
            ),
            pane_ids_children(out@) == ids@.subrange(lo as int, i as int),
        decreases hi - i,
    {
        let ghost prev = out@;
        out.push(LayoutNode::Leaf(ids[i]));
        proof {
            lemma_pic_decompose(out@, out@.len() - 1);
            assert(out@.subrange(0, out@.len() - 1) =~= prev);
            assert(out@.subrange(out@.len() as int, out@.len() as int) =~= Seq::<
                LayoutNode,
            >::empty());
            assert(pane_ids_spec(out@[out@.len() - 1]) =~= seq![ids@[i as int]]);
            assert(pane_ids_children(out@) =~= ids@.subrange(lo as int, i + 1 as int));
        }
        i += 1;
    }
    proof {
        lemma_wfc_iff(out@);
    }
    out
}

/// An even partition of `RATIO_SCALE` into `n` positive shares; the last
/// share absorbs the division remainder.
fn even_ratios(n: usize) -> (r: Vec<u32>)
    requires
        1 <= n <= RATIO_SCALE,
    ensures
        r@.len() == n,
        sum_ratios(r@) == RATIO_SCALE,
        forall|i: int| 0 <= i < r@.len() ==> #[trigger] r@[i] >= 1,
{
    let base: u32 = RATIO_SCALE / (n as u32);
    proof {
        vstd::arithmetic::div_mod::lemma_fundamental_div_mod(
            RATIO_SCALE as int,
            n as int,
        );
        vstd::arithmetic::mul::lemma_mul_inequality(1, n as int, base as int);
        vstd::arithmetic::mul::lemma_mul_nonnegative(n as int, base as int);
        assert(base >= 1) by {
            if base == 0 {
                assert(RATIO_SCALE as int == n as int * 0 + RATIO_SCALE as int % n as int);
            }
        }
    }
    let mut out: Vec<u32> = Vec::new();
    let mut i: usize = 0;
    while i < n - 1
        invariant
            1 <= n <= RATIO_SCALE,
            base == RATIO_SCALE / (n as u32),
            base >= 1,
            base <= RATIO_SCALE,
            i <= n - 1,
            out@.len() == i,
            forall|q: int| 0 <= q < out@.len() ==> #[trigger] out@[q] == base,
            sum_ratios(out@) == i * base,
        decreases n - 1 - i,
    {
        let ghost prev = out@;
        out.push(base);
        proof {
            assert(out@.drop_last() =~= prev);
            assert((i + 1) * base == i * base + base) by (nonlinear_arith);
        }
        i += 1;
    }
    proof {
        vstd::arithmetic::div_mod::lemma_fundamental_div_mod(RATIO_SCALE as int, n as int);
        vstd::arithmetic::mul::lemma_mul_is_distributive_sub_other_way(
            base as int,
            n as int,
            1,
        );
        assert((n - 1) as int * base == n as int * base - base);
        assert((n - 1) as int * base <= RATIO_SCALE - base);
    }
    let last: u32 = RATIO_SCALE - ((n - 1) as u32) * base;
    let ghost prev = out@;
    out.push(last);
    proof {
        assert(out@.drop_last() =~= prev);
        assert(sum_ratios(out@) == RATIO_SCALE);
    }
    out
}

/// A split of exactly two well-formed subtrees.
fn pair_split(a: LayoutNode, b: LayoutNode, orientation: Orientation, ra: u32, rb: u32) -> (r:
    LayoutNode)
    requires
        wf_node(a),
        wf_node(b),
        ra >= 1,
        rb >= 1,
        ra + rb == RATIO_SCALE,
    ensures
        wf_node(r),
        pane_ids_spec(r) == pane_ids_spec(a) + pane_ids_spec(b),
{
    let ghost ga = a;
    let ghost gb = b;
    let mut children: Vec<LayoutNode> = Vec::new();
    children.push(a);
    children.push(b);
    let mut ratios: Vec<u32> = Vec::new();
    ratios.push(ra);
    ratios.push(rb);
    let r = LayoutNode::Split { orientation, children, ratios };
    proof {
        let cs = r->children@;
        assert(cs =~= seq![ga, gb]);
        assert(cs.drop_first() =~= seq![gb]);
        assert(cs.drop_first().drop_first() =~= Seq::<LayoutNode>::empty());
        assert(pane_ids_children(cs.drop_first().drop_first()) =~= Seq::<PaneId>::empty());
        assert(pane_ids_children(cs.drop_first()) =~= pane_ids_spec(gb));
        assert(pane_ids_children(cs) =~= pane_ids_spec(ga) + pane_ids_spec(gb));
        assert(wf_children(cs.drop_first().drop_first()));
        assert(wf_children(cs.drop_first()));
        assert(wf_children(cs));
        let rsq = r->ratios@;
        assert(rsq =~= seq![ra, rb]);
        assert(rsq.drop_last() =~= seq![ra]);
        assert(rsq.drop_last().drop_last() =~= Seq::<u32>::empty());
        assert(sum_ratios(rsq.drop_last().drop_last()) == 0);
        assert(sum_ratios(rsq.drop_last()) == ra);
        assert(sum_ratios(rsq) == RATIO_SCALE);
    }
    r
}

/// Layout preset: all panes side by side in one horizontal split.
pub fn even_horizontal(pane_ids: &Vec<PaneId>, _area: Rect) -> (r: LayoutNode)
    requires
        1 <= pane_ids@.len() <= RATIO_SCALE,
    ensures
        wf_node(r),
        pane_ids_spec(r) == pane_ids@,
{
    if pane_ids.len() == 1 {
        let r = LayoutNode::Leaf(pane_ids[0]);
        proof {
            assert(pane_ids_spec(r) =~= pane_ids@);
        }
        return r;
    }
    let children = leaves_of(pane_ids, 0, pane_ids.len());
    let ratios = even_ratios(pane_ids.len());
    let r = LayoutNode::Split { orientation: Orientation::Horizontal, children, ratios };
    proof {
        assert(pane_ids@.subrange(0, pane_ids@.len() as int) =~= pane_ids@);
        assert(pane_ids_spec(r) == pane_ids@);
    }
    r
}

/// Layout preset: all panes stacked in one vertical split.
pub fn even_vertical(pane_ids: &Vec<PaneId>, _area: Rect) -> (r: LayoutNode)
    requires
        1 <= pane_ids@.len() <= RATIO_SCALE,
    ensures
        wf_node(r),
        pane_ids_spec(r) == pane_ids@,
{
    if pane_ids.len() == 1 {
        let r = LayoutNode::Leaf(pane_ids[0]);
        proof {
            assert(pane_ids_spec(r) =~= pane_ids@);
        }
        return r;
    }
    let children = leaves_of(pane_ids, 0, pane_ids.len());
    let ratios = even_ratios(pane_ids.len());
    let r = LayoutNode::Split { orientation: Orientation::Vertical, children, ratios };
    proof {
        assert(pane_ids@.subrange(0, pane_ids@.len() as int) =~= pane_ids@);
        assert(pane_ids_spec(r) == pane_ids@);
    }
    r
}

/// Layout preset: the first pane across the top at six tenths of the
/// height, the rest sharing the bottom band evenly.
pub fn main_horizontal(pane_ids: &Vec<PaneId>, _area: Rect) -> (r: LayoutNode)
    requires
        1 <= pane_ids@.len() <= RATIO_SCALE,
    ensures
        wf_node(r),
        pane_ids_spec(r) == pane_ids@,
{
    let n = pane_ids.len();
    if n == 1 {
        let r = LayoutNode::Leaf(pane_ids[0]);
        proof {
            assert(pane_ids_spec(r) =~= pane_ids@);
        }
        return r;
    }
    let main_pane = LayoutNode::Leaf(pane_ids[0]);
    let bottom: LayoutNode = if n == 2 {
        LayoutNode::Leaf(pane_ids[1])
    } else {
        let others = leaves_of(pane_ids, 1, n);
        let ratios = even_ratios(n - 1);
        LayoutNode::Split { orientation: Orientation::Horizontal, children: others, ratios }
    };
    proof {
        if n == 2 {
            assert(pane_ids_spec(bottom) =~= pane_ids@.subrange(1, n as int));
        }
        assert(pane_ids_spec(main_pane) =~= pane_ids@.subrange(0, 1));
    }
    let r = pair_split(main_pane, bottom, Orientation::Vertical, 6000, 4000);
    proof {
        assert(pane_ids_spec(r) =~= pane_ids@);
    }
    r
}

/// Layout preset: the first pane down the left at six tenths of the
/// width, the rest sharing the right band evenly.
pub fn main_vertical(pane_ids: &Vec<PaneId>, _area: Rect) -> (r: LayoutNode)
    requires
        1 <= pane_ids@.len() <= RATIO_SCALE,
    ensures
        wf_node(r),
        pane_ids_spec(r) == pane_ids@,
{
    let n = pane_ids.len();
    if n == 1 {
        let r = LayoutNode::Leaf(pane_ids[0]);
        proof {
            assert(pane_ids_spec(r) =~= pane_ids@);
        }
        return r;
    }
    let main_pane = LayoutNode::Leaf(pane_ids[0]);
    let right: LayoutNode = if n == 2 {
        LayoutNode::Leaf(pane_ids[1])
    } else {
        let others = leaves_of(pane_ids, 1, n);
        let ratios = even_ratios(n - 1);
        LayoutNode::Split { orientation: Orientation::Vertical, children: others, ratios }
    };
    proof {
        if n == 2 {
            assert(pane_ids_spec(right) =~= pane_ids@.subrange(1, n as int));
        }
        assert(pane_ids_spec(main_pane) =~= pane_ids@.subrange(0, 1));
    }
    let r = pair_split(main_pane, right, Orientation::Horizontal, 6000, 4000);
    proof {
        assert(pane_ids_spec(r) =~= pane_ids@);
    }
    r
}

/// Layout preset: the panes split into a top and a bottom row of
/// near-equal size, each row divided evenly.
pub fn tiled(pane_ids: &Vec<PaneId>, _area: Rect) -> (r: LayoutNode)
    requires
        1 <= pane_ids@.len() <= RATIO_SCALE,
    ensures
        wf_node(r),
        pane_ids_spec(r) == pane_ids@,
{
    let n = pane_ids.len();
    if n <= 2 {
        return even_horizontal(pane_ids, _area);
    }
    let half = (n + 1) / 2;
    let top_children = leaves_of(pane_ids, 0, half);
    let top_ratios = even_ratios(half);
    let top = LayoutNode::Split {
        orientation: Orientation::Horizontal,
        children: top_children,
        ratios: top_ratios,
    };
    let bottom: LayoutNode = if n - half == 1 {
        LayoutNode::Leaf(pane_ids[half])
    } else {
        let bottom_children = leaves_of(pane_ids, half, n);
        let bottom_ratios = even_ratios(n - half);
        LayoutNode::Split {
            orientation: Orientation::Horizontal,
            children: bottom_children,
            ratios: bottom_ratios,
        }
    };
    proof {
        if n - half == 1 {
            assert(pane_ids_spec(bottom) =~= pane_ids@.subrange(half as int, n as int));
        }
    }
    let r = pair_split(top, bottom, Orientation::Vertical, 5000, 5000);
    proof {
        assert(pane_ids_spec(r) =~= pane_ids@);
    }
    r
}

/// A label swap maps the pane id sequence label-wise.
pub proof fn lemma_swapped_ids(n: LayoutNode, m: LayoutNode, a: PaneId, b: PaneId)
    requires
        swapped(n, m, a, b),
    ensures
        pane_ids_spec(m).len() == pane_ids_spec(n).len(),
        forall|i: int|
            0 <= i < pane_ids_spec(n).len() ==> #[trigger] pane_ids_spec(m)[i] == swap_label(
                pane_ids_spec(n)[i],
                a,
                b,
            ),
    decreases n,
{
    match n {
        LayoutNode::Leaf(id) => {
            assert(pane_ids_spec(n) =~= seq![id]);
            assert(pane_ids_spec(m) =~= seq![swap_label(id, a, b)]);
        },
        LayoutNode::Split { orientation, children, ratios } => {
            match m {
                LayoutNode::Leaf(_) => {
                },
                LayoutNode::Split { orientation: o2, children: c2, ratios: r2 } => {
                    lemma_swapped_ids_children(children@, c2@, a, b);
                },
            }
        },
    }
}

proof fn lemma_swapped_ids_children(cs: Seq<LayoutNode>, c2: Seq<LayoutNode>, a: PaneId, b: PaneId)
    requires
        cs.len() == c2.len(),
        forall|i: int| 0 <= i < cs.len() ==> swapped(#[trigger] cs[i], c2[i], a, b),
    ensures
        pane_ids_children(c2).len() == pane_ids_children(cs).len(),
        forall|i: int|
            0 <= i < pane_ids_children(cs).len() ==> #[trigger] pane_ids_children(c2)[i]
                == swap_label(pane_ids_children(cs)[i], a, b),
    decreases cs,
{
    if cs.len() > 0 {
        lemma_swapped_ids(cs[0], c2[0], a, b);
        assert forall|i: int| 0 <= i < cs.drop_first().len() implies swapped(
            #[trigger] cs.drop_first()[i],
            c2.drop_first()[i],
            a,
            b,
        ) by {
            assert(cs.drop_first()[i] == cs[i + 1]);
            assert(c2.drop_first()[i] == c2[i + 1]);
        }
        lemma_swapped_ids_children(cs.drop_first(), c2.drop_first(), a, b);
        let h = pane_ids_spec(cs[0]);
        let h2 = pane_ids_spec(c2[0]);
        let t = pane_ids_children(cs.drop_first());
        let t2 = pane_ids_children(c2.drop_first());
        assert forall|i: int| 0 <= i < pane_ids_children(cs).len() implies #[trigger] pane_ids_children(
            c2,
        )[i] == swap_label(pane_ids_children(cs)[i], a, b) by {
            if i < h.len() {
                assert(pane_ids_children(cs)[i] == h[i]);
                assert(pane_ids_children(c2)[i] == h2[i]);
            } else {
                assert(pane_ids_children(cs)[i] == t[i - h.len()]);
                assert(pane_ids_children(c2)[i] == t2[i - h.len()]);
            }
        }
    }
}

/// A label swap keeps the tree well-formed: the shape and ratios are
/// untouched.
pub proof fn lemma_swapped_wf(n: LayoutNode, m: LayoutNode, a: PaneId, b: PaneId)
    requires
        swapped(n, m, a, b),
        wf_node(n),
    ensures
        wf_node(m),
    decreases n,
{
    match n {
        LayoutNode::Leaf(_) => {
        },
        LayoutNode::Split { orientation, children, ratios } => {
            match m {
                LayoutNode::Leaf(_) => {
                },
                LayoutNode::Split { orientation: o2, children: c2, ratios: r2 } => {
                    lemma_wfc_iff(children@);
                    assert forall|i: int| 0 <= i < c2@.len() implies wf_node(#[trigger] c2@[i]) by {
                        lemma_swapped_wf(children@[i], c2@[i], a, b);
                    }
                    lemma_wfc_iff(c2@);
                },
            }
        },
    }
}

} // verus!
