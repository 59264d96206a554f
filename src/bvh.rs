//! Layout of a bounding volume hierarchy.
//!
//! The hierarchy is planned over primitive indices: each primitive is
//! represented by the order keys of its bounding-box centroid, and the plan
//! says which primitives every subtree holds. A node sorts its primitives
//! along its splitting axis and hands the lower half (by median) to its left
//! child and the rest to its right child; a single primitive becomes a leaf.
//! The splitting axis cycles x, y, z with depth.
use vstd::prelude::*;
use vstd::arithmetic::power2::{lemma_pow2_unfold, pow2};
use vstd::seq_lib::lemma_multiset_commutative;

verus! {

broadcast use vstd::seq_lib::group_to_multiset_ensures;

/// Order keys of a primitive's bounding-box centroid: along each axis the
/// keys of two centroids compare as their coordinates do.
#[derive(Clone, Copy, Debug, PartialEq, Eq, Structural)]
pub struct Centroid {
    pub x: u64,
    pub y: u64,
    pub z: u64,
}

/// The key of a centroid along axis 0 (x), 1 (y) or 2 (z).
pub open spec fn key_along(c: Centroid, axis: int) -> u64 {
    if axis == 0 {
        c.x
    } else if axis == 1 {
        c.y
    } else {
        c.z
    }
}

impl Centroid {
    pub fn new(x: u64, y: u64, z: u64) -> (r: Centroid)
        ensures
            r == (Centroid { x, y, z }),
    {
        Centroid { x, y, z }
    }

    /// The key of this centroid along `axis` (0 = x, 1 = y, 2 = z).
    pub fn along(&self, axis: usize) -> (r: u64)
        requires
            axis < 3,
        ensures
            r == key_along(*self, axis as int),
    {
        if axis == 0 {
            self.x
        } else if axis == 1 {
            self.y
        } else {
            self.z
        }
    }
}

/// The items of `s` are indices into `cs`.
pub open spec fn indices_in(s: Seq<usize>, cs: Seq<Centroid>) -> bool {
    forall|k: int| 0 <= k < s.len() ==> #[trigger] s[k] < cs.len()
}

/// The items of `s` (indices into `cs`) are in ascending key order along `axis`.
pub open spec fn sorted_along(s: Seq<usize>, cs: Seq<Centroid>, axis: int) -> bool {
    forall|i: int, j: int|
        0 <= i < j < s.len() ==> key_along(cs[#[trigger] s[i] as int], axis) <= key_along(
            cs[#[trigger] s[j] as int],
            axis,
        )
}

/// Sorts primitive indices by the key of their centroid along `axis`,
/// keeping primitives with equal keys in their given order.
fn sort_along(items: &Vec<usize>, cs: &Vec<Centroid>, axis: usize) -> (r: Vec<usize>)
    requires
        axis < 3,
        indices_in(items@, cs@),
    ensures
        r@.to_multiset() == items@.to_multiset(),
        indices_in(r@, cs@),
        sorted_along(r@, cs@, axis as int),
{
    let mut sorted: Vec<usize> = Vec::new();
    let mut i: usize = 0;
    while i < items.len()
        invariant
            axis < 3,
            i <= items.len(),
            indices_in(items@, cs@),
            indices_in(sorted@, cs@),
            sorted@.to_multiset() == items@.subrange(0, i as int).to_multiset(),
            sorted_along(sorted@, cs@, axis as int),
        decreases items.len() - i,
    {
        let x = items[i];
        let kx = cs[x].along(axis);
        let mut pos: usize = 0;
        while pos < sorted.len()
            invariant
                axis < 3,
                pos <= sorted.len(),
                indices_in(sorted@, cs@),
                x < cs@.len(),
                kx == key_along(cs@[x as int], axis as int),
                forall|k: int| 0 <= k < pos ==> key_along(cs@[#[trigger] sorted@[k] as int], axis as int) <= kx,
            ensures
                pos <= sorted.len(),
                pos < sorted.len() ==> kx < key_along(cs@[sorted@[pos as int] as int], axis as int),
                forall|k: int| 0 <= k < pos ==> key_along(cs@[#[trigger] sorted@[k] as int], axis as int) <= kx,
            decreases sorted.len() - pos,
        {
            if cs[sorted[pos]].along(axis) > kx {
                break;
            }
            pos = pos + 1;
        }
        proof {
            assert forall|k: int| pos <= k < sorted@.len() implies kx < key_along(
                cs@[#[trigger] sorted@[k] as int],
                axis as int,
            ) by {
                assert(kx < key_along(cs@[sorted@[pos as int] as int], axis as int));
                if k > pos {
                    assert(key_along(cs@[sorted@[pos as int] as int], axis as int) <= key_along(
                        cs@[sorted@[k] as int],
                        axis as int,
                    ));
                }
            }
        }
        let ghost before = sorted@;
        sorted.insert(pos, x);
        proof {
            assert(items@.subrange(0, i + 1) =~= items@.subrange(0, i as int).push(x));
            assert forall|a: int, b: int| 0 <= a < b < sorted@.len() implies key_along(
                cs@[#[trigger] sorted@[a] as int],
                axis as int,
            ) <= key_along(cs@[#[trigger] sorted@[b] as int], axis as int) by {
                if b < pos {
                    assert(sorted@[a] == before[a] && sorted@[b] == before[b]);
                } else if a > pos {
                    assert(sorted@[a] == before[a - 1] && sorted@[b] == before[b - 1]);
                } else if a == pos {
                    assert(sorted@[b] == before[b - 1]);
                } else if b == pos {
                    assert(sorted@[a] == before[a]);
                } else {
                    assert(sorted@[a] == before[a] && sorted@[b] == before[b - 1]);
                }
            }
        }
        i = i + 1;
    }
    proof {
        assert(items@.subrange(0, items@.len() as int) =~= items@);
    }
    sorted
}

/// A planned hierarchy: which primitive each leaf holds and how each node
/// splits its primitives between its children.
#[derive(Debug)]
pub enum BvhLayout {
    Leaf { item: usize },
    Node { axis: usize, left: Box<BvhLayout>, right: Box<BvhLayout> },
}

/// The primitives of a subtree, left to right.
pub open spec fn leaves(t: BvhLayout) -> Seq<usize>
    decreases t,
{
    match t {
        BvhLayout::Leaf { item } => seq![item],
        BvhLayout::Node { left, right, .. } => leaves(*left) + leaves(*right),
    }
}

/// Every leaf names a primitive of `cs`, and at every node each primitive
/// on the left has a key no greater, along the node's axis, than each
/// primitive on the right.
pub open spec fn split_ordered(t: BvhLayout, cs: Seq<Centroid>) -> bool
    decreases t,
{
    match t {
        BvhLayout::Leaf { item } => item < cs.len(),
        BvhLayout::Node { axis, left, right } => {
            &&& axis < 3
            &&& forall|i: int, j: int|
                0 <= i < leaves(*left).len() && 0 <= j < leaves(*right).len() ==> key_along(
                    cs[#[trigger] leaves(*left)[i] as int],
                    axis as int,
                ) <= key_along(cs[#[trigger] leaves(*right)[j] as int], axis as int)
            &&& split_ordered(*left, cs)
            &&& split_ordered(*right, cs)
        },
    }
}

/// Every node splits at the median: its left child holds half of its
/// primitives, rounded down, so the tree is balanced.
pub open spec fn median_split(t: BvhLayout) -> bool
    decreases t,
{
    match t {
        BvhLayout::Leaf { .. } => true,
        BvhLayout::Node { left, right, .. } => {
            &&& leaves(*left).len() == (leaves(*left).len() + leaves(*right).len()) / 2
            &&& median_split(*left)
            &&& median_split(*right)
        },
    }
}

/// The root splits along `axis`, and each level below along the next axis
/// in the cycle x, y, z.
pub open spec fn axes_cycle(t: BvhLayout, axis: int) -> bool
    decreases t,
{
    match t {
        BvhLayout::Leaf { .. } => true,
        BvhLayout::Node { axis: a, left, right } => {
            &&& a == axis
            &&& axes_cycle(*left, (axis + 1) % 3)
            &&& axes_cycle(*right, (axis + 1) % 3)
        },
    }
}

/// The indices `0..n` in order.
pub open spec fn index_range(n: nat) -> Seq<usize> {
    Seq::new(n, |i: int| i as usize)
}

/// `t` is the hierarchy planned over the primitives with centroids `cs`:
/// its leaves hold exactly the indices of `cs`, each once, and its nodes
/// are median splits along cycling axes, ordered by centroid key.
pub open spec fn is_layout_of(t: BvhLayout, cs: Seq<Centroid>) -> bool {
    &&& leaves(t).to_multiset() == index_range(cs.len()).to_multiset()
    &&& split_ordered(t, cs)
    &&& median_split(t)
    &&& axes_cycle(t, 0)
}

/// Plans the subtree over `items`, splitting along `axis` first.
fn build_subtree(items: &Vec<usize>, cs: &Vec<Centroid>, axis: usize) -> (r: BvhLayout)
    requires
        items@.len() > 0,
        axis < 3,
        indices_in(items@, cs@),
    ensures
        leaves(r).to_multiset() == items@.to_multiset(),
        split_ordered(r, cs@),
        median_split(r),
        axes_cycle(r, axis as int),
    decreases items@.len(),
{
    if items.len() == 1 {
        let r = BvhLayout::Leaf { item: items[0] };
        proof {
            assert(leaves(r) =~= items@);
        }
        return r;
    }
    let mut lower = sort_along(items, cs, axis);
    let ghost sorted = lower@;
    proof {
        assert(sorted.len() == sorted.to_multiset().len());
        assert(items@.len() == items@.to_multiset().len());
    }
    let mid = lower.len() / 2;
    let upper = lower.split_off(mid);
    let next = if axis == 2 {
        0
    } else {
        axis + 1
    };
    let left = build_subtree(&lower, cs, next);
    let right = build_subtree(&upper, cs, next);
    proof {
        assert(sorted =~= lower@ + upper@);
        lemma_multiset_commutative(lower@, upper@);
        lemma_multiset_commutative(leaves(left), leaves(right));
        assert forall|i: int, j: int|
            0 <= i < leaves(left).len() && 0 <= j < leaves(right).len() implies key_along(
            cs@[#[trigger] leaves(left)[i] as int],
            axis as int,
        ) <= key_along(cs@[#[trigger] leaves(right)[j] as int], axis as int) by {
            let a = leaves(left)[i];
            let b = leaves(right)[j];
            assert(leaves(left).contains(a));
            assert(leaves(right).contains(b));
            assert(leaves(left).to_multiset().count(a) > 0);
            assert(leaves(right).to_multiset().count(b) > 0);
            assert(lower@.to_multiset().count(a) > 0);
            assert(upper@.to_multiset().count(b) > 0);
            assert(lower@.contains(a));
            assert(upper@.contains(b));
            let p = choose|p: int| 0 <= p < lower@.len() && lower@[p] == a;
            let q = choose|q: int| 0 <= q < upper@.len() && upper@[q] == b;
            assert(sorted[p] == a);
            assert(sorted[mid + q] == b);
        }
    }
    BvhLayout::Node { axis, left: Box::new(left), right: Box::new(right) }
}

/// Plans a bounding volume hierarchy over the primitives whose centroids
/// are `centroids` (primitive `i` has centroid `centroids[i]`). There is
/// no hierarchy over no primitives.
pub fn build_layout(centroids: &Vec<Centroid>) -> (r: Option<BvhLayout>)
    ensures
        r is None <==> centroids@.len() == 0,
        r matches Some(t) ==> is_layout_of(t, centroids@),
{
    if centroids.len() == 0 {
        return None;
    }
    let mut items: Vec<usize> = Vec::new();
    let mut i: usize = 0;
    while i < centroids.len()
        invariant
            i <= centroids.len(),
            items@ =~= index_range(i as nat),
        decreases centroids.len() - i,
    {
        items.push(i);
        i = i + 1;
    }
    Some(build_subtree(&items, centroids, 0))
}

/// Each primitive stands in exactly one leaf of a planned hierarchy, and
/// every leaf names one of the primitives: a query that visits every leaf
/// considers the same primitives, each once, as one over the flat list.
pub proof fn lemma_layout_holds_each_primitive_once(t: BvhLayout, cs: Seq<Centroid>)
    requires
        is_layout_of(t, cs),
        cs.len() <= usize::MAX,
    ensures
        leaves(t).len() == cs.len(),
        leaves(t).no_duplicates(),
        forall|k: int| 0 <= k < cs.len() ==> #[trigger] leaves(t).contains(k as usize),
        forall|i: int| 0 <= i < leaves(t).len() ==> #[trigger] leaves(t)[i] < cs.len(),
{
    let all = index_range(cs.len());
    assert forall|i: int, j: int| 0 <= i < all.len() && 0 <= j < all.len() && i != j implies all[i]
        != all[j] by {
        assert(all[i] == i && all[j] == j);
    }
    assert(all.no_duplicates());
    all.lemma_multiset_has_no_duplicates();
    assert(leaves(t).len() == leaves(t).to_multiset().len());
    assert(all.len() == all.to_multiset().len());
    assert forall|x: usize| leaves(t).to_multiset().contains(x) implies leaves(
        t,
    ).to_multiset().count(x) == 1 by {
        assert(all.to_multiset().contains(x));
    }
    leaves(t).lemma_multiset_has_no_duplicates_conv();
    assert forall|k: int| 0 <= k < cs.len() implies #[trigger] leaves(t).contains(k as usize) by {
        assert(all[k] == k as usize);
        assert(all.contains(k as usize));
        assert(all.to_multiset().count(k as usize) > 0);
    }
    assert forall|i: int| 0 <= i < leaves(t).len() implies #[trigger] leaves(t)[i] < cs.len() by {
        let x = leaves(t)[i];
        assert(leaves(t).contains(x));
        assert(leaves(t).to_multiset().count(x) > 0);
        assert(all.contains(x));
    }
}

/// Number of node levels from the root down to the deepest leaf.
pub open spec fn height(t: BvhLayout) -> nat
    decreases t,
{
    match t {
        BvhLayout::Leaf { .. } => 0,
        BvhLayout::Node { left, right, .. } => {
            let hl = height(*left);
            let hr = height(*right);
            1 + if hl >= hr {
                hl
            } else {
                hr
            }
        },
    }
}

/// A hierarchy of median splits over `n` primitives is at most
/// `ceil(log2(n))` levels deep: `2^height < 2 n`.
pub proof fn lemma_layout_height_is_logarithmic(t: BvhLayout)
    requires
        median_split(t),
    ensures
        pow2(height(t)) < 2 * leaves(t).len(),
    decreases t,
{
    match t {
        BvhLayout::Leaf { .. } => {
            assert(pow2(0) == 1) by {
                vstd::arithmetic::power2::lemma2_to64();
            }
        },
        BvhLayout::Node { left, right, .. } => {
            lemma_layout_height_is_logarithmic(*left);
            lemma_layout_height_is_logarithmic(*right);
            let nl = leaves(*left).len();
            let nr = leaves(*right).len();
            let n = nl + nr;
            assert(leaves(t).len() == n);
            lemma_leaves_nonempty(*left);
            lemma_leaves_nonempty(*right);
            let hl = height(*left);
            let hr = height(*right);
            lemma_pow2_unfold(height(t));
            assert(pow2(hl) < n);
            if pow2(hr) >= n {
                assert(nr == n - n / 2);
                assert(pow2(hr) == n);
                assert(n % 2 == 1);
                if hr == 0 {
                    assert(pow2(0) == 1) by {
                        vstd::arithmetic::power2::lemma2_to64();
                    }
                } else {
                    lemma_pow2_unfold(hr);
                }
            }
        },
    }
}

/// Every subtree holds at least one primitive.
pub proof fn lemma_leaves_nonempty(t: BvhLayout)
    ensures
        leaves(t).len() >= 1,
    decreases t,
{
    match t {
        BvhLayout::Leaf { .. } => {},
        BvhLayout::Node { left, right, .. } => {
            lemma_leaves_nonempty(*left);
            lemma_leaves_nonempty(*right);
        },
    }
}

} // verus!
