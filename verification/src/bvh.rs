//! The bounding-volume hierarchy: a binary tree of boxes over the primitives of
//! a scene, built by random-axis median splits and queried front to back.

use vstd::prelude::*;
use std::cmp::Ordering;
use crate::aabb::{surrounding_box, Slabs, AABB};
use crate::hit::{answered, answers_as, list_ids, HitRecord, Primitive};
use crate::rt_weekend::random_int_in_range;
use crate::scalar::Scalar;

verus! {

/// A primitive that has a box: what the leaves of the hierarchy hold.
#[derive(Clone, Copy, Debug, PartialEq, Eq, Structural)]
pub struct Leaf {
    pub id: usize,
    pub bbox: AABB,
}

#[derive(Debug)]
pub enum BVHNode {
    Leaf(Leaf),
    Inner { bbox: AABB, left: Box<BVHNode>, right: Box<BVHNode> },
}

/// Why no hierarchy could be built.
#[derive(Clone, Copy, Debug, PartialEq, Eq, Structural)]
pub enum BuildError {
    /// There is no primitive to build over.
    Empty,
    /// The primitive at this index of the input has no bounding box.
    Unbounded(usize),
}

/// The key by which a leaf is ordered along `axis`: the lower corner of its box.
pub open spec fn axis_key(leaf: Leaf, axis: i32) -> int {
    leaf.bbox.min.component(axis as int).key as int
}

/// How two leaves stand along `axis`: negative where the first has the lesser
/// key, zero where the keys are equal, positive where it has the greater.
pub open spec fn key_sign(a: Leaf, b: Leaf, axis: i32) -> int {
    if axis_key(a, axis) < axis_key(b, axis) {
        -1
    } else if axis_key(a, axis) == axis_key(b, axis) {
        0
    } else {
        1
    }
}

/// Along `axis`, no leaf of `s` comes after one with a greater key.
pub open spec fn sorted_along(s: Seq<Leaf>, axis: i32) -> bool {
    forall|i: int, j: int| 0 <= i <= j < s.len() ==> axis_key(s[i], axis) <= axis_key(s[j], axis)
}

/// Along `axis`, every leaf of `low` is at or before every leaf of `high`.
pub open spec fn split_along(low: Seq<Leaf>, high: Seq<Leaf>, axis: i32) -> bool {
    forall|i: int, j: int|
        0 <= i < low.len() && 0 <= j < high.len() ==> axis_key(#[trigger] low[i], axis)
            <= axis_key(#[trigger] high[j], axis)
}

/// Two leaves as the children of a node, the one with the lesser key along
/// `axis` on the left; with equal keys the second of the two is on the left.
pub open spec fn pair_along(left: BVHNode, right: BVHNode, a: Leaf, b: Leaf, axis: i32) -> bool {
    if axis_key(a, axis) < axis_key(b, axis) {
        left == BVHNode::Leaf(a) && right == BVHNode::Leaf(b)
    } else {
        left == BVHNode::Leaf(b) && right == BVHNode::Leaf(a)
    }
}

/// The leaves that stand for the primitives of `objects`, in order, provided
/// each has a box.
pub open spec fn as_leaves(objects: Seq<Primitive>) -> Seq<Leaf> {
    Seq::new(objects.len(), |i: int| Leaf { id: objects[i].id, bbox: objects[i].bbox.unwrap() })
}

/// The handles that occur in a sequence of leaves.
pub open spec fn leaf_ids(leaves: Seq<Leaf>) -> Set<usize> {
    Set::new(|id: usize| exists|i: int| 0 <= i < leaves.len() && #[trigger] leaves[i].id == id)
}

/// How tall a hierarchy over `n` primitives can be: each level halves what is
/// left, so the bound grows with the logarithm of `n`.
pub open spec fn depth_bound(n: nat) -> nat
    decreases n,
{
    if n <= 2 {
        1
    } else {
        1 + depth_bound((n - n / 2) as nat)
    }
}

/// More primitives never lower the bound.
pub proof fn depth_bound_grows(a: nat, b: nat)
    requires
        a <= b,
    ensures
        depth_bound(a) <= depth_bound(b),
    decreases b,
{
    if b > 2 && a > 2 {
        depth_bound_grows((a - a / 2) as nat, (b - b / 2) as nat);
    }
}

/// `model` says what the slab oracle answers: whatever a call returns is what
/// `model` gives for the box.
pub open spec fn slabs_as<S: Fn(AABB) -> Slabs>(s: S, model: spec_fn(AABB) -> Slabs) -> bool {
    forall|b: AABB, r: Slabs| #[trigger] call_ensures(s, (b,), r) ==> r == model(b)
}

/// Sequences that hold the same leaves hold the same handles.
pub proof fn same_leaves_same_ids(a: Seq<Leaf>, b: Seq<Leaf>)
    requires
        forall|l: Leaf| a.contains(l) <==> b.contains(l),
    ensures
        leaf_ids(a) == leaf_ids(b),
{
    assert forall|id: usize| leaf_ids(a).contains(id) <==> leaf_ids(b).contains(id) by {
        if leaf_ids(a).contains(id) {
            let i = choose|i: int| 0 <= i < a.len() && #[trigger] a[i].id == id;
            assert(a.contains(a[i]));
            let k = choose|k: int| 0 <= k < b.len() && b[k] == a[i];
            assert(b[k].id == id);
        }
        if leaf_ids(b).contains(id) {
            let i = choose|i: int| 0 <= i < b.len() && #[trigger] b[i].id == id;
            assert(b.contains(b[i]));
            let k = choose|k: int| 0 <= k < a.len() && a[k] == b[i];
            assert(a[k].id == id);
        }
    }
    assert(leaf_ids(a) =~= leaf_ids(b));
}

/// What cutting a sorted rearrangement in two keeps. `sorted` rearranges
/// `given` in ascending order along `axis` and is cut into `lower` and `upper`;
/// `ll` and `rl` hold the leaves of `lower` and of `upper`. Then `ll` is at or
/// before `rl` along the axis, and together they hold the leaves of `given`.
pub proof fn halves_rejoin(
    given: Seq<Leaf>,
    sorted: Seq<Leaf>,
    lower: Seq<Leaf>,
    upper: Seq<Leaf>,
    ll: Seq<Leaf>,
    rl: Seq<Leaf>,
    axis: i32,
)
    requires
        sorted.to_multiset() == given.to_multiset(),
        sorted_along(sorted, axis),
        sorted == lower + upper,
        forall|l: Leaf| ll.contains(l) <==> lower.contains(l),
        forall|l: Leaf| rl.contains(l) <==> upper.contains(l),
    ensures
        split_along(ll, rl, axis),
        forall|l: Leaf| (ll + rl).contains(l) <==> given.contains(l),
{
    broadcast use vstd::seq_lib::group_to_multiset_ensures;

    assert forall|i: int, j: int| 0 <= i < ll.len() && 0 <= j < rl.len() implies axis_key(
        #[trigger] ll[i],
        axis,
    ) <= axis_key(#[trigger] rl[j], axis) by {
        assert(ll.contains(ll[i]));
        assert(rl.contains(rl[j]));
        let a = choose|a: int| 0 <= a < lower.len() && lower[a] == ll[i];
        let b = choose|b: int| 0 <= b < upper.len() && upper[b] == rl[j];
        assert(sorted[a] == ll[i]);
        assert(sorted[lower.len() + b] == rl[j]);
    }
    assert forall|l: Leaf| (ll + rl).contains(l) <==> given.contains(l) by {
        if (ll + rl).contains(l) {
            let k = choose|k: int| 0 <= k < (ll + rl).len() && (ll + rl)[k] == l;
            if k < ll.len() {
                assert(ll[k] == l);
                assert(ll.contains(l));
                let a = choose|a: int| 0 <= a < lower.len() && lower[a] == l;
                assert(sorted[a] == l);
            } else {
                assert(rl[k - ll.len()] == l);
                assert(rl.contains(l));
                let b = choose|b: int| 0 <= b < upper.len() && upper[b] == l;
                assert(sorted[lower.len() + b] == l);
            }
            assert(sorted.contains(l));
            assert(sorted.to_multiset().count(l) > 0);
            assert(given.to_multiset().count(l) > 0);
        }
        if given.contains(l) {
            assert(given.to_multiset().count(l) > 0);
            assert(sorted.to_multiset().count(l) > 0);
            assert(sorted.contains(l));
            let k = choose|k: int| 0 <= k < sorted.len() && sorted[k] == l;
            if k < lower.len() {
                assert(lower[k] == l);
                assert(lower.contains(l));
                assert(ll.contains(l));
                let a = choose|a: int| 0 <= a < ll.len() && ll[a] == l;
                assert((ll + rl)[a] == l);
            } else {
                assert(upper[k - lower.len()] == l);
                assert(upper.contains(l));
                assert(rl.contains(l));
                let b = choose|b: int| 0 <= b < rl.len() && rl[b] == l;
                assert((ll + rl)[ll.len() + b] == l);
            }
        }
    }
}

/// The key of a leaf along an axis.
pub fn min_key(leaf: &Leaf, axis: i32) -> (r: i64)
    requires
        0 <= axis < 3,
    ensures
        r == axis_key(*leaf, axis),
{
    if axis == 0 {
        leaf.bbox.min.x.key
    } else if axis == 1 {
        leaf.bbox.min.y.key
    } else {
        leaf.bbox.min.z.key
    }
}

/// Orders two leaves by the lower corners of their boxes along `axis`, in the
/// total order of scalars.
pub fn box_compare(a: &Leaf, b: &Leaf, axis: i32) -> (r: Ordering)
    requires
        0 <= axis < 3,
    ensures
        r == Ordering::Less <==> key_sign(*a, *b, axis) < 0,
        r == Ordering::Equal <==> key_sign(*a, *b, axis) == 0,
        r == Ordering::Greater <==> key_sign(*a, *b, axis) > 0,
{
    let ka = min_key(a, axis);
    let kb = min_key(b, axis);
    if ka < kb {
        Ordering::Less
    } else if ka == kb {
        Ordering::Equal
    } else {
        Ordering::Greater
    }
}

pub fn box_x_compare(a: &Leaf, b: &Leaf) -> (r: Ordering)
    ensures
        r == Ordering::Less <==> key_sign(*a, *b, 0) < 0,
        r == Ordering::Equal <==> key_sign(*a, *b, 0) == 0,
        r == Ordering::Greater <==> key_sign(*a, *b, 0) > 0,
{
    box_compare(a, b, 0)
}

pub fn box_y_compare(a: &Leaf, b: &Leaf) -> (r: Ordering)
    ensures
        r == Ordering::Less <==> key_sign(*a, *b, 1) < 0,
        r == Ordering::Equal <==> key_sign(*a, *b, 1) == 0,
        r == Ordering::Greater <==> key_sign(*a, *b, 1) > 0,
{
    box_compare(a, b, 1)
}

pub fn box_z_compare(a: &Leaf, b: &Leaf) -> (r: Ordering)
    ensures
        r == Ordering::Less <==> key_sign(*a, *b, 2) < 0,
        r == Ordering::Equal <==> key_sign(*a, *b, 2) == 0,
        r == Ordering::Greater <==> key_sign(*a, *b, 2) > 0,
{
    box_compare(a, b, 2)
}

/// Whether the first leaf comes strictly before the second along `axis`.
fn comes_first(a: &Leaf, b: &Leaf, axis: i32) -> (r: bool)
    requires
        0 <= axis < 3,
    ensures
        r == (axis_key(*a, axis) < axis_key(*b, axis)),
{
    match box_compare(a, b, axis) {
        Ordering::Less => true,
        _ => false,
    }
}

/// Sorts leaves along `axis`.
///
/// Trusted: the body is std's `sort_by` on the slice, with [`box_compare`] along
/// `axis` as the order. The contract claims what std documents of it: the
/// result is a rearrangement of the input, in ascending order.
#[verifier::external_body]
fn sort_along(objects: &mut Vec<Leaf>, axis: i32)
    requires
        0 <= axis < 3,
    ensures
        final(objects)@.to_multiset() == old(objects)@.to_multiset(),
        sorted_along(final(objects)@, axis),
{
    objects.sort_by(|a, b| box_compare(a, b, axis));
}

impl BVHNode {
    /// The box of the node: a leaf's own, an inner node's cached one.
    pub open spec fn bbox_of(&self) -> AABB {
        match self {
            BVHNode::Leaf(l) => l.bbox,
            BVHNode::Inner { bbox, .. } => *bbox,
        }
    }

    /// The leaves below the node, left to right.
    pub open spec fn leaves(&self) -> Seq<Leaf>
        decreases self,
    {
        match self {
            BVHNode::Leaf(l) => seq![*l],
            BVHNode::Inner { left, right, .. } => left.leaves() + right.leaves(),
        }
    }

    /// The handles of the leaves below the node.
    pub open spec fn ids(&self) -> Set<usize>
        decreases self,
    {
        match self {
            BVHNode::Leaf(l) => set![l.id],
            BVHNode::Inner { left, right, .. } => left.ids().union(right.ids()),
        }
    }

    /// The handles of the node are those of its sequence of leaves.
    pub proof fn ids_are_leaf_ids(&self)
        ensures
            self.ids() == leaf_ids(self.leaves()),
        decreases self,
    {
        match self {
            BVHNode::Leaf(l) => {
                assert(self.leaves()[0].id == l.id);
                assert(self.ids() =~= leaf_ids(self.leaves()));
            },
            BVHNode::Inner { left, right, .. } => {
                left.ids_are_leaf_ids();
                right.ids_are_leaf_ids();
                let ll = left.leaves();
                let rl = right.leaves();
                assert forall|id: usize| self.ids().contains(id) <==> leaf_ids(ll + rl).contains(
                    id,
                ) by {
                    if left.ids().contains(id) {
                        let i = choose|i: int| 0 <= i < ll.len() && #[trigger] ll[i].id == id;
                        assert((ll + rl)[i].id == id);
                    }
                    if right.ids().contains(id) {
                        let i = choose|i: int| 0 <= i < rl.len() && #[trigger] rl[i].id == id;
                        assert((ll + rl)[ll.len() + i].id == id);
                    }
                    if leaf_ids(ll + rl).contains(id) {
                        let i = choose|i: int|
                            0 <= i < (ll + rl).len() && #[trigger] (ll + rl)[i].id == id;
                        if i < ll.len() {
                            assert(ll[i].id == id);
                        } else {
                            assert(rl[i - ll.len()].id == id);
                        }
                    }
                }
                assert(self.ids() =~= leaf_ids(self.leaves()));
            },
        }
    }

    /// The longest way down from the node to a leaf.
    pub open spec fn height(&self) -> nat
        decreases self,
    {
        match self {
            BVHNode::Leaf(_) => 0,
            BVHNode::Inner { left, right, .. } => {
                let l = left.height();
                let r = right.height();
                if l >= r {
                    l + 1
                } else {
                    r + 1
                }
            },
        }
    }

    /// Every inner node's box is the union of its children's boxes.
    pub open spec fn well_formed(&self) -> bool
        decreases self,
    {
        match self {
            BVHNode::Leaf(_) => true,
            BVHNode::Inner { bbox, left, right } => {
                &&& *bbox == left.bbox_of().union_of(right.bbox_of())
                &&& left.well_formed()
                &&& right.well_formed()
            },
        }
    }

    /// The node is a hierarchy that the build makes of `objects`: its box is the
    /// union of its children's; one primitive is both children; two are placed
    /// along some axis; and more are, in some ascending order along some axis, cut
    /// at the middle index into what the left child and what the right child is
    /// made of.
    pub open spec fn made_of(&self, objects: Seq<Leaf>) -> bool
        decreases self,
    {
        match self {
            BVHNode::Leaf(_) => false,
            BVHNode::Inner { bbox, left, right } => {
                &&& *bbox == left.bbox_of().union_of(right.bbox_of())
                &&& if objects.len() == 1 {
                    **left == BVHNode::Leaf(objects[0]) && **right == BVHNode::Leaf(objects[0])
                } else if objects.len() == 2 {
                    exists|axis: i32|
                        0 <= axis < 3 && #[trigger] pair_along(
                            **left,
                            **right,
                            objects[0],
                            objects[1],
                            axis,
                        )
                } else {
                    let mid = (objects.len() / 2) as int;
                    exists|axis: i32, sorted: Seq<Leaf>|
                        {
                            &&& 0 <= axis < 3
                            &&& #[trigger] sorted_along(sorted, axis)
                            &&& sorted.to_multiset() == objects.to_multiset()
                            &&& sorted.len() == objects.len()
                            &&& left.made_of(sorted.subrange(0, mid))
                            &&& right.made_of(sorted.subrange(mid, sorted.len() as int))
                        }
                }
            },
        }
    }

    /// At every inner node there is an axis along which the leaves on the left
    /// are at or before the leaves on the right.
    pub open spec fn ordered(&self) -> bool
        decreases self,
    {
        match self {
            BVHNode::Leaf(_) => true,
            BVHNode::Inner { left, right, .. } => {
                &&& left.ordered()
                &&& right.ordered()
                &&& exists|axis: i32|
                    0 <= axis < 3 && #[trigger] split_along(left.leaves(), right.leaves(), axis)
            },
        }
    }

    /// The intersector may be asked about every leaf below the node, and the slab
    /// oracle about every box.
    pub open spec fn askable<F: Fn(usize, Scalar, Scalar) -> Option<HitRecord>>(
        &self,
        f: F,
        t_min: Scalar,
    ) -> bool
        decreases self,
    {
        match self {
            BVHNode::Leaf(l) => forall|b: Scalar| #[trigger] call_requires(f, (l.id, t_min, b)),
            BVHNode::Inner { left, right, .. } => left.askable(f, t_min) && right.askable(
                f,
                t_min,
            ),
        }
    }

    /// The query. A node whose box the ray misses answers nothing. Otherwise the
    /// left child is asked, then the right child with the upper bound drawn in to
    /// the left child's hit, and the right child's hit wins where it has one.
    pub open spec fn spec_hit(
        &self,
        slabs: spec_fn(AABB) -> Slabs,
        leaf: spec_fn(usize, Scalar, Scalar) -> Option<HitRecord>,
        t_min: Scalar,
        t_max: Scalar,
    ) -> Option<HitRecord>
        decreases self,
    {
        match self {
            BVHNode::Leaf(l) => leaf(l.id, t_min, t_max),
            BVHNode::Inner { bbox, left, right } => {
                if !slabs(*bbox).overlap(t_min, t_max) {
                    None
                } else {
                    let near = left.spec_hit(slabs, leaf, t_min, t_max);
                    let bound = match near {
                        Some(h) => h.t,
                        None => t_max,
                    };
                    match right.spec_hit(slabs, leaf, t_min, bound) {
                        Some(h) => Some(h),
                        None => near,
                    }
                }
            },
        }
    }

    /// Builds the hierarchy over `objects`. An empty scene is refused, and so is
    /// one with a primitive that has no box, by the index of the first such;
    /// every other scene gets its hierarchy.
    ///
    /// Each node picks one of the three axes at random. One primitive becomes
    /// both children of its node; two are placed in the order of their keys along
    /// the axis; more are sorted along the axis, cut in the middle, and each half
    /// is built in the same way. A node's box is the union of its children's.
    pub fn new(objects: Vec<Primitive>) -> (r: Result<BVHNode, BuildError>)
        ensures
            match r {
                Err(BuildError::Empty) => objects@.len() == 0,
                Err(BuildError::Unbounded(i)) => {
                    &&& i < objects@.len()
                    &&& objects@[i as int].bbox is None
                    &&& forall|k: int| 0 <= k < i ==> (#[trigger] objects@[k]).bbox is Some
                },
                Ok(node) => {
                    &&& objects@.len() > 0
                    &&& forall|k: int|
                        0 <= k < objects@.len() ==> (#[trigger] objects@[k]).bbox is Some
                    &&& node.made_of(as_leaves(objects@))
                    &&& node is Inner
                    &&& node.well_formed()
                    &&& node.ordered()
                    &&& node.height() <= depth_bound(objects@.len())
                    &&& node.ids() == list_ids(objects@)
                    &&& forall|l: Leaf|
                        node.leaves().contains(l) <==> as_leaves(objects@).contains(l)
                },
            },
    {
        if objects.len() == 0 {
            return Err(BuildError::Empty);
        }
        let mut leaves: Vec<Leaf> = Vec::new();
        let mut i: usize = 0;
        while i < objects.len()
            invariant
                i <= objects@.len(),
                leaves@.len() == i,
                forall|k: int| 0 <= k < i ==> objects@[k].bbox is Some,
                forall|k: int| 0 <= k < i ==> #[trigger] leaves@[k] == as_leaves(objects@)[k],
            decreases objects@.len() - i,
        {
            match objects[i].bbox {
                Some(b) => {
                    leaves.push(Leaf { id: objects[i].id, bbox: b });
                },
                None => {
                    return Err(BuildError::Unbounded(i));
                },
            }
            i += 1;
        }
        assert(leaves@ =~= as_leaves(objects@));
        proof {
            assert forall|id: usize| leaf_ids(leaves@).contains(id) <==> list_ids(objects@).contains(
                id,
            ) by {
                if leaf_ids(leaves@).contains(id) {
                    let i = choose|i: int| 0 <= i < leaves@.len() && #[trigger] leaves@[i].id == id;
                    assert(objects@[i].id == id);
                }
                if list_ids(objects@).contains(id) {
                    let i = choose|i: int|
                        0 <= i < objects@.len() && #[trigger] objects@[i].id == id;
                    assert(leaves@[i].id == id);
                }
            }
            assert(leaf_ids(leaves@) =~= list_ids(objects@));
        }
        Ok(Self::build(leaves))
    }

    /// The hierarchy over leaves, of which there is at least one.
    pub fn build(objects: Vec<Leaf>) -> (node: BVHNode)
        requires
            objects@.len() >= 1,
        ensures
            node.made_of(objects@),
            node is Inner,
            node.well_formed(),
            node.ordered(),
            node.height() <= depth_bound(objects@.len()),
            node.ids() == leaf_ids(objects@),
            forall|l: Leaf| node.leaves().contains(l) <==> objects@.contains(l),
        decreases objects@.len(),
    {
        let mut objects = objects;
        let ghost given = objects@;
        let axis: i32 = random_int_in_range(0, 2);
        let span = objects.len();
        let left: BVHNode;
        let right: BVHNode;
        if span == 1 {
            let only = objects[0];
            left = BVHNode::Leaf(only);
            right = BVHNode::Leaf(only);
            proof {
                assert(given.len() == 1 && given[0] == only);
                assert(left.well_formed() && right.well_formed());
                assert(left.ordered() && right.ordered());
                assert(left.height() == 0 && right.height() == 0);
                assert(split_along(left.leaves(), right.leaves(), axis));
                assert forall|l: Leaf| (left.leaves() + right.leaves()).contains(l) <==> given.contains(
                    l,
                ) by {
                    if given.contains(l) {
                        assert(l == only);
                        assert((left.leaves() + right.leaves())[0] == l);
                    }
                }
            }
        } else if span == 2 {
            let first = objects[0];
            let last = objects[1];
            if comes_first(&first, &last, axis) {
                left = BVHNode::Leaf(first);
                right = BVHNode::Leaf(last);
            } else {
                left = BVHNode::Leaf(last);
                right = BVHNode::Leaf(first);
            }
            proof {
                assert(pair_along(left, right, given[0], given[1], axis));
                assert(left.well_formed() && right.well_formed());
                assert(left.ordered() && right.ordered());
                assert(left.height() == 0 && right.height() == 0);
                assert(split_along(left.leaves(), right.leaves(), axis));
                let both = left.leaves() + right.leaves();
                assert forall|l: Leaf| both.contains(l) <==> given.contains(l) by {
                    if given.contains(l) {
                        assert(l == first || l == last);
                        assert(both[0] == l || both[1] == l);
                    }
                    if both.contains(l) {
                        assert(given[0] == l || given[1] == l);
                    }
                }
            }
        } else {
            sort_along(&mut objects, axis);
            let ghost sorted = objects@;
            proof {
                broadcast use vstd::seq_lib::group_to_multiset_ensures;

                assert(sorted.len() == sorted.to_multiset().len());
                assert(given.len() == given.to_multiset().len());
            }
            let upper = objects.split_off(span / 2);
            let ghost lower_seq = objects@;
            let ghost upper_seq = upper@;
            proof {
                broadcast use vstd::seq_lib::group_to_multiset_ensures;

                assert(sorted.len() == given.len());
                assert(sorted =~= lower_seq + upper_seq);
            }
            left = Self::build(objects);
            right = Self::build(upper);
            proof {
                broadcast use vstd::seq_lib::group_to_multiset_ensures;

                assert(lower_seq =~= sorted.subrange(0, (given.len() / 2) as int));
                assert(upper_seq =~= sorted.subrange(
                    (given.len() / 2) as int,
                    sorted.len() as int,
                ));
                assert(sorted_along(sorted, axis));
                depth_bound_grows(lower_seq.len(), upper_seq.len());
                assert(upper_seq.len() == given.len() - given.len() / 2);

                halves_rejoin(given, sorted, lower_seq, upper_seq, left.leaves(), right.leaves(), axis);
            }
        }
        let bbox = surrounding_box(left.bounding_box(), right.bounding_box());
        let ghost made = if given.len() == 1 {
            left == BVHNode::Leaf(given[0]) && right == BVHNode::Leaf(given[0])
        } else if given.len() == 2 {
            exists|axis: i32|
                0 <= axis < 3 && #[trigger] pair_along(left, right, given[0], given[1], axis)
        } else {
            exists|axis: i32, sorted: Seq<Leaf>|
                {
                    &&& 0 <= axis < 3
                    &&& #[trigger] sorted_along(sorted, axis)
                    &&& sorted.to_multiset() == given.to_multiset()
                    &&& sorted.len() == given.len()
                    &&& left.made_of(sorted.subrange(0, (given.len() / 2) as int))
                    &&& right.made_of(sorted.subrange((given.len() / 2) as int, sorted.len() as int))
                }
        };
        assert(made);
        let ghost joined = left.leaves() + right.leaves();
        assert(left.height() < depth_bound(given.len()) && right.height() < depth_bound(
            given.len(),
        ));
        assert(forall|l: Leaf| joined.contains(l) <==> given.contains(l));
        let node = BVHNode::Inner { bbox, left: Box::new(left), right: Box::new(right) };
        proof {
            node.ids_are_leaf_ids();
            assert(node.leaves() == joined);
            same_leaves_same_ids(joined, given);
        }
        node
    }

    pub fn bounding_box(&self) -> (r: AABB)
        ensures
            r == self.bbox_of(),
    {
        match self {
            BVHNode::Leaf(l) => l.bbox,
            BVHNode::Inner { bbox, .. } => *bbox,
        }
    }

    /// The nearest hit below the node, for the ray that the two oracles stand
    /// for: `slabs_of` gives the ray's slabs for a box, `intersect` the ray's hit
    /// on a primitive within given bounds.
    pub fn hit<S: Fn(AABB) -> Slabs, F: Fn(usize, Scalar, Scalar) -> Option<HitRecord>>(
        &self,
        slabs_of: &S,
        intersect: &F,
        t_min: Scalar,
        t_max: Scalar,
    ) -> (r: Option<HitRecord>)
        requires
            self.askable(*intersect, t_min),
            forall|b: AABB| call_requires(*slabs_of, (b,)),
        ensures
            forall|slabs: spec_fn(AABB) -> Slabs, leaf: spec_fn(usize, Scalar, Scalar) -> Option<HitRecord>|
                #![trigger slabs_as(*slabs_of, slabs), answers_as(*intersect, leaf)]
                slabs_as(*slabs_of, slabs) && answers_as(*intersect, leaf) ==> r == self.spec_hit(
                    slabs,
                    leaf,
                    t_min,
                    t_max,
                ),
            r is Some ==> answered(*intersect, self.ids(), t_min, r),
        decreases self,
    {
        match self {
            BVHNode::Leaf(l) => intersect(l.id, t_min, t_max),
            BVHNode::Inner { bbox, left, right } => {
                let slabs = slabs_of(*bbox);
                if !AABB::hit(&slabs, t_min, t_max) {
                    return None;
                }
                let near = left.hit(slabs_of, intersect, t_min, t_max);
                let bound = match near {
                    Some(h) => h.t,
                    None => t_max,
                };
                match right.hit(slabs_of, intersect, t_min, bound) {
                    Some(h) => Some(h),
                    None => near,
                }
            },
        }
    }
}

} // verus!
