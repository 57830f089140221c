//! What "the nearest hit" means, and why the hierarchy and the linear scan both
//! find it.

use vstd::prelude::*;
use crate::aabb::{union_is_least_enclosure, wider_slabs_overlap, Slabs, AABB};
use crate::bvh::BVHNode;
use crate::hit::{list_ids, scan, HitRecord, Primitive};
use crate::scalar::Scalar;
use crate::sphere::{root_in_range, root_narrows};

verus! {

/// What is left of a hit when the upper bound is drawn in to `bound`: the hit
/// itself where it is at or below the bound, and nothing otherwise.
pub open spec fn kept_below(hit: Option<HitRecord>, bound: Scalar) -> Option<HitRecord> {
    match hit {
        Some(h) => if h.t.key <= bound.key {
            Some(h)
        } else {
            None
        },
        None => None,
    }
}

/// Over upper bounds that are numbers: a hit lies at a number at or below the
/// bound it was asked with, and drawing the bound in keeps a hit exactly when
/// the hit is still at or below it.
pub open spec fn narrows(
    leaf: spec_fn(usize, Scalar, Scalar) -> Option<HitRecord>,
    ids: Set<usize>,
    t_min: Scalar,
) -> bool {
    &&& forall|id: usize, b: Scalar|
        ids.contains(id) && !b.is_nan() ==> (#[trigger] leaf(id, t_min, b) matches Some(h)
            ==> !h.t.is_nan() && h.t.key <= b.key)
    &&& forall|id: usize, b: Scalar, c: Scalar|
        ids.contains(id) && !b.is_nan() && !c.is_nan() && c.key <= b.key ==> #[trigger] leaf(
            id,
            t_min,
            c,
        ) == kept_below(#[trigger] leaf(id, t_min, b), c)
}

/// Hits that a sphere's roots decide narrow: where every primitive of `ids`
/// answers with the root that [`root_in_range`] picks from its own discriminant
/// and roots, the nearer root at or before the farther, and `t_min` is a
/// positive number, the answers meet [`narrows`].
pub proof fn root_answers_narrow(
    leaf: spec_fn(usize, Scalar, Scalar) -> Option<HitRecord>,
    ids: Set<usize>,
    t_min: Scalar,
    roots: spec_fn(usize) -> (Scalar, Scalar, Scalar),
)
    requires
        (Scalar { key: 0 }).num_lt(t_min),
        forall|id: usize|
            ids.contains(id) ==> {
                let (d, near, far) = #[trigger] roots(id);
                !near.is_nan() && !far.is_nan() && near.num_le(far)
            },
        forall|id: usize, b: Scalar|
            ids.contains(id) ==> {
                let (d, near, far) = roots(id);
                match root_in_range(d, near, far, t_min, b) {
                    Some(t) => (#[trigger] leaf(id, t_min, b)) is Some && leaf(
                        id,
                        t_min,
                        b,
                    )->Some_0.t == t,
                    None => leaf(id, t_min, b) is None,
                }
            },
        forall|id: usize, b: Scalar, c: Scalar|
            ids.contains(id) && (#[trigger] leaf(id, t_min, b)) is Some && (#[trigger] leaf(
                id,
                t_min,
                c,
            )) is Some && leaf(id, t_min, b)->Some_0.t == leaf(id, t_min, c)->Some_0.t ==> leaf(
                id,
                t_min,
                b,
            ) == leaf(id, t_min, c),
    ensures
        narrows(leaf, ids, t_min),
{
    assert forall|id: usize, b: Scalar| ids.contains(id) && !b.is_nan() implies (#[trigger] leaf(
        id,
        t_min,
        b,
    ) matches Some(h) ==> !h.t.is_nan() && h.t.key <= b.key) by {
        let (d, near, far) = roots(id);
        root_narrows(d, near, far, t_min, b, b);
    }
    assert forall|id: usize, b: Scalar, c: Scalar|
        ids.contains(id) && !b.is_nan() && !c.is_nan() && c.key <= b.key implies #[trigger] leaf(
        id,
        t_min,
        c,
    ) == kept_below(#[trigger] leaf(id, t_min, b), c) by {
        let (d, near, far) = roots(id);
        root_narrows(d, near, far, t_min, b, c);
    }
}

/// `r` is the nearest of the hits that the primitives `ids` report within
/// `[t_min, t_max]`: it is one of them, and none of them is nearer. With `inside`
/// set, only hits strictly below `t_max` are owed.
pub open spec fn is_nearest(
    ids: Set<usize>,
    leaf: spec_fn(usize, Scalar, Scalar) -> Option<HitRecord>,
    t_min: Scalar,
    t_max: Scalar,
    r: Option<HitRecord>,
    inside: bool,
) -> bool {
    &&& r is Some ==> exists|id: usize| ids.contains(id) && #[trigger] leaf(id, t_min, t_max) == r
    &&& forall|id: usize|
        ids.contains(id) ==> (#[trigger] leaf(id, t_min, t_max) matches Some(g) ==> (inside
            ==> g.t.key < t_max.key) ==> r is Some && r->Some_0.t.key <= g.t.key)
}

/// The linear scan finds the nearest hit of its list.
pub proof fn scan_is_nearest(
    list: Seq<Primitive>,
    leaf: spec_fn(usize, Scalar, Scalar) -> Option<HitRecord>,
    t_min: Scalar,
    t_max: Scalar,
)
    requires
        narrows(leaf, list_ids(list), t_min),
        !t_max.is_nan(),
    ensures
        is_nearest(list_ids(list), leaf, t_min, t_max, scan(list, leaf, t_min, t_max), false),
    decreases list.len(),
{
    let ids = list_ids(list);
    if list.len() > 0 {
        let front = list.drop_last();
        let last = list.last().id;
        assert(list[list.len() - 1].id == last);
        assert(ids.contains(last));
        assert forall|id: usize| list_ids(front).contains(id) implies ids.contains(id) by {
            let i = choose|i: int| 0 <= i < front.len() && #[trigger] front[i].id == id;
            assert(list[i].id == id);
        }
        scan_is_nearest(front, leaf, t_min, t_max);
        let before = scan(front, leaf, t_min, t_max);
        let bound = match before {
            Some(h) => h.t,
            None => t_max,
        };
        assert(bound.key <= t_max.key) by {
            if before is Some {
                let w = choose|id: usize|
                    list_ids(front).contains(id) && #[trigger] leaf(id, t_min, t_max) == before;
                assert(ids.contains(w));
            }
        }
        let answer = leaf(last, t_min, bound);
        let whole = leaf(last, t_min, t_max);
        let r = scan(list, leaf, t_min, t_max);
        assert(r == if answer is Some {
            answer
        } else {
            before
        });
        if r is Some {
            if answer is Some {
                assert(whole == r);
            } else {
                let w = choose|id: usize|
                    list_ids(front).contains(id) && #[trigger] leaf(id, t_min, t_max) == before;
                assert(ids.contains(w) && leaf(w, t_min, t_max) == r);
            }
        }
        assert forall|id: usize| ids.contains(id) implies (#[trigger] leaf(id, t_min, t_max) matches Some(
            g,
        ) ==> r is Some && r->Some_0.t.key <= g.t.key) by {
            if leaf(id, t_min, t_max) is Some {
                let i = choose|i: int| 0 <= i < list.len() && #[trigger] list[i].id == id;
                if i < front.len() {
                    assert(front[i].id == id);
                    assert(list_ids(front).contains(id));
                } else {
                    assert(id == last);
                }
            }
        }
    }
}

/// The linear scan finds the same ray parameter in whatever order the
/// primitives stand in the list.
pub proof fn scan_order_free(
    a: Seq<Primitive>,
    b: Seq<Primitive>,
    leaf: spec_fn(usize, Scalar, Scalar) -> Option<HitRecord>,
    t_min: Scalar,
    t_max: Scalar,
)
    requires
        list_ids(a) == list_ids(b),
        narrows(leaf, list_ids(a), t_min),
        !t_max.is_nan(),
    ensures
        scan(a, leaf, t_min, t_max) is Some <==> scan(b, leaf, t_min, t_max) is Some,
        scan(a, leaf, t_min, t_max) is Some ==> scan(a, leaf, t_min, t_max)->Some_0.t == scan(
            b,
            leaf,
            t_min,
            t_max,
        )->Some_0.t,
{
    scan_is_nearest(a, leaf, t_min, t_max);
    scan_is_nearest(b, leaf, t_min, t_max);
    let ids = list_ids(a);
    let ra = scan(a, leaf, t_min, t_max);
    let rb = scan(b, leaf, t_min, t_max);
    if ra is Some {
        let w = choose|id: usize| ids.contains(id) && #[trigger] leaf(id, t_min, t_max) == ra;
        assert(rb is Some);
    }
    if rb is Some {
        let w = choose|id: usize| ids.contains(id) && #[trigger] leaf(id, t_min, t_max) == rb;
        assert(ra is Some);
    }
}

impl BVHNode {
    /// No box test of the node or below it turns away a ray that has a hit
    /// strictly inside the bounds on a leaf under that box.
    pub open spec fn cull_safe(
        &self,
        slabs: spec_fn(AABB) -> Slabs,
        leaf: spec_fn(usize, Scalar, Scalar) -> Option<HitRecord>,
        t_min: Scalar,
    ) -> bool
        decreases self,
    {
        match self {
            BVHNode::Leaf(_) => true,
            BVHNode::Inner { bbox, left, right } => {
                &&& left.cull_safe(slabs, leaf, t_min)
                &&& right.cull_safe(slabs, leaf, t_min)
                &&& forall|id: usize, b: Scalar|
                    self.ids().contains(id) ==> (#[trigger] leaf(id, t_min, b) matches Some(g)
                        ==> g.t.key < b.key ==> slabs(*bbox).overlap(t_min, b))
            },
        }
    }

    /// The query finds the nearest of the hits that lie strictly below the upper
    /// bound, on every tree whose box tests are safe.
    pub proof fn query_is_nearest(
        &self,
        slabs: spec_fn(AABB) -> Slabs,
        leaf: spec_fn(usize, Scalar, Scalar) -> Option<HitRecord>,
        t_min: Scalar,
        t_max: Scalar,
    )
        requires
            narrows(leaf, self.ids(), t_min),
            self.cull_safe(slabs, leaf, t_min),
            !t_max.is_nan(),
        ensures
            is_nearest(
                self.ids(),
                leaf,
                t_min,
                t_max,
                self.spec_hit(slabs, leaf, t_min, t_max),
                true,
            ),
        decreases self,
    {
        let r = self.spec_hit(slabs, leaf, t_min, t_max);
        match self {
            BVHNode::Leaf(l) => {
                assert(self.ids().contains(l.id));
            },
            BVHNode::Inner { bbox, left, right } => {
                if slabs(*bbox).overlap(t_min, t_max) {
                    left.query_is_nearest(slabs, leaf, t_min, t_max);
                    let near = left.spec_hit(slabs, leaf, t_min, t_max);
                    let bound = match near {
                        Some(h) => h.t,
                        None => t_max,
                    };
                    assert(bound.key <= t_max.key) by {
                        if near is Some {
                            let w = choose|id: usize|
                                left.ids().contains(id) && #[trigger] leaf(id, t_min, t_max)
                                    == near;
                            assert(self.ids().contains(w));
                        }
                    }
                    right.query_is_nearest(slabs, leaf, t_min, bound);
                    let far = right.spec_hit(slabs, leaf, t_min, bound);
                    assert(r == if far is Some {
                        far
                    } else {
                        near
                    });
                    if r is Some {
                        if far is Some {
                            let w = choose|id: usize|
                                right.ids().contains(id) && #[trigger] leaf(id, t_min, bound)
                                    == far;
                            assert(self.ids().contains(w));
                            assert(leaf(w, t_min, t_max) == r);
                        } else {
                            let w = choose|id: usize|
                                left.ids().contains(id) && #[trigger] leaf(id, t_min, t_max)
                                    == near;
                            assert(self.ids().contains(w) && leaf(w, t_min, t_max) == r);
                        }
                    }
                    assert forall|id: usize| self.ids().contains(id) implies (#[trigger] leaf(
                        id,
                        t_min,
                        t_max,
                    ) matches Some(g) ==> g.t.key < t_max.key ==> r is Some && r->Some_0.t.key
                        <= g.t.key) by {
                        let whole = leaf(id, t_min, t_max);
                        if whole is Some && whole->Some_0.t.key < t_max.key {
                            let g = whole->Some_0;
                            if far is Some {
                                let w = choose|w: usize|
                                    right.ids().contains(w) && #[trigger] leaf(w, t_min, bound)
                                        == far;
                                assert(self.ids().contains(w));
                                assert(far->Some_0.t.key <= bound.key);
                            }
                            if right.ids().contains(id) {
                                let cut = leaf(id, t_min, bound);
                                if g.t.key < bound.key {
                                    assert(cut == whole);
                                }
                            }
                        }
                    }
                }
            },
        }
    }

    /// Box tests are safe on a well-formed tree whose boxes are numbers, given
    /// two facts about the oracles: a hit strictly inside the bounds on a leaf
    /// passes the slab test of the leaf's own box, and the slabs grow with the
    /// box.
    pub proof fn well_formed_is_cull_safe(
        &self,
        slabs: spec_fn(AABB) -> Slabs,
        leaf: spec_fn(usize, Scalar, Scalar) -> Option<HitRecord>,
        t_min: Scalar,
    )
        requires
            self.well_formed(),
            forall|i: int|
                0 <= i < self.leaves().len() ==> (#[trigger] self.leaves()[i]).bbox.is_number(),
            forall|i: int, b: Scalar|
                0 <= i < self.leaves().len() ==> (#[trigger] leaf(self.leaves()[i].id, t_min, b)
                    matches Some(g) ==> g.t.key < b.key ==> slabs(self.leaves()[i].bbox).overlap(
                    t_min,
                    b,
                )),
            slabs_grow(slabs),
        ensures
            self.cull_safe(slabs, leaf, t_min),
            self.bbox_of().is_number(),
            forall|i: int|
                0 <= i < self.leaves().len() ==> self.bbox_of().encloses(
                    (#[trigger] self.leaves()[i]).bbox,
                ),
        decreases self,
    {
        match self {
            BVHNode::Leaf(l) => {
                assert(self.leaves()[0] == *l);
            },
            BVHNode::Inner { bbox, left, right } => {
                let ll = left.leaves();
                let rl = right.leaves();
                assert forall|i: int| 0 <= i < ll.len() implies (#[trigger] ll[i]).bbox.is_number()
                    && forall|b: Scalar|
                    (#[trigger] leaf(ll[i].id, t_min, b) matches Some(g) ==> g.t.key < b.key
                        ==> slabs(ll[i].bbox).overlap(t_min, b)) by {
                    assert(self.leaves()[i] == ll[i]);
                }
                assert forall|i: int| 0 <= i < rl.len() implies (#[trigger] rl[i]).bbox.is_number()
                    && forall|b: Scalar|
                    (#[trigger] leaf(rl[i].id, t_min, b) matches Some(g) ==> g.t.key < b.key
                        ==> slabs(rl[i].bbox).overlap(t_min, b)) by {
                    assert(self.leaves()[ll.len() + i] == rl[i]);
                }
                left.well_formed_is_cull_safe(slabs, leaf, t_min);
                right.well_formed_is_cull_safe(slabs, leaf, t_min);
                union_is_least_enclosure(left.bbox_of(), right.bbox_of(), *bbox);
                assert forall|i: int| 0 <= i < self.leaves().len() implies bbox.encloses(
                    (#[trigger] self.leaves()[i]).bbox,
                ) by {
                    if i < ll.len() {
                        assert(self.leaves()[i] == ll[i]);
                    } else {
                        assert(self.leaves()[i] == rl[i - ll.len()]);
                    }
                }
                self.ids_are_leaf_ids();
                assert forall|id: usize, b: Scalar| self.ids().contains(id) implies (#[trigger] leaf(
                    id,
                    t_min,
                    b,
                ) matches Some(g) ==> g.t.key < b.key ==> slabs(*bbox).overlap(t_min, b)) by {
                    let i = choose|i: int|
                        0 <= i < self.leaves().len() && #[trigger] self.leaves()[i].id == id;
                    let own = self.leaves()[i].bbox;
                    assert(bbox.encloses(own));
                    if leaf(id, t_min, b) is Some && leaf(id, t_min, b)->Some_0.t.key < b.key {
                        assert(slabs(own).overlap(t_min, b));
                        wider_slabs_overlap(slabs(*bbox), slabs(own), t_min, b);
                    }
                }
            },
        }
    }
}

/// Growing a box never makes the ray enter its slabs later or leave them
/// earlier, and the slabs of boxes that are numbers are numbers.
pub open spec fn slabs_grow(slabs: spec_fn(AABB) -> Slabs) -> bool {
    forall|inner: AABB, outer: AABB|
        inner.is_number() && outer.is_number() && #[trigger] outer.encloses(inner) ==> {
            &&& slabs(inner).is_number()
            &&& slabs(outer).is_number()
            &&& slabs(outer).wider_than(slabs(inner))
        }
}

/// On a well-formed hierarchy over the primitives of a list, whose boxes are
/// numbers, the query and the linear scan of the list agree, given three facts
/// about the oracles: hits narrow, a hit strictly inside the bounds on a leaf
/// passes the slab test of the leaf's box, and the slabs grow with the box.
pub proof fn built_query_matches_scan(
    node: BVHNode,
    list: Seq<Primitive>,
    slabs: spec_fn(AABB) -> Slabs,
    leaf: spec_fn(usize, Scalar, Scalar) -> Option<HitRecord>,
    t_min: Scalar,
    t_max: Scalar,
)
    requires
        node.well_formed(),
        node.ids() == list_ids(list),
        narrows(leaf, node.ids(), t_min),
        !t_max.is_nan(),
        forall|i: int|
            0 <= i < node.leaves().len() ==> (#[trigger] node.leaves()[i]).bbox.is_number(),
        forall|i: int, b: Scalar|
            0 <= i < node.leaves().len() ==> (#[trigger] leaf(node.leaves()[i].id, t_min, b)
                matches Some(g) ==> g.t.key < b.key ==> slabs(node.leaves()[i].bbox).overlap(
                t_min,
                b,
            )),
        slabs_grow(slabs),
    ensures
        ({
            let tree = node.spec_hit(slabs, leaf, t_min, t_max);
            let flat = scan(list, leaf, t_min, t_max);
            &&& tree is Some ==> flat is Some && flat->Some_0.t == tree->Some_0.t
            &&& flat is Some && flat->Some_0.t.key < t_max.key ==> tree is Some && tree->Some_0.t
                == flat->Some_0.t
            &&& tree is None && flat is Some ==> flat->Some_0.t == t_max
        }),
{
    node.well_formed_is_cull_safe(slabs, leaf, t_min);
    query_matches_scan(node, list, slabs, leaf, t_min, t_max);
}

/// The query over a hierarchy and the linear scan over a list of the same
/// primitives agree. Whatever the hierarchy finds, the scan finds at the same
/// ray parameter; and whatever the scan finds strictly below the upper bound,
/// the hierarchy finds at the same ray parameter.
pub proof fn query_matches_scan(
    node: BVHNode,
    list: Seq<Primitive>,
    slabs: spec_fn(AABB) -> Slabs,
    leaf: spec_fn(usize, Scalar, Scalar) -> Option<HitRecord>,
    t_min: Scalar,
    t_max: Scalar,
)
    requires
        node.ids() == list_ids(list),
        narrows(leaf, node.ids(), t_min),
        node.cull_safe(slabs, leaf, t_min),
        !t_max.is_nan(),
    ensures
        ({
            let tree = node.spec_hit(slabs, leaf, t_min, t_max);
            let flat = scan(list, leaf, t_min, t_max);
            &&& tree is Some ==> flat is Some && flat->Some_0.t == tree->Some_0.t
            &&& flat is Some && flat->Some_0.t.key < t_max.key ==> tree is Some && tree->Some_0.t
                == flat->Some_0.t
            &&& tree is None && flat is Some ==> flat->Some_0.t == t_max
        }),
{
    node.query_is_nearest(slabs, leaf, t_min, t_max);
    scan_is_nearest(list, leaf, t_min, t_max);
    let tree = node.spec_hit(slabs, leaf, t_min, t_max);
    let flat = scan(list, leaf, t_min, t_max);
    let ids = node.ids();
    if tree is Some {
        let w = choose|id: usize| ids.contains(id) && #[trigger] leaf(id, t_min, t_max) == tree;
        assert(flat is Some);
        let v = choose|id: usize| ids.contains(id) && #[trigger] leaf(id, t_min, t_max) == flat;
        assert(flat->Some_0.t.key <= t_max.key);
        assert(tree->Some_0.t.key <= t_max.key);
    }
    if flat is Some {
        let v = choose|id: usize| ids.contains(id) && #[trigger] leaf(id, t_min, t_max) == flat;
        assert(flat->Some_0.t.key <= t_max.key);
    }
}

} // verus!
