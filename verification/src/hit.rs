//! Hit records, primitives by handle, and the linear scan over a list of them.

use vstd::prelude::*;
use crate::aabb::{enclosing_box, hull, surrounding_box, AABB};
use crate::scalar::Scalar;
use crate::vec3::Vec3;

verus! {

/// What an intersection reports. The material is a handle into the caller's
/// table of materials.
#[derive(Clone, Copy, Debug, PartialEq, Eq, Structural)]
pub struct HitRecord {
    /// Where the ray meets the surface.
    pub p: Vec3,
    /// The surface normal there, turned against the ray.
    pub normal: Vec3,
    /// Handle of the material of the surface.
    pub material: usize,
    /// The ray parameter of the hit.
    pub t: Scalar,
    /// Surface coordinates of the hit.
    pub u: Scalar,
    pub v: Scalar,
    /// Whether the ray arrives from outside the surface.
    pub front_face: bool,
}

impl HitRecord {
    /// A blank record for the given material: everything zero, front face set.
    pub fn new(material: usize) -> (r: HitRecord)
        ensures
            r.material == material,
            r.front_face,
            r.t.key == 0 && r.u.key == 0 && r.v.key == 0,
            r.p.x.key == 0 && r.p.y.key == 0 && r.p.z.key == 0,
            r.normal.x.key == 0 && r.normal.y.key == 0 && r.normal.z.key == 0,
    {
        HitRecord {
            p: Vec3::zero(),
            normal: Vec3::zero(),
            material,
            t: Scalar::zero(),
            u: Scalar::zero(),
            v: Scalar::zero(),
            front_face: true,
        }
    }

    /// Orients the normal against the ray. `facing` is the dot product of the
    /// ray's direction with `outward_normal`: the ray arrives from outside when
    /// it is negative, and otherwise the stored normal is the outward one flipped.
    pub fn set_face_normal(&mut self, facing: Scalar, outward_normal: Vec3)
        ensures
            final(self).front_face == facing.num_lt(Scalar { key: 0 }),
            final(self).normal == if final(self).front_face {
                outward_normal
            } else {
                outward_normal.negated()
            },
            final(self).p == old(self).p,
            final(self).material == old(self).material,
            final(self).t == old(self).t,
            final(self).u == old(self).u,
            final(self).v == old(self).v,
    {
        self.front_face = facing.lt(&Scalar::zero());
        self.normal = if self.front_face {
            outward_normal
        } else {
            outward_normal.neg()
        };
    }
}

impl Default for HitRecord {
    fn default() -> (r: HitRecord)
        ensures
            r.material == 0,
            r.front_face,
            r.t.key == 0 && r.u.key == 0 && r.v.key == 0,
            r.p.x.key == 0 && r.p.y.key == 0 && r.p.z.key == 0,
            r.normal.x.key == 0 && r.normal.y.key == 0 && r.normal.z.key == 0,
    {
        HitRecord::new(0)
    }
}

/// A primitive as the scene structures see it: a handle into the caller's table
/// of shapes, and the primitive's bounding box if it has one.
#[derive(Clone, Copy, Debug, PartialEq, Eq, Structural)]
pub struct Primitive {
    pub id: usize,
    pub bbox: Option<AABB>,
}

impl Primitive {
    pub fn new(id: usize, bbox: Option<AABB>) -> (r: Primitive)
        ensures
            r == (Primitive { id, bbox }),
    {
        Primitive { id, bbox }
    }
}

/// `model` says what the intersector answers: whatever a call returns is what
/// `model` gives for the call's arguments.
pub open spec fn answers_as<F: Fn(usize, Scalar, Scalar) -> Option<HitRecord>>(
    f: F,
    model: spec_fn(usize, Scalar, Scalar) -> Option<HitRecord>,
) -> bool {
    forall|id: usize, t_min: Scalar, t_max: Scalar, r: Option<HitRecord>|
        #[trigger] call_ensures(f, (id, t_min, t_max), r) ==> r == model(id, t_min, t_max)
}

/// `r` is what the intersector answered for one of the primitives `ids`, asked
/// from `t_min` up to some bound.
pub open spec fn answered<F: Fn(usize, Scalar, Scalar) -> Option<HitRecord>>(
    f: F,
    ids: Set<usize>,
    t_min: Scalar,
    r: Option<HitRecord>,
) -> bool {
    exists|id: usize, bound: Scalar|
        ids.contains(id) && #[trigger] call_ensures(f, (id, t_min, bound), r)
}

/// The intersector may be asked about every primitive of `list`, from `t_min` up
/// to any bound.
pub open spec fn accepts<F: Fn(usize, Scalar, Scalar) -> Option<HitRecord>>(
    f: F,
    list: Seq<Primitive>,
    t_min: Scalar,
) -> bool {
    forall|i: int, b: Scalar|
        0 <= i < list.len() ==> #[trigger] call_requires(f, (list[i].id, t_min, b))
}

/// The handles that occur in a list of primitives.
pub open spec fn list_ids(list: Seq<Primitive>) -> Set<usize> {
    Set::new(|id: usize| exists|i: int| 0 <= i < list.len() && #[trigger] list[i].id == id)
}

/// The linear scan: the primitives are asked in order, each with the upper bound
/// drawn in to the nearest hit so far, and the last hit found is the result.
pub open spec fn scan(
    list: Seq<Primitive>,
    leaf: spec_fn(usize, Scalar, Scalar) -> Option<HitRecord>,
    t_min: Scalar,
    t_max: Scalar,
) -> Option<HitRecord>
    decreases list.len(),
{
    if list.len() == 0 {
        None
    } else {
        let before = scan(list.drop_last(), leaf, t_min, t_max);
        let bound = match before {
            Some(h) => h.t,
            None => t_max,
        };
        match leaf(list.last().id, t_min, bound) {
            Some(h) => Some(h),
            None => before,
        }
    }
}

/// The union of the boxes of a list, in order; `None` where the list is empty or
/// one of its primitives has no box.
pub open spec fn list_box(list: Seq<Primitive>) -> Option<AABB>
    decreases list.len(),
{
    if list.len() == 0 {
        None
    } else if list.len() == 1 {
        list[0].bbox
    } else {
        match (list_box(list.drop_last()), list.last().bbox) {
            (Some(acc), Some(b)) => Some(acc.union_of(b)),
            _ => None,
        }
    }
}

#[derive(Clone, Debug)]
pub struct HitList {
    pub list: Vec<Primitive>,
}

impl HitList {
    pub fn new() -> (r: HitList)
        ensures
            r.list@.len() == 0,
    {
        HitList { list: Vec::new() }
    }

    pub fn add(&mut self, object: Primitive)
        ensures
            final(self).list@ == old(self).list@.push(object),
    {
        self.list.push(object);
    }

    pub fn clear(&mut self)
        ensures
            final(self).list@.len() == 0,
    {
        self.list.clear();
    }

    /// The nearest hit of the list, found by asking every primitive in turn: for
    /// every model of the intersector, the result of [`scan`] under that model.
    pub fn hit<F: Fn(usize, Scalar, Scalar) -> Option<HitRecord>>(
        &self,
        intersect: &F,
        t_min: Scalar,
        t_max: Scalar,
    ) -> (r: Option<HitRecord>)
        requires
            accepts(*intersect, self.list@, t_min),
        ensures
            forall|model: spec_fn(usize, Scalar, Scalar) -> Option<HitRecord>|
                #[trigger] answers_as(*intersect, model) ==> r == scan(
                    self.list@,
                    model,
                    t_min,
                    t_max,
                ),
            r is Some ==> answered(*intersect, list_ids(self.list@), t_min, r),
            r is None ==> forall|k: int|
                0 <= k < self.list@.len() ==> call_ensures(
                    *intersect,
                    (#[trigger] self.list@[k].id, t_min, t_max),
                    None,
                ),
    {
        let mut found: Option<HitRecord> = None;
        let mut closest_so_far = t_max;
        let mut i: usize = 0;
        while i < self.list.len()
            invariant
                i <= self.list@.len(),
                accepts(*intersect, self.list@, t_min),
                closest_so_far == match found {
                    Some(h) => h.t,
                    None => t_max,
                },
                found is Some ==> answered(*intersect, list_ids(self.list@), t_min, found),
                found is None ==> forall|k: int|
                    0 <= k < i ==> call_ensures(
                        *intersect,
                        (#[trigger] self.list@[k].id, t_min, t_max),
                        None,
                    ),
                forall|model: spec_fn(usize, Scalar, Scalar) -> Option<HitRecord>|
                    #[trigger] answers_as(*intersect, model) ==> found == scan(
                        self.list@.take(i as int),
                        model,
                        t_min,
                        t_max,
                    ),
            decreases self.list@.len() - i,
        {
            let ghost before = found;
            let answer = intersect(self.list[i].id, t_min, closest_so_far);
            if let Some(h) = answer {
                closest_so_far = h.t;
                found = Some(h);
            }
            proof {
                assert(list_ids(self.list@).contains(self.list@[i as int].id));
                let upto = self.list@.take(i + 1);
                assert(upto.drop_last() == self.list@.take(i as int));
                assert(upto.last() == self.list@[i as int]);
                assert forall|model: spec_fn(usize, Scalar, Scalar) -> Option<HitRecord>|
                    #[trigger] answers_as(*intersect, model) implies found == scan(
                    upto,
                    model,
                    t_min,
                    t_max,
                ) by {
                    assert(before == scan(upto.drop_last(), model, t_min, t_max));
                }
            }
            i += 1;
        }
        proof {
            assert(self.list@.take(i as int) == self.list@);
        }
        found
    }

    /// The box around the whole list.
    pub fn bounding_box(&self) -> (r: Option<AABB>)
        ensures
            r == list_box(self.list@),
    {
        if self.list.len() == 0 {
            return None;
        }
        let mut out: Option<AABB> = self.list[0].bbox;
        let mut i: usize = 1;
        while i < self.list.len()
            invariant
                1 <= i <= self.list@.len(),
                out == list_box(self.list@.take(i as int)),
            decreases self.list@.len() - i,
        {
            proof {
                assert(self.list@.take(i + 1).drop_last() == self.list@.take(i as int));
                assert(self.list@.take(i + 1).last() == self.list@[i as int]);
            }
            out = match (out, self.list[i].bbox) {
                (Some(acc), Some(b)) => Some(surrounding_box(acc, b)),
                _ => None,
            };
            i += 1;
        }
        proof {
            assert(self.list@.take(i as int) == self.list@);
        }
        out
    }
}

/// A primitive moved by `offset`; `ptr` is the handle of the primitive.
#[derive(Clone, Copy, Debug, PartialEq, Eq, Structural)]
pub struct Translate {
    pub ptr: usize,
    pub offset: Vec3,
}

impl Translate {
    pub fn new(ptr: usize, offset: Vec3) -> (r: Translate)
        ensures
            r == (Translate { ptr, offset }),
    {
        Translate { ptr, offset }
    }
}

/// A primitive turned about the vertical axis; `ptr` is the handle of the
/// primitive. The box is that of the turned primitive, worked out once.
#[derive(Clone, Copy, Debug, PartialEq, Eq, Structural)]
pub struct RotateY {
    pub ptr: usize,
    pub sin_theta: Scalar,
    pub cos_theta: Scalar,
    pub has_box: bool,
    pub bbox: AABB,
}

impl RotateY {
    /// `corners` are the corners of the primitive's own box after the turn, and
    /// `has_box` says whether the primitive has a box at all. Turning does not
    /// keep a box aligned with the axes, so the box of the turned primitive is
    /// the smallest one around the turned corners.
    pub fn new(
        ptr: usize,
        sin_theta: Scalar,
        cos_theta: Scalar,
        has_box: bool,
        corners: &Vec<Vec3>,
    ) -> (r: RotateY)
        ensures
            r == (RotateY { ptr, sin_theta, cos_theta, has_box, bbox: hull(corners@) }),
    {
        RotateY { ptr, sin_theta, cos_theta, has_box, bbox: enclosing_box(corners) }
    }

    pub fn bounding_box(&self) -> (r: Option<AABB>)
        ensures
            r == if self.has_box {
                Some(self.bbox)
            } else {
                None
            },
    {
        if self.has_box {
            Some(self.bbox)
        } else {
            None
        }
    }
}

impl Default for HitList {
    fn default() -> (r: HitList)
        ensures
            r.list@.len() == 0,
    {
        HitList::new()
    }
}

} // verus!
