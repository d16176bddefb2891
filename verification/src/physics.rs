use vstd::prelude::*;
use core::cmp::Ordering;
use crate::material::Material;
use crate::ray::Ray;
use crate::sphere::{a_coef, sphere_hits, Sphere};
use crate::vector::Vec3D;

verus! {

/// Everything an object's `intersections` returns.
pub open spec fn object_hits(o: Object, ray: Ray) -> Seq<Intersection> {
    sphere_hits(o.as_sphere(), ray)
}

/// Anything a ray can hit: a closed set of shape variants dispatched by
/// pattern matching, so new shapes extend the enumeration. Every variant
/// offers intersection testing, an extent, a centre and a material.
#[derive(Clone, Copy, Debug)]
pub enum Object {
    Sphere(Sphere),
}

impl Object {
    /// The shape carried by this object.
    pub open spec fn as_sphere(self) -> Sphere {
        match self {
            Object::Sphere(s) => s,
        }
    }

    /// What equality of objects means: their shapes' stable identity.
    pub open spec fn eq_approx(self, other: Object) -> bool {
        self.as_sphere().eq_approx(other.as_sphere())
    }

    /// A well-formed object: its shape is well-formed.
    pub open spec fn wf(self) -> bool {
        self.as_sphere().wf()
    }

    /// All intersections of the ray with this object, dispatched to the
    /// shape variant.
    pub fn intersections(&self, ray: &Ray) -> (r: Vec<Intersection>)
        requires
            self.wf(),
            ray.origin.in_coord_range(),
            ray.direction.in_coord_range(),
            a_coef(*ray) >= 1,
        ensures
            r@ == object_hits(*self, *ray),
            r@.len() <= 2,
    {
        match self {
            Object::Sphere(s) => s.intersections(ray),
        }
    }

    /// The characteristic extent of the shape: its diameter.
    pub fn extent(&self) -> (r: i64)
        requires
            self.wf(),
        ensures
            r == 2 * self.as_sphere().radius,
    {
        match self {
            Object::Sphere(s) => s.extent(),
        }
    }

    /// The centre point of the shape.
    pub fn centre(&self) -> (r: Vec3D)
        ensures
            r == self.as_sphere().centre,
    {
        match self {
            Object::Sphere(s) => s.centre(),
        }
    }

    /// The surface material.
    pub fn material(&self) -> (r: Material)
        ensures
            r == self.as_sphere().material,
    {
        match self {
            Object::Sphere(s) => s.material(),
        }
    }
}

impl PartialEq for Object {
    /// Objects compare by their shape's stable identity.
    fn eq(&self, other: &Self) -> (r: bool) {
        match (self, other) {
            (Object::Sphere(a), Object::Sphere(b)) => a.eq(b),
        }
    }
}

impl vstd::std_specs::cmp::PartialEqSpecImpl for Object {
    open spec fn obeys_eq_spec() -> bool {
        true
    }

    open spec fn eq_spec(&self, other: &Object) -> bool {
        self.as_sphere().eq_approx(other.as_sphere())
    }
}

/// A well-formed hit: everything the shading stage reads stays inside the
/// ranges the arithmetic contracts ask for.
pub open spec fn hit_wf(h: Intersection) -> bool {
    &&& h.position.in_coord_range()
    &&& h.normal.bounded(crate::constants::SCALE as int)
    &&& 0 <= h.distance <= 700_000_000_000
    &&& h.object.wf()
    &&& h.ray.origin.in_coord_range()
    &&& h.ray.direction.in_coord_range()
}

/// One ray/object hit: where, how far along the ray (as true Euclidean
/// distance), the outward unit surface normal, the object that was hit and
/// the ray that hit it.
#[derive(Clone, Copy, Debug)]
pub struct Intersection {
    pub position: Vec3D,
    pub distance: i64,
    pub normal: Vec3D,
    pub object: Object,
    pub ray: Ray,
}

impl PartialEq for Intersection {
    /// Hits are equal when they are at the same distance, approximately
    /// the same place with the same normal, and on the same object.
    fn eq(&self, other: &Self) -> (r: bool) {
        self.distance == other.distance && self.position.approx(other.position)
            && self.normal.approx(other.normal) && self.object.eq(&other.object)
    }
}

impl vstd::std_specs::cmp::PartialEqSpecImpl for Intersection {
    open spec fn obeys_eq_spec() -> bool {
        true
    }

    open spec fn eq_spec(&self, other: &Intersection) -> bool {
        &&& self.distance == other.distance
        &&& self.position.eq_approx(other.position)
        &&& self.normal.eq_approx(other.normal)
        &&& self.object.eq_approx(other.object)
    }
}

/// Holds when the hits appear in ascending order of distance.
pub open spec fn sorted_by_distance(s: Seq<Intersection>) -> bool {
    forall|i: int, j: int|
        0 <= i <= j < s.len() ==> #[trigger] s[i].distance <= #[trigger] s[j].distance
}

/// What inserting a hit into a sorted run yields: the hit goes in front
/// of the first strictly farther hit, so hits at equal distance keep
/// their existing order.
pub open spec fn insert_spec(s: Seq<Intersection>, x: Intersection) -> Seq<Intersection>
    decreases s.len(),
{
    if s.len() == 0 {
        seq![x]
    } else if x.distance < s[0].distance {
        seq![x] + s
    } else {
        seq![s[0]] + insert_spec(s.drop_first(), x)
    }
}

/// What `sort_intersections` returns: insertion sort, one hit at a time.
pub open spec fn sort_spec(s: Seq<Intersection>) -> Seq<Intersection>
    decreases s.len(),
{
    if s.len() == 0 {
        Seq::empty()
    } else {
        insert_spec(sort_spec(s.drop_first()), s[0])
    }
}

/// Inserting into a sorted run keeps it sorted, adds exactly the new hit,
/// and invents nothing.
pub proof fn lemma_insert_spec_props(s: Seq<Intersection>, x: Intersection)
    requires
        sorted_by_distance(s),
    ensures
        sorted_by_distance(insert_spec(s, x)),
        insert_spec(s, x).len() == s.len() + 1,
        forall|k: int|
            0 <= k < insert_spec(s, x).len() ==> insert_spec(s, x)[k] == x || s.contains(
                #[trigger] insert_spec(s, x)[k],
            ),
    decreases s.len(),
{
    let r = insert_spec(s, x);
    if s.len() == 0 {
    } else if x.distance < s[0].distance {
        assert(forall|k: int| 0 <= k < s.len() ==> r[k + 1] == s[k]);
    } else {
        let tail = s.drop_first();
        assert(sorted_by_distance(tail)) by {
            assert(forall|i: int, j: int|
                0 <= i <= j < tail.len() ==> tail[i] == s[i + 1] && tail[j] == s[j + 1]);
        }
        lemma_insert_spec_props(tail, x);
        let rt = insert_spec(tail, x);
        assert(forall|k: int| 0 <= k < rt.len() ==> r[k + 1] == rt[k]);
        assert(forall|k: int| 1 <= k < r.len() ==> r[k] == x || tail.contains(r[k]));
        assert(forall|k: int|
            0 <= k < tail.len() ==> tail[k] == s[k + 1] && s.contains(#[trigger] tail[k]));
        assert forall|i: int, j: int|
            0 <= i <= j < r.len() implies #[trigger] r[i].distance <= #[trigger] r[j].distance by {
            if i == 0 && j > 0 {
                assert(r[j] == rt[j - 1]);
                assert(r[j] == x || tail.contains(r[j]));
                if r[j] == x {
                    assert(r[0].distance <= x.distance);
                } else {
                    let m = choose|m: int| 0 <= m < tail.len() && tail[m] == r[j];
                    assert(s[0].distance <= s[m + 1].distance);
                }
            }
        }
    }
}

/// Insertion sort yields a sorted run of the same length whose hits all
/// come from the input.
pub proof fn lemma_sort_spec_props(s: Seq<Intersection>)
    ensures
        sorted_by_distance(sort_spec(s)),
        sort_spec(s).len() == s.len(),
        forall|k: int|
            0 <= k < sort_spec(s).len() ==> s.contains(#[trigger] sort_spec(s)[k]),
    decreases s.len(),
{
    if s.len() == 0 {
    } else {
        let tail = s.drop_first();
        lemma_sort_spec_props(tail);
        lemma_insert_spec_props(sort_spec(tail), s[0]);
        assert(forall|k: int|
            0 <= k < tail.len() ==> tail[k] == s[k + 1] && s.contains(#[trigger] tail[k]));
        assert(s.contains(s[0]));
        assert forall|k: int| 0 <= k < sort_spec(s).len() implies s.contains(
            #[trigger] sort_spec(s)[k],
        ) by {
            assert(sort_spec(s)[k] == s[0] || sort_spec(tail).contains(sort_spec(s)[k]));
            if sort_spec(s)[k] != s[0] {
                let m = choose|m: int|
                    0 <= m < sort_spec(tail).len() && sort_spec(tail)[m] == sort_spec(s)[k];
                assert(tail.contains(sort_spec(tail)[m]));
            }
        }
    }
}

/// A non-empty run holds its first hit once more than its tail.
proof fn lemma_first_plus_tail_multiset(s: Seq<Intersection>)
    requires
        s.len() > 0,
    ensures
        s.to_multiset() == s.remove(0).to_multiset().insert(s[0]),
{
    broadcast use vstd::seq_lib::group_to_multiset_ensures;
    broadcast use vstd::multiset::group_multiset_axioms;

    assert(s.contains(s[0]));
    assert(s.to_multiset() =~= s.remove(0).to_multiset().insert(s[0]));
}

/// Inserting a hit adds exactly that hit to the run's contents.
pub proof fn lemma_insert_spec_multiset(s: Seq<Intersection>, x: Intersection)
    ensures
        insert_spec(s, x).to_multiset() == s.to_multiset().insert(x),
    decreases s.len(),
{
    broadcast use vstd::seq_lib::group_to_multiset_ensures;
    broadcast use vstd::multiset::group_multiset_axioms;

    let r = insert_spec(s, x);
    if s.len() == 0 {
        assert(r =~= Seq::<Intersection>::empty().push(x));
        assert(s =~= Seq::<Intersection>::empty());
    } else if x.distance < s[0].distance {
        lemma_first_plus_tail_multiset(r);
        assert(r.remove(0) =~= s);
    } else {
        let tail = s.drop_first();
        lemma_insert_spec_multiset(tail, x);
        lemma_first_plus_tail_multiset(r);
        lemma_first_plus_tail_multiset(s);
        assert(r.remove(0) =~= insert_spec(tail, x));
        assert(s.remove(0) =~= tail);
        assert(tail.to_multiset().insert(x).insert(s[0]) =~= tail.to_multiset().insert(
            s[0],
        ).insert(x));
    }
}

/// Sorting rearranges the hits and nothing more: the contents are the
/// same multiset.
pub proof fn lemma_sort_spec_multiset(s: Seq<Intersection>)
    ensures
        sort_spec(s).to_multiset() == s.to_multiset(),
    decreases s.len(),
{
    broadcast use vstd::seq_lib::group_to_multiset_ensures;
    broadcast use vstd::multiset::group_multiset_axioms;

    if s.len() == 0 {
    } else {
        let tail = s.drop_first();
        lemma_sort_spec_multiset(tail);
        lemma_insert_spec_multiset(sort_spec(tail), s[0]);
        lemma_first_plus_tail_multiset(s);
        assert(s.remove(0) =~= tail);
    }
}

/// Inserts a hit into an already sorted run, keeping ascending distance.
fn insert_sorted(sorted: Vec<Intersection>, x: Intersection) -> (r: Vec<Intersection>)
    ensures
        r@ == insert_spec(sorted@, x),
    decreases sorted@.len(),
{
    let ghost orig = sorted@;
    if sorted.len() == 0 {
        let mut v = sorted;
        v.push(x);
        proof {
            assert(v@ =~= seq![x]);
        }
        v
    } else if x.distance < sorted[0].distance {
        let mut v = sorted;
        v.insert(0, x);
        proof {
            assert(v@ =~= seq![x] + orig);
        }
        v
    } else {
        let mut rest = sorted;
        let head = rest.remove(0);
        proof {
            assert(rest@ =~= orig.drop_first());
        }
        let mut r = insert_sorted(rest, x);
        r.insert(0, head);
        proof {
            assert(r@ =~= seq![head] + insert_spec(orig.drop_first(), x));
        }
        r
    }
}

/// Sorts hits into ascending order of distance by insertion, so hits at
/// equal distance keep their gathering order.
pub fn sort_intersections(list: Vec<Intersection>) -> (r: Vec<Intersection>)
    ensures
        r@ == sort_spec(list@),
        sorted_by_distance(r@),
        r@.len() == list@.len(),
        r@.to_multiset() == list@.to_multiset(),
    decreases list@.len(),
{
    let ghost orig = list@;
    proof {
        lemma_sort_spec_props(orig);
        lemma_sort_spec_multiset(orig);
    }
    if list.len() == 0 {
        return list;
    }
    let mut rest = list;
    let x = rest.remove(0);
    proof {
        assert(rest@ =~= orig.drop_first());
    }
    let sorted_rest = sort_intersections(rest);
    insert_sorted(sorted_rest, x)
}

impl PartialOrd for Intersection {
    /// Hits order solely by distance.
    fn partial_cmp(&self, other: &Self) -> (r: Option<Ordering>) {
        if self.distance < other.distance {
            Some(Ordering::Less)
        } else if self.distance > other.distance {
            Some(Ordering::Greater)
        } else {
            Some(Ordering::Equal)
        }
    }
}

impl vstd::std_specs::cmp::PartialOrdSpecImpl for Intersection {
    open spec fn obeys_partial_cmp_spec() -> bool {
        true
    }

    open spec fn partial_cmp_spec(&self, other: &Intersection) -> Option<Ordering> {
        if self.distance < other.distance {
            Some(Ordering::Less)
        } else if self.distance > other.distance {
            Some(Ordering::Greater)
        } else {
            Some(Ordering::Equal)
        }
    }
}

} // verus!
