//! Hits: the record of one, and the search for the nearest among the
//! shapes of a scene.

use vstd::prelude::*;
use core::ops::Neg;
use crate::interval::Interval;
use crate::scalar::Scalar;
use crate::vec3::{Point3, Vec3};

verus! {

/// Where and how a ray met a surface. The material is borrowed from the
/// shape that was hit.
pub struct HitRecord<'a, M> {
    pub p: Point3,
    pub normal: Vec3,
    pub mat: &'a M,
    pub t: Scalar,
    pub front_face: bool,
}

impl<'a, M> HitRecord<'a, M> {
    /// The record of a hit at point `p`, at distance `t` along the ray.
    /// `facing` is the dot product of the ray's direction with
    /// `outward_normal`. The ray comes from outside exactly when that
    /// product is negative; the recorded normal is then the outward one, and
    /// else its opposite, so that it always points against the ray.
    pub fn new(p: Point3, t: Scalar, facing: Scalar, mat: &'a M, outward_normal: Vec3) -> (r: Self)
        ensures
            r.p == p,
            r.t == t,
            r.mat == mat,
            r.front_face == facing.less(Scalar { bits: 0 }),
            r.normal == (if r.front_face {
                outward_normal
            } else {
                outward_normal.opposite()
            }),
    {
        let front_face = facing.lt(&Scalar::zero());
        let normal = if front_face {
            outward_normal
        } else {
            outward_normal.neg()
        };
        HitRecord { p, normal, mat, t, front_face }
    }
}

/// What solving the quadratic of one ray and one shape gave: the
/// discriminant and the two distances at which the ray crosses the surface,
/// the one computed with the negative square root first.
#[derive(Debug, Clone, Copy)]
pub struct Roots {
    pub discriminant: Scalar,
    pub near: Scalar,
    pub far: Scalar,
}

impl Roots {
    /// The three results of solving a quadratic.
    pub fn new(discriminant: Scalar, near: Scalar, far: Scalar) -> (r: Roots)
        ensures
            r.discriminant == discriminant,
            r.near == near,
            r.far == far,
    {
        Roots { discriminant, near, far }
    }

    /// The distance at which the shape is hit inside `window`: none where
    /// the discriminant is negative; else the near crossing if the window
    /// encloses it; else the far one if the window encloses that.
    pub open spec fn first_within(self, window: Interval) -> Option<Scalar> {
        if self.discriminant.less(Scalar { bits: 0 }) {
            None
        } else if window.encloses(self.near) {
            Some(self.near)
        } else if window.encloses(self.far) {
            Some(self.far)
        } else {
            None
        }
    }

    /// `s` is a crossing of the shape that `window` encloses.
    pub open spec fn crosses_at(self, window: Interval, s: Scalar) -> bool {
        &&& !self.discriminant.less(Scalar { bits: 0 })
        &&& s == self.near || s == self.far
        &&& window.encloses(s)
    }

    /// The near crossing does not lie behind the far one.
    pub open spec fn ordered(self) -> bool {
        self.near.nan() || self.far.nan() || self.near.at_most(self.far)
    }

    /// The distance at which the shape is hit inside `window`, if it is.
    pub fn hit_distance(&self, window: Interval) -> (r: Option<Scalar>)
        ensures
            r == self.first_within(window),
    {
        if self.discriminant.lt(&Scalar::zero()) {
            return None;
        }
        if window.surrounds(self.near) {
            Some(self.near)
        } else if window.surrounds(self.far) {
            Some(self.far)
        } else {
            None
        }
    }
}

/// The hit that a scan of the first `n` shapes ends with: each shape is
/// asked for a hit closer than the closest so far, so a later shape
/// replaces an earlier one only where it is strictly closer.
pub open spec fn scan(roots: Seq<Roots>, window: Interval, n: nat) -> Option<(usize, Scalar)>
    decreases n,
{
    if n == 0 {
        None
    } else {
        let before = scan(roots, window, (n - 1) as nat);
        match roots[n - 1].first_within(narrowed(window, before)) {
            Some(t) => Some(((n - 1) as usize, t)),
            None => before,
        }
    }
}

/// The window with its far end pulled in to the closest hit so far.
pub open spec fn narrowed(window: Interval, closest: Option<(usize, Scalar)>) -> Interval {
    match closest {
        Some((_, t)) => Interval { min: window.min, max: t },
        None => window,
    }
}

/// The nearest hit among the shapes whose crossings are given in `roots`:
/// the index of the shape and the distance. It is what a scan of the
/// shapes in their order ends with; where every shape's crossings are in
/// order, that is the least distance at which the window encloses a
/// crossing of any shape, and the first shape that is crossed there.
pub fn closest_hit(roots: &Vec<Roots>, ray_t: Interval) -> (r: Option<(usize, Scalar)>)
    ensures
        r == scan(roots@, ray_t, roots@.len()),
        all_ordered(roots@) ==> is_nearest(roots@, ray_t, roots@.len(), r),
{
    let n = roots.len();
    proof {
        if all_ordered(roots@) {
            lemma_scan_is_nearest(roots@, ray_t, n as nat);
        }
    }
    let mut rec: Option<(usize, Scalar)> = None;
    let mut closest_so_far = ray_t.max;
    let mut i: usize = 0;
    while i < roots.len()
        invariant
            i <= roots@.len(),
            rec == scan(roots@, ray_t, i as nat),
            (Interval { min: ray_t.min, max: closest_so_far }) == narrowed(ray_t, rec),
        decreases roots@.len() - i,
    {
        match roots[i].hit_distance(Interval::new(ray_t.min, closest_so_far)) {
            Some(t) => {
                closest_so_far = t;
                rec = Some((i, t));
            },
            None => {},
        }
        i = i + 1;
    }
    rec
}

/// The shapes of a scene, in the order in which they were added.
pub struct HittableList<T> {
    pub objects: Vec<T>,
}

impl<T> HittableList<T> {
    /// A scene without shapes.
    pub fn new() -> (r: Self)
        ensures
            r.objects@.len() == 0,
    {
        HittableList { objects: Vec::new() }
    }

    /// Adds a shape behind the others.
    pub fn add(&mut self, object: T)
        ensures
            final(self).objects@ == old(self).objects@.push(object),
    {
        self.objects.push(object);
    }

    /// Removes every shape.
    pub fn clear(&mut self)
        ensures
            final(self).objects@.len() == 0,
    {
        self.objects.clear();
    }

    /// Number of shapes.
    pub fn len(&self) -> (r: usize)
        ensures
            r == self.objects@.len(),
    {
        self.objects.len()
    }

    /// The nearest shape that the ray hits inside `ray_t`, with the
    /// distance of the hit. `roots` holds, shape by shape, the crossings of
    /// the ray with it.
    pub fn hit(&self, roots: &Vec<Roots>, ray_t: Interval) -> (r: Option<(&T, Scalar)>)
        requires
            roots@.len() == self.objects@.len(),
        ensures
            r == (match scan(roots@, ray_t, roots@.len()) {
                Some((k, t)) => Some((&self.objects@[k as int], t)),
                None => None,
            }),
            scan(roots@, ray_t, roots@.len()) matches Some((k, t)) ==> k < self.objects@.len(),
    {
        let n = roots.len();
        proof {
            lemma_scan_index(roots@, ray_t, n as nat);
        }
        match closest_hit(roots, ray_t) {
            Some((k, t)) => Some((&self.objects[k], t)),
            None => None,
        }
    }
}

/// A scan reports a shape that it has looked at.
pub proof fn lemma_scan_index(roots: Seq<Roots>, window: Interval, n: nat)
    requires
        n <= roots.len(),
        n <= usize::MAX,
    ensures
        scan(roots, window, n) matches Some((k, t)) ==> k < n,
    decreases n,
{
    if n > 0 {
        lemma_scan_index(roots, window, (n - 1) as nat);
    }
}

/// Every shape's near crossing lies at or before its far one.
pub open spec fn all_ordered(roots: Seq<Roots>) -> bool {
    forall|i: int| 0 <= i < roots.len() ==> (#[trigger] roots[i]).ordered()
}

/// `best` is the nearest hit among the first `n` shapes: where it is none,
/// the window encloses no crossing of any of them; where it is a hit, it
/// is a crossing of the shape it names, no crossing of any shape is nearer,
/// and every crossing of an earlier shape is farther.
pub open spec fn is_nearest(
    roots: Seq<Roots>,
    window: Interval,
    n: nat,
    best: Option<(usize, Scalar)>,
) -> bool {
    match best {
        None => forall|i: int, s: Scalar|
            0 <= i < n ==> !(#[trigger] roots[i].crosses_at(window, s)),
        Some((k, t)) => {
            &&& k < n
            &&& roots[k as int].crosses_at(window, t)
            &&& forall|i: int, s: Scalar|
                0 <= i < n && #[trigger] roots[i].crosses_at(window, s) ==> t.at_most(s) && (i < k
                    ==> t.less(s))
        },
    }
}

/// The scan finds the nearest hit of the whole scene: of all crossings
/// that the window encloses it reports the one at the least distance, and
/// among shapes at that same distance the one that was added first.
pub proof fn lemma_scan_is_nearest(roots: Seq<Roots>, window: Interval, n: nat)
    requires
        n <= roots.len(),
        n <= usize::MAX,
        all_ordered(roots),
    ensures
        is_nearest(roots, window, n, scan(roots, window, n)),
    decreases n,
{
    if n > 0 {
        let m = (n - 1) as nat;
        lemma_scan_is_nearest(roots, window, m);
        let before = scan(roots, window, m);
        let shape = roots[n - 1];
        let inner = narrowed(window, before);
        let after = scan(roots, window, n);
        assert(shape.ordered());
        assert(after == (match shape.first_within(inner) {
            Some(t) => Some((m as usize, t)),
            None => before,
        }));
        match after {
            None => {
                assert(before is None);
                assert forall|i: int, s: Scalar| 0 <= i < n implies !(
                #[trigger] roots[i].crosses_at(window, s)) by {
                    if i < m {
                        assert(!roots[i].crosses_at(window, s));
                    }
                }
            },
            Some((k, t)) => {
                assert forall|i: int, s: Scalar|
                    0 <= i < n && #[trigger] roots[i].crosses_at(window, s) implies t.at_most(s)
                    && (i < k ==> t.less(s)) by {
                    if i < m {
                        match before {
                            Some((k0, t0)) => {
                                assert(roots[i].crosses_at(window, s) ==> t0.at_most(s));
                            },
                            None => {
                                assert(!roots[i].crosses_at(window, s));
                            },
                        }
                    }
                }
            },
        }
    }
}

/// The distance of the nearest hit does not depend on the order in which
/// the shapes are scanned: two scenes of the same shapes are both missed,
/// or both hit at the same distance.
pub proof fn lemma_scan_order_independent(a: Seq<Roots>, b: Seq<Roots>, window: Interval)
    requires
        a.to_multiset() == b.to_multiset(),
        a.len() <= usize::MAX,
        all_ordered(a),
        all_ordered(b),
    ensures
        scan(a, window, a.len()) is None <==> scan(b, window, b.len()) is None,
        scan(a, window, a.len()) matches Some((ka, ta)) ==> scan(b, window, b.len()) matches Some(
            (kb, tb),
        ) && ta.rank() == tb.rank(),
{
    a.to_multiset_ensures();
    b.to_multiset_ensures();
    assert(a.len() == b.len());
    lemma_scan_is_nearest(a, window, a.len());
    lemma_scan_is_nearest(b, window, b.len());
    let ra = scan(a, window, a.len());
    let rb = scan(b, window, b.len());
    if let Some((ka, ta)) = ra {
        let shape = a[ka as int];
        assert(a.contains(shape));
        assert(b.to_multiset().count(shape) > 0);
        assert(b.contains(shape));
        let j = choose|j: int| 0 <= j < b.len() && b[j] == shape;
        assert(b[j].crosses_at(window, ta));
    }
    if let Some((kb, tb)) = rb {
        let shape = b[kb as int];
        assert(b.contains(shape));
        assert(a.to_multiset().count(shape) > 0);
        assert(a.contains(shape));
        let j = choose|j: int| 0 <= j < a.len() && a[j] == shape;
        assert(a[j].crosses_at(window, tb));
    }
}

/// No two different shapes are crossed at the same distance inside the
/// window.
pub open spec fn apart(roots: Seq<Roots>, window: Interval) -> bool {
    forall|i: int, j: int, s: Scalar, t: Scalar|
        0 <= i < roots.len() && 0 <= j < roots.len() && #[trigger] roots[i].crosses_at(window, s)
            && #[trigger] roots[j].crosses_at(window, t) && s.rank() == t.rank() ==> roots[i]
            == roots[j]
}

/// Where no two shapes are crossed at the same distance, the shape that
/// is hit does not depend on the order in which the shapes are scanned
/// either.
pub proof fn lemma_scan_shape_independent(a: Seq<Roots>, b: Seq<Roots>, window: Interval)
    requires
        a.to_multiset() == b.to_multiset(),
        a.len() <= usize::MAX,
        all_ordered(a),
        all_ordered(b),
        apart(a, window),
    ensures
        scan(a, window, a.len()) matches Some((ka, ta)) ==> scan(b, window, b.len()) matches Some(
            (kb, tb),
        ) && a[ka as int] == b[kb as int],
{
    a.to_multiset_ensures();
    b.to_multiset_ensures();
    assert(a.len() == b.len());
    lemma_scan_order_independent(a, b, window);
    lemma_scan_is_nearest(a, window, a.len());
    lemma_scan_is_nearest(b, window, b.len());
    if let Some((ka, ta)) = scan(a, window, a.len()) {
        let (kb, tb) = scan(b, window, b.len())->Some_0;
        let shape = b[kb as int];
        assert(b.contains(shape));
        assert(a.to_multiset().count(shape) > 0);
        assert(a.contains(shape));
        let j = choose|j: int| 0 <= j < a.len() && a[j] == shape;
        assert(a[j].crosses_at(window, tb));
        assert(a[ka as int].crosses_at(window, ta));
    }
}

} // verus!
