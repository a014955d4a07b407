//! A scene: surfaces in the order in which they were added.

use vstd::prelude::*;
use crate::hit_record::HitRecord;
use crate::hittable::Hittable;
use crate::ray::Ray;
use crate::scalar::Scalar;

verus! {

/// The surfaces of a scene.
#[derive(Debug)]
pub struct HittableList<T: Hittable> {
    pub objects: Vec<T>,
}

/// Among the first `n` of `objects`, the one at `i` is the first of those
/// that `r` meets nearest: it is met between `t_min` and `t_max`, none is met
/// before it, and none of those in front of it in the list is met as near.
pub open spec fn is_first_nearest<T: Hittable>(
    objects: Seq<T>,
    n: int,
    r: Ray,
    t_min: Scalar,
    t_max: Scalar,
    i: int,
) -> bool {
    &&& 0 <= i < n
    &&& objects[i].spec_hit(r, t_min, t_max) matches Some(h)
    &&& forall|j: int|
        0 <= j < n ==> match #[trigger] objects[j].spec_hit(r, t_min, t_max) {
            Some(g) => h.t@ < g.t@ || (h.t@ == g.t@ && i <= j),
            None => true,
        }
}

/// None of the first `n` of `objects` is met by `r` between `t_min` and
/// `t_max`.
pub open spec fn none_hit<T: Hittable>(
    objects: Seq<T>,
    n: int,
    r: Ray,
    t_min: Scalar,
    t_max: Scalar,
) -> bool {
    forall|j: int| 0 <= j < n ==> #[trigger] objects[j].spec_hit(r, t_min, t_max) is None
}

/// What `r` meets first in `objects` between `t_min` and `t_max`: the
/// intersection with the surface that is the first of the nearest, or none
/// where no surface is met.
pub open spec fn first_nearest_hit<T: Hittable>(
    objects: Seq<T>,
    r: Ray,
    t_min: Scalar,
    t_max: Scalar,
) -> Option<HitRecord> {
    if exists|i: int| is_first_nearest(objects, objects.len() as int, r, t_min, t_max, i) {
        let i = choose|i: int| is_first_nearest(objects, objects.len() as int, r, t_min, t_max, i);
        objects[i].spec_hit(r, t_min, t_max)
    } else {
        None
    }
}

/// Only one surface is the first of the nearest.
pub proof fn lemma_first_nearest_unique<T: Hittable>(
    objects: Seq<T>,
    n: int,
    r: Ray,
    t_min: Scalar,
    t_max: Scalar,
    i: int,
    k: int,
)
    requires
        is_first_nearest(objects, n, r, t_min, t_max, i),
        is_first_nearest(objects, n, r, t_min, t_max, k),
    ensures
        i == k,
{
    let hi = objects[i].spec_hit(r, t_min, t_max);
    let hk = objects[k].spec_hit(r, t_min, t_max);
    assert(hi is Some && hk is Some);
}

/// Nothing is met just where no surface is met. Else one of the surfaces is
/// the first of the nearest, and `first_nearest_hit` is the intersection
/// with that one.
pub proof fn lemma_first_nearest_hit<T: Hittable>(
    objects: Seq<T>,
    r: Ray,
    t_min: Scalar,
    t_max: Scalar,
)
    ensures
        first_nearest_hit(objects, r, t_min, t_max) is None <==> none_hit(
            objects,
            objects.len() as int,
            r,
            t_min,
            t_max,
        ),
        match first_nearest_hit(objects, r, t_min, t_max) {
            None => true,
            Some(h) => {
                &&& t_min@ < h.t@ < t_max@
                &&& exists|i: int|
                    is_first_nearest(objects, objects.len() as int, r, t_min, t_max, i)
                        && objects[i].spec_hit(r, t_min, t_max) == Some(h)
            },
        },
{
    let n = objects.len() as int;
    let best = lemma_scan(objects, n, r, t_min, t_max);
    match best {
        None => {
            assert forall|i: int| !is_first_nearest(objects, n, r, t_min, t_max, i) by {
                if 0 <= i < n {
                    assert(objects[i].spec_hit(r, t_min, t_max) is None);
                }
            }
        },
        Some(i) => {
            let c = choose|i: int| is_first_nearest(objects, n, r, t_min, t_max, i);
            lemma_first_nearest_unique(objects, n, r, t_min, t_max, i, c);
            objects[i].lemma_hit_within(r, t_min, t_max);
        },
    }
}

/// Going through the first `n` surfaces finds the first of the nearest, or
/// that none is met.
proof fn lemma_scan<T: Hittable>(
    objects: Seq<T>,
    n: int,
    r: Ray,
    t_min: Scalar,
    t_max: Scalar,
) -> (best: Option<int>)
    requires
        0 <= n <= objects.len(),
    ensures
        match best {
            None => none_hit(objects, n, r, t_min, t_max),
            Some(i) => is_first_nearest(objects, n, r, t_min, t_max, i),
        },
    decreases n,
{
    if n == 0 {
        None
    } else {
        let before = lemma_scan(objects, n - 1, r, t_min, t_max);
        let last = objects[n - 1].spec_hit(r, t_min, t_max);
        match (before, last) {
            (None, None) => None,
            (None, Some(g)) => Some(n - 1),
            (Some(i), None) => Some(i),
            (Some(i), Some(g)) => {
                let h = objects[i].spec_hit(r, t_min, t_max)->Some_0;
                if g.t@ < h.t@ {
                    Some(n - 1)
                } else {
                    Some(i)
                }
            },
        }
    }
}

impl<T: Hittable> HittableList<T> {
    /// The empty scene.
    pub fn new() -> (list: HittableList<T>)
        ensures
            list.objects@.len() == 0,
    {
        HittableList { objects: Vec::new() }
    }
}

impl<T: Hittable> Default for HittableList<T> {
    fn default() -> (list: HittableList<T>)
        ensures
            list.objects@.len() == 0,
    {
        HittableList { objects: Vec::new() }
    }
}

impl<T: Hittable> Hittable for HittableList<T> {
    open spec fn spec_hit(&self, r: Ray, t_min: Scalar, t_max: Scalar) -> Option<HitRecord> {
        first_nearest_hit(self.objects@, r, t_min, t_max)
    }

    /// Tests the surfaces one after the other, each only up to the nearest
    /// intersection found so far.
    fn hit(&self, r: &Ray, t_min: Scalar, t_max: Scalar) -> (rec: Option<HitRecord>) {
        let mut hit_anything: Option<HitRecord> = None;
        let mut closest_so_far = t_max;
        let ghost mut best: Option<int> = None;
        let n = self.objects.len();
        let mut k: usize = 0;
        while k < n
            invariant
                0 <= k <= n,
                n == self.objects@.len(),
                closest_so_far@ <= t_max@,
                match best {
                    None => {
                        &&& hit_anything is None
                        &&& closest_so_far == t_max
                        &&& none_hit(self.objects@, k as int, *r, t_min, t_max)
                    },
                    Some(i) => {
                        &&& is_first_nearest(self.objects@, k as int, *r, t_min, t_max, i)
                        &&& hit_anything == self.objects@[i].spec_hit(*r, t_min, t_max)
                        &&& hit_anything matches Some(h) && closest_so_far == h.t
                    },
                },
            decreases n - k,
        {
            proof {
                self.objects@[k as int].lemma_hit_nearest(*r, t_min, t_max, closest_so_far);
                self.objects@[k as int].lemma_hit_within(*r, t_min, t_max);
            }
            if let Some(rec) = self.objects[k].hit(r, t_min, closest_so_far) {
                closest_so_far = rec.t;
                hit_anything = Some(rec);
                proof {
                    best = Some(k as int);
                }
            }
            k = k + 1;
        }
        proof {
            lemma_first_nearest_hit(self.objects@, *r, t_min, t_max);
            if let Some(i) = best {
                let c = choose|i: int| is_first_nearest(self.objects@, n as int, *r, t_min, t_max, i);
                lemma_first_nearest_unique(self.objects@, n as int, *r, t_min, t_max, i, c);
            }
        }
        hit_anything
    }

    proof fn lemma_hit_within(&self, r: Ray, t_min: Scalar, t_max: Scalar) {
        lemma_first_nearest_hit(self.objects@, r, t_min, t_max);
    }

    proof fn lemma_hit_unit_normal(&self, r: Ray, t_min: Scalar, t_max: Scalar) {
        lemma_first_nearest_hit(self.objects@, r, t_min, t_max);
        if let Some(h) = self.spec_hit(r, t_min, t_max) {
            let i = choose|i: int|
                is_first_nearest(self.objects@, self.objects@.len() as int, r, t_min, t_max, i)
                    && self.objects@[i].spec_hit(r, t_min, t_max) == Some(h);
            self.objects@[i].lemma_hit_unit_normal(r, t_min, t_max);
        }
    }

    proof fn lemma_hit_opposes(&self, r: Ray, t_min: Scalar, t_max: Scalar) {
        lemma_first_nearest_hit(self.objects@, r, t_min, t_max);
        if let Some(h) = self.spec_hit(r, t_min, t_max) {
            let i = choose|i: int|
                is_first_nearest(self.objects@, self.objects@.len() as int, r, t_min, t_max, i)
                    && self.objects@[i].spec_hit(r, t_min, t_max) == Some(h);
            self.objects@[i].lemma_hit_opposes(r, t_min, t_max);
        }
    }

    proof fn lemma_hit_nearest(&self, r: Ray, t_min: Scalar, t_max: Scalar, bound: Scalar) {
        let objects = self.objects@;
        let n = objects.len() as int;
        lemma_first_nearest_hit(objects, r, t_min, t_max);
        lemma_first_nearest_hit(objects, r, t_min, bound);
        assert forall|j: int| 0 <= j < n implies #[trigger] objects[j].spec_hit(r, t_min, bound)
            == match objects[j].spec_hit(r, t_min, t_max) {
            Some(g) => if g.t@ < bound@ {
                Some(g)
            } else {
                None
            },
            None => None,
        } by {
            objects[j].lemma_hit_nearest(r, t_min, t_max, bound);
        }
        match first_nearest_hit(objects, r, t_min, t_max) {
            None => {
                assert(none_hit(objects, n, r, t_min, bound));
            },
            Some(h) => {
                let f = choose|i: int|
                    is_first_nearest(objects, n, r, t_min, t_max, i) && objects[i].spec_hit(
                        r,
                        t_min,
                        t_max,
                    ) == Some(h);
                if h.t@ < bound@ {
                    assert(is_first_nearest(objects, n, r, t_min, bound, f)) by {
                        assert(objects[f].spec_hit(r, t_min, bound) == Some(h));
                        assert forall|j: int| 0 <= j < n implies match #[trigger] objects[j].spec_hit(
                            r,
                            t_min,
                            bound,
                        ) {
                            Some(g) => h.t@ < g.t@ || (h.t@ == g.t@ && f <= j),
                            None => true,
                        } by {}
                    }
                    let c = choose|i: int| is_first_nearest(objects, n, r, t_min, bound, i);
                    lemma_first_nearest_unique(objects, n, r, t_min, bound, f, c);
                } else {
                    assert forall|j: int| 0 <= j < n implies #[trigger] objects[j].spec_hit(
                        r,
                        t_min,
                        bound,
                    ) is None by {}
                    assert(none_hit(objects, n, r, t_min, bound));
                }
            },
        }
    }
}

} // verus!
