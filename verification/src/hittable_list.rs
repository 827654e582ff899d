//! The scene aggregate: an insertion-ordered collection answering nearest-hit
//! queries by linear scan.

use vstd::prelude::*;
use crate::ray::{Ray, T_LIMIT};
use crate::tracer::{HitRecord, HitTable};

verus! {

pub struct HitTableList<T: HitTable> {
    pub objects: Vec<T>,
}

impl<T: HitTable> HitTableList<T> {
    pub fn new() -> (r: HitTableList<T>)
        ensures
            r.objects@.len() == 0,
    {
        HitTableList { objects: Vec::new() }
    }

    pub fn clear(&mut self)
        ensures
            final(self).objects@.len() == 0,
    {
        self.objects.clear();
    }

    pub fn add(&mut self, object: T)
        ensures
            final(self).objects@ == old(self).objects@.push(object),
    {
        self.objects.push(object);
    }

    /// The answer of the linear scan from index `i` on, with `closest` the
    /// nearest parameter accepted so far and `best` its record: each member's
    /// own answer within `[t_min, closest]` narrows the search, and the first
    /// object scanned wins ties at equal parameters, so a later hit only
    /// replaces a strictly farther record.
    pub open spec fn scan(
        s: Seq<T>,
        i: int,
        ray: Ray,
        t_min: i64,
        closest: i64,
        best: Option<HitRecord>,
    ) -> Option<HitRecord>
        decreases s.len() - i,
    {
        if i < 0 || i >= s.len() {
            best
        } else {
            match s[i].hit_spec(ray, t_min, closest) {
                Some(h) => if best is Some && h.t >= closest {
                    Self::scan(s, i + 1, ray, t_min, closest, best)
                } else {
                    Self::scan(s, i + 1, ray, t_min, h.t, Some(h))
                },
                None => Self::scan(s, i + 1, ray, t_min, closest, best),
            }
        }
    }

    /// Every record a scan returns is accepted for the full query range,
    /// provided the starting state already is.
    proof fn lemma_scan_accepted(
        s: Seq<T>,
        i: int,
        ray: Ray,
        t_min: i64,
        t_max: i64,
        closest: i64,
        best: Option<HitRecord>,
    )
        requires
            forall|j: int| 0 <= j < s.len() ==> (#[trigger] s[j]).hit_ok(),
            ray.wf(),
            -T_LIMIT <= t_min,
            closest <= t_max <= T_LIMIT,
            best matches Some(b) ==> b.accepted(ray, t_min as int, t_max as int),
        ensures
            Self::scan(s, i, ray, t_min, closest, best) matches Some(rec)
                ==> rec.accepted(ray, t_min as int, t_max as int),
        decreases s.len() - i,
    {
        if 0 <= i < s.len() {
            s[i].hit_properties(ray, t_min, closest);
            match s[i].hit_spec(ray, t_min, closest) {
                Some(h) => {
                    if best is Some && h.t >= closest {
                        Self::lemma_scan_accepted(s, i + 1, ray, t_min, t_max, closest, best);
                    } else {
                        Self::lemma_scan_accepted(s, i + 1, ray, t_min, t_max, h.t, Some(h));
                    }
                },
                None => {
                    Self::lemma_scan_accepted(s, i + 1, ray, t_min, t_max, closest, best);
                },
            }
        }
    }
}

impl<T: HitTable> HitTable for HitTableList<T> {
    /// Every member is valid.
    open spec fn hit_ok(&self) -> bool {
        forall|j: int| 0 <= j < self.objects@.len() ==> (#[trigger] self.objects@[j]).hit_ok()
    }

    open spec fn hit_spec(&self, ray: Ray, t_min: i64, t_max: i64) -> Option<HitRecord> {
        Self::scan(self.objects@, 0, ray, t_min, t_max, None)
    }

    proof fn hit_properties(&self, ray: Ray, t_min: i64, t_max: i64) {
        Self::lemma_scan_accepted(self.objects@, 0, ray, t_min, t_max, t_max, None);
    }

    fn hit(&self, ray: &Ray, t_min: i64, t_max: i64, rec: &mut HitRecord) -> (b: bool) {
        let ghost s = self.objects@;
        let ghost target = Self::scan(s, 0, *ray, t_min, t_max, None);
        let mut hit_anything = false;
        let mut closest_so_far = t_max;
        let mut i: usize = 0;
        while i < self.objects.len()
            invariant
                0 <= i <= s.len(),
                s == self.objects@,
                self.hit_ok(),
                ray.wf(),
                -T_LIMIT <= t_min,
                closest_so_far <= t_max <= T_LIMIT,
                target == Self::scan(s, 0, *ray, t_min, t_max, None),
                hit_anything ==> target == Self::scan(s, i as int, *ray, t_min, closest_so_far,
                    Some(*rec)),
                !hit_anything ==> target == Self::scan(s, i as int, *ray, t_min, closest_so_far,
                    None) && *rec == *old(rec) && closest_so_far == t_max,
            decreases s.len() - i,
        {
            let mut temp = HitRecord::default();
            let object = &self.objects[i];
            if object.hit(ray, t_min, closest_so_far, &mut temp) {
                proof {
                    object.hit_properties(*ray, t_min, closest_so_far);
                }
                if !hit_anything || temp.t < closest_so_far {
                    hit_anything = true;
                    closest_so_far = temp.t;
                    *rec = temp;
                }
            }
            i = i + 1;
        }
        hit_anything
    }
}

} // verus!
