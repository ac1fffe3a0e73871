//! A model of a target's register-class hierarchy.
//!
//! A target has a fixed table of register classes. Each class is identified by
//! a small stable index and lists the indices of all its subclasses (itself
//! included). The table is immutable once built; the affinity engine only
//! consults it through the subclass test and the intersection query.

use vstd::prelude::*;

verus! {

/// Identifies one register class in a target's fixed hierarchy.
pub type RegClassIndex = u8;

/// One register class: its human-readable name and the indices of all the
/// classes contained in it, itself included.
pub struct RegClassData {
    /// The class name, as shown in diagnostics.
    pub name: String,
    /// Indices of every subclass of this class, the class itself included.
    pub subclasses: Vec<RegClassIndex>,
}

/// A target's register-class table, addressed by `RegClassIndex`.
pub struct RegInfo {
    /// The classes, in index order.
    pub classes: Vec<RegClassData>,
}

/// Does the table have a class with index `c`?
pub open spec fn valid_class(info: RegInfo, c: RegClassIndex) -> bool {
    (c as int) < info.classes@.len()
}

/// The listed subclasses of the class at index `c`.
pub open spec fn subs(info: RegInfo, c: RegClassIndex) -> Seq<RegClassIndex> {
    info.classes@[c as int].subclasses@
}

/// Is class `a` a subclass of class `b` (classes count as their own
/// subclasses)?
pub open spec fn is_subclass(info: RegInfo, a: RegClassIndex, b: RegClassIndex) -> bool {
    subs(info, b).contains(a)
}

/// Is class `x` a common subclass of `a` and `b`?
pub open spec fn is_common(info: RegInfo, x: RegClassIndex, a: RegClassIndex, b: RegClassIndex) -> bool {
    is_subclass(info, x, a) && is_subclass(info, x, b)
}

/// Do classes `a` and `b` overlap, that is, share at least one subclass?
pub open spec fn has_common(info: RegInfo, a: RegClassIndex, b: RegClassIndex) -> bool {
    exists|x: RegClassIndex| is_common(info, x, a, b)
}

/// The largest common subclass of `a` and `b`: classes are numbered so that a
/// proper subclass always has a higher index than its superclass, so the
/// largest common subclass is the common subclass with the least index.
/// Meaningful only when `has_common(info, a, b)` holds.
pub open spec fn glb(info: RegInfo, a: RegClassIndex, b: RegClassIndex) -> RegClassIndex {
    choose|x: RegClassIndex|
        is_common(info, x, a, b) && forall|y: RegClassIndex| is_common(info, y, a, b) ==> x <= y
}

/// Well-formedness of a register-class table:
/// - every class is addressable by a `RegClassIndex`;
/// - every listed subclass index is in range;
/// - every class is a subclass of itself;
/// - the subclass relation is transitive;
/// - a proper subclass always has a higher index than its superclass
///   (so the relation is antisymmetric and the largest common subclass of two
///   classes is the common one with the least index).
pub open spec fn wf(info: RegInfo) -> bool {
    &&& info.classes@.len() <= 256
    &&& forall|b: RegClassIndex, a: RegClassIndex|
        valid_class(info, b) && #[trigger] is_subclass(info, a, b) ==> valid_class(info, a)
    &&& forall|c: RegClassIndex| valid_class(info, c) ==> #[trigger] is_subclass(info, c, c)
    &&& forall|a: RegClassIndex, b: RegClassIndex, x: RegClassIndex|
        valid_class(info, b) && is_subclass(info, a, b) && #[trigger] is_subclass(info, x, a)
            && valid_class(info, a) ==> #[trigger] is_subclass(info, x, b)
    &&& forall|a: RegClassIndex, b: RegClassIndex|
        valid_class(info, b) && #[trigger] is_subclass(info, a, b) && a != b ==> a > b
}

impl RegInfo {
    /// The number of register classes in the table.
    pub fn rc_count(&self) -> (n: usize)
        ensures
            n == self.classes@.len(),
    {
        self.classes.len()
    }

    /// Is class `a` a subclass of class `b` (classes count as their own
    /// subclasses)?
    pub fn has_subclass(&self, b: RegClassIndex, a: RegClassIndex) -> (r: bool)
        requires
            valid_class(*self, b),
        ensures
            r == is_subclass(*self, a, b),
    {
        let list = &self.classes[b as usize].subclasses;
        let mut i: usize = 0;
        while i < list.len()
            invariant
                i <= list@.len(),
                list@ == subs(*self, b),
                forall|k: int| 0 <= k < i ==> list@[k] != a,
            decreases list@.len() - i,
        {
            if list[i] == a {
                return true;
            }
            i = i + 1;
        }
        false
    }

    /// Intersect the classes at `a` and `b`: the index of the largest class
    /// contained in both, or `None` if the two classes are disjoint.
    pub fn intersect(&self, a: RegClassIndex, b: RegClassIndex) -> (r: Option<RegClassIndex>)
        requires
            wf(*self),
            valid_class(*self, a),
            valid_class(*self, b),
        ensures
            r == (if has_common(*self, a, b) {
                Option::Some(glb(*self, a, b))
            } else {
                Option::<RegClassIndex>::None
            }),
            r matches Some(t) ==> is_common(*self, t, a, b),
    {
        let n = self.classes.len();
        let mut i: usize = 0;
        while i < n
            invariant
                wf(*self),
                valid_class(*self, a),
                valid_class(*self, b),
                n == self.classes@.len(),
                i <= n,
                forall|x: RegClassIndex| (x as int) < i ==> !is_common(*self, x, a, b),
            decreases n - i,
        {
            let x = i as RegClassIndex;
            if self.has_subclass(a, x) && self.has_subclass(b, x) {
                proof {
                    assert(is_common(*self, x, a, b));
                    assert(has_common(*self, a, b));
                    lemma_glb_is_least(*self, a, b);
                    let g = glb(*self, a, b);
                    // `x` is common and nothing below `i` is, so `x` is the
                    // least common subclass; the least one is unique.
                    assert(g <= x && x <= g);
                }
                return Some(x);
            }
            i = i + 1;
        }
        proof {
            // Every common subclass is a valid index, and no valid index is
            // common, so the classes are disjoint.
            assert forall|x: RegClassIndex| !is_common(*self, x, a, b) by {
                if is_common(*self, x, a, b) {
                    assert(valid_class(*self, x));
                }
            }
        }
        None
    }
}

impl RegInfo {
    /// Check one class of the table against the well-formedness conditions
    /// that mention it as the containing class.
    #[verifier::loop_isolation(false)]
    fn check_class(&self, b: RegClassIndex) -> (r: bool)
        requires
            valid_class(*self, b),
        ensures
            r == (is_subclass(*self, b, b) && (forall|a: RegClassIndex|
                #[trigger] is_subclass(*self, a, b) ==> valid_class(*self, a)) && (forall|
                a: RegClassIndex,
            |
                #[trigger] is_subclass(*self, a, b) && a != b ==> a > b) && (forall|
                a: RegClassIndex,
                x: RegClassIndex,
            |
                is_subclass(*self, a, b) && #[trigger] is_subclass(*self, x, a) && valid_class(
                    *self,
                    a,
                ) ==> is_subclass(*self, x, b))),
    {
        if !self.has_subclass(b, b) {
            return false;
        }
        let n = self.classes.len();
        let m = self.classes[b as usize].subclasses.len();
        let mut k: usize = 0;
        while k < m
            invariant
                k <= m,
                m == subs(*self, b).len(),
                forall|j: int| 0 <= j < k ==> valid_class(*self, #[trigger] subs(*self, b)[j]),
                forall|j: int|
                    0 <= j < k ==> (#[trigger] subs(*self, b)[j] == b || subs(*self, b)[j] > b),
                forall|j: int, x: RegClassIndex|
                    0 <= j < k && valid_class(*self, subs(*self, b)[j]) && #[trigger] is_subclass(
                        *self,
                        x,
                        subs(*self, b)[j],
                    ) ==> is_subclass(*self, x, b),
            decreases m - k,
        {
            let a = self.classes[b as usize].subclasses[k];
            proof {
                assert(subs(*self, b)[k as int] == a);
                assert(subs(*self, b).contains(a));
                assert(is_subclass(*self, a, b));
            }
            if (a as usize) >= n {
                return false;
            }
            if a != b && a < b {
                return false;
            }
            // Everything contained in this subclass must be contained in
            // the class itself.
            let mm = self.classes[a as usize].subclasses.len();
            let mut t: usize = 0;
            while t < mm
                invariant
                    t <= mm,
                    mm == subs(*self, a).len(),
                    (a as int) < self.classes@.len(),
                    forall|j: int|
                        0 <= j < t ==> is_subclass(*self, #[trigger] subs(*self, a)[j], b),
                decreases mm - t,
            {
                let x = self.classes[a as usize].subclasses[t];
                if !self.has_subclass(b, x) {
                    proof {
                        assert(subs(*self, a)[t as int] == x);
                        assert(subs(*self, a).contains(x));
                        assert(is_subclass(*self, x, a));
                        assert(!is_subclass(*self, x, b));
                    }
                    return false;
                }
                t = t + 1;
            }
            proof {
                assert forall|x: RegClassIndex| #[trigger] is_subclass(*self, x, a) implies
                    is_subclass(*self, x, b) by {
                    let j = choose|j: int|
                        0 <= j < subs(*self, a).len() && subs(*self, a)[j] == x;
                    assert(is_subclass(*self, subs(*self, a)[j], b));
                }
            }
            k = k + 1;
        }
        proof {
            assert forall|a: RegClassIndex| #[trigger] is_subclass(*self, a, b) implies
                valid_class(*self, a) && (a == b || a > b) by {
                let j = choose|j: int| 0 <= j < subs(*self, b).len() && subs(*self, b)[j] == a;
                assert(valid_class(*self, subs(*self, b)[j]));
                assert(subs(*self, b)[j] == b || subs(*self, b)[j] > b);
            }
        }
        true
    }

    /// Check the whole table against `wf`.
    #[verifier::loop_isolation(false)]
    pub fn is_valid(&self) -> (r: bool)
        ensures
            r == wf(*self),
    {
        let n = self.classes.len();
        if n > 256 {
            return false;
        }
        let mut b: usize = 0;
        while b < n
            invariant
                b <= n,
                n == self.classes@.len(),
                n <= 256,
                forall|c: RegClassIndex| (c as int) < b ==> #[trigger] is_subclass(*self, c, c),
                forall|bb: RegClassIndex, a: RegClassIndex|
                    (bb as int) < b && #[trigger] is_subclass(*self, a, bb) ==> valid_class(
                        *self,
                        a,
                    ),
                forall|bb: RegClassIndex, a: RegClassIndex|
                    (bb as int) < b && #[trigger] is_subclass(*self, a, bb) && a != bb ==> a > bb,
                forall|bb: RegClassIndex, a: RegClassIndex, x: RegClassIndex|
                    (bb as int) < b && is_subclass(*self, a, bb) && #[trigger] is_subclass(
                        *self,
                        x,
                        a,
                    ) && valid_class(*self, a) ==> #[trigger] is_subclass(*self, x, bb),
            decreases n - b,
        {
            if !self.check_class(b as u8) {
                return false;
            }
            b = b + 1;
        }
        true
    }
}

/// The least common subclass of two overlapping classes exists, and `glb`
/// names it: it is itself a common subclass, and no common subclass has a
/// smaller index.
pub proof fn lemma_glb_is_least(info: RegInfo, a: RegClassIndex, b: RegClassIndex)
    requires
        has_common(info, a, b),
    ensures
        is_common(info, glb(info, a, b), a, b),
        forall|y: RegClassIndex| is_common(info, y, a, b) ==> glb(info, a, b) <= y,
{
    let w = choose|x: RegClassIndex| is_common(info, x, a, b);
    lemma_least_common_from(info, a, b, w);
}

/// Helper for `lemma_glb_is_least`: starting from any common subclass, walk
/// down to the least one.
proof fn lemma_least_common_from(info: RegInfo, a: RegClassIndex, b: RegClassIndex, x: RegClassIndex)
    requires
        is_common(info, x, a, b),
    ensures
        is_common(info, glb(info, a, b), a, b),
        forall|y: RegClassIndex| is_common(info, y, a, b) ==> glb(info, a, b) <= y,
    decreases x,
{
    if exists|y: RegClassIndex| is_common(info, y, a, b) && y < x {
        let y = choose|y: RegClassIndex| is_common(info, y, a, b) && y < x;
        lemma_least_common_from(info, a, b, y);
    } else {
        assert(is_common(info, x, a, b)
            && forall|y: RegClassIndex| is_common(info, y, a, b) ==> x <= y);
    }
}

} // verus!
