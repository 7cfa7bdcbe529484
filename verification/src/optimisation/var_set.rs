//! Finite sets of variables, kept as a vector without repeats.

use vstd::prelude::*;
use crate::ir::RcVar;

verus! {

/// A finite set of variables.
pub struct VarSet {
    vars: Vec<RcVar>,
}

impl View for VarSet {
    type V = Set<RcVar>;

    closed spec fn view(&self) -> Set<RcVar> {
        self.vars@.to_set()
    }
}

impl VarSet {
    /// The set's invariant: no variable is kept twice.
    pub closed spec fn wf(&self) -> bool {
        self.vars@.no_duplicates()
    }

    /// The elements, in the order in which they were added.
    pub closed spec fn elements(&self) -> Seq<RcVar> {
        self.vars@
    }

    /// The elements are exactly the members of the set, each once.
    pub proof fn lemma_elements(&self)
        requires
            self.wf(),
        ensures
            self.elements().no_duplicates(),
            forall|v: RcVar| self@.contains(v) <==> self.elements().contains(v),
            self@.finite(),
    {
    }

    /// The empty set.
    pub fn new() -> (r: Self)
        ensures
            r.wf(),
            r@ == Set::<RcVar>::empty(),
    {
        let r = VarSet { vars: Vec::new() };
        assert(r@ =~= Set::<RcVar>::empty());
        r
    }

    /// The number of elements.
    pub fn len(&self) -> (r: usize)
        requires
            self.wf(),
        ensures
            r == self.elements().len(),
    {
        self.vars.len()
    }

    /// The `i`th element, in the order in which they were added.
    pub fn get(&self, i: usize) -> (r: RcVar)
        requires
            self.wf(),
            i < self.elements().len(),
        ensures
            r == self.elements()[i as int],
            self@.contains(r),
    {
        self.vars[i]
    }

    /// Is `var` in the set?
    pub fn contains(&self, var: &RcVar) -> (r: bool)
        requires
            self.wf(),
        ensures
            r == self@.contains(*var),
    {
        let mut i: usize = 0;
        while i < self.vars.len()
            invariant
                i <= self.vars@.len(),
                forall|j: int| 0 <= j < i ==> self.vars@[j] != *var,
            decreases self.vars@.len() - i,
        {
            if self.vars[i] == *var {
                assert(self.vars@.contains(*var));
                return true;
            }
            i = i + 1;
        }
        false
    }

    /// Adds `var`; says whether it was new.
    pub fn insert(&mut self, var: RcVar) -> (r: bool)
        requires
            old(self).wf(),
        ensures
            final(self).wf(),
            final(self)@ == old(self)@.insert(var),
            r == !old(self)@.contains(var),
    {
        if self.contains(&var) {
            assert(self@ =~= self@.insert(var));
            false
        } else {
            let ghost before = self.vars@;
            self.vars.push(var);
            assert(self.vars@ == before.push(var));
            assert(self@ =~= old(self)@.insert(var)) by {
                assert forall|v: RcVar| self.vars@.contains(v) <==> (before.contains(v) || v
                    == var) by {
                    if self.vars@.contains(v) {
                        let k = choose|k: int| 0 <= k < self.vars@.len() && self.vars@[k] == v;
                        if k < before.len() {
                            assert(before[k] == v);
                        }
                    }
                    if before.contains(v) {
                        let k = choose|k: int| 0 <= k < before.len() && before[k] == v;
                        assert(self.vars@[k] == v);
                    }
                    if v == var {
                        assert(self.vars@[before.len() as int] == v);
                    }
                }
            }
            true
        }
    }

    /// Removes `var`.
    pub fn remove(&mut self, var: &RcVar)
        requires
            old(self).wf(),
        ensures
            final(self).wf(),
            final(self)@ == old(self)@.remove(*var),
    {
        let mut kept = VarSet::new();
        let mut i: usize = 0;
        while i < self.vars.len()
            invariant
                i <= self.vars@.len(),
                kept.wf(),
                kept@ == self.vars@.subrange(0, i as int).to_set().remove(*var),
            decreases self.vars@.len() - i,
        {
            let v = self.vars[i];
            if v != *var {
                kept.insert(v);
            }
            assert(self.vars@.subrange(0, i + 1) =~= self.vars@.subrange(0, i as int).push(v));
            proof {
                self.vars@.subrange(0, i as int).lemma_push_to_set_commute(v);
            }
            assert(kept@ =~= self.vars@.subrange(0, i + 1).to_set().remove(*var));
            i = i + 1;
        }
        assert(self.vars@.subrange(0, self.vars@.len() as int) =~= self.vars@);
        *self = kept;
    }

    /// A copy of the set.
    pub fn clone(&self) -> (r: Self)
        requires
            self.wf(),
        ensures
            r.wf(),
            r@ == self@,
            r.elements() == self.elements(),
    {
        VarSet { vars: self.vars.clone() }
    }

    /// The union of two sets.
    pub fn union(&self, other: &Self) -> (r: Self)
        requires
            self.wf(),
            other.wf(),
        ensures
            r.wf(),
            r@ == self@.union(other@),
    {
        let mut r = self.clone();
        let mut i: usize = 0;
        while i < other.vars.len()
            invariant
                i <= other.vars@.len(),
                r.wf(),
                r@ == self@.union(other.vars@.subrange(0, i as int).to_set()),
            decreases other.vars@.len() - i,
        {
            r.insert(other.vars[i]);
            assert(other.vars@.subrange(0, i + 1) =~= other.vars@.subrange(0, i as int).push(
                other.vars@[i as int],
            ));
            proof {
                other.vars@.subrange(0, i as int).lemma_push_to_set_commute(other.vars@[i as int]);
            }
            assert(r@ =~= self@.union(other.vars@.subrange(0, i + 1).to_set()));
            i = i + 1;
        }
        assert(other.vars@.subrange(0, other.vars@.len() as int) =~= other.vars@);
        r
    }

    /// The members of this set that are not in `other`.
    pub fn difference(&self, other: &Self) -> (r: Self)
        requires
            self.wf(),
            other.wf(),
        ensures
            r.wf(),
            r@ == self@.difference(other@),
    {
        let mut r = VarSet::new();
        let mut i: usize = 0;
        while i < self.vars.len()
            invariant
                i <= self.vars@.len(),
                self.wf(),
                other.wf(),
                r.wf(),
                r@ == self.vars@.subrange(0, i as int).to_set().difference(other@),
            decreases self.vars@.len() - i,
        {
            let v = self.vars[i];
            if !other.contains(&v) {
                r.insert(v);
            }
            assert(self.vars@.subrange(0, i + 1) =~= self.vars@.subrange(0, i as int).push(v));
            proof {
                self.vars@.subrange(0, i as int).lemma_push_to_set_commute(v);
            }
            assert(r@ =~= self.vars@.subrange(0, i + 1).to_set().difference(other@));
            i = i + 1;
        }
        assert(self.vars@.subrange(0, self.vars@.len() as int) =~= self.vars@);
        r
    }
}

} // verus!
