//! Per-loop cap on tool calls, so a runaway model cannot spend its turns
//! on tool churn.

use vstd::prelude::*;

verus! {

/// Calls made and the cap; a cap of 0 means unlimited.
#[derive(Debug, Clone, PartialEq, Eq)]
pub struct ToolBudget {
    cap: usize,
    used: usize,
}

/// Calls counted after one attempt with `used` calls counted under `cap`:
/// one more, unless the (non-zero) cap is reached.
pub open spec fn used_after_attempt(cap: nat, used: nat) -> nat {
    if cap == 0 || used < cap {
        used + 1
    } else {
        used
    }
}

/// Calls counted after `k` attempts on a fresh budget.
pub open spec fn used_after(cap: nat, k: nat) -> nat
    decreases k,
{
    if k == 0 {
        0
    } else {
        used_after_attempt(cap, used_after(cap, (k - 1) as nat))
    }
}

/// After `k` attempts on a fresh budget, `min(k, cap)` calls are counted
/// (all `k` when the cap is 0): refused attempts are not counted, and the
/// count never passes a non-zero cap.
pub proof fn lemma_budget_counts(cap: nat, k: nat)
    ensures
        cap == 0 ==> used_after(cap, k) == k,
        cap > 0 ==> used_after(cap, k) == if k < cap { k } else { cap },
    decreases k,
{
    if k > 0 {
        lemma_budget_counts(cap, (k - 1) as nat);
    }
}

impl ToolBudget {
    pub closed spec fn spec_cap(&self) -> usize {
        self.cap
    }

    pub closed spec fn spec_used(&self) -> usize {
        self.used
    }

    /// A fresh budget with the given cap.
    pub fn new(cap: usize) -> (r: Self)
        ensures
            r.spec_cap() == cap,
            r.spec_used() == 0,
    {
        ToolBudget { cap, used: 0 }
    }

    /// Take one unit: `Ok` with the calls made so far, or `Err(cap)`
    /// (nothing taken) when the cap is reached.
    pub fn try_consume(&mut self) -> (r: Result<usize, usize>)
        requires
            old(self).spec_used() < usize::MAX,
        ensures
            final(self).spec_cap() == old(self).spec_cap(),
            old(self).spec_cap() == 0 || old(self).spec_used() < old(self).spec_cap() ==> r == Ok::<
                usize,
                usize,
            >((old(self).spec_used() + 1) as usize) && final(self).spec_used() == old(self).spec_used() + 1,
            old(self).spec_cap() != 0 && old(self).spec_used() >= old(self).spec_cap() ==> r == Err::<
                usize,
                usize,
            >(old(self).spec_cap()) && final(self).spec_used() == old(self).spec_used(),
            old(self).spec_cap() > 0 && old(self).spec_used() <= old(self).spec_cap() ==> final(self).spec_used() <= final(self).spec_cap(),
            final(self).spec_used() == used_after_attempt(old(self).spec_cap() as nat, old(self).spec_used() as nat),
    {
        if self.cap == 0 || self.used < self.cap {
            self.used = self.used + 1;
            Ok(self.used)
        } else {
            Err(self.cap)
        }
    }

    pub fn used(&self) -> (r: usize)
        ensures
            r == self.spec_used(),
    {
        self.used
    }

    pub fn cap(&self) -> (r: usize)
        ensures
            r == self.spec_cap(),
    {
        self.cap
    }
}

} // verus!
