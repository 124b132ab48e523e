//! A hierarchical, cooperatively checked effort budget. Each node owns a
//! monotonically increasing effort count, a current ceiling, a stack of
//! previously pushed ceilings for nested scopes, and a cancellation counter
//! that propagates to its children.

use vstd::prelude::*;

verus! {

pub const ZSAT_CANCELED_MSG: &'static str = "canceled";

pub const ZSAT_MAX_RESOURCE_MSG: &'static str = "max. resource limit exceeded";

pub struct ResourceLimit {
    /// How many times this node was canceled; zero means not canceled.
    pub cancel: u32,
    /// While set, the budget check always succeeds.
    pub suspend: bool,
    /// The effort spent so far.
    pub count: u64,
    /// The current ceiling; `u64::MAX` stands for "no limit".
    pub limit: u64,
    /// Previously pushed ceilings, restored by `pop`.
    pub limits: Vec<u64>,
    /// Budgets of workers this node may cancel as a group.
    pub children: Vec<ResourceLimit>,
}

impl ResourceLimit {
    /// A node is within budget while it is not canceled and its effort count
    /// has not passed the ceiling, or while it is suspended.
    pub open spec fn not_canceled_spec(self) -> bool {
        (self.cancel == 0 && self.count <= self.limit) || self.suspend
    }

    /// A fresh node: no effort spent, no ceiling, not canceled.
    pub fn new() -> (r: Self)
        ensures
            r.cancel == 0,
            r.suspend == false,
            r.count == 0,
            r.limit == u64::MAX,
            r.limits@ == Seq::<u64>::empty(),
            r.children@ == Seq::<ResourceLimit>::empty(),
    {
        ResourceLimit {
            cancel: 0,
            suspend: false,
            count: 0,
            limit: u64::MAX,
            limits: Vec::new(),
            children: Vec::new(),
        }
    }

    /// Enters a nested budget scope: the old ceiling is saved and the new
    /// ceiling is the spent count plus `delta_limit`, capped by the old
    /// ceiling. A delta of zero means "no limit". Cancellation is reset for
    /// this node.
    pub fn push(&mut self, delta_limit: u32)
        ensures
            ({
                let new_limit: u64 = if delta_limit == 0 {
                    u64::MAX
                } else if old(self).count + delta_limit <= u64::MAX {
                    (old(self).count + delta_limit) as u64
                } else {
                    u64::MAX
                };
                &&& final(self).limit == (if new_limit <= old(self).limit {
                    new_limit
                } else {
                    old(self).limit
                })
                &&& final(self).limits@ == old(self).limits@.push(old(self).limit)
            }),
            final(self).cancel == 0,
            final(self).count == old(self).count,
            final(self).suspend == old(self).suspend,
            final(self).children@ == old(self).children@,
    {
        let new_limit: u64 = if delta_limit == 0 {
            u64::MAX
        } else {
            self.count.saturating_add(delta_limit as u64)
        };
        self.limits.push(self.limit);
        self.limit = if new_limit <= self.limit {
            new_limit
        } else {
            self.limit
        };
        self.cancel = 0;
    }

    /// Leaves a nested budget scope: the previous ceiling is restored and
    /// the spent count is clipped to the ceiling that is being left.
    pub fn pop(&mut self)
        requires
            old(self).limits@.len() > 0,
        ensures
            final(self).count == (if old(self).count > old(self).limit {
                old(self).limit
            } else {
                old(self).count
            }),
            final(self).limit == old(self).limits@.last(),
            final(self).limits@ == old(self).limits@.drop_last(),
            final(self).cancel == 0,
            final(self).suspend == old(self).suspend,
            final(self).children@ == old(self).children@,
    {
        if self.count > self.limit {
            self.count = self.limit;
        }
        self.limit = self.pop_saved_limit();
        self.cancel = 0;
    }

    /// Removes and returns the most recently saved ceiling.
    fn pop_saved_limit(&mut self) -> (r: u64)
        requires
            old(self).limits@.len() > 0,
        ensures
            r == old(self).limits@.last(),
            final(self).limits@ == old(self).limits@.drop_last(),
            final(self).cancel == old(self).cancel,
            final(self).suspend == old(self).suspend,
            final(self).count == old(self).count,
            final(self).limit == old(self).limit,
            final(self).children@ == old(self).children@,
    {
        match self.limits.pop() {
            Some(l) => l,
            None => 0,  // unreachable: the stack is known to be non-empty
        }
    }

    /// Adopts a child budget: cancellation of this node now reaches it.
    pub fn push_child(&mut self, resource_limit: ResourceLimit)
        ensures
            final(self).children@ == old(self).children@.push(resource_limit),
            final(self).cancel == old(self).cancel,
            final(self).suspend == old(self).suspend,
            final(self).count == old(self).count,
            final(self).limit == old(self).limit,
            final(self).limits@ == old(self).limits@,
    {
        self.children.push(resource_limit);
    }

    /// Releases the most recently adopted child budget.
    pub fn pop_child(&mut self) -> (r: Option<ResourceLimit>)
        ensures
            old(self).children@.len() > 0 ==> final(self).children@ == old(
                self,
            ).children@.drop_last() && r == Some(old(self).children@.last()),
            old(self).children@.len() == 0 ==> final(self).children@ == old(self).children@ && r
                is None,
            final(self).cancel == old(self).cancel,
            final(self).suspend == old(self).suspend,
            final(self).count == old(self).count,
            final(self).limit == old(self).limit,
            final(self).limits@ == old(self).limits@,
    {
        self.children.pop()
    }

    /// Spends `n` units of effort and reports whether the node remains
    /// within budget.
    pub fn inc_by(&mut self, n: u32) -> (r: bool)
        ensures
            final(self).count == (if old(self).count + n <= u64::MAX {
                old(self).count + n
            } else {
                u64::MAX as int
            }),
            r == final(self).not_canceled_spec(),
            final(self).cancel == old(self).cancel,
            final(self).suspend == old(self).suspend,
            final(self).limit == old(self).limit,
            final(self).limits@ == old(self).limits@,
            final(self).children@ == old(self).children@,
    {
        self.count = self.count.saturating_add(n as u64);
        self.not_canceled()
    }

    /// Spends one unit of effort and reports whether the node remains
    /// within budget.
    pub fn inc(&mut self) -> (r: bool)
        ensures
            final(self).count == (if old(self).count + 1 <= u64::MAX {
                old(self).count + 1
            } else {
                u64::MAX as int
            }),
            r == final(self).not_canceled_spec(),
            final(self).cancel == old(self).cancel,
            final(self).suspend == old(self).suspend,
            final(self).limit == old(self).limit,
            final(self).limits@ == old(self).limits@,
            final(self).children@ == old(self).children@,
    {
        self.inc_by(1)
    }

    /// The effort spent so far.
    pub fn count(&self) -> (r: u64)
        ensures
            r == self.count,
    {
        self.count
    }

    /// Whether the budget check is currently suspended.
    pub fn suspended(&self) -> (r: bool)
        ensures
            r == self.suspend,
    {
        self.suspend
    }

    pub fn not_canceled(&self) -> (r: bool)
        ensures
            r == self.not_canceled_spec(),
    {
        (self.cancel == 0 && self.count <= self.limit) || self.suspend
    }

    pub fn is_canceled(&self) -> (r: bool)
        ensures
            r == !self.not_canceled_spec(),
    {
        !self.not_canceled()
    }

    /// Why the budget tripped: an explicit cancellation, or the ceiling.
    pub fn get_cancel_msg(&self) -> (r: &'static str)
        ensures
            self.cancel > 0 ==> r@ == ZSAT_CANCELED_MSG@,
            self.cancel == 0 ==> r@ == ZSAT_MAX_RESOURCE_MSG@,
    {
        if self.cancel > 0 {
            ZSAT_CANCELED_MSG
        } else {
            ZSAT_MAX_RESOURCE_MSG
        }
    }

    /// Every node of the subtree rooted here carries cancellation counter
    /// `n`.
    pub open spec fn subtree_cancel_is(self, n: u32) -> bool
        decreases self,
    {
        &&& self.cancel == n
        &&& forall|i: int|
            0 <= i < self.children@.len() ==> (#[trigger] self.children@[i]).subtree_cancel_is(n)
    }

    /// Sets the cancellation counter of this node and of every node below
    /// it, so a parent can cancel or clear a whole subtree of workers
    /// without each child taking a lock.
    fn set_cancel(&mut self, n: u32)
        ensures
            final(self).subtree_cancel_is(n),
            final(self).cancel == n,
            final(self).suspend == old(self).suspend,
            final(self).count == old(self).count,
            final(self).limit == old(self).limit,
            final(self).limits@ == old(self).limits@,
            final(self).children@.len() == old(self).children@.len(),
        decreases *old(self),
    {
        let num_children = self.children.len();
        let mut i: usize = 0;
        #[verifier::loop_isolation(false)]
        while i < num_children
            invariant
                i <= num_children,
                self.children@.len() == num_children,
                self.suspend == old(self).suspend,
                self.count == old(self).count,
                self.limit == old(self).limit,
                self.limits@ == old(self).limits@,
                self.cancel == old(self).cancel,
                forall|j: int| i <= j < num_children ==> self.children@[j] == old(self).children@[j],
                forall|j: int| 0 <= j < i ==> (#[trigger] self.children@[j]).subtree_cancel_is(n),
            decreases num_children - i,
        {
            proof {
                vstd::std_specs::vec::axiom_vec_index_decreases(old(self).children, i as int);
            }
            self.children[i].set_cancel(n);
            i = i + 1;
        }
        self.cancel = n;
    }

    /// Cancels this node and its whole subtree: every descendant's
    /// counter becomes nonzero, so the entire group of workers observes
    /// cancellation.
    pub fn cancel(&mut self)
        ensures
            final(self).cancel == (if old(self).cancel + 1 <= u32::MAX {
                old(self).cancel + 1
            } else {
                u32::MAX as int
            }),
            final(self).subtree_cancel_is(final(self).cancel),
            final(self).cancel > 0,
            !final(self).not_canceled_spec() || final(self).suspend,
            final(self).suspend == old(self).suspend,
            final(self).count == old(self).count,
            final(self).limit == old(self).limit,
            final(self).limits@ == old(self).limits@,
    {
        let c = self.cancel.saturating_add(1);
        self.set_cancel(c)
    }

    /// Clears cancellation for this node and its whole subtree: every
    /// descendant's counter returns to zero.
    pub fn reset_cancel(&mut self)
        ensures
            final(self).cancel == 0,
            final(self).subtree_cancel_is(0),
            final(self).suspend == old(self).suspend,
            final(self).count == old(self).count,
            final(self).limit == old(self).limit,
            final(self).limits@ == old(self).limits@,
    {
        self.set_cancel(0)
    }

    /// Another name for `cancel`, kept for the callers that count
    /// cancellations.
    pub fn inc_cancel(&mut self)
        ensures
            final(self).cancel == (if old(self).cancel + 1 <= u32::MAX {
                old(self).cancel + 1
            } else {
                u32::MAX as int
            }),
            final(self).subtree_cancel_is(final(self).cancel),
            final(self).suspend == old(self).suspend,
            final(self).count == old(self).count,
            final(self).limit == old(self).limit,
            final(self).limits@ == old(self).limits@,
    {
        self.cancel();
    }

    /// Takes back one cancellation, for this node and its subtree.
    pub fn dec_cancel(&mut self)
        ensures
            final(self).cancel == (if old(self).cancel > 0 {
                old(self).cancel - 1
            } else {
                0int
            }),
            old(self).cancel > 0 ==> final(self).subtree_cancel_is(final(self).cancel),
            final(self).suspend == old(self).suspend,
            final(self).count == old(self).count,
            final(self).limit == old(self).limit,
            final(self).limits@ == old(self).limits@,
    {
        if self.cancel > 0 {
            let c = self.cancel - 1;
            self.set_cancel(c);
        }
    }
}

/// Holds a resource limit for the duration of a scope: a ceiling is pushed
/// when the scope is entered and popped when `release` hands the limit back.
pub struct ScopedResourceLimit {
    pub resource_limit: ResourceLimit,
}

impl ScopedResourceLimit {
    /// Takes the limit and pushes a scoped ceiling of `limit` effort units.
    pub fn new(resource_limit: ResourceLimit, limit: u32) -> (r: ScopedResourceLimit)
        ensures
            r.resource_limit.limits@ == resource_limit.limits@.push(resource_limit.limit),
            r.resource_limit.count == resource_limit.count,
    {
        let mut inner = resource_limit;
        inner.push(limit);
        ScopedResourceLimit { resource_limit: inner }
    }

    /// Ends the scope: pops the ceiling and hands the limit back.
    pub fn release(self) -> (r: ResourceLimit)
        requires
            self.resource_limit.limits@.len() > 0,
        ensures
            r.limit == self.resource_limit.limits@.last(),
            r.limits@ == self.resource_limit.limits@.drop_last(),
    {
        let mut inner = self.resource_limit;
        inner.pop();
        inner
    }
}

/// Holds a resource limit for the duration of a scope with its budget check
/// suspended, so a critical section can run without tripping the ceiling.
pub struct ScopedSuspendedResourceLimit {
    pub resource_limit: ResourceLimit,
    pub original_suspend_state: bool,
}

impl ScopedSuspendedResourceLimit {
    /// Takes the limit and suspends it, remembering its previous state.
    pub fn new(resource_limit: ResourceLimit) -> (r: ScopedSuspendedResourceLimit)
        ensures
            r.resource_limit.suspend == true,
            r.original_suspend_state == resource_limit.suspend,
            r.resource_limit.count == resource_limit.count,
            r.resource_limit.limit == resource_limit.limit,
            r.resource_limit.cancel == resource_limit.cancel,
    {
        let original = resource_limit.suspend;
        let mut inner = resource_limit;
        inner.suspend = true;
        ScopedSuspendedResourceLimit { resource_limit: inner, original_suspend_state: original }
    }

    /// Takes the limit and suspends it if it already was or `suspend` asks
    /// for it.
    pub fn new_with_state(resource_limit: ResourceLimit, suspend: bool) -> (r:
        ScopedSuspendedResourceLimit)
        ensures
            r.resource_limit.suspend == (resource_limit.suspend || suspend),
            r.original_suspend_state == resource_limit.suspend,
            r.resource_limit.count == resource_limit.count,
            r.resource_limit.limit == resource_limit.limit,
            r.resource_limit.cancel == resource_limit.cancel,
    {
        let original = resource_limit.suspend;
        let mut inner = resource_limit;
        inner.suspend = original || suspend;
        ScopedSuspendedResourceLimit { resource_limit: inner, original_suspend_state: original }
    }

    /// Ends the scope: restores the previous suspend state and hands the
    /// limit back.
    pub fn release(self) -> (r: ResourceLimit)
        ensures
            r.suspend == self.original_suspend_state,
            r.count == self.resource_limit.count,
            r.limit == self.resource_limit.limit,
            r.cancel == self.resource_limit.cancel,
    {
        let mut inner = self.resource_limit;
        inner.suspend = self.original_suspend_state;
        inner
    }
}

/// Like `ScopedResourceLimit`, but tracks how many ceilings were pushed in
/// the scope and pops the same number when released.
pub struct ScopedResourceLimits {
    pub resource_limit: ResourceLimit,
    pub push_count: u32,
}

impl ScopedResourceLimits {
    /// Takes the limit and pushes a first scoped ceiling.
    pub fn new(resource_limit: ResourceLimit, limit: u32) -> (r: ScopedResourceLimits)
        ensures
            r.resource_limit.limits@ == resource_limit.limits@.push(resource_limit.limit),
            r.push_count == 1,
    {
        let mut inner = resource_limit;
        inner.push(limit);
        ScopedResourceLimits { resource_limit: inner, push_count: 1 }
    }

    /// Pushes one more scoped ceiling.
    pub fn push(&mut self, delta_limit: u32)
        requires
            old(self).push_count < u32::MAX,
        ensures
            final(self).resource_limit.limits@ == old(self).resource_limit.limits@.push(
                old(self).resource_limit.limit,
            ),
            final(self).push_count == old(self).push_count + 1,
    {
        self.resource_limit.push(delta_limit);
        self.push_count = self.push_count + 1;
    }

    /// Ends the scope: pops every ceiling pushed in it and hands the limit
    /// back.
    pub fn release(self) -> (r: ResourceLimit)
        requires
            self.push_count <= self.resource_limit.limits@.len(),
        ensures
            r.limits@.len() == self.resource_limit.limits@.len() - self.push_count,
    {
        let mut inner = self.resource_limit;
        let mut i: u32 = 0;
        while i < self.push_count
            invariant
                i <= self.push_count,
                self.push_count <= self.resource_limit.limits@.len(),
                inner.limits@.len() == self.resource_limit.limits@.len() - i,
            decreases self.push_count - i,
        {
            inner.pop();
            i = i + 1;
        }
        inner
    }
}

} // verus!
