//! Resource limits: how much a program may allocate and how deep it may recurse.

use vstd::prelude::*;

verus! {

/// How deep nested data may be followed when it is compared or printed.
pub const MAX_DATA_DEPTH: usize = 200;

/// A limit the program ran into.
#[derive(Debug, Clone, Copy, PartialEq, Eq, Structural)]
pub enum ResourceError {
    /// The program allocated as many objects as it may.
    Allocation { limit: usize },
    /// Calls or data are nested too deeply.
    Recursion { limit: usize },
}

/// Decides which allocations a program may make and how deep its calls may nest.
///
/// The spec functions describe the decision of the next request; an implementation
/// proves that its executable methods follow them.
pub trait ResourceTracker: Sized {
    /// Whether the next allocation is allowed.
    spec fn admits(&self) -> bool;

    /// The error a refused allocation is answered with.
    spec fn refusal(&self) -> ResourceError;

    /// The tracker after one more allocation.
    spec fn charged(&self) -> Self;

    /// The number of nested namespaces a program may have, if it is bounded.
    spec fn depth_limit(&self) -> Option<usize>;

    /// Called before every allocation.
    fn on_allocate(&mut self) -> (r: Result<(), ResourceError>)
        ensures
            old(self).admits() ==> r is Ok && *final(self) == old(self).charged(),
            !old(self).admits() ==> r == Err::<(), ResourceError>(old(self).refusal())
                && *final(self) == *old(self),
    ;

    /// The bound on nested namespaces.
    fn max_recursion_depth(&self) -> (r: Option<usize>)
        ensures
            r == self.depth_limit(),
    ;
}

/// Allows everything.
#[derive(Debug, Clone, Copy)]
pub struct NoLimitTracker;

impl ResourceTracker for NoLimitTracker {
    open spec fn admits(&self) -> bool {
        true
    }

    open spec fn refusal(&self) -> ResourceError {
        ResourceError::Allocation { limit: 0 }
    }

    open spec fn charged(&self) -> Self {
        *self
    }

    open spec fn depth_limit(&self) -> Option<usize> {
        None
    }

    fn on_allocate(&mut self) -> (r: Result<(), ResourceError>) {
        Ok(())
    }

    fn max_recursion_depth(&self) -> (r: Option<usize>) {
        None
    }
}

/// Allows a fixed number of allocations and a fixed nesting depth.
#[derive(Debug, Clone, Copy)]
pub struct LimitedTracker {
    pub max_allocations: usize,
    pub allocations: usize,
    pub max_depth: usize,
}

impl LimitedTracker {
    pub fn new(max_allocations: usize, max_depth: usize) -> (r: Self)
        ensures
            r == (LimitedTracker { max_allocations, allocations: 0, max_depth }),
    {
        LimitedTracker { max_allocations, allocations: 0, max_depth }
    }
}

impl ResourceTracker for LimitedTracker {
    open spec fn admits(&self) -> bool {
        self.allocations < self.max_allocations
    }

    open spec fn refusal(&self) -> ResourceError {
        ResourceError::Allocation { limit: self.max_allocations }
    }

    open spec fn charged(&self) -> Self {
        LimitedTracker { allocations: (self.allocations + 1) as usize, ..*self }
    }

    open spec fn depth_limit(&self) -> Option<usize> {
        Some(self.max_depth)
    }

    fn on_allocate(&mut self) -> (r: Result<(), ResourceError>) {
        if self.allocations < self.max_allocations {
            self.allocations = self.allocations + 1;
            Ok(())
        } else {
            Err(ResourceError::Allocation { limit: self.max_allocations })
        }
    }

    fn max_recursion_depth(&self) -> (r: Option<usize>) {
        Some(self.max_depth)
    }
}

/// Counts how deep a traversal of nested data has gone.
#[derive(Debug, Clone, Copy, PartialEq, Eq, Structural)]
pub struct DepthGuard {
    pub depth: usize,
}

impl DepthGuard {
    /// The number of levels that may still be entered.
    pub open spec fn room(self) -> nat {
        if self.depth < MAX_DATA_DEPTH {
            (MAX_DATA_DEPTH - self.depth) as nat
        } else {
            0
        }
    }

    /// Enters one level; false, with nothing changed, if there is no room.
    pub fn increase(&mut self) -> (r: bool)
        ensures
            r == (old(self).room() > 0),
            final(self).depth == old(self).depth + (if r { 1int } else { 0 }),
    {
        if self.depth < MAX_DATA_DEPTH {
            self.depth = self.depth + 1;
            true
        } else {
            false
        }
    }

    /// Enters one level, or reports that there is no room.
    pub fn increase_err(&mut self) -> (r: Result<(), ResourceError>)
        ensures
            old(self).room() > 0 ==> r is Ok && final(self).depth == old(self).depth + 1,
            old(self).room() == 0 ==> r == Err::<(), ResourceError>(
                ResourceError::Recursion { limit: MAX_DATA_DEPTH },
            ) && *final(self) == *old(self),
    {
        if self.increase() {
            Ok(())
        } else {
            Err(ResourceError::Recursion { limit: MAX_DATA_DEPTH })
        }
    }

    /// Leaves one level.
    pub fn decrease(&mut self)
        ensures
            final(self).depth == (if old(self).depth > 0 { old(self).depth - 1 } else { 0 }),
    {
        if self.depth > 0 {
            self.depth = self.depth - 1;
        }
    }
}

impl Default for DepthGuard {
    fn default() -> (r: Self)
        ensures
            r.depth == 0,
    {
        DepthGuard { depth: 0 }
    }
}

} // verus!
