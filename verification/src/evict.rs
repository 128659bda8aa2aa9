//! Reclaiming cells: eviction of the oldest occupant, the timeout sweep,
//! and the housekeeping after a window's destruction.
use crate::grid::GridState;
use crate::model::{GridCell, GridModel};
use crate::occupancy::{index_get, index_remove};
use vstd::prelude::*;

verus! {

/// A cell that was cleared, and the window that held it. The caller asks
/// the platform to close that window.
#[derive(Clone, Copy, Debug, PartialEq, Eq)]
pub struct Eviction {
    pub cell: usize,
    pub hwnd: isize,
}

impl GridModel {
    /// The cell that eviction takes, if any cell can be evicted.
    pub open spec fn oldest_evictable(self) -> Option<int> {
        if exists|i: int| self.is_oldest_evictable(i) {
            Some(choose|i: int| self.is_oldest_evictable(i))
        } else {
            None
        }
    }

    /// The state after the eviction of the oldest occupant, if there is
    /// one to evict.
    pub open spec fn after_oldest_eviction(self) -> GridModel {
        match self.oldest_evictable() {
            Some(e) => self.evict(e),
            None => self,
        }
    }

    /// The lowest expired cell from `k` on.
    pub open spec fn first_expired(self, now: u64, k: int) -> Option<int>
        decreases self.cells.len() - k,
    {
        if k < 0 || k >= self.cells.len() {
            None
        } else if self.expired(k, now) {
            Some(k)
        } else {
            self.first_expired(now, k + 1)
        }
    }

    /// The state after a timeout sweep at `now`: once the grid has been
    /// full, the lowest expired cell is evicted.
    pub open spec fn after_sweep(self, now: u64) -> GridModel {
        if !self.ever_full {
            self
        } else {
            match self.first_expired(now, 0) {
                Some(e) => self.evict(e),
                None => self,
            }
        }
    }

    /// `first_expired` finds the lowest expired cell from `k` on, and finds
    /// none only where there is none.
    pub proof fn first_expired_is_lowest(self, now: u64, k: int)
        requires
            0 <= k,
        ensures
            match self.first_expired(now, k) {
                Some(e) => k <= e < self.cells.len() && self.expired(e, now) && forall|j: int|
                    k <= j < e ==> !self.expired(j, now),
                None => forall|j: int| k <= j ==> !self.expired(j, now),
            },
        decreases self.cells.len() - k,
    {
        if k < self.cells.len() && !self.expired(k, now) {
            self.first_expired_is_lowest(now, k + 1);
        }
    }

    /// At most one cell is the oldest evictable one.
    pub proof fn oldest_evictable_unique(self, i: int, j: int)
        requires
            self.is_oldest_evictable(i),
            self.is_oldest_evictable(j),
        ensures
            i == j,
    {
        assert(self.older(i, j));
        assert(self.older(j, i));
    }

    /// Eviction keeps a grid well formed, and keeps table and index in
    /// agreement where they agreed.
    pub proof fn evict_keeps_invariants(self, i: int)
        requires
            self.wf(),
            0 <= i < self.cells.len(),
        ensures
            self.evict(i).wf(),
            self.in_sync() ==> self.evict(i).in_sync(),
    {
        let after = self.evict(i);
        assert forall|j: int| 0 <= j < after.cells.len() implies (
        #[trigger] after.cells[j]).consistent() by {
            if j != i {
                assert(self.cells[j].consistent());
            }
        }
        if self.in_sync() {
            assert forall|h: isize| #[trigger] after.index.contains_key(h) implies after.index[h]
                < after.cells.len() && after.cells[after.index[h] as int].hwnd == Some(h) by {
                assert(self.index.contains_key(h));
            }
            assert forall|j: int|
                0 <= j < after.cells.len() && (#[trigger] after.cells[j]).hwnd
                    is Some implies after.tracked_at(after.cells[j].hwnd->0, j) by {
                assert(self.cells[j].hwnd is Some);
            }
        }
    }

    /// Forgetting a window keeps a grid well formed, and keeps table and
    /// index in agreement where they agreed.
    pub proof fn forget_keeps_invariants(self, h: isize)
        requires
            self.wf(),
        ensures
            self.forget(h).wf(),
            self.in_sync() ==> self.forget(h).in_sync(),
            !self.forget(h).index.contains_key(h),
    {
        let after = self.forget(h);
        assert forall|j: int| 0 <= j < after.cells.len() implies (
        #[trigger] after.cells[j]).consistent() by {
            assert(self.cells[j].consistent());
        }
        if self.in_sync() {
            assert forall|o: isize| #[trigger] after.index.contains_key(o) implies after.index[o]
                < after.cells.len() && after.cells[after.index[o] as int].hwnd == Some(o) by {
                assert(self.index.contains_key(o));
            }
            assert forall|j: int|
                0 <= j < after.cells.len() && (#[trigger] after.cells[j]).hwnd
                    is Some implies after.tracked_at(after.cells[j].hwnd->0, j) by {
                assert(self.cells[j].hwnd is Some);
            }
        }
    }
}

impl GridState {
    /// Clears cell `idx` and drops its occupant from the index.
    fn clear_cell(&mut self, idx: usize)
        requires
            old(self)@.wf(),
            idx < old(self)@.cells.len(),
        ensures
            final(self)@ == old(self)@.evict(idx as int),
            final(self)@.wf(),
            old(self)@.in_sync() ==> final(self)@.in_sync(),
    {
        proof {
            old(self)@.evict_keeps_invariants(idx as int);
        }
        if let Some(hwnd) = self.cells[idx].hwnd {
            let _ = index_remove(&mut self.hwnd_to_cell, hwnd);
        }
        self.cells.set(idx, GridCell { hwnd: None, filled_at: None });
    }

    /// Evicts the occupant that was placed first, the lowest cell among
    /// equals. The reserved cell and the launcher's window are never taken.
    /// `None` where nothing can be evicted, which leaves the grid as it
    /// was.
    pub fn evict_oldest_cell(&mut self) -> (evicted: Option<Eviction>)
        requires
            old(self)@.wf(),
        ensures
            match evicted {
                Some(e) => {
                    &&& old(self)@.is_oldest_evictable(e.cell as int)
                    &&& old(self)@.cells[e.cell as int].hwnd == Some(e.hwnd)
                    &&& final(self)@ == old(self)@.evict(e.cell as int)
                },
                None => {
                    &&& forall|i: int| !old(self)@.evictable(i)
                    &&& final(self)@ == old(self)@
                },
            },
            final(self)@ == old(self)@.after_oldest_eviction(),
            final(self)@.wf(),
            old(self)@.in_sync() ==> final(self)@.in_sync(),
    {
        let n: usize = self.cells.len();
        let mut oldest: Option<(usize, u64)> = None;
        let mut i: usize = 0;
        while i < n
            invariant
                i <= n,
                n == self@.cells.len(),
                self@ == old(self)@,
                match oldest {
                    Some((b, t)) => {
                        &&& b < i
                        &&& self@.evictable(b as int)
                        &&& self@.cells[b as int].filled_at == Some(t)
                        &&& forall|j: int|
                            0 <= j < i && #[trigger] self@.evictable(j) ==> self@.older(b as int, j)
                    },
                    None => forall|j: int| 0 <= j < i ==> !#[trigger] self@.evictable(j),
                },
            decreases n - i,
        {
            let cell = self.cells[i];
            if let (Some(hwnd), Some(filled_at)) = (cell.hwnd, cell.filled_at) {
                if self.config.reserved_cell != Some(i) && hwnd != self.config.parent_hwnd {
                    let better = match oldest {
                        Some((_, t)) => filled_at < t,
                        None => true,
                    };
                    if better {
                        oldest = Some((i, filled_at));
                    }
                }
            }
            i += 1;
        }
        match oldest {
            Some((b, _)) => {
                proof {
                    assert(self@.is_oldest_evictable(b as int));
                    self@.oldest_evictable_unique(b as int, self@.oldest_evictable()->0);
                }
                let hwnd: isize = self.cells[b].hwnd.unwrap();
                self.clear_cell(b);
                Some(Eviction { cell: b, hwnd })
            },
            None => {
                assert(forall|i: int| !self@.is_oldest_evictable(i));
                None
            },
        }
    }

    /// The timeout sweep: once the grid has been full, clears the lowest
    /// cell whose occupant has been there for the configured timeout or
    /// longer, the reserved cell excepted. At most one cell per call.
    pub fn evict_expired_cell(&mut self, now: u64) -> (evicted: Option<Eviction>)
        requires
            old(self)@.wf(),
        ensures
            match evicted {
                Some(e) => {
                    &&& old(self)@.ever_full
                    &&& old(self)@.expired(e.cell as int, now)
                    &&& forall|j: int| 0 <= j < e.cell ==> !old(self)@.expired(j, now)
                    &&& old(self)@.cells[e.cell as int].hwnd == Some(e.hwnd)
                    &&& final(self)@ == old(self)@.evict(e.cell as int)
                },
                None => {
                    &&& !old(self)@.ever_full || forall|j: int| !old(self)@.expired(j, now)
                    &&& final(self)@ == old(self)@
                },
            },
            final(self)@ == old(self)@.after_sweep(now),
            final(self)@.wf(),
            old(self)@.in_sync() ==> final(self)@.in_sync(),
    {
        proof {
            self@.first_expired_is_lowest(now, 0);
        }
        if !self.has_been_filled_at_some_point {
            return None;
        }
        let timeout: u64 = match self.config.timeout_secs {
            Some(t) => t,
            None => {
                return None;
            },
        };
        let n: usize = self.cells.len();
        let mut i: usize = 0;
        while i < n
            invariant
                i <= n,
                n == self@.cells.len(),
                self@ == old(self)@,
                self@.wf(),
                self@.ever_full,
                self@.config.timeout_secs == Some(timeout),
                forall|j: int| 0 <= j < i ==> !self@.expired(j, now),
            decreases n - i,
        {
            let cell = self.cells[i];
            if let (Some(hwnd), Some(filled_at)) = (cell.hwnd, cell.filled_at) {
                let elapsed: u64 = if now >= filled_at {
                    (now - filled_at) / 1000
                } else {
                    0
                };
                if elapsed >= timeout && self.config.reserved_cell != Some(i) {
                    proof {
                        self@.first_expired_is_lowest(now, 0);
                        assert(self@.expired(i as int, now));
                        assert(self@.first_expired(now, 0) == Some(i as int));
                    }
                    self.clear_cell(i);
                    return Some(Eviction { cell: i, hwnd });
                }
            }
            i += 1;
        }
        proof {
            self@.first_expired_is_lowest(now, 0);
        }
        None
    }

    /// Housekeeping after the destruction of `hwnd`: its index entry goes,
    /// and the cell that the entry named is cleared if it held the window.
    /// Returns the cell that the entry named.
    pub fn window_destroyed(&mut self, hwnd: isize) -> (freed: Option<usize>)
        requires
            old(self)@.wf(),
        ensures
            final(self)@ == old(self)@.forget(hwnd),
            freed == (if old(self)@.index.contains_key(hwnd) {
                Some(old(self)@.index[hwnd])
            } else {
                None
            }),
            final(self)@.wf(),
            old(self)@.in_sync() ==> final(self)@.in_sync(),
    {
        proof {
            old(self)@.forget_keeps_invariants(hwnd);
        }
        match index_get(&self.hwnd_to_cell, hwnd) {
            Some(idx) => {
                let _ = index_remove(&mut self.hwnd_to_cell, hwnd);
                if idx < self.cells.len() {
                    if self.cells[idx].hwnd == Some(hwnd) {
                        self.cells.set(idx, GridCell { hwnd: None, filled_at: None });
                    }
                }
                Some(idx)
            },
            None => None,
        }
    }
}

} // verus!
