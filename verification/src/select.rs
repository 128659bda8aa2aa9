//! The choice of a cell for a window, by either placement policy.
use crate::grid::GridState;
use crate::model::{elapsed_secs, CellProbe, GridModel, GridPlacementMode};
use crate::occupancy::index_contains_key;
use vstd::prelude::*;

verus! {

impl GridModel {
    /// Before the scan has checked any cell the state is untouched.
    pub proof fn swept_none(self, h: isize, probes: Seq<CellProbe>)
        ensures
            self.swept(h, probes, 0) == self,
    {
        let s = self.swept(h, probes, 0);
        assert(s.cells =~= self.cells);
        assert(s.index =~= self.index);
    }

    /// One step of the scan: the check of cell `k` sees the cell as the
    /// untouched state shows it, and leaves the state swept one further.
    pub proof fn swept_step(self, h: isize, probes: Seq<CellProbe>, k: int)
        requires
            0 <= k < self.cells.len(),
        ensures
            !self.is_candidate(h, k) ==> self.swept(h, probes, k + 1) == self.swept(h, probes, k),
            self.swept(h, probes, k).available(k, probes[k].occupant_alive) == self.available(
                k,
                probes[k].occupant_alive,
            ),
            self.is_candidate(h, k) ==> self.swept(h, probes, k + 1) == self.swept(
                h,
                probes,
                k,
            ).release(k, probes[k].occupant_alive),
    {
        let alive = probes[k].occupant_alive;
        let s = self.swept(h, probes, k);
        let t = self.swept(h, probes, k + 1);
        assert(s.cells[k] == self.cells[k]);
        if self.cells[k].hwnd is Some {
            let o = self.cells[k].hwnd->0;
            assert(s.tracked_at(o, k) == self.tracked_at(o, k));
        }
        if !self.is_candidate(h, k) {
            assert(t.cells =~= s.cells);
            assert forall|o: isize|
                self.dropped_below(h, probes, o, k + 1) == self.dropped_below(h, probes, o, k) by {}
            assert(t.index =~= s.index);
        } else {
            let r = s.release(k, alive);
            assert(t.cells =~= r.cells);
            assert forall|o: isize| t.index.contains_key(o) == r.index.contains_key(o) by {
                if self.index.contains_key(o) {
                    if self.index[o] == k {
                        assert(!self.dropped_below(h, probes, o, k));
                    }
                }
            }
            assert(t.index =~= r.index);
        }
    }

    /// The scan keeps a grid well formed, and keeps table and index in
    /// agreement where they agreed.
    pub proof fn swept_keeps_invariants(self, h: isize, probes: Seq<CellProbe>, k: int)
        requires
            self.wf(),
            0 <= k <= self.cells.len(),
        ensures
            self.swept(h, probes, k).wf(),
            self.in_sync() ==> self.swept(h, probes, k).in_sync(),
        decreases k,
    {
        if k == 0 {
            self.swept_none(h, probes);
        } else {
            self.swept_keeps_invariants(h, probes, k - 1);
            self.swept_step(h, probes, k - 1);
            self.swept(h, probes, k - 1).release_keeps_invariants(
                k - 1,
                probes[k - 1].occupant_alive,
            );
        }
    }

    /// The availability check leaves an available cell without fill time,
    /// so such a cell passes the timeout filter whatever the timeout is: in
    /// a well-formed grid a candidate is eligible exactly when it is
    /// available and passes the pixel check.
    pub proof fn released_cell_passes_timeout_filter(
        self,
        h: isize,
        probes: Seq<CellProbe>,
        now: u64,
        i: int,
    )
        requires
            self.wf(),
            0 <= i < self.cells.len(),
        ensures
            self.eligible(h, probes, now, i) <==> {
                &&& self.is_candidate(h, i)
                &&& self.available(i, probes[i].occupant_alive)
                &&& self.swept(h, probes, i + 1).pixel_ok(h, probes[i].pixel_owner)
            },
    {
    }

    /// `first_eligible` finds the lowest eligible cell from `k` on, and
    /// finds none only where there is none.
    pub proof fn first_eligible_is_lowest(self, h: isize, probes: Seq<CellProbe>, now: u64, k: int)
        requires
            0 <= k,
            self.cells.len() <= usize::MAX,
        ensures
            match self.first_eligible(h, probes, now, k) {
                Some(c) => k <= c < self.cells.len() && self.eligible(h, probes, now, c as int)
                    && forall|j: int| k <= j < c ==> !self.eligible(h, probes, now, j),
                None => forall|j: int|
                    k <= j < self.cells.len() ==> !self.eligible(h, probes, now, j),
            },
        decreases self.cells.len() - k,
    {
        if k < self.cells.len() && !self.eligible(h, probes, now, k) {
            self.first_eligible_is_lowest(h, probes, now, k + 1);
        }
    }

    /// The choice of a cell keeps a grid well formed and in agreement; the
    /// chosen cell is empty, and is reserved only for the launcher.
    pub proof fn select_keeps_invariants(self, h: isize, probes: Seq<CellProbe>, now: u64)
        requires
            self.wf(),
            probes.len() == self.cells.len(),
        ensures
            self.select(h, probes, now).0.wf(),
            self.in_sync() ==> self.select(h, probes, now).0.in_sync(),
            self.select(h, probes, now).0.config == self.config,
            self.select(h, probes, now).0.failures == self.failures,
            self.select(h, probes, now).0.ever_full == self.ever_full,
            self.select(h, probes, now).1 matches Some(c) ==> {
                &&& c < self.cells.len()
                &&& self.select(h, probes, now).0.cells[c as int].hwnd is None
                &&& self.is_candidate(h, c as int)
            },
    {
        let n = self.cells.len() as int;
        match self.config.placement_mode {
            GridPlacementMode::FirstFree => {
                self.first_eligible_is_lowest(h, probes, now, 0);
                match self.first_eligible(h, probes, now, 0) {
                    Some(c) => {
                        self.swept_keeps_invariants(h, probes, c + 1);
                    },
                    None => {
                        self.swept_keeps_invariants(h, probes, n);
                    },
                }
            },
            GridPlacementMode::Sequential => {
                if self.is_launcher(h) && self.config.reserved_cell is Some {
                    let r = self.config.reserved_cell->0 as int;
                    self.release_keeps_invariants(r, probes[r].occupant_alive);
                } else {
                    let c = self.cursor_cell();
                    assert(0 <= c < n);
                    self.release_keeps_invariants(c, probes[c].occupant_alive);
                    let moved = GridModel {
                        cursor: self.after(c),
                        ..self.release(c, probes[c].occupant_alive)
                    };
                    assert(moved.wf());
                    assert(self.in_sync() ==> moved.in_sync());
                }
            },
        }
    }
}

impl GridState {
    /// Whether cell `idx` is one that `hwnd` may be given.
    pub fn is_candidate_cell(&self, hwnd: isize, idx: usize) -> (b: bool)
        ensures
            b == self@.is_candidate(hwnd, idx as int),
    {
        match self.config.reserved_cell {
            Some(r) => {
                if hwnd == self.config.parent_hwnd {
                    r == idx
                } else {
                    r != idx
                }
            },
            None => true,
        }
    }

    /// Whether cell `idx` passes the timeout filter at `now`.
    pub fn filled_time_ok(&self, idx: usize, now: u64) -> (b: bool)
        requires
            idx < self@.cells.len(),
        ensures
            b == self@.time_ok(idx as int, now),
    {
        match (self.config.timeout_secs, self.cells[idx].filled_at) {
            (Some(timeout), Some(filled_at)) => {
                let elapsed: u64 = if now >= filled_at {
                    (now - filled_at) / 1000
                } else {
                    0
                };
                elapsed >= timeout
            },
            _ => true,
        }
    }

    /// Whether the owner of a cell's center pixel lets `hwnd` have the
    /// cell.
    pub fn pixel_owner_ok(&self, hwnd: isize, pixel_owner: Option<isize>) -> (b: bool)
        ensures
            b == self@.pixel_ok(hwnd, pixel_owner),
    {
        match pixel_owner {
            Some(owner) => owner == hwnd || !index_contains_key(&self.hwnd_to_cell, owner),
            None => true,
        }
    }

    /// Chooses a cell for `hwnd` by the configured policy. `FirstFree`
    /// takes the lowest candidate cell that is available, passes the
    /// timeout filter and passes the pixel check; every candidate up to it
    /// has had the availability rule applied. `Sequential` takes the cell
    /// under the cursor if it is available, and moves the cursor on.
    pub fn next_position(&mut self, hwnd: isize, probes: &Vec<CellProbe>, now: u64) -> (chosen:
        Option<usize>)
        requires
            old(self)@.wf(),
            probes@.len() == old(self)@.cells.len(),
        ensures
            (final(self)@, chosen) == old(self)@.select(hwnd, probes@, now),
            final(self)@.wf(),
            old(self)@.in_sync() ==> final(self)@.in_sync(),
    {
        proof {
            old(self)@.select_keeps_invariants(hwnd, probes@, now);
        }
        match self.config.placement_mode {
            GridPlacementMode::FirstFree => self.first_free_position(hwnd, probes, now),
            GridPlacementMode::Sequential => self.sequential_position(hwnd, probes),
        }
    }

    fn first_free_position(&mut self, hwnd: isize, probes: &Vec<CellProbe>, now: u64) -> (chosen:
        Option<usize>)
        requires
            old(self)@.wf(),
            probes@.len() == old(self)@.cells.len(),
        ensures
            chosen == old(self)@.first_eligible(hwnd, probes@, now, 0),
            final(self)@ == old(self)@.swept(
                hwnd,
                probes@,
                match chosen {
                    Some(c) => c + 1,
                    None => old(self)@.cells.len() as int,
                },
            ),
    {
        let n: usize = self.cells.len();
        let mut i: usize = 0;
        proof {
            old(self)@.swept_none(hwnd, probes@);
        }
        while i < n
            invariant
                i <= n,
                n == old(self)@.cells.len(),
                probes@.len() == n,
                old(self)@.wf(),
                self@ == old(self)@.swept(hwnd, probes@, i as int),
                old(self)@.first_eligible(hwnd, probes@, now, 0) == old(self)@.first_eligible(
                    hwnd,
                    probes@,
                    now,
                    i as int,
                ),
            decreases n - i,
        {
            proof {
                old(self)@.swept_step(hwnd, probes@, i as int);
                old(self)@.swept_keeps_invariants(hwnd, probes@, i as int);
            }
            if self.is_candidate_cell(hwnd, i) {
                let free = self.is_cell_available(i, probes[i].occupant_alive);
                if free && self.filled_time_ok(i, now) && self.pixel_owner_ok(
                    hwnd,
                    probes[i].pixel_owner,
                ) {
                    return Some(i);
                }
            }
            i += 1;
        }
        None
    }

    fn sequential_position(&mut self, hwnd: isize, probes: &Vec<CellProbe>) -> (chosen: Option<
        usize,
    >)
        requires
            old(self)@.wf(),
            probes@.len() == old(self)@.cells.len(),
        ensures
            (final(self)@, chosen) == old(self)@.select_sequential(hwnd, probes@),
    {
        let n: usize = self.cells.len();
        if hwnd == self.config.parent_hwnd && self.config.reserved_cell.is_some() {
            let r: usize = self.config.reserved_cell.unwrap();
            if self.is_cell_available(r, probes[r].occupant_alive) {
                Some(r)
            } else {
                None
            }
        } else {
            let mut c: usize = self.next_cell;
            if self.config.reserved_cell == Some(c) {
                c = if c + 1 < n {
                    c + 1
                } else {
                    0
                };
            }
            let next: usize = if c + 1 < n {
                c + 1
            } else {
                0
            };
            if self.config.reserved_cell == Some(c) {
                self.next_cell = next;
                None
            } else {
                let free = self.is_cell_available(c, probes[c].occupant_alive);
                self.next_cell = next;
                if free {
                    Some(c)
                } else {
                    None
                }
            }
        }
    }
}

} // verus!
