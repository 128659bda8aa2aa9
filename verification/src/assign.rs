//! Assignment of a window to a cell, in two halves: the engine plans a
//! move, the caller carries it out on the platform and reports what the
//! platform then shows, and the engine commits the cell or records the
//! failure.
use crate::evict::Eviction;
use crate::geometry::Rect;
use crate::grid::GridState;
use crate::model::{
    CellProbe, GridCell, GridModel, GridPlacementMode, MoveRequest, MAX_HWND_RETRIES,
};
use crate::occupancy::{index_get, index_insert, index_remove};
use vstd::prelude::*;

verus! {

broadcast use vstd::std_specs::hash::group_hash_axioms;

/// What an assignment has come to, and what the caller is to do next.
#[derive(Clone, Copy, Debug, PartialEq, Eq)]
pub enum AssignStep {
    /// The window already has this cell. Nothing is to be moved.
    AlreadyPlaced(usize),
    /// The window has failed too often and is not tried again.
    GivenUp,
    /// The window is larger than the monitor rectangle.
    CannotPlace,
    /// No cell can take the window. If `closed` names a window, it was
    /// evicted and is to be closed.
    NoCell { closed: Option<isize> },
    /// The window is to be moved as `request` says, and the outcome
    /// reported. If `closed` names a window, it was evicted to make room
    /// and is to be closed.
    Move { closed: Option<isize>, request: MoveRequest },
}

/// Whether the platform shows the window where the request put it.
pub open spec fn move_verified(request: MoveRequest, actual: Option<Rect>) -> bool {
    actual matches Some(r) && r.left == request.x && r.top == request.y
}

impl GridModel {
    /// The state in which a full grid has been noted.
    pub open spec fn note_if_full(self) -> GridModel {
        GridModel { ever_full: self.ever_full || self.ordinary_cells_full(), ..self }
    }

    /// Whether a cell that eviction has just freed can take `h`: under
    /// `FirstFree` it must pass the pixel check.
    pub open spec fn retry_ok(self, h: isize, owner: Option<isize>) -> bool {
        self.config.placement_mode == GridPlacementMode::Sequential || self.pixel_ok(h, owner)
    }

    /// What happens when no cell could be chosen: the oldest occupant is
    /// evicted and the freed cell tried once.
    pub open spec fn fallback(self, h: isize, window: Option<Rect>, probes: Seq<CellProbe>) -> (
        GridModel,
        AssignStep,
    ) {
        let noted = self.note_if_full();
        match noted.oldest_evictable() {
            Some(e) => {
                let after = noted.evict(e);
                let closed = noted.cells[e].hwnd;
                if after.retry_ok(h, probes[e].pixel_owner) {
                    (after, AssignStep::Move { closed, request: after.target(e, window) })
                } else {
                    (after, AssignStep::NoCell { closed })
                }
            },
            None => (noted, AssignStep::NoCell { closed: None }),
        }
    }

    /// The plan for window `h`, with the state that planning leaves.
    pub open spec fn assign(
        self,
        h: isize,
        window: Option<Rect>,
        probes: Seq<CellProbe>,
        now: u64,
    ) -> (GridModel, AssignStep) {
        if self.index.contains_key(h) {
            (self, AssignStep::AlreadyPlaced(self.index[h]))
        } else if self.given_up(h) {
            (self, AssignStep::GivenUp)
        } else if !self.placeable(window) {
            (self, AssignStep::CannotPlace)
        } else {
            let (chosen_state, chosen) = self.select(h, probes, now);
            match chosen {
                Some(c) => (
                    chosen_state,
                    AssignStep::Move { closed: None, request: chosen_state.target(c as int, window) },
                ),
                None => chosen_state.fallback(h, window, probes),
            }
        }
    }

    /// One more failure on record for `h`.
    pub open spec fn record_failure(self, h: isize) -> GridModel {
        let count = self.failure_count(h);
        GridModel {
            failures: self.failures.insert(
                h,
                if count < u32::MAX {
                    (count + 1) as u32
                } else {
                    u32::MAX
                },
            ),
            ..self
        }
    }

    /// Cell `c` is given to `h` at `now`. An occupant that the index held
    /// under `c` leaves the index.
    pub open spec fn occupy(self, h: isize, c: int, now: u64) -> GridModel {
        GridModel {
            cells: self.cells.update(c, GridCell::filled(h, now)),
            index: (match self.cells[c].hwnd {
                Some(p) => if self.tracked_at(p, c) {
                    self.index.remove(p)
                } else {
                    self.index
                },
                None => self.index,
            }).insert(h, c as usize),
            ..self
        }
    }

    /// The end of an assignment. A move that the platform does not confirm
    /// counts as a failure and claims nothing. A confirmed move commits the
    /// cell, unless the window has a cell by now, which it keeps. A commit
    /// that fills the last cell but the reserved one is noted: the grid has
    /// been full.
    pub open spec fn complete(
        self,
        h: isize,
        request: MoveRequest,
        actual: Option<Rect>,
        now: u64,
    ) -> (GridModel, Option<usize>) {
        if !move_verified(request, actual) {
            (self.record_failure(h), None)
        } else if self.index.contains_key(h) {
            (self, Some(self.index[h]))
        } else {
            (self.occupy(h, request.cell as int, now).note_if_full(), Some(request.cell))
        }
    }

    /// Giving a cell to a window that has none keeps a grid well formed,
    /// and keeps table and index in agreement where they agreed.
    pub proof fn occupy_keeps_invariants(self, h: isize, c: int, now: u64)
        requires
            self.wf(),
            0 <= c < self.cells.len(),
            !self.index.contains_key(h),
        ensures
            self.occupy(h, c, now).wf(),
            self.in_sync() ==> self.occupy(h, c, now).in_sync(),
    {
        let after = self.occupy(h, c, now);
        assert forall|j: int| 0 <= j < after.cells.len() implies (
        #[trigger] after.cells[j]).consistent() by {
            if j != c {
                assert(self.cells[j].consistent());
            }
        }
        if self.in_sync() {
            assert forall|o: isize| #[trigger] after.index.contains_key(o) implies after.index[o]
                < after.cells.len() && after.cells[after.index[o] as int].hwnd == Some(o) by {
                if o != h {
                    assert(self.index.contains_key(o));
                }
            }
            assert forall|j: int|
                0 <= j < after.cells.len() && (#[trigger] after.cells[j]).hwnd
                    is Some implies after.tracked_at(after.cells[j].hwnd->0, j) by {
                if j != c {
                    assert(self.cells[j].hwnd is Some);
                }
            }
        }
    }

    /// Planning keeps a grid well formed and in agreement, leaves the
    /// failure ledger alone, and claims no cell: a planned move names an
    /// empty cell, and a reserved one only for the launcher.
    pub proof fn assign_keeps_invariants(
        self,
        h: isize,
        window: Option<Rect>,
        probes: Seq<CellProbe>,
        now: u64,
    )
        requires
            self.wf(),
            probes.len() == self.cells.len(),
        ensures
            self.assign(h, window, probes, now).0.wf(),
            self.in_sync() ==> self.assign(h, window, probes, now).0.in_sync(),
            self.assign(h, window, probes, now).0.config == self.config,
            self.assign(h, window, probes, now).0.failures == self.failures,
            self.assign(h, window, probes, now).1 matches AssignStep::Move { request, .. } ==> {
                &&& request.cell < self.cells.len()
                &&& self.assign(h, window, probes, now).0.cells[request.cell as int].hwnd is None
                &&& !self.is_launcher(h) ==> !self.is_reserved(request.cell as int)
            },
    {
        if !self.index.contains_key(h) && !self.given_up(h) && self.placeable(window) {
            self.select_keeps_invariants(h, probes, now);
            let (chosen_state, chosen) = self.select(h, probes, now);
            if chosen is None {
                let noted = chosen_state.note_if_full();
                assert(noted.wf());
                assert(chosen_state.in_sync() ==> noted.in_sync());
                if let Some(e) = noted.oldest_evictable() {
                    assert(noted.is_oldest_evictable(e));
                    noted.evict_keeps_invariants(e);
                }
            }
        }
    }
}

impl GridState {
    /// Whether every cell but the reserved one has an occupant.
    pub fn ordinary_cells_full(&self) -> (full: bool)
        ensures
            full == self@.ordinary_cells_full(),
    {
        let n: usize = self.cells.len();
        let mut i: usize = 0;
        while i < n
            invariant
                i <= n,
                n == self@.cells.len(),
                forall|j: int|
                    0 <= j < i && !self@.is_reserved(j) ==> (#[trigger] self@.cells[j]).hwnd
                        is Some,
            decreases n - i,
        {
            if self.config.reserved_cell != Some(i) && self.cells[i].hwnd.is_none() {
                assert(!self@.is_reserved(i as int) && self@.cells[i as int].hwnd is None);
                return false;
            }
            i += 1;
        }
        true
    }

    /// Plans the placement of `hwnd`.
    ///
    /// A window that the index holds keeps its cell, and a window that has
    /// failed `MAX_HWND_RETRIES` times is refused; neither needs anything
    /// of the platform. Otherwise a cell is chosen by the configured
    /// policy. Where none can be chosen, the oldest occupant is evicted and
    /// the freed cell tried once. The chosen cell is not claimed before
    /// `complete_assignment` has seen the move confirmed.
    ///
    /// `window` is the rectangle that the platform reports for `hwnd`, and
    /// `probes` holds its report of each cell, in cell order.
    pub fn assign_window_to_grid_cell(
        &mut self,
        hwnd: isize,
        window: Option<Rect>,
        probes: &Vec<CellProbe>,
        now: u64,
    ) -> (step: AssignStep)
        requires
            old(self)@.wf(),
            probes@.len() == old(self)@.cells.len(),
        ensures
            (final(self)@, step) == old(self)@.assign(hwnd, window, probes@, now),
            final(self)@.wf(),
            old(self)@.in_sync() ==> final(self)@.in_sync(),
            final(self)@.failures == old(self)@.failures,
            step matches AssignStep::Move { request, .. } ==> {
                &&& request.cell < final(self)@.cells.len()
                &&& final(self)@.cells[request.cell as int].hwnd is None
                &&& !old(self)@.is_launcher(hwnd) ==> !old(self)@.is_reserved(request.cell as int)
            },
    {
        proof {
            old(self)@.assign_keeps_invariants(hwnd, window, probes@, now);
        }
        if let Some(existing) = index_get(&self.hwnd_to_cell, hwnd) {
            return AssignStep::AlreadyPlaced(existing);
        }
        if self.failure_count(hwnd) >= MAX_HWND_RETRIES {
            return AssignStep::GivenUp;
        }
        if !self.is_placeable(window) {
            return AssignStep::CannotPlace;
        }
        proof {
            old(self)@.select_keeps_invariants(hwnd, probes@, now);
        }
        match self.next_position(hwnd, probes, now) {
            Some(cell) => AssignStep::Move { closed: None, request: self.move_target(cell, window) },
            None => self.evict_and_retry(hwnd, window, probes),
        }
    }

    /// The fallback of an assignment that found no cell.
    fn evict_and_retry(&mut self, hwnd: isize, window: Option<Rect>, probes: &Vec<CellProbe>) -> (step:
        AssignStep)
        requires
            old(self)@.wf(),
            old(self)@.placeable(window),
            probes@.len() == old(self)@.cells.len(),
        ensures
            (final(self)@, step) == old(self)@.fallback(hwnd, window, probes@),
    {
        if self.ordinary_cells_full() {
            self.has_been_filled_at_some_point = true;
        }
        let ghost noted = self@;
        assert(noted == old(self)@.note_if_full());
        match self.evict_oldest_cell() {
            Some(Eviction { cell, hwnd: victim }) => {
                proof {
                    let e = noted.oldest_evictable()->0;
                    assert(noted.is_oldest_evictable(cell as int));
                    noted.oldest_evictable_unique(cell as int, e);
                }
                let retry_ok = match self.config.placement_mode {
                    GridPlacementMode::Sequential => true,
                    GridPlacementMode::FirstFree => self.pixel_owner_ok(
                        hwnd,
                        probes[cell].pixel_owner,
                    ),
                };
                if retry_ok {
                    AssignStep::Move {
                        closed: Some(victim),
                        request: self.move_target(cell, window),
                    }
                } else {
                    AssignStep::NoCell { closed: Some(victim) }
                }
            },
            None => {
                assert(noted.oldest_evictable() is None);
                AssignStep::NoCell { closed: None }
            },
        }
    }

    /// Records one more failed move of `hwnd`.
    pub fn record_failure(&mut self, hwnd: isize)
        ensures
            final(self)@ == old(self)@.record_failure(hwnd),
    {
        let count: u32 = self.failure_count(hwnd);
        let next: u32 = if count < u32::MAX {
            count + 1
        } else {
            u32::MAX
        };
        self.failed_hwnds.insert(hwnd, next);
    }

    /// Ends an assignment with what the platform reports of the window
    /// after the move. The cell is committed only if the window is where
    /// the request put it; otherwise the failure is recorded, and neither
    /// the cell table nor the index is touched.
    pub fn complete_assignment(
        &mut self,
        hwnd: isize,
        request: &MoveRequest,
        actual: Option<Rect>,
        now: u64,
    ) -> (placed: Option<usize>)
        requires
            old(self)@.wf(),
            request.cell < old(self)@.cells.len(),
        ensures
            (final(self)@, placed) == old(self)@.complete(hwnd, *request, actual, now),
            final(self)@.wf(),
            old(self)@.in_sync() ==> final(self)@.in_sync(),
            placed is Some <==> move_verified(*request, actual),
            placed matches Some(c) ==> final(self)@.tracked_at(hwnd, c as int),
            placed is None ==> final(self)@.cells == old(self)@.cells && final(self)@.index == old(
                self,
            )@.index,
    {
        let confirmed = match actual {
            Some(r) => r.left == request.x && r.top == request.y,
            None => false,
        };
        if !confirmed {
            self.record_failure(hwnd);
            return None;
        }
        if let Some(existing) = index_get(&self.hwnd_to_cell, hwnd) {
            return Some(existing);
        }
        self.occupy_cell(hwnd, request.cell, now);
        if self.ordinary_cells_full() {
            self.has_been_filled_at_some_point = true;
        }
        Some(request.cell)
    }

    /// Gives cell `cell` to `hwnd`, which the index does not hold.
    pub(crate) fn occupy_cell(&mut self, hwnd: isize, cell: usize, now: u64)
        requires
            old(self)@.wf(),
            cell < old(self)@.cells.len(),
            !old(self)@.index.contains_key(hwnd),
        ensures
            final(self)@ == old(self)@.occupy(hwnd, cell as int, now),
            final(self)@.wf(),
            old(self)@.in_sync() ==> final(self)@.in_sync(),
    {
        proof {
            old(self)@.occupy_keeps_invariants(hwnd, cell as int, now);
        }
        if let Some(prior) = self.cells[cell].hwnd {
            if index_get(&self.hwnd_to_cell, prior) == Some(cell) {
                let _ = index_remove(&mut self.hwnd_to_cell, prior);
            }
        }
        self.cells.set(cell, GridCell { hwnd: Some(hwnd), filled_at: Some(now) });
        let _ = index_insert(&mut self.hwnd_to_cell, hwnd, cell);
    }
}

} // verus!
