//! The diagnostic snapshot: who holds each cell, who owns its center
//! pixel, and which cells are free.
use crate::grid::GridState;
use crate::model::{CellProbe, GridCell, GridModel};
use crate::occupancy::{index_get, index_remove};
use crate::picks::{picks, picks_extend, picks_none};
use vstd::prelude::*;

verus! {

/// One cell of the snapshot.
#[derive(Clone, Copy, Debug, PartialEq, Eq)]
pub struct CellOwner {
    pub cell: usize,
    /// The occupant that the cell table holds.
    pub hwnd: Option<isize>,
    /// The window that owns the cell's center pixel.
    pub pixel_owner: Option<isize>,
}

/// The snapshot of a grid.
#[derive(Clone, Debug, PartialEq, Eq)]
pub struct CellOwners {
    /// One entry per cell, in cell order.
    pub cells: Vec<CellOwner>,
    /// The cells without occupant, in ascending order.
    pub open_cells: Vec<usize>,
}

impl GridModel {
    /// What the snapshot says of cell `i`.
    pub open spec fn owner_of(self, probes: Seq<CellProbe>, i: int) -> CellOwner {
        CellOwner { cell: i as usize, hwnd: self.cells[i].hwnd, pixel_owner: probes[i].pixel_owner }
    }

    pub open spec fn open_cells(self) -> Set<int> {
        Set::new(|i: int| 0 <= i < self.cells.len() && self.cells[i].hwnd is None)
    }

    /// Cell `i` holds a window that the platform reports gone or invisible.
    pub open spec fn dead_at(self, probes: Seq<CellProbe>, i: int) -> bool {
        0 <= i < self.cells.len() && self.cells[i].hwnd is Some && !probes[i].occupant_alive
    }

    /// The state after every dead occupant below cell `k` has been cleared
    /// from its cell, and from the index where the index held it there.
    pub open spec fn purged(self, probes: Seq<CellProbe>, k: int) -> GridModel {
        GridModel {
            cells: Seq::new(
                self.cells.len(),
                |j: int|
                    if j < k && self.dead_at(probes, j) {
                        GridCell::vacant()
                    } else {
                        self.cells[j]
                    },
            ),
            index: Map::new(
                |o: isize|
                    self.index.contains_key(o) && !(self.index[o] < k && self.dead_at(
                        probes,
                        self.index[o] as int,
                    ) && self.cells[self.index[o] as int].hwnd == Some(o)),
                |o: isize| self.index[o],
            ),
            ..self
        }
    }

    /// Clearing the dead occupant of one more cell.
    pub proof fn purged_step(self, probes: Seq<CellProbe>, k: int)
        requires
            0 <= k < self.cells.len(),
        ensures
            !self.dead_at(probes, k) ==> self.purged(probes, k + 1) == self.purged(probes, k),
            self.dead_at(probes, k) ==> self.purged(probes, k + 1) == self.purged(
                probes,
                k,
            ).release(k, false),
            self.purged(probes, k).cells[k] == self.cells[k],
    {
        let s = self.purged(probes, k);
        let t = self.purged(probes, k + 1);
        if !self.dead_at(probes, k) {
            assert(t.cells =~= s.cells);
            assert(t.index =~= s.index);
        } else {
            let o = self.cells[k].hwnd->0;
            assert(s.tracked_at(o, k) == self.tracked_at(o, k));
            let r = s.release(k, false);
            assert(s.available(k, false));
            assert(t.cells =~= r.cells);
            assert forall|p: isize| t.index.contains_key(p) == r.index.contains_key(p) by {
                if self.index.contains_key(p) && self.index[p] == k {
                    assert(s.index.contains_key(p));
                }
            }
            assert(t.index =~= r.index);
        }
    }

    /// Clearing dead occupants keeps a grid well formed, and keeps table
    /// and index in agreement where they agreed.
    pub proof fn purged_keeps_invariants(self, probes: Seq<CellProbe>, k: int)
        requires
            self.wf(),
            0 <= k <= self.cells.len(),
        ensures
            self.purged(probes, k).wf(),
            self.in_sync() ==> self.purged(probes, k).in_sync(),
        decreases k,
    {
        if k == 0 {
            assert(self.purged(probes, 0).cells =~= self.cells);
            assert(self.purged(probes, 0).index =~= self.index);
        } else {
            self.purged_keeps_invariants(probes, k - 1);
            self.purged_step(probes, k - 1);
            self.purged(probes, k - 1).release_keeps_invariants(k - 1, false);
        }
    }
}

impl GridState {
    /// Whether a window counts as a real one: a visible top-level window
    /// with a handle, and not the desktop unless the desktop is allowed.
    pub fn is_real_window(&self, hwnd: isize, visible: bool, top_level: bool, allow_desktop: bool) -> (
        genuine: bool
    )
        ensures
            genuine == (hwnd != 0 && visible && top_level && (allow_desktop || hwnd
                != self@.config.desktop_hwnd)),
    {
        hwnd != 0 && visible && top_level && (allow_desktop || hwnd != self.config.desktop_hwnd)
    }

    /// The cell at `row`, `col` with its occupant and the owner of its
    /// center pixel; `None` outside the grid.
    pub fn cell_pixel_owner(&self, row: u32, col: u32, probes: &Vec<CellProbe>) -> (owner: Option<
        CellOwner,
    >)
        requires
            self@.wf(),
            probes@.len() == self@.cells.len(),
        ensures
            owner == (if row < self@.config.rows && col < self@.config.cols {
                Some(self@.owner_of(probes@, row * self@.config.cols + col))
            } else {
                None
            }),
    {
        if row >= self.config.rows || col >= self.config.cols {
            return None;
        }
        proof {
            let r = row as int;
            let c = col as int;
            let rows = self.config.rows as int;
            let cols = self.config.cols as int;
            assert(0 <= r * cols + c < rows * cols) by (nonlinear_arith)
                requires
                    0 <= r < rows,
                    0 <= c < cols,
            ;
            assert(0 <= r * cols <= rows * cols) by (nonlinear_arith)
                requires
                    0 <= r < rows,
                    0 <= cols,
            ;
        }
        let idx: usize = (row as usize) * (self.config.cols as usize) + (col as usize);
        Some(CellOwner { cell: idx, hwnd: self.cells[idx].hwnd, pixel_owner: probes[idx].pixel_owner })
    }

    /// Every cell with its occupant and the owner of its center pixel, in
    /// cell order.
    pub fn cell_pixel_owners(&self, probes: &Vec<CellProbe>) -> (owners: Vec<CellOwner>)
        requires
            probes@.len() == self@.cells.len(),
        ensures
            owners@.len() == self@.cells.len(),
            forall|i: int|
                0 <= i < owners@.len() ==> #[trigger] owners@[i] == self@.owner_of(probes@, i),
    {
        let mut owners: Vec<CellOwner> = Vec::new();
        let n: usize = self.cells.len();
        let mut i: usize = 0;
        while i < n
            invariant
                i <= n,
                n == self@.cells.len(),
                probes@.len() == n,
                owners@.len() == i,
                forall|j: int| 0 <= j < i ==> #[trigger] owners@[j] == self@.owner_of(probes@, j),
            decreases n - i,
        {
            owners.push(
                CellOwner { cell: i, hwnd: self.cells[i].hwnd, pixel_owner: probes[i].pixel_owner },
            );
            i += 1;
        }
        owners
    }

    /// The cells without occupant, in ascending order.
    pub fn open_cells(&self) -> (open: Vec<usize>)
        ensures
            picks(open@, self@.cells.len() as int, self@.open_cells()),
    {
        let mut open: Vec<usize> = Vec::new();
        let n: usize = self.cells.len();
        let mut i: usize = 0;
        proof {
            picks_none(self@.open_cells());
        }
        while i < n
            invariant
                i <= n,
                n == self@.cells.len(),
                picks(open@, i as int, self@.open_cells()),
            decreases n - i,
        {
            proof {
                picks_extend(open@, i as int, self@.open_cells());
            }
            if self.cells[i].hwnd.is_none() {
                open.push(i);
            }
            i += 1;
        }
        open
    }

    /// Takes the diagnostic snapshot, and then clears every cell whose
    /// occupant the platform reports gone or invisible. The snapshot shows
    /// the grid as it was before the clearing.
    pub fn determine_cell_owners(&mut self, probes: &Vec<CellProbe>) -> (snapshot: CellOwners)
        requires
            old(self)@.wf(),
            probes@.len() == old(self)@.cells.len(),
        ensures
            snapshot.cells@.len() == old(self)@.cells.len(),
            forall|i: int|
                0 <= i < snapshot.cells@.len() ==> #[trigger] snapshot.cells@[i] == old(
                    self,
                )@.owner_of(probes@, i),
            picks(snapshot.open_cells@, old(self)@.cells.len() as int, old(self)@.open_cells()),
            final(self)@ == old(self)@.purged(probes@, old(self)@.cells.len() as int),
            final(self)@.wf(),
            old(self)@.in_sync() ==> final(self)@.in_sync(),
    {
        let cells = self.cell_pixel_owners(probes);
        let open_cells = self.open_cells();
        let n: usize = self.cells.len();
        let mut i: usize = 0;
        proof {
            assert(self@.purged(probes@, 0).cells =~= self@.cells);
            assert(self@.purged(probes@, 0).index =~= self@.index);
            old(self)@.purged_keeps_invariants(probes@, n as int);
        }
        while i < n
            invariant
                i <= n,
                n == old(self)@.cells.len(),
                probes@.len() == n,
                old(self)@.wf(),
                self@ == old(self)@.purged(probes@, i as int),
            decreases n - i,
        {
            proof {
                old(self)@.purged_step(probes@, i as int);
                old(self)@.purged_keeps_invariants(probes@, i as int);
            }
            if self.cells[i].hwnd.is_some() && !probes[i].occupant_alive {
                let _ = self.is_cell_available(i, false);
            }
            i += 1;
        }
        CellOwners { cells, open_cells }
    }
}

} // verus!
