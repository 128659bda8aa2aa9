//! The availability rule for a single cell.
use crate::grid::GridState;
use crate::model::{GridCell, GridModel};
use crate::occupancy::{index_get, index_remove};
use vstd::prelude::*;

verus! {

impl GridModel {
    /// The availability check keeps a grid well formed, and keeps table and
    /// index in agreement where they agreed.
    pub proof fn release_keeps_invariants(self, i: int, alive: bool)
        requires
            self.wf(),
            0 <= i < self.cells.len(),
        ensures
            self.release(i, alive).wf(),
            self.in_sync() ==> self.release(i, alive).in_sync(),
            self.available(i, alive) ==> self.release(i, alive).cells[i] == GridCell::vacant(),
    {
        let after = self.release(i, alive);
        if self.available(i, alive) {
            assert forall|j: int| 0 <= j < after.cells.len() implies (
            #[trigger] after.cells[j]).consistent() by {
                if j != i {
                    assert(self.cells[j].consistent());
                }
            }
            if self.in_sync() {
                assert forall|h: isize| #[trigger] after.index.contains_key(h) implies after.index[h]
                    < after.cells.len() && after.cells[after.index[h] as int].hwnd == Some(h) by {
                    assert(self.index.contains_key(h));
                }
                assert forall|j: int|
                    0 <= j < after.cells.len() && (#[trigger] after.cells[j]).hwnd
                        is Some implies after.tracked_at(after.cells[j].hwnd->0, j) by {
                    assert(self.cells[j].hwnd is Some);
                }
            }
        }
    }
}

impl GridState {
    /// Applies the availability rule to cell `idx`, given whether the
    /// platform still shows the cell's occupant. An available cell is
    /// cleared on the way; an occupant that is gone leaves the index too.
    pub fn is_cell_available(&mut self, idx: usize, occupant_alive: bool) -> (free: bool)
        requires
            old(self)@.wf(),
            idx < old(self)@.cells.len(),
        ensures
            free == old(self)@.available(idx as int, occupant_alive),
            final(self)@ == old(self)@.release(idx as int, occupant_alive),
            final(self)@.wf(),
            old(self)@.in_sync() ==> final(self)@.in_sync(),
    {
        proof {
            old(self)@.release_keeps_invariants(idx as int, occupant_alive);
        }
        let cell = self.cells[idx];
        match cell.hwnd {
            None => {
                assert(cell.consistent());
                assert(self@.cells =~= old(self)@.cells.update(idx as int, GridCell::vacant()));
                true
            },
            Some(hwnd) => {
                let tracked_here = match index_get(&self.hwnd_to_cell, hwnd) {
                    Some(mapped) => mapped == idx,
                    None => false,
                };
                if tracked_here && occupant_alive {
                    false
                } else {
                    if tracked_here {
                        let _ = index_remove(&mut self.hwnd_to_cell, hwnd);
                    }
                    self.cells.set(idx, GridCell { hwnd: None, filled_at: None });
                    true
                }
            },
        }
    }
}

} // verus!
