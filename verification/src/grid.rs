//! The engine's state: the cell table, the occupancy index and the failure
//! ledger behind one owner, with the grid's configuration.
use crate::model::{GridCell, GridConfig, GridModel};
use crate::occupancy::{index_entries, index_get, index_insert, index_new, no_entries};
use dashmap::DashMap;
use std::collections::HashMap;
use vstd::prelude::*;

verus! {

broadcast use vstd::std_specs::hash::group_hash_axioms;

/// Why a configuration cannot carry a grid.
#[derive(Clone, Copy, Debug, PartialEq, Eq)]
pub enum GridError {
    /// No rows or no columns.
    EmptyGrid,
    /// More cells than can be counted.
    TooManyCells,
    /// The monitor rectangle is inverted or wider than the pixel type.
    InvalidMonitorRect,
    /// The reserved cell lies outside the grid.
    ReservedCellOutOfRange,
    /// The cell table does not have one cell per grid position.
    CellCountMismatch,
    /// A cell has an occupant without fill time, or a fill time without
    /// occupant.
    InconsistentCell,
}

pub struct GridState {
    pub(crate) config: GridConfig,
    pub(crate) next_cell: usize,
    pub(crate) cells: Vec<GridCell>,
    pub(crate) hwnd_to_cell: DashMap<isize, usize>,
    pub(crate) has_been_filled_at_some_point: bool,
    pub(crate) failed_hwnds: HashMap<isize, u32>,
}

impl View for GridState {
    type V = GridModel;

    open(crate) spec fn view(&self) -> GridModel {
        GridModel {
            config: self.config,
            cells: self.cells@,
            index: index_entries(self.hwnd_to_cell),
            failures: self.failed_hwnds@,
            cursor: self.next_cell,
            ever_full: self.has_been_filled_at_some_point,
        }
    }
}

impl GridState {
    /// A grid of `rows * cols` empty cells.
    pub open spec fn fresh(config: GridConfig) -> GridModel {
        GridModel {
            config,
            cells: Seq::new(config.total() as nat, |i: int| GridCell::vacant()),
            index: no_entries(),
            failures: Map::empty(),
            cursor: 0,
            ever_full: false,
        }
    }

    /// What is wrong with a configuration, the first fault only.
    pub open spec fn config_fault(config: GridConfig) -> Option<GridError> {
        if config.rows == 0 || config.cols == 0 {
            Some(GridError::EmptyGrid)
        } else if config.total() > usize::MAX {
            Some(GridError::TooManyCells)
        } else if !config.monitor_rect.spec_is_area() {
            Some(GridError::InvalidMonitorRect)
        } else if config.reserved_cell is Some && config.reserved_cell->0 >= config.total() {
            Some(GridError::ReservedCellOutOfRange)
        } else {
            None
        }
    }

    /// Checks a configuration and counts its cells.
    pub fn check_config(config: &GridConfig) -> (checked: Result<usize, GridError>)
        ensures
            checked is Ok <==> config.valid(),
            checked matches Ok(total) ==> total == config.total() && total >= 1,
            checked matches Err(e) ==> Self::config_fault(*config) == Some(e),
    {
        if config.rows == 0 || config.cols == 0 {
            return Err(GridError::EmptyGrid);
        }
        assert(1 <= config.rows * config.cols <= 0xffff_ffff * 0xffff_ffff) by (nonlinear_arith)
            requires
                1 <= config.rows <= 0xffff_ffff,
                1 <= config.cols <= 0xffff_ffff,
        ;
        let wide: u64 = (config.rows as u64) * (config.cols as u64);
        if wide > usize::MAX as u64 {
            return Err(GridError::TooManyCells);
        }
        if !config.monitor_rect.is_area() {
            return Err(GridError::InvalidMonitorRect);
        }
        let total: usize = wide as usize;
        if let Some(r) = config.reserved_cell {
            if r >= total {
                return Err(GridError::ReservedCellOutOfRange);
            }
        }
        Ok(total)
    }

    /// The index that results from entering `entries` in order, a later
    /// entry for a handle replacing an earlier one.
    pub open spec fn entered(entries: Seq<(isize, usize)>) -> Map<isize, usize>
        decreases entries.len(),
    {
        if entries.len() == 0 {
            no_entries()
        } else {
            Self::entered(entries.drop_last()).insert(entries.last().0, entries.last().1)
        }
    }

    /// Builds the engine around a given cell table and given index entries,
    /// which need not agree with each other: `check_and_fix_grid_sync`
    /// repairs what disagrees.
    pub fn from_parts(config: GridConfig, cells: Vec<GridCell>, entries: &Vec<(isize, usize)>) -> (made:
        Result<GridState, GridError>)
        ensures
            match made {
                Ok(grid) => {
                    &&& grid@.wf()
                    &&& grid@ == (GridModel {
                        cells: cells@,
                        index: Self::entered(entries@),
                        ..Self::fresh(config)
                    })
                },
                Err(e) => e == (if Self::config_fault(config) is Some {
                    Self::config_fault(config)->0
                } else if cells@.len() != config.total() {
                    GridError::CellCountMismatch
                } else {
                    GridError::InconsistentCell
                }),
            },
            made is Ok <==> config.valid() && cells@.len() == config.total() && forall|i: int|
                0 <= i < cells@.len() ==> (#[trigger] cells@[i]).consistent(),
    {
        let total: usize = match Self::check_config(&config) {
            Ok(total) => total,
            Err(e) => {
                return Err(e);
            },
        };
        if cells.len() != total {
            return Err(GridError::CellCountMismatch);
        }
        let mut i: usize = 0;
        while i < total
            invariant
                i <= total,
                total == cells@.len(),
                total == config.total(),
                config.valid(),
                forall|j: int| 0 <= j < i ==> (#[trigger] cells@[j]).consistent(),
            decreases total - i,
        {
            if cells[i].hwnd.is_some() != cells[i].filled_at.is_some() {
                assert(!cells@[i as int].consistent());
                return Err(GridError::InconsistentCell);
            }
            i += 1;
        }
        let mut index = index_new();
        let mut t: usize = 0;
        while t < entries.len()
            invariant
                t <= entries@.len(),
                index_entries(index) == Self::entered(entries@.take(t as int)),
            decreases entries@.len() - t,
        {
            let (hwnd, cell) = entries[t];
            let _ = index_insert(&mut index, hwnd, cell);
            proof {
                let upto = entries@.take(t + 1);
                assert(upto.drop_last() =~= entries@.take(t as int));
                assert(upto.last() == entries@[t as int]);
            }
            t += 1;
        }
        assert(entries@.take(entries@.len() as int) =~= entries@);
        let grid = GridState {
            config,
            next_cell: 0,
            cells,
            hwnd_to_cell: index,
            has_been_filled_at_some_point: false,
            failed_hwnds: HashMap::new(),
        };
        assert(grid@.failures =~= Self::fresh(config).failures);
        Ok(grid)
    }

    /// Builds the engine for `config`, with every cell empty.
    pub fn new(config: GridConfig) -> (made: Result<GridState, GridError>)
        ensures
            made is Ok <==> config.valid(),
            made matches Ok(grid) ==> grid@ == Self::fresh(config) && grid@.wf() && grid@.in_sync(),
            made matches Err(e) ==> Self::config_fault(config) == Some(e),
    {
        let total: usize = match Self::check_config(&config) {
            Ok(total) => total,
            Err(e) => {
                return Err(e);
            },
        };
        let mut cells: Vec<GridCell> = Vec::new();
        while cells.len() < total
            invariant
                cells.len() <= total,
                forall|i: int| 0 <= i < cells.len() ==> cells[i] == GridCell::vacant(),
            decreases total - cells.len(),
        {
            cells.push(GridCell { hwnd: None, filled_at: None });
        }
        let grid = GridState {
            config,
            next_cell: 0,
            cells,
            hwnd_to_cell: index_new(),
            has_been_filled_at_some_point: false,
            failed_hwnds: HashMap::new(),
        };
        assert(grid@.cells =~= Self::fresh(config).cells);
        assert(grid@.failures =~= Self::fresh(config).failures);
        Ok(grid)
    }

    pub fn config(&self) -> (config: GridConfig)
        ensures
            config == self@.config,
    {
        self.config
    }

    /// How many cells the grid has.
    pub fn cell_count(&self) -> (n: usize)
        ensures
            n == self@.cells.len(),
    {
        self.cells.len()
    }

    /// The cell at `idx`, if the grid has one.
    pub fn cell(&self, idx: usize) -> (cell: Option<GridCell>)
        ensures
            cell == (if idx < self@.cells.len() {
                Some(self@.cells[idx as int])
            } else {
                None
            }),
    {
        if idx < self.cells.len() {
            Some(self.cells[idx])
        } else {
            None
        }
    }

    /// The cell under which the index holds `hwnd`.
    pub fn cell_of(&self, hwnd: isize) -> (cell: Option<usize>)
        ensures
            cell == (if self@.index.contains_key(hwnd) {
                Some(self@.index[hwnd])
            } else {
                None
            }),
    {
        index_get(&self.hwnd_to_cell, hwnd)
    }

    /// How often a move of `hwnd` has failed.
    pub fn failure_count(&self, hwnd: isize) -> (n: u32)
        ensures
            n == self@.failure_count(hwnd),
    {
        match self.failed_hwnds.get(&hwnd) {
            Some(count) => *count,
            None => 0,
        }
    }

    pub fn has_been_filled_at_some_point(&self) -> (flag: bool)
        ensures
            flag == self@.ever_full,
    {
        self.has_been_filled_at_some_point
    }

    pub fn set_has_been_filled_at_some_point(&mut self)
        ensures
            final(self)@ == (GridModel { ever_full: true, ..old(self)@ }),
    {
        self.has_been_filled_at_some_point = true;
    }
}

} // verus!
