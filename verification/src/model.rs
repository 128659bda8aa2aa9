//! The mathematical model of the engine: what a grid is, when it is
//! consistent, and what each operation makes of it.
//!
//! Time is a count of milliseconds on a monotonic clock; timeouts are in
//! whole seconds.
use crate::geometry::{centered_start, slot_extent, slot_middle, slot_start, Rect};
use vstd::prelude::*;

verus! {

/// How many failed moves a window is allowed before it is given up.
pub const MAX_HWND_RETRIES: u32 = 3;

/// The rule by which a free cell is picked.
#[derive(Clone, Copy, Debug, PartialEq, Eq, Structural)]
pub enum GridPlacementMode {
    /// The lowest eligible cell.
    FirstFree,
    /// The cell under a rotating cursor.
    Sequential,
}

impl Default for GridPlacementMode {
    fn default() -> (mode: Self)
        ensures
            mode == GridPlacementMode::FirstFree,
    {
        GridPlacementMode::FirstFree
    }
}

/// One grid position: its occupant and when the occupant was placed.
#[derive(Clone, Copy, Debug, PartialEq, Eq)]
pub struct GridCell {
    pub hwnd: Option<isize>,
    pub filled_at: Option<u64>,
}

impl GridCell {
    /// A cell has a fill time exactly when it has an occupant.
    pub open spec fn consistent(self) -> bool {
        self.hwnd is Some <==> self.filled_at is Some
    }

    pub open spec fn vacant() -> GridCell {
        GridCell { hwnd: None, filled_at: None }
    }

    pub open spec fn filled(hwnd: isize, now: u64) -> GridCell {
        GridCell { hwnd: Some(hwnd), filled_at: Some(now) }
    }
}

/// What the platform reports of one cell at the time of a call.
#[derive(Clone, Copy, Debug, PartialEq, Eq)]
pub struct CellProbe {
    /// Whether the cell's occupant still exists and is visible. Of no
    /// account for a cell without occupant.
    pub occupant_alive: bool,
    /// The visible top-level window that owns the cell's center pixel.
    pub pixel_owner: Option<isize>,
}

/// The static description of a grid.
#[derive(Clone, Copy, Debug, PartialEq, Eq)]
pub struct GridConfig {
    pub rows: u32,
    pub cols: u32,
    pub monitor: i32,
    pub monitor_rect: Rect,
    pub fit_grid: bool,
    pub placement_mode: GridPlacementMode,
    pub reserved_cell: Option<usize>,
    pub timeout_secs: Option<u64>,
    pub parent_hwnd: isize,
    pub desktop_hwnd: isize,
    pub launcher_pid: u32,
    pub retain_parent_focus: bool,
    pub retain_launcher_focus: bool,
}

impl GridConfig {
    pub open spec fn total(self) -> int {
        self.rows * self.cols
    }

    pub open spec fn valid(self) -> bool {
        &&& self.rows > 0
        &&& self.cols > 0
        &&& self.total() <= usize::MAX
        &&& self.monitor_rect.spec_is_area()
        &&& (self.reserved_cell matches Some(r) ==> r < self.total())
    }
}

/// A request to the platform: put a window at `(x, y)`, and give it the
/// size `width` x `height` if `resize` is set.
#[derive(Clone, Copy, Debug, PartialEq, Eq)]
pub struct MoveRequest {
    pub cell: usize,
    pub x: i32,
    pub y: i32,
    pub width: i32,
    pub height: i32,
    pub resize: bool,
}

/// Whole seconds from `filled_at` to `now`; zero if the clock reads earlier.
pub open spec fn elapsed_secs(filled_at: u64, now: u64) -> int {
    if now >= filled_at {
        (now - filled_at) / 1000
    } else {
        0
    }
}

/// The engine's state as mathematics.
pub struct GridModel {
    pub config: GridConfig,
    pub cells: Seq<GridCell>,
    pub index: Map<isize, usize>,
    pub failures: Map<isize, u32>,
    pub cursor: usize,
    pub ever_full: bool,
}

impl GridModel {
    pub open spec fn wf(self) -> bool {
        &&& self.config.valid()
        &&& self.cells.len() == self.config.total()
        &&& self.cursor < self.cells.len()
        &&& forall|i: int| 0 <= i < self.cells.len() ==> (#[trigger] self.cells[i]).consistent()
    }

    /// Cell table and occupancy index agree: every entry names a cell that
    /// holds its handle, and every occupant is entered under its cell.
    pub open spec fn in_sync(self) -> bool {
        &&& forall|h: isize| #[trigger]
            self.index.contains_key(h) ==> self.index[h] < self.cells.len()
                && self.cells[self.index[h] as int].hwnd == Some(h)
        &&& forall|i: int|
            0 <= i < self.cells.len() && (#[trigger] self.cells[i]).hwnd is Some
                ==> self.tracked_at(self.cells[i].hwnd->0, i)
    }

    pub open spec fn tracked_at(self, h: isize, i: int) -> bool {
        self.index.contains_key(h) && self.index[h] == i
    }

    pub open spec fn is_reserved(self, i: int) -> bool {
        self.config.reserved_cell == Some(i as usize)
    }

    pub open spec fn is_launcher(self, h: isize) -> bool {
        h == self.config.parent_hwnd
    }

    /// The failures on record for `h`.
    pub open spec fn failure_count(self, h: isize) -> int {
        if self.failures.contains_key(h) {
            self.failures[h] as int
        } else {
            0
        }
    }

    pub open spec fn given_up(self, h: isize) -> bool {
        self.failure_count(h) >= MAX_HWND_RETRIES
    }

    // ---- availability of a single cell ----

    /// The cell's occupant is not entered in the index under this cell.
    pub open spec fn holds_untracked(self, i: int) -> bool {
        self.cells[i].hwnd matches Some(h) && !self.tracked_at(h, i)
    }

    /// The cell's occupant is entered under this cell, and the platform
    /// reports it gone or invisible.
    pub open spec fn holds_dead(self, i: int, alive: bool) -> bool {
        self.cells[i].hwnd matches Some(h) && self.tracked_at(h, i) && !alive
    }

    /// A cell is available if it is empty, if its occupant is stale, or if
    /// the index does not enter the occupant under this cell.
    pub open spec fn available(self, i: int, alive: bool) -> bool {
        self.cells[i].hwnd is None || self.holds_untracked(i) || self.holds_dead(i, alive)
    }

    /// The state after the availability check of cell `i`: an available
    /// cell is cleared, and a dead occupant leaves the index with it.
    pub open spec fn release(self, i: int, alive: bool) -> GridModel {
        if !self.available(i, alive) {
            self
        } else {
            GridModel {
                cells: self.cells.update(i, GridCell::vacant()),
                index: if self.holds_dead(i, alive) {
                    self.index.remove(self.cells[i].hwnd->0)
                } else {
                    self.index
                },
                ..self
            }
        }
    }

    /// The state after the destruction of window `h`: its index entry is
    /// gone, and so is it from the cell that the entry named.
    pub open spec fn forget(self, h: isize) -> GridModel {
        if !self.index.contains_key(h) {
            self
        } else {
            let i = self.index[h] as int;
            GridModel {
                cells: if i < self.cells.len() && self.cells[i].hwnd == Some(h) {
                    self.cells.update(i, GridCell::vacant())
                } else {
                    self.cells
                },
                index: self.index.remove(h),
                ..self
            }
        }
    }

    // ---- choice of a cell ----

    /// The cells that `h` may be given: the reserved cell alone for the
    /// launcher, every other cell for any other window.
    pub open spec fn is_candidate(self, h: isize, i: int) -> bool {
        if self.is_launcher(h) && self.config.reserved_cell is Some {
            self.is_reserved(i)
        } else {
            !self.is_reserved(i)
        }
    }

    /// With a timeout configured, a cell must be unfilled or filled for at
    /// least that long.
    pub open spec fn time_ok(self, i: int, now: u64) -> bool {
        match (self.config.timeout_secs, self.cells[i].filled_at) {
            (Some(timeout), Some(filled_at)) => elapsed_secs(filled_at, now) >= timeout,
            _ => true,
        }
    }

    /// The center pixel must not belong to another window that the index
    /// holds.
    pub open spec fn pixel_ok(self, h: isize, owner: Option<isize>) -> bool {
        match owner {
            Some(o) => o == h || !self.index.contains_key(o),
            None => true,
        }
    }

    /// A handle that the availability check of a candidate cell below `k`
    /// has removed from the index.
    pub open spec fn dropped_below(self, h: isize, probes: Seq<CellProbe>, o: isize, k: int) -> bool {
        &&& self.index.contains_key(o)
        &&& self.index[o] < k
        &&& self.index[o] < self.cells.len()
        &&& self.is_candidate(h, self.index[o] as int)
        &&& self.cells[self.index[o] as int].hwnd == Some(o)
        &&& !probes[self.index[o] as int].occupant_alive
    }

    /// The state after the availability check of every candidate cell
    /// below `k`.
    pub open spec fn swept(self, h: isize, probes: Seq<CellProbe>, k: int) -> GridModel {
        GridModel {
            cells: Seq::new(
                self.cells.len(),
                |j: int|
                    if j < k && self.is_candidate(h, j) && self.available(
                        j,
                        probes[j].occupant_alive,
                    ) {
                        GridCell::vacant()
                    } else {
                        self.cells[j]
                    },
            ),
            index: Map::new(
                |o: isize| self.index.contains_key(o) && !self.dropped_below(h, probes, o, k),
                |o: isize| self.index[o],
            ),
            ..self
        }
    }

    /// Cell `i` can take `h` when the scan reaches it.
    pub open spec fn eligible(self, h: isize, probes: Seq<CellProbe>, now: u64, i: int) -> bool {
        &&& self.is_candidate(h, i)
        &&& self.available(i, probes[i].occupant_alive)
        &&& self.swept(h, probes, i + 1).time_ok(i, now)
        &&& self.swept(h, probes, i + 1).pixel_ok(h, probes[i].pixel_owner)
    }

    /// The lowest eligible cell from `k` on.
    pub open spec fn first_eligible(
        self,
        h: isize,
        probes: Seq<CellProbe>,
        now: u64,
        k: int,
    ) -> Option<usize>
        decreases self.cells.len() - k,
    {
        if k < 0 || k >= self.cells.len() {
            None
        } else if self.eligible(h, probes, now, k) {
            Some(k as usize)
        } else {
            self.first_eligible(h, probes, now, k + 1)
        }
    }

    /// The cell after `c` in the rotation.
    pub open spec fn after(self, c: int) -> usize {
        if c + 1 < self.cells.len() {
            (c + 1) as usize
        } else {
            0
        }
    }

    /// The cell that the rotating cursor stands for: the cursor's own, or
    /// the next one where the cursor's is reserved.
    pub open spec fn cursor_cell(self) -> int {
        if self.is_reserved(self.cursor as int) {
            self.after(self.cursor as int) as int
        } else {
            self.cursor as int
        }
    }

    /// The round-robin choice: the launcher is offered its reserved cell;
    /// any other window the cell under the cursor, which then moves on. The
    /// cell is taken if it is available.
    pub open spec fn select_sequential(self, h: isize, probes: Seq<CellProbe>) -> (
        GridModel,
        Option<usize>,
    ) {
        if self.is_launcher(h) && self.config.reserved_cell is Some {
            let r = self.config.reserved_cell->0 as int;
            let alive = probes[r].occupant_alive;
            (
                self.release(r, alive),
                if self.available(r, alive) {
                    Some(r as usize)
                } else {
                    None
                },
            )
        } else {
            let c = self.cursor_cell();
            let alive = probes[c].occupant_alive;
            if self.is_reserved(c) {
                (GridModel { cursor: self.after(c), ..self }, None)
            } else {
                (
                    GridModel { cursor: self.after(c), ..self.release(c, alive) },
                    if self.available(c, alive) {
                        Some(c as usize)
                    } else {
                        None
                    },
                )
            }
        }
    }

    /// The lowest eligible cell, with every candidate up to it checked for
    /// availability.
    pub open spec fn select_first_free(self, h: isize, probes: Seq<CellProbe>, now: u64) -> (
        GridModel,
        Option<usize>,
    ) {
        match self.first_eligible(h, probes, now, 0) {
            Some(c) => (self.swept(h, probes, c + 1), Some(c)),
            None => (self.swept(h, probes, self.cells.len() as int), None),
        }
    }

    /// The cell chosen for `h` by the configured policy, with the state
    /// that the choice leaves.
    pub open spec fn select(self, h: isize, probes: Seq<CellProbe>, now: u64) -> (
        GridModel,
        Option<usize>,
    ) {
        match self.config.placement_mode {
            GridPlacementMode::FirstFree => self.select_first_free(h, probes, now),
            GridPlacementMode::Sequential => self.select_sequential(h, probes),
        }
    }

    // ---- eviction ----

    /// A cell that eviction may take: filled, not reserved, and not the
    /// launcher's.
    pub open spec fn evictable(self, i: int) -> bool {
        &&& 0 <= i < self.cells.len()
        &&& self.cells[i].hwnd is Some
        &&& self.cells[i].filled_at is Some
        &&& !self.is_reserved(i)
        &&& !self.is_launcher(self.cells[i].hwnd->0)
    }

    /// Cell `i` was filled before cell `j`, or at the same time and lies
    /// lower.
    pub open spec fn older(self, i: int, j: int) -> bool {
        let a = self.cells[i].filled_at->0;
        let b = self.cells[j].filled_at->0;
        a < b || (a == b && i <= j)
    }

    /// The evictable cell that was filled first; the lowest of several.
    pub open spec fn is_oldest_evictable(self, i: int) -> bool {
        &&& self.evictable(i)
        &&& forall|j: int| #[trigger] self.evictable(j) ==> self.older(i, j)
    }

    /// The state after the eviction of cell `i`: the cell is clear and its
    /// occupant has left the index.
    pub open spec fn evict(self, i: int) -> GridModel {
        GridModel {
            cells: self.cells.update(i, GridCell::vacant()),
            index: match self.cells[i].hwnd {
                Some(h) => self.index.remove(h),
                None => self.index,
            },
            ..self
        }
    }

    /// Every cell but the reserved one has an occupant.
    pub open spec fn ordinary_cells_full(self) -> bool {
        forall|i: int|
            0 <= i < self.cells.len() && !self.is_reserved(i) ==> (#[trigger] self.cells[i]).hwnd
                is Some
    }

    /// A cell whose occupant has outlived the configured timeout.
    pub open spec fn expired(self, i: int, now: u64) -> bool {
        &&& 0 <= i < self.cells.len()
        &&& self.config.timeout_secs is Some
        &&& self.cells[i].hwnd is Some
        &&& self.cells[i].filled_at is Some
        &&& !self.is_reserved(i)
        &&& elapsed_secs(self.cells[i].filled_at->0, now) >= self.config.timeout_secs->0
    }

    // ---- where a window is put ----

    pub open spec fn row_of(self, i: int) -> int {
        i / (self.config.cols as int)
    }

    pub open spec fn col_of(self, i: int) -> int {
        i % (self.config.cols as int)
    }

    pub open spec fn cell_width(self) -> int {
        slot_extent(
            self.config.monitor_rect.left as int,
            self.config.monitor_rect.right as int,
            self.config.cols as int,
        )
    }

    pub open spec fn cell_height(self) -> int {
        slot_extent(
            self.config.monitor_rect.top as int,
            self.config.monitor_rect.bottom as int,
            self.config.rows as int,
        )
    }

    pub open spec fn cell_left(self, i: int) -> int {
        slot_start(
            self.config.monitor_rect.left as int,
            self.config.monitor_rect.right as int,
            self.config.cols as int,
            self.col_of(i),
        )
    }

    pub open spec fn cell_top(self, i: int) -> int {
        slot_start(
            self.config.monitor_rect.top as int,
            self.config.monitor_rect.bottom as int,
            self.config.rows as int,
            self.row_of(i),
        )
    }

    pub open spec fn cell_center(self, i: int) -> (int, int) {
        (
            slot_middle(
                self.config.monitor_rect.left as int,
                self.config.monitor_rect.right as int,
                self.config.cols as int,
                self.col_of(i),
            ),
            slot_middle(
                self.config.monitor_rect.top as int,
                self.config.monitor_rect.bottom as int,
                self.config.rows as int,
                self.row_of(i),
            ),
        )
    }

    /// The extent of the window to place: what the platform reports, or
    /// the extent of a cell where it reports nothing.
    pub open spec fn window_extent(self, window: Option<Rect>) -> (int, int) {
        match window {
            Some(r) => (r.spec_width(), r.spec_height()),
            None => (self.cell_width(), self.cell_height()),
        }
    }

    /// Whether a window of this extent lies inside the monitor rectangle.
    pub open spec fn fits_monitor(self, window: Option<Rect>) -> bool {
        let (w, h) = self.window_extent(window);
        &&& 0 <= w <= self.config.monitor_rect.spec_width()
        &&& 0 <= h <= self.config.monitor_rect.spec_height()
    }

    /// Whether a window of this extent can be placed at all: always when
    /// windows are fitted to their cell, else when the window is no larger
    /// than the monitor rectangle.
    pub open spec fn placeable(self, window: Option<Rect>) -> bool {
        self.config.fit_grid || self.fits_monitor(window)
    }

    /// The move that puts a window into cell `i`. With `fit` the window
    /// takes the cell's place and size. Without, it keeps its size and is
    /// centered in the cell, pushed back inside the monitor rectangle.
    pub open spec fn target_for(self, i: int, fit: bool, window: Option<Rect>) -> MoveRequest {
        if fit {
            MoveRequest {
                cell: i as usize,
                x: self.cell_left(i) as i32,
                y: self.cell_top(i) as i32,
                width: self.cell_width() as i32,
                height: self.cell_height() as i32,
                resize: true,
            }
        } else {
            let (w, h) = self.window_extent(window);
            MoveRequest {
                cell: i as usize,
                x: centered_start(
                    self.config.monitor_rect.left as int,
                    self.config.monitor_rect.right as int,
                    self.config.cols as int,
                    self.col_of(i),
                    w,
                )->0 as i32,
                y: centered_start(
                    self.config.monitor_rect.top as int,
                    self.config.monitor_rect.bottom as int,
                    self.config.rows as int,
                    self.row_of(i),
                    h,
                )->0 as i32,
                width: 0,
                height: 0,
                resize: false,
            }
        }
    }

    /// The move that puts a window into cell `i` as the grid is configured.
    pub open spec fn target(self, i: int, window: Option<Rect>) -> MoveRequest {
        self.target_for(i, self.config.fit_grid, window)
    }
}

} // verus!
