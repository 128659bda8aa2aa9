//! Where a cell lies on the screen, and the move that puts a window there.
use crate::geometry::{axis_slot_extent, axis_slot_middle, axis_slot_start, slot_in_span, Rect};
use crate::grid::GridState;
use crate::model::{GridModel, MoveRequest};
use vstd::prelude::*;

verus! {

impl GridModel {
    /// A cell's index splits into a row and a column of the grid.
    pub proof fn position_in_grid(self, i: int)
        requires
            self.wf(),
            0 <= i < self.cells.len(),
        ensures
            0 <= self.row_of(i) < self.config.rows,
            0 <= self.col_of(i) < self.config.cols,
            i == self.row_of(i) * self.config.cols + self.col_of(i),
    {
        let c = self.config.cols as int;
        let r = self.config.rows as int;
        assert(0 <= i / c < r && 0 <= i % c < c && i == (i / c) * c + i % c) by (nonlinear_arith)
            requires
                0 <= i < r * c,
                0 < c,
        ;
    }

    /// Every cell lies inside the monitor rectangle.
    pub proof fn cell_in_monitor(self, i: int)
        requires
            self.wf(),
            0 <= i < self.cells.len(),
        ensures
            self.config.monitor_rect.left <= self.cell_left(i),
            self.cell_left(i) + self.cell_width() <= self.config.monitor_rect.right,
            self.config.monitor_rect.top <= self.cell_top(i),
            self.cell_top(i) + self.cell_height() <= self.config.monitor_rect.bottom,
            0 <= self.cell_width(),
            0 <= self.cell_height(),
    {
        self.position_in_grid(i);
        let rect = self.config.monitor_rect;
        slot_in_span(rect.left as int, rect.right as int, self.config.cols as int, self.col_of(i));
        slot_in_span(rect.top as int, rect.bottom as int, self.config.rows as int, self.row_of(i));
    }
}

impl GridState {
    /// The row and column of cell `idx`.
    pub fn cell_position(&self, idx: usize) -> (at: (u32, u32))
        requires
            self@.wf(),
            idx < self@.cells.len(),
        ensures
            at.0 == self@.row_of(idx as int),
            at.1 == self@.col_of(idx as int),
            at.0 < self@.config.rows,
            at.1 < self@.config.cols,
    {
        proof {
            self@.position_in_grid(idx as int);
        }
        let cols: usize = self.config.cols as usize;
        ((idx / cols) as u32, (idx % cols) as u32)
    }

    /// Width and height of a cell in pixels.
    pub fn cell_size(&self) -> (size: (i32, i32))
        requires
            self@.wf(),
        ensures
            size.0 == self@.cell_width(),
            size.1 == self@.cell_height(),
    {
        let rect = self.config.monitor_rect;
        (
            axis_slot_extent(rect.left, rect.right, self.config.cols),
            axis_slot_extent(rect.top, rect.bottom, self.config.rows),
        )
    }

    /// The top left corner of cell `idx`.
    pub fn cell_origin(&self, idx: usize) -> (at: (i32, i32))
        requires
            self@.wf(),
            idx < self@.cells.len(),
        ensures
            at.0 == self@.cell_left(idx as int),
            at.1 == self@.cell_top(idx as int),
    {
        let (row, col) = self.cell_position(idx);
        let rect = self.config.monitor_rect;
        (
            axis_slot_start(rect.left, rect.right, self.config.cols, col),
            axis_slot_start(rect.top, rect.bottom, self.config.rows, row),
        )
    }

    /// The pixel at the visual center of cell `idx`.
    pub fn cell_center(&self, idx: usize) -> (at: (i32, i32))
        requires
            self@.wf(),
            idx < self@.cells.len(),
        ensures
            (at.0 as int, at.1 as int) == self@.cell_center(idx as int),
    {
        let (row, col) = self.cell_position(idx);
        let rect = self.config.monitor_rect;
        (
            axis_slot_middle(rect.left, rect.right, self.config.cols, col),
            axis_slot_middle(rect.top, rect.bottom, self.config.rows, row),
        )
    }

    /// Whether a window with the reported rectangle lies inside the monitor
    /// rectangle. Without a rectangle the window counts as large as a cell.
    pub fn window_fits_monitor(&self, window: Option<Rect>) -> (b: bool)
        requires
            self@.wf(),
        ensures
            b == self@.fits_monitor(window),
    {
        let (w, h): (i64, i64) = match window {
            Some(r) => (r.width(), r.height()),
            None => {
                let (cw, ch) = self.cell_size();
                (cw as i64, ch as i64)
            },
        };
        0 <= w && w <= self.config.monitor_rect.width() && 0 <= h && h
            <= self.config.monitor_rect.height()
    }

    /// Whether a window with the reported rectangle can be placed in this
    /// grid at all.
    pub fn is_placeable(&self, window: Option<Rect>) -> (b: bool)
        requires
            self@.wf(),
        ensures
            b == self@.placeable(window),
    {
        self.config.fit_grid || self.window_fits_monitor(window)
    }

    /// The move that puts a window with the reported rectangle into cell
    /// `idx`, fitted or centered as the grid is configured.
    pub fn move_target(&self, idx: usize, window: Option<Rect>) -> (request: MoveRequest)
        requires
            self@.wf(),
            idx < self@.cells.len(),
            self@.placeable(window),
        ensures
            request == self@.target(idx as int, window),
            request.cell == idx,
    {
        self.move_hwnd_to_cell(idx, self.config.fit_grid, window)
    }
}

} // verus!
