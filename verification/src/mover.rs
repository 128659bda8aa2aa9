//! Moves into a cell: where a window is put, the check that it got there,
//! the reservation of the launcher's cell, and the stepwise resizing of
//! console windows, which do not take every size.
use crate::assign::move_verified;
use crate::geometry::{axis_centered_start, Rect};
use crate::grid::GridState;
use crate::model::{GridConfig, GridModel, MoveRequest};
use vstd::prelude::*;

verus! {

/// The least height that is asked of a console window.
pub const CONSOLE_MIN_HEIGHT: i32 = 100;

/// By how much the height asked of a console window shrinks per attempt.
pub const CONSOLE_HEIGHT_STEP: i32 = 40;

/// A console window has settled when its height is less than this away from
/// the height asked for.
pub const CONSOLE_HEIGHT_TOLERANCE: i32 = 8;

/// What to do next with a console window that is being fitted to a cell.
#[derive(Clone, Copy, Debug, PartialEq, Eq)]
pub enum ConsoleStep {
    /// Ask the platform for the request's place and width and this height,
    /// then report the window's rectangle.
    Try(i32),
    /// The window is in place.
    Settled,
    /// No height is left to try; the window stays as it is.
    GaveUp,
}

/// Whether a console window asked to take `height` is in place: at the
/// requested position, and with a height close to the one asked for.
pub open spec fn console_settled(request: MoveRequest, height: i32, actual: Option<Rect>) -> bool {
    &&& actual matches Some(r)
    &&& r.left == request.x
    &&& r.top == request.y
    &&& -CONSOLE_HEIGHT_TOLERANCE < r.spec_height() - height < CONSOLE_HEIGHT_TOLERANCE
}

/// The next step after `tried` was asked for and `actual` came back;
/// `tried` is `None` before the first attempt.
pub open spec fn console_next(request: MoveRequest, tried: Option<i32>, actual: Option<Rect>) -> ConsoleStep {
    match tried {
        None => if request.height >= CONSOLE_MIN_HEIGHT {
            ConsoleStep::Try(request.height)
        } else {
            ConsoleStep::GaveUp
        },
        Some(height) => if console_settled(request, height, actual) {
            ConsoleStep::Settled
        } else if height - CONSOLE_HEIGHT_STEP >= CONSOLE_MIN_HEIGHT {
            ConsoleStep::Try((height - CONSOLE_HEIGHT_STEP) as i32)
        } else {
            ConsoleStep::GaveUp
        },
    }
}

/// One step of fitting a console window to a cell. The heights tried go
/// down from the cell's height in steps of `CONSOLE_HEIGHT_STEP`, and never
/// below `CONSOLE_MIN_HEIGHT`.
pub fn console_resize_step(request: &MoveRequest, tried: Option<i32>, actual: Option<Rect>) -> (step:
    ConsoleStep)
    ensures
        step == console_next(*request, tried, actual),
        step matches ConsoleStep::Try(next) ==> next >= CONSOLE_MIN_HEIGHT && (tried matches Some(
            height,
        ) ==> next < height),
{
    match tried {
        None => {
            if request.height >= CONSOLE_MIN_HEIGHT {
                ConsoleStep::Try(request.height)
            } else {
                ConsoleStep::GaveUp
            }
        },
        Some(height) => {
            let settled = match actual {
                Some(r) => {
                    let off: i64 = r.height() - (height as i64);
                    r.left == request.x && r.top == request.y && -(CONSOLE_HEIGHT_TOLERANCE as i64)
                        < off && off < CONSOLE_HEIGHT_TOLERANCE as i64
                },
                None => false,
            };
            if settled {
                ConsoleStep::Settled
            } else if height >= CONSOLE_MIN_HEIGHT + CONSOLE_HEIGHT_STEP {
                ConsoleStep::Try(height - CONSOLE_HEIGHT_STEP)
            } else {
                ConsoleStep::GaveUp
            }
        },
    }
}

impl GridModel {
    /// The state after cell `i` was reserved for the window `h`: the cell
    /// holds `h` alone, `h` holds no other cell, and the cell is the
    /// reserved one.
    pub open spec fn reserve(self, i: int, h: isize, now: u64) -> GridModel {
        let claimed = self.forget(h).occupy(h, i, now);
        GridModel {
            config: GridConfig { reserved_cell: Some(i as usize), ..self.config },
            ..claimed
        }
    }
}

impl GridState {
    /// The move that puts a window with the reported rectangle into cell
    /// `cell_idx`. With `fit_grid` the window takes the cell's place and
    /// size. Without, it keeps its size and is centered in the cell, pushed
    /// back inside the monitor rectangle, which it must fit.
    pub fn move_hwnd_to_cell(&self, cell_idx: usize, fit_grid: bool, window: Option<Rect>) -> (request:
        MoveRequest)
        requires
            self@.wf(),
            cell_idx < self@.cells.len(),
            fit_grid || self@.fits_monitor(window),
        ensures
            request == self@.target_for(cell_idx as int, fit_grid, window),
            request.cell == cell_idx,
    {
        proof {
            self@.cell_in_monitor(cell_idx as int);
        }
        let (cw, ch) = self.cell_size();
        if fit_grid {
            let (x, y) = self.cell_origin(cell_idx);
            MoveRequest { cell: cell_idx, x, y, width: cw, height: ch, resize: true }
        } else {
            let (w, h): (i64, i64) = match window {
                Some(r) => (r.width(), r.height()),
                None => (cw as i64, ch as i64),
            };
            let (row, col) = self.cell_position(cell_idx);
            let rect = self.config.monitor_rect;
            let x = axis_centered_start(rect.left, rect.right, self.config.cols, col, w);
            let y = axis_centered_start(rect.top, rect.bottom, self.config.rows, row, h);
            MoveRequest {
                cell: cell_idx,
                x: x.unwrap(),
                y: y.unwrap(),
                width: 0,
                height: 0,
                resize: false,
            }
        }
    }

    /// Checks a move against what the platform reports of the window
    /// afterwards, and records a failure for `hwnd` if the window is not
    /// where the request put it.
    pub fn confirm_move(&mut self, hwnd: isize, request: &MoveRequest, actual: Option<Rect>) -> (moved:
        bool)
        ensures
            moved == move_verified(*request, actual),
            final(self)@ == (if moved {
                old(self)@
            } else {
                old(self)@.record_failure(hwnd)
            }),
    {
        let moved = match actual {
            Some(r) => r.left == request.x && r.top == request.y,
            None => false,
        };
        if !moved {
            self.record_failure(hwnd);
        }
        moved
    }

    /// Reserves cell `parent_cell_idx` for the launcher's window
    /// `parent_hwnd` and puts the window into it. Returns the move that the
    /// caller is to carry out, fitted or centered as the grid is configured
    /// for the window's reported rectangle. With `None` nothing happens.
    pub fn set_parent_cell(
        &mut self,
        parent_cell_idx: Option<usize>,
        parent_hwnd: isize,
        window: Option<Rect>,
        now: u64,
    ) -> (request: Option<MoveRequest>)
        requires
            old(self)@.wf(),
            parent_cell_idx matches Some(idx) ==> idx < old(self)@.cells.len() && old(
                self,
            )@.placeable(window),
        ensures
            match parent_cell_idx {
                Some(idx) => {
                    &&& final(self)@ == old(self)@.reserve(idx as int, parent_hwnd, now)
                    &&& request == Some(old(self)@.target(idx as int, window))
                },
                None => final(self)@ == old(self)@ && request is None,
            },
            final(self)@.wf(),
            old(self)@.in_sync() ==> final(self)@.in_sync(),
    {
        match parent_cell_idx {
            Some(idx) => {
                proof {
                    old(self)@.forget_keeps_invariants(parent_hwnd);
                    old(self)@.forget(parent_hwnd).occupy_keeps_invariants(
                        parent_hwnd,
                        idx as int,
                        now,
                    );
                }
                let request = self.move_target(idx, window);
                let _ = self.window_destroyed(parent_hwnd);
                self.occupy_cell(parent_hwnd, idx, now);
                self.config.reserved_cell = Some(idx);
                Some(request)
            },
            None => None,
        }
    }
}

} // verus!
