//! Grid placement and eviction engine.
//!
//! The engine decides which cell of a fixed rows x columns grid a window is
//! assigned to, keeps the cell table and the occupancy index in agreement,
//! reclaims cells, and gives up on windows that will not move.
//!
//! It never touches the platform. The caller reports what the platform
//! shows and carries out what the engine asks for:
//!
//! 1. `GridState::assign_window_to_grid_cell` takes the platform's report of
//!    every cell and plans the placement of a window. Its answer may ask
//!    for a move, and for the closing of a window that was evicted.
//! 2. The caller moves the window; for a console window that is to fill its
//!    cell it follows `console_resize_step`.
//! 3. `GridState::complete_assignment` takes the rectangle that the
//!    platform then reports, and commits the cell or counts a failure.
//!
//! `GridState::evict_expired_cell` is the timeout sweep,
//! `GridState::window_destroyed` the housekeeping after a window's
//! destruction, `GridState::check_and_fix_grid_sync` the repair pass, and
//! `GridState::determine_cell_owners` the diagnostic snapshot.
//!
//! Around the engine stand what the poll loop needs before it has a window
//! to hand over: `descendants` walks a snapshot of the process table,
//! `find_oldest_recent_apps` and `find_most_recent_gui_apps` choose among
//! the listed windows, and `GridState::is_hwnd_eligible` is the filter.
//!
//! `model` holds the mathematics that the contracts are stated over, and
//! `laws` what is proved of the engine as a whole. The engine is to be
//! shared behind one lock: every operation takes it by `&mut`.
pub mod assign;
pub mod availability;
pub mod command;
pub mod eligibility;
pub mod evict;
pub mod filetime;
pub mod geometry;
pub mod grid;
pub mod grid_arg;
pub mod laws;
pub mod model;
pub mod mover;
pub mod occupancy;
pub mod owners;
pub mod picks;
pub mod placement;
pub mod process_tree;
pub mod recent;
pub mod select;
pub mod sync;

pub use assign::AssignStep;
pub use command::PendingCmd;
pub use eligibility::{is_console_class, is_denied_class, is_hwnd_new, WindowFacts};
pub use evict::Eviction;
pub use filetime::filetime_to_unix_time;
pub use geometry::Rect;
pub use grid::{GridError, GridState};
pub use grid_arg::{parse_grid_arg, GridArgError};
pub use model::{CellProbe, GridCell, GridConfig, GridPlacementMode, MoveRequest, MAX_HWND_RETRIES};
pub use mover::{console_resize_step, ConsoleStep};
pub use owners::{CellOwner, CellOwners};
pub use process_tree::descendants;
pub use recent::{find_most_recent_gui_apps, find_oldest_recent_apps, RecordFilter, WindowRecord};
pub use sync::SyncReport;
