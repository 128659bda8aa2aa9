//! What holds of the engine as a whole: across operations, and between
//! them.
use crate::assign::{move_verified, AssignStep};
use crate::geometry::Rect;
use crate::grid::GridState;
use crate::model::{elapsed_secs, CellProbe, GridConfig, GridModel, GridPlacementMode, MoveRequest};
use vstd::prelude::*;

verus! {

/// One operation of the engine, with what the caller hands it.
pub enum GridOp {
    /// `assign_window_to_grid_cell`
    Assign { hwnd: isize, window: Option<Rect>, probes: Seq<CellProbe>, now: u64 },
    /// `complete_assignment`
    Complete { hwnd: isize, request: MoveRequest, actual: Option<Rect>, now: u64 },
    /// `is_cell_available`
    CheckCell { cell: usize, occupant_alive: bool },
    /// `next_position`
    Choose { hwnd: isize, probes: Seq<CellProbe>, now: u64 },
    /// `evict_oldest_cell`
    EvictOldest,
    /// `evict_expired_cell`
    EvictExpired { now: u64 },
    /// `window_destroyed`
    Destroyed { hwnd: isize },
    /// `check_and_fix_grid_sync`
    Repair,
    /// `determine_cell_owners`
    Snapshot { probes: Seq<CellProbe> },
    /// `set_parent_cell`
    Reserve { cell: usize, hwnd: isize, now: u64 },
    /// `confirm_move` of a move that failed, and `record_failure`
    Failure { hwnd: isize },
    /// `set_has_been_filled_at_some_point`
    NoteFull,
}

impl GridOp {
    /// What the operation asks of its arguments on a grid of `n` cells.
    pub open spec fn fits(self, n: nat) -> bool {
        match self {
            GridOp::Assign { probes, .. } => probes.len() == n,
            GridOp::Complete { request, .. } => request.cell < n,
            GridOp::CheckCell { cell, .. } => cell < n,
            GridOp::Choose { probes, .. } => probes.len() == n,
            GridOp::Snapshot { probes } => probes.len() == n,
            GridOp::Reserve { cell, .. } => cell < n,
            _ => true,
        }
    }
}

impl GridModel {
    /// The state that an operation leaves.
    pub open spec fn step(self, op: GridOp) -> GridModel {
        match op {
            GridOp::Assign { hwnd, window, probes, now } => self.assign(hwnd, window, probes, now).0,
            GridOp::Complete { hwnd, request, actual, now } => self.complete(
                hwnd,
                request,
                actual,
                now,
            ).0,
            GridOp::CheckCell { cell, occupant_alive } => self.release(cell as int, occupant_alive),
            GridOp::Choose { hwnd, probes, now } => self.select(hwnd, probes, now).0,
            GridOp::EvictOldest => self.after_oldest_eviction(),
            GridOp::EvictExpired { now } => self.after_sweep(now),
            GridOp::Destroyed { hwnd } => self.forget(hwnd),
            GridOp::Repair => self.repair(),
            GridOp::Snapshot { probes } => self.purged(probes, self.cells.len() as int),
            GridOp::Reserve { cell, hwnd, now } => self.reserve(cell as int, hwnd, now),
            GridOp::Failure { hwnd } => self.record_failure(hwnd),
            GridOp::NoteFull => GridModel { ever_full: true, ..self },
        }
    }

    /// The state that a sequence of operations leaves.
    pub open spec fn run(self, ops: Seq<GridOp>) -> GridModel
        decreases ops.len(),
    {
        if ops.len() == 0 {
            self
        } else {
            self.run(ops.drop_last()).step(ops.last())
        }
    }
}

/// Every operation, begun on a well-formed grid whose cell table and
/// occupancy index agree, ends on such a grid. The grid keeps its shape,
/// and a window that was given up stays given up.
pub proof fn operation_keeps_agreement(s: GridModel, op: GridOp)
    requires
        s.wf(),
        s.in_sync(),
        op.fits(s.cells.len()),
    ensures
        s.step(op).wf(),
        s.step(op).in_sync(),
        s.step(op).cells.len() == s.cells.len(),
        forall|h: isize| s.failure_count(h) <= s.step(op).failure_count(h),
        forall|h: isize| s.given_up(h) ==> s.step(op).given_up(h),
{
    let n = s.cells.len() as int;
    match op {
        GridOp::Assign { hwnd, window, probes, now } => {
            s.assign_keeps_invariants(hwnd, window, probes, now);
        },
        GridOp::Complete { hwnd, request, actual, now } => {
            if move_verified(request, actual) && !s.index.contains_key(hwnd) {
                s.occupy_keeps_invariants(hwnd, request.cell as int, now);
            }
        },
        GridOp::CheckCell { cell, occupant_alive } => {
            s.release_keeps_invariants(cell as int, occupant_alive);
        },
        GridOp::Choose { hwnd, probes, now } => {
            s.select_keeps_invariants(hwnd, probes, now);
        },
        GridOp::EvictOldest => {
            if let Some(e) = s.oldest_evictable() {
                assert(s.is_oldest_evictable(e));
                s.evict_keeps_invariants(e);
            }
        },
        GridOp::EvictExpired { now } => {
            s.first_expired_is_lowest(now, 0);
            if let Some(e) = s.first_expired(now, 0) {
                s.evict_keeps_invariants(e);
            }
        },
        GridOp::Destroyed { hwnd } => {
            s.forget_keeps_invariants(hwnd);
        },
        GridOp::Repair => {
            s.repair_of_synced();
        },
        GridOp::Snapshot { probes } => {
            s.purged_keeps_invariants(probes, n);
        },
        GridOp::Reserve { cell, hwnd, now } => {
            s.forget_keeps_invariants(hwnd);
            s.forget(hwnd).occupy_keeps_invariants(hwnd, cell as int, now);
        },
        GridOp::Failure { hwnd } => {},
        GridOp::NoteFull => {},
    }
}

/// Whatever sequence of operations is run on a freshly built grid, after
/// each of them the cell table and the occupancy index agree.
pub proof fn agreement_survives_every_sequence(config: GridConfig, ops: Seq<GridOp>)
    requires
        config.valid(),
        forall|k: int| 0 <= k < ops.len() ==> (#[trigger] ops[k]).fits(config.total() as nat),
    ensures
        GridState::fresh(config).run(ops).wf(),
        GridState::fresh(config).run(ops).in_sync(),
        GridState::fresh(config).run(ops).cells.len() == config.total(),
    decreases ops.len(),
{
    let start = GridState::fresh(config);
    if ops.len() == 0 {
        assert(1 <= config.rows * config.cols) by (nonlinear_arith)
            requires
                1 <= config.rows,
                1 <= config.cols,
        ;
        assert(start.wf());
        assert(start.in_sync());
    } else {
        let earlier = ops.drop_last();
        assert forall|k: int| 0 <= k < earlier.len() implies (#[trigger] earlier[k]).fits(
            config.total() as nat,
        ) by {
            assert(earlier[k] == ops[k]);
        }
        agreement_survives_every_sequence(config, earlier);
        assert(ops.last() == ops[ops.len() - 1]);
        operation_keeps_agreement(start.run(earlier), ops.last());
    }
}

/// Where cell table and occupancy index agree, no window holds two cells,
/// and the index holds exactly the windows that hold a cell.
pub proof fn agreement_means_one_cell_per_window(s: GridModel)
    requires
        s.in_sync(),
    ensures
        forall|i: int, j: int|
            0 <= i < s.cells.len() && 0 <= j < s.cells.len() && i != j && s.cells[i].hwnd is Some
                ==> s.cells[i].hwnd != s.cells[j].hwnd,
        forall|h: isize| s.index.contains_key(h) <==> exists|i: int| s.holds(i, h),
{
    assert forall|i: int, j: int|
        0 <= i < s.cells.len() && 0 <= j < s.cells.len() && i != j && s.cells[i].hwnd
            is Some implies s.cells[i].hwnd != s.cells[j].hwnd by {
        if s.cells[i].hwnd == s.cells[j].hwnd {
            assert(s.tracked_at(s.cells[i].hwnd->0, i));
            assert(s.tracked_at(s.cells[j].hwnd->0, j));
        }
    }
    assert forall|h: isize| s.index.contains_key(h) <==> exists|i: int| s.holds(i, h) by {
        if s.index.contains_key(h) {
            assert(s.holds(s.index[h] as int, h));
        }
        if exists|i: int| s.holds(i, h) {
            let i = choose|i: int| s.holds(i, h);
            assert(s.tracked_at(s.cells[i].hwnd->0, i));
        }
    }
}

/// Assignment is idempotent: once a window has a cell, planning its
/// placement again names that cell, asks for no move and changes nothing.
pub proof fn placed_window_keeps_its_cell(
    s: GridModel,
    hwnd: isize,
    request: MoveRequest,
    actual: Option<Rect>,
    now: u64,
    window: Option<Rect>,
    probes: Seq<CellProbe>,
    later: u64,
)
    requires
        s.complete(hwnd, request, actual, now).1 is Some,
    ensures
        ({
            let (placed, cell) = s.complete(hwnd, request, actual, now);
            &&& placed.assign(hwnd, window, probes, later) == (
                placed,
                AssignStep::AlreadyPlaced(cell->0),
            )
            &&& placed.complete(hwnd, request, actual, later) == (placed, cell)
        }),
{
}

/// One repair pass settles every well-formed grid: a second pass in a row
/// changes nothing and has nothing to correct, since no occupant is left
/// without entry and no entry names a cell that does not hold its handle.
/// What the first pass flagged, a window in two cells, the second flags
/// again; without such a window the pass ends in agreement.
pub proof fn repair_settles(s: GridModel)
    requires
        s.wf(),
    ensures
        s.repair().repair() == s.repair(),
        forall|i: int| !s.repair().unentered_at(i) && !s.repair().missing_at(i),
        forall|h: isize| s.repair().index.contains_key(h) ==> s.repair().valid_entry(h),
        s.repair().cells == s.cells,
        s.repair().in_sync() <==> s.distinct_occupants(),
        s.in_sync() ==> s.repair() == s,
{
    let r = s.repair();
    s.repair_enters_every_occupant();
    s.repair_agrees_where_occupants_differ();
    assert forall|h: isize| r.held(h) == s.held(h) by {
        if r.held(h) {
            let i = choose|i: int| r.holds(i, h);
            assert(s.holds(i, h));
        }
        if s.held(h) {
            let i = choose|i: int| s.holds(i, h);
            assert(r.holds(i, h));
        }
    }
    assert(r.repair().index =~= r.index);
    if s.in_sync() {
        s.repair_of_synced();
    }
}

/// The reserved cell is protected. Planning the placement of any window
/// but the launcher's never names it and leaves it as it was, and neither
/// eviction of the oldest occupant nor the timeout sweep ever takes it,
/// however long it has been filled.
pub proof fn reserved_cell_is_protected(
    s: GridModel,
    hwnd: isize,
    window: Option<Rect>,
    probes: Seq<CellProbe>,
    now: u64,
    reserved: usize,
)
    requires
        s.wf(),
        probes.len() == s.cells.len(),
        s.config.reserved_cell == Some(reserved),
    ensures
        !s.is_launcher(hwnd) ==> (s.assign(hwnd, window, probes, now).1 matches AssignStep::Move {
            request,
            ..
        } ==> request.cell != reserved),
        !s.is_launcher(hwnd) ==> s.assign(hwnd, window, probes, now).0.cells[reserved as int]
            == s.cells[reserved as int],
        !s.is_oldest_evictable(reserved as int),
        s.after_oldest_eviction().cells[reserved as int] == s.cells[reserved as int],
        !s.expired(reserved as int, now),
        s.after_sweep(now).cells[reserved as int] == s.cells[reserved as int],
{
    let at = reserved as int;
    assert(s.is_reserved(at));
    if let Some(e) = s.oldest_evictable() {
        assert(s.is_oldest_evictable(e));
    }
    s.first_expired_is_lowest(now, 0);
    if !s.is_launcher(hwnd) {
        s.assign_keeps_invariants(hwnd, window, probes, now);
        if !s.index.contains_key(hwnd) && !s.given_up(hwnd) && s.placeable(window) {
            s.select_keeps_invariants(hwnd, probes, now);
            let (chosen_state, chosen) = s.select(hwnd, probes, now);
            assert(chosen_state.cells[at] == s.cells[at]) by {
                if s.config.placement_mode == GridPlacementMode::FirstFree {
                    s.first_eligible_is_lowest(hwnd, probes, now, 0);
                }
            }
            if chosen is None {
                let noted = chosen_state.note_if_full();
                if let Some(e) = noted.oldest_evictable() {
                    assert(noted.is_oldest_evictable(e));
                }
            }
        }
    }
}

/// The timeout counts whole seconds on a clock that counts milliseconds:
/// an occupant placed at `filled_at` has timed out at `now` exactly when
/// `timeout` thousand milliseconds have passed.
pub proof fn timeout_in_milliseconds(filled_at: u64, now: u64, timeout: u64)
    requires
        filled_at <= now,
    ensures
        elapsed_secs(filled_at, now) >= timeout <==> now - filled_at >= timeout * 1000,
{
    let d = now - filled_at;
    assert(d / 1000 >= timeout <==> d >= timeout * 1000) by (nonlinear_arith)
        requires
            d >= 0,
            timeout >= 0,
    ;
}

/// After three moves in a row that the platform did not confirm, a window
/// is given up: planning its placement asks for no move, evicts nothing
/// and changes nothing. A window that holds a cell by then keeps it.
pub proof fn three_failures_end_all_attempts(
    s: GridModel,
    hwnd: isize,
    first: (MoveRequest, Option<Rect>, u64),
    second: (MoveRequest, Option<Rect>, u64),
    third: (MoveRequest, Option<Rect>, u64),
    window: Option<Rect>,
    probes: Seq<CellProbe>,
    now: u64,
)
    requires
        !move_verified(first.0, first.1),
        !move_verified(second.0, second.1),
        !move_verified(third.0, third.1),
    ensures
        ({
            let after = s.complete(hwnd, first.0, first.1, first.2).0.complete(
                hwnd,
                second.0,
                second.1,
                second.2,
            ).0.complete(hwnd, third.0, third.1, third.2).0;
            &&& after.given_up(hwnd)
            &&& after.cells == s.cells
            &&& after.index == s.index
            &&& after.assign(hwnd, window, probes, now) == (
                after,
                if after.index.contains_key(hwnd) {
                    AssignStep::AlreadyPlaced(after.index[hwnd])
                } else {
                    AssignStep::GivenUp
                },
            )
        }),
{
}

/// A window that was given up and holds no cell is refused without a look
/// at the platform's report: the plan is the same whatever the report
/// says.
pub proof fn given_up_window_is_refused(
    s: GridModel,
    hwnd: isize,
    window: Option<Rect>,
    probes: Seq<CellProbe>,
    now: u64,
)
    requires
        s.given_up(hwnd),
        !s.index.contains_key(hwnd),
    ensures
        s.assign(hwnd, window, probes, now) == (s, AssignStep::GivenUp),
{
}

} // verus!
