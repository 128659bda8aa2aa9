use startt::{
    AssignStep, CellProbe, GridCell, GridConfig, GridPlacementMode, GridState, MoveRequest, Rect,
    MAX_HWND_RETRIES,
};

fn monitor() -> Rect {
    Rect { left: 0, top: 0, right: 1920, bottom: 1080 }
}

fn config(rows: u32, cols: u32) -> GridConfig {
    GridConfig {
        rows,
        cols,
        monitor: 0,
        monitor_rect: monitor(),
        fit_grid: true,
        placement_mode: GridPlacementMode::FirstFree,
        reserved_cell: None,
        timeout_secs: None,
        parent_hwnd: 9000,
        desktop_hwnd: 1,
        launcher_pid: 42,
        retain_parent_focus: false,
        retain_launcher_focus: false,
    }
}

/// What a platform in good order reports: every occupant alive, and each
/// cell's center pixel owned by the cell's occupant.
fn probes_of(grid: &GridState) -> Vec<CellProbe> {
    (0..grid.cell_count())
        .map(|i| CellProbe { occupant_alive: true, pixel_owner: grid.cell(i).unwrap().hwnd })
        .collect()
}

fn at(request: &MoveRequest) -> Option<Rect> {
    Some(Rect {
        left: request.x,
        top: request.y,
        right: request.x + 100,
        bottom: request.y + 100,
    })
}

/// Plans and completes an assignment on a platform that moves every window
/// where it is asked to.
fn place(grid: &mut GridState, hwnd: isize, now: u64) -> (Option<isize>, Option<usize>) {
    let probes = probes_of(grid);
    match grid.assign_window_to_grid_cell(hwnd, None, &probes, now) {
        AssignStep::AlreadyPlaced(cell) => (None, Some(cell)),
        AssignStep::Move { closed, request } => {
            (closed, grid.complete_assignment(hwnd, &request, at(&request), now))
        }
        AssignStep::NoCell { closed } => (closed, None),
        AssignStep::GivenUp | AssignStep::CannotPlace => (None, None),
    }
}

fn assert_in_sync(grid: &GridState) {
    for i in 0..grid.cell_count() {
        let cell = grid.cell(i).unwrap();
        assert_eq!(cell.hwnd.is_some(), cell.filled_at.is_some());
        if let Some(h) = cell.hwnd {
            assert_eq!(grid.cell_of(h), Some(i));
        }
    }
    let mut probes = probes_of(grid);
    probes.truncate(grid.cell_count());
    let mut copy = GridState::from_parts(
        grid.config(),
        (0..grid.cell_count()).map(|i| grid.cell(i).unwrap()).collect(),
        &(0..grid.cell_count())
            .filter_map(|i| grid.cell(i).unwrap().hwnd.map(|h| (h, grid.cell_of(h).unwrap())))
            .collect(),
    )
    .unwrap();
    assert!(copy.check_and_fix_grid_sync(&probes).found_agreement());
}

#[test]
fn four_windows_fill_the_grid_in_order_and_a_fifth_evicts_the_oldest() {
    let mut grid = GridState::new(config(2, 2)).unwrap();
    assert_eq!(place(&mut grid, 101, 1000), (None, Some(0)));
    assert_eq!(place(&mut grid, 102, 2000), (None, Some(1)));
    assert_eq!(place(&mut grid, 103, 3000), (None, Some(2)));
    assert!(!grid.has_been_filled_at_some_point());
    assert_eq!(place(&mut grid, 104, 4000), (None, Some(3)));
    assert!(grid.has_been_filled_at_some_point());
    assert_eq!(place(&mut grid, 105, 5000), (Some(101), Some(0)));
    assert!(grid.has_been_filled_at_some_point());
    assert_eq!(grid.cell(0), Some(GridCell { hwnd: Some(105), filled_at: Some(5000) }));
    assert_eq!(grid.cell_of(101), None);
    assert_eq!(grid.cell_of(105), Some(0));
    assert_in_sync(&grid);
}

#[test]
fn a_sixth_window_evicts_the_next_oldest() {
    let mut grid = GridState::new(config(2, 2)).unwrap();
    for (k, h) in [101isize, 102, 103, 104, 105].iter().enumerate() {
        place(&mut grid, *h, 1000 * (k as u64 + 1));
    }
    assert_eq!(place(&mut grid, 106, 6000), (Some(102), Some(1)));
    assert_in_sync(&grid);
}

#[test]
fn eviction_takes_the_lowest_cell_among_equally_old_ones() {
    let mut grid = GridState::new(config(1, 3)).unwrap();
    place(&mut grid, 101, 7);
    place(&mut grid, 102, 7);
    place(&mut grid, 103, 7);
    let evicted = grid.evict_oldest_cell().unwrap();
    assert_eq!((evicted.cell, evicted.hwnd), (0, 101));
    let evicted = grid.evict_oldest_cell().unwrap();
    assert_eq!((evicted.cell, evicted.hwnd), (1, 102));
}

#[test]
fn assigning_twice_returns_the_same_cell_and_asks_for_no_move() {
    let mut grid = GridState::new(config(2, 2)).unwrap();
    assert_eq!(place(&mut grid, 101, 1000), (None, Some(0)));
    let before = grid.cell(0);
    let probes = probes_of(&grid);
    assert_eq!(
        grid.assign_window_to_grid_cell(101, None, &probes, 2000),
        AssignStep::AlreadyPlaced(0)
    );
    assert_eq!(
        grid.assign_window_to_grid_cell(101, Some(monitor()), &probes, 3000),
        AssignStep::AlreadyPlaced(0)
    );
    assert_eq!(grid.cell(0), before);
    assert_eq!(grid.cell(1), Some(GridCell { hwnd: None, filled_at: None }));
}

#[test]
fn a_planned_move_claims_no_cell_until_it_is_confirmed() {
    let mut grid = GridState::new(config(2, 2)).unwrap();
    let probes = probes_of(&grid);
    let step = grid.assign_window_to_grid_cell(101, None, &probes, 1000);
    let request = match step {
        AssignStep::Move { closed: None, request } => request,
        other => panic!("unexpected step {:?}", other),
    };
    assert_eq!(
        request,
        MoveRequest { cell: 0, x: 0, y: 0, width: 960, height: 540, resize: true }
    );
    assert_eq!(grid.cell(0), Some(GridCell { hwnd: None, filled_at: None }));
    assert_eq!(grid.cell_of(101), None);
    assert_eq!(grid.complete_assignment(101, &request, at(&request), 1500), Some(0));
    assert_eq!(grid.cell(0), Some(GridCell { hwnd: Some(101), filled_at: Some(1500) }));
    assert_eq!(grid.cell_of(101), Some(0));
}

#[test]
fn a_failed_move_claims_nothing_and_is_counted() {
    let mut grid = GridState::new(config(2, 2)).unwrap();
    let probes = probes_of(&grid);
    let request = match grid.assign_window_to_grid_cell(101, None, &probes, 1000) {
        AssignStep::Move { request, .. } => request,
        other => panic!("unexpected step {:?}", other),
    };
    let elsewhere = Some(Rect { left: 5, top: 0, right: 105, bottom: 100 });
    assert_eq!(grid.complete_assignment(101, &request, elsewhere, 1000), None);
    assert_eq!(grid.failure_count(101), 1);
    assert_eq!(grid.complete_assignment(101, &request, None, 1000), None);
    assert_eq!(grid.failure_count(101), 2);
    assert_eq!(grid.cell(0), Some(GridCell { hwnd: None, filled_at: None }));
    assert_eq!(grid.cell_of(101), None);
    assert_eq!(grid.failure_count(102), 0);
}

#[test]
fn three_failed_moves_end_all_attempts() {
    assert_eq!(MAX_HWND_RETRIES, 3);
    let mut grid = GridState::new(config(2, 2)).unwrap();
    for attempt in 0..3u32 {
        let probes = probes_of(&grid);
        let request = match grid.assign_window_to_grid_cell(101, None, &probes, 1000) {
            AssignStep::Move { request, .. } => request,
            other => panic!("attempt {}: unexpected step {:?}", attempt, other),
        };
        assert_eq!(grid.complete_assignment(101, &request, None, 1000), None);
    }
    let probes = probes_of(&grid);
    assert_eq!(grid.assign_window_to_grid_cell(101, None, &probes, 2000), AssignStep::GivenUp);
    assert_eq!(grid.assign_window_to_grid_cell(101, None, &probes, 9000), AssignStep::GivenUp);
    assert_eq!(place(&mut grid, 102, 3000), (None, Some(0)));
    assert_in_sync(&grid);
}

#[test]
fn the_grid_counts_as_full_without_the_reserved_cell() {
    let mut cfg = config(1, 3);
    cfg.reserved_cell = Some(1);
    let mut grid = GridState::new(cfg).unwrap();
    assert_eq!(place(&mut grid, 101, 1000), (None, Some(0)));
    assert!(!grid.has_been_filled_at_some_point());
    assert_eq!(place(&mut grid, 102, 2000), (None, Some(2)));
    assert!(grid.has_been_filled_at_some_point());
    // Once full, always noted as having been full.
    assert_eq!(grid.window_destroyed(101), Some(0));
    assert!(grid.has_been_filled_at_some_point());
}

#[test]
fn a_failed_move_into_the_last_cell_does_not_count_as_full() {
    let mut grid = GridState::new(config(1, 1)).unwrap();
    let probes = probes_of(&grid);
    let request = match grid.assign_window_to_grid_cell(101, None, &probes, 1) {
        AssignStep::Move { request, .. } => request,
        other => panic!("unexpected step {:?}", other),
    };
    assert_eq!(grid.complete_assignment(101, &request, None, 1), None);
    assert!(!grid.has_been_filled_at_some_point());
    assert_eq!(grid.complete_assignment(101, &request, at(&request), 2), Some(0));
    assert!(grid.has_been_filled_at_some_point());
}

#[test]
fn ordinary_windows_never_get_the_reserved_cell() {
    let mut cfg = config(2, 2);
    cfg.reserved_cell = Some(0);
    let mut grid = GridState::new(cfg).unwrap();
    assert_eq!(place(&mut grid, 101, 1000), (None, Some(1)));
    assert_eq!(place(&mut grid, 102, 2000), (None, Some(2)));
    assert_eq!(place(&mut grid, 103, 3000), (None, Some(3)));
    assert_eq!(place(&mut grid, 104, 4000), (Some(101), Some(1)));
    assert_eq!(grid.cell(0), Some(GridCell { hwnd: None, filled_at: None }));
}

#[test]
fn the_launcher_gets_the_reserved_cell_and_is_never_evicted() {
    let mut cfg = config(2, 2);
    cfg.reserved_cell = Some(0);
    let mut grid = GridState::new(cfg).unwrap();
    assert_eq!(place(&mut grid, 9000, 10), (None, Some(0)));
    assert_eq!(place(&mut grid, 101, 1000), (None, Some(1)));
    assert_eq!(place(&mut grid, 102, 2000), (None, Some(2)));
    assert_eq!(place(&mut grid, 103, 3000), (None, Some(3)));
    // Cell 0 is the least recently filled, and still it is cell 1 that goes.
    let evicted = grid.evict_oldest_cell().unwrap();
    assert_eq!((evicted.cell, evicted.hwnd), (1, 101));
    assert_eq!(grid.cell_of(9000), Some(0));
    assert_eq!(grid.evict_oldest_cell().map(|e| e.cell), Some(2));
    assert_eq!(grid.evict_oldest_cell().map(|e| e.cell), Some(3));
    assert_eq!(grid.evict_oldest_cell(), None);
    assert_eq!(grid.cell(0), Some(GridCell { hwnd: Some(9000), filled_at: Some(10) }));
}

#[test]
fn the_launchers_window_is_protected_in_any_cell() {
    let mut grid = GridState::new(config(1, 2)).unwrap();
    assert_eq!(place(&mut grid, 9000, 10), (None, Some(0)));
    assert_eq!(place(&mut grid, 101, 20), (None, Some(1)));
    assert_eq!(place(&mut grid, 102, 30), (Some(101), Some(1)));
    assert_eq!(grid.cell_of(9000), Some(0));
}

#[test]
fn nothing_evictable_means_no_cell() {
    let mut cfg = config(1, 1);
    cfg.reserved_cell = Some(0);
    let mut grid = GridState::new(cfg).unwrap();
    assert_eq!(place(&mut grid, 101, 1000), (None, None));
    let probes = probes_of(&grid);
    assert_eq!(
        grid.assign_window_to_grid_cell(101, None, &probes, 1000),
        AssignStep::NoCell { closed: None }
    );
}

#[test]
fn a_stale_occupant_makes_its_cell_available() {
    let mut grid = GridState::new(config(1, 2)).unwrap();
    place(&mut grid, 101, 1000);
    place(&mut grid, 102, 2000);
    let mut probes = probes_of(&grid);
    probes[1] = CellProbe { occupant_alive: false, pixel_owner: None };
    match grid.assign_window_to_grid_cell(103, None, &probes, 3000) {
        AssignStep::Move { closed: None, request } => assert_eq!(request.cell, 1),
        other => panic!("unexpected step {:?}", other),
    }
    assert_eq!(grid.cell_of(102), None);
    assert_eq!(grid.cell(1), Some(GridCell { hwnd: None, filled_at: None }));
    assert_eq!(grid.cell_of(101), Some(0));
    assert_in_sync(&grid);
}

#[test]
fn the_availability_check_clears_only_what_is_available() {
    let mut grid = GridState::new(config(1, 2)).unwrap();
    place(&mut grid, 101, 1000);
    assert!(!grid.is_cell_available(0, true));
    assert_eq!(grid.cell_of(101), Some(0));
    assert!(grid.is_cell_available(1, true));
    assert!(grid.is_cell_available(0, false));
    assert_eq!(grid.cell_of(101), None);
    assert_eq!(grid.cell(0), Some(GridCell { hwnd: None, filled_at: None }));
}

#[test]
fn a_cell_whose_center_shows_a_tracked_window_is_passed_over() {
    let mut grid = GridState::new(config(1, 3)).unwrap();
    place(&mut grid, 101, 1000);
    let mut probes = probes_of(&grid);
    // The window of cell 0 still covers the center of the empty cell 1.
    probes[1].pixel_owner = Some(101);
    match grid.assign_window_to_grid_cell(102, None, &probes, 2000) {
        AssignStep::Move { request, .. } => assert_eq!(request.cell, 2),
        other => panic!("unexpected step {:?}", other),
    }
    // An untracked window at the center does not count.
    probes[1].pixel_owner = Some(777);
    match grid.assign_window_to_grid_cell(102, None, &probes, 2000) {
        AssignStep::Move { request, .. } => assert_eq!(request.cell, 1),
        other => panic!("unexpected step {:?}", other),
    }
}

#[test]
fn sequential_placement_goes_round_and_skips_the_reserved_cell() {
    let mut cfg = config(1, 3);
    cfg.placement_mode = GridPlacementMode::Sequential;
    cfg.reserved_cell = Some(1);
    let mut grid = GridState::new(cfg).unwrap();
    assert_eq!(place(&mut grid, 101, 1000), (None, Some(0)));
    assert_eq!(place(&mut grid, 102, 2000), (None, Some(2)));
    // The cursor is back at cell 0, which is taken: the oldest goes.
    assert_eq!(place(&mut grid, 103, 3000), (Some(101), Some(0)));
    assert_eq!(place(&mut grid, 9000, 4000), (None, Some(1)));
    assert_in_sync(&grid);
}

#[test]
fn sequential_placement_ignores_the_pixel_check() {
    let mut cfg = config(1, 2);
    cfg.placement_mode = GridPlacementMode::Sequential;
    let mut grid = GridState::new(cfg).unwrap();
    place(&mut grid, 101, 1000);
    let mut probes = probes_of(&grid);
    probes[1].pixel_owner = Some(101);
    assert_eq!(grid.next_position(102, &probes, 2000), Some(1));
    assert_eq!(grid.next_position(103, &probes, 2000), None);
    assert_eq!(grid.next_position(104, &probes, 2000), Some(1));
}

#[test]
fn a_window_larger_than_the_monitor_cannot_be_placed_unfitted() {
    let mut cfg = config(2, 2);
    cfg.fit_grid = false;
    let mut grid = GridState::new(cfg).unwrap();
    let probes = probes_of(&grid);
    let huge = Some(Rect { left: 0, top: 0, right: 1921, bottom: 100 });
    assert_eq!(grid.assign_window_to_grid_cell(101, huge, &probes, 1), AssignStep::CannotPlace);
    let inverted = Some(Rect { left: 10, top: 0, right: 0, bottom: 100 });
    assert_eq!(grid.assign_window_to_grid_cell(101, inverted, &probes, 1), AssignStep::CannotPlace);
    assert_eq!(grid.failure_count(101), 0);
}

#[test]
fn an_unfitted_window_is_centered_in_its_cell() {
    let mut cfg = config(2, 2);
    cfg.fit_grid = false;
    let mut grid = GridState::new(cfg).unwrap();
    let probes = probes_of(&grid);
    let window = Some(Rect { left: 50, top: 60, right: 450, bottom: 360 });
    assert_eq!(
        grid.assign_window_to_grid_cell(101, window, &probes, 1),
        AssignStep::Move {
            closed: None,
            request: MoveRequest { cell: 0, x: 280, y: 120, width: 0, height: 0, resize: false },
        }
    );
    // Without a rectangle the window counts as large as a cell.
    assert_eq!(
        grid.move_target(3, None),
        MoveRequest { cell: 3, x: 960, y: 540, width: 0, height: 0, resize: false }
    );
    // A window wider than its cell is pushed back inside the monitor.
    let wide = Some(Rect { left: 0, top: 0, right: 1900, bottom: 700 });
    assert_eq!(
        grid.move_target(3, wide),
        MoveRequest { cell: 3, x: 20, y: 380, width: 0, height: 0, resize: false }
    );
    assert_eq!(
        grid.move_target(0, wide),
        MoveRequest { cell: 0, x: 0, y: 0, width: 0, height: 0, resize: false }
    );
}

#[test]
fn a_window_that_got_a_cell_meanwhile_keeps_it() {
    let mut grid = GridState::new(config(1, 2)).unwrap();
    let probes = probes_of(&grid);
    let first = match grid.assign_window_to_grid_cell(101, None, &probes, 1) {
        AssignStep::Move { request, .. } => request,
        other => panic!("unexpected step {:?}", other),
    };
    assert_eq!(grid.complete_assignment(101, &first, at(&first), 1), Some(0));
    let other = grid.move_target(1, None);
    assert_eq!(grid.complete_assignment(101, &other, at(&other), 2), Some(0));
    assert_eq!(grid.cell(1), Some(GridCell { hwnd: None, filled_at: None }));
}

#[test]
fn committing_over_an_occupant_drops_the_occupant_from_the_index() {
    let mut grid = GridState::new(config(1, 2)).unwrap();
    place(&mut grid, 101, 1);
    let request = grid.move_target(0, None);
    assert_eq!(grid.complete_assignment(102, &request, at(&request), 2), Some(0));
    assert_eq!(grid.cell_of(101), None);
    assert_eq!(grid.cell_of(102), Some(0));
    assert_in_sync(&grid);
}
