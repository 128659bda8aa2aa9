use startt::{
    CellOwner, CellProbe, GridCell, GridConfig, GridPlacementMode, GridState, Rect,
};

fn config() -> GridConfig {
    GridConfig {
        rows: 2,
        cols: 2,
        monitor: 0,
        monitor_rect: Rect { left: 0, top: 0, right: 1920, bottom: 1080 },
        fit_grid: true,
        placement_mode: GridPlacementMode::FirstFree,
        reserved_cell: None,
        timeout_secs: None,
        parent_hwnd: 9000,
        desktop_hwnd: 1,
        launcher_pid: 42,
        retain_parent_focus: false,
        retain_launcher_focus: false,
    }
}

fn held(hwnd: isize) -> GridCell {
    GridCell { hwnd: Some(hwnd), filled_at: Some(5) }
}

const EMPTY: GridCell = GridCell { hwnd: None, filled_at: None };

fn grid() -> GridState {
    GridState::from_parts(
        config(),
        vec![held(101), held(102), EMPTY, EMPTY],
        &vec![(101, 0), (102, 1)],
    )
    .unwrap()
}

fn probes() -> Vec<CellProbe> {
    vec![
        CellProbe { occupant_alive: true, pixel_owner: Some(101) },
        CellProbe { occupant_alive: false, pixel_owner: Some(1) },
        CellProbe { occupant_alive: false, pixel_owner: None },
        CellProbe { occupant_alive: true, pixel_owner: Some(777) },
    ]
}

#[test]
fn one_cell_of_the_snapshot() {
    let grid = grid();
    assert_eq!(
        grid.cell_pixel_owner(0, 1, &probes()),
        Some(CellOwner { cell: 1, hwnd: Some(102), pixel_owner: Some(1) })
    );
    assert_eq!(
        grid.cell_pixel_owner(1, 1, &probes()),
        Some(CellOwner { cell: 3, hwnd: None, pixel_owner: Some(777) })
    );
    assert_eq!(grid.cell_pixel_owner(2, 0, &probes()), None);
    assert_eq!(grid.cell_pixel_owner(0, 2, &probes()), None);
}

#[test]
fn every_cell_of_the_snapshot() {
    let grid = grid();
    assert_eq!(
        grid.cell_pixel_owners(&probes()),
        vec![
            CellOwner { cell: 0, hwnd: Some(101), pixel_owner: Some(101) },
            CellOwner { cell: 1, hwnd: Some(102), pixel_owner: Some(1) },
            CellOwner { cell: 2, hwnd: None, pixel_owner: None },
            CellOwner { cell: 3, hwnd: None, pixel_owner: Some(777) },
        ]
    );
    assert_eq!(grid.open_cells(), vec![2, 3]);
}

#[test]
fn the_snapshot_shows_the_grid_before_dead_occupants_are_cleared() {
    let mut grid = grid();
    let snapshot = grid.determine_cell_owners(&probes());
    assert_eq!(snapshot.cells, grid_before_clearing());
    assert_eq!(snapshot.open_cells, vec![2, 3]);
    assert_eq!(grid.cell(0), Some(held(101)));
    assert_eq!(grid.cell(1), Some(EMPTY));
    assert_eq!(grid.cell_of(102), None);
    assert_eq!(grid.cell_of(101), Some(0));
    assert_eq!(grid.open_cells(), vec![1, 2, 3]);
}

fn grid_before_clearing() -> Vec<CellOwner> {
    grid().cell_pixel_owners(&probes())
}

#[test]
fn a_dead_occupant_entered_elsewhere_leaves_the_entry_alone() {
    let mut grid =
        GridState::from_parts(config(), vec![held(101), held(101), EMPTY, EMPTY], &vec![(101, 0)])
            .unwrap();
    let mut probes = probes();
    probes[0].occupant_alive = true;
    probes[1].occupant_alive = false;
    grid.determine_cell_owners(&probes);
    assert_eq!(grid.cell(1), Some(EMPTY));
    assert_eq!(grid.cell_of(101), Some(0));
}

#[test]
fn what_counts_as_a_real_window() {
    let grid = grid();
    assert!(grid.is_real_window(55, true, true, false));
    assert!(!grid.is_real_window(0, true, true, true));
    assert!(!grid.is_real_window(55, false, true, true));
    assert!(!grid.is_real_window(55, true, false, true));
    // The desktop is window 1 here.
    assert!(!grid.is_real_window(1, true, true, false));
    assert!(grid.is_real_window(1, true, true, true));
}
