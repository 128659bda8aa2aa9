use startt::geometry::{
    axis_centered_start, axis_slot_extent, axis_slot_middle, axis_slot_start,
};
use startt::{
    filetime_to_unix_time, parse_grid_arg, GridArgError, GridCell, GridConfig, GridError,
    GridPlacementMode, GridState, MoveRequest, PendingCmd, Rect,
};

fn config(rows: u32, cols: u32, rect: Rect) -> GridConfig {
    GridConfig {
        rows,
        cols,
        monitor: 0,
        monitor_rect: rect,
        fit_grid: true,
        placement_mode: GridPlacementMode::FirstFree,
        reserved_cell: None,
        timeout_secs: None,
        parent_hwnd: 9000,
        desktop_hwnd: 1,
        launcher_pid: 42,
        retain_parent_focus: false,
        retain_launcher_focus: false,
    }
}

const FULL_HD: Rect = Rect { left: 0, top: 0, right: 1920, bottom: 1080 };

#[test]
fn extents_of_a_rectangle() {
    let r = Rect { left: -100, top: 20, right: 300, bottom: 10 };
    assert_eq!(r.width(), 400);
    assert_eq!(r.height(), -10);
    assert!(!r.is_area());
    assert!(FULL_HD.is_area());
    assert!(Rect { left: 5, top: 5, right: 5, bottom: 5 }.is_area());
    let widest = Rect { left: i32::MIN, top: 0, right: i32::MAX, bottom: 1 };
    assert_eq!(widest.width(), 4294967295);
    assert!(!widest.is_area());
    assert!(Rect { left: -1, top: 0, right: i32::MAX - 1, bottom: 1 }.is_area());
}

#[test]
fn slots_of_an_axis() {
    assert_eq!(axis_slot_extent(0, 1000, 3), 333);
    assert_eq!(axis_slot_start(0, 1000, 3, 0), 0);
    assert_eq!(axis_slot_start(0, 1000, 3, 2), 666);
    assert_eq!(axis_slot_middle(0, 1000, 3, 2), 832);
    assert_eq!(axis_slot_extent(-1920, 0, 2), 960);
    assert_eq!(axis_slot_start(-1920, 0, 2, 1), -960);
    assert_eq!(axis_slot_middle(-1920, 0, 2, 0), -1440);
    assert_eq!(axis_slot_extent(0, 3, 5), 0);
    assert_eq!(axis_slot_start(0, 3, 5, 4), 0);
    assert_eq!(axis_slot_extent(0, i32::MAX, 1), i32::MAX);
}

#[test]
fn centering_on_an_axis() {
    assert_eq!(axis_centered_start(0, 1920, 2, 0, 400), Some(280));
    assert_eq!(axis_centered_start(0, 1920, 2, 1, 400), Some(1240));
    // Odd slack is halved toward zero, in either direction.
    assert_eq!(axis_centered_start(0, 1920, 2, 0, 401), Some(279));
    assert_eq!(axis_centered_start(0, 1920, 2, 1, 963), Some(957));
    assert_eq!(axis_centered_start(0, 1920, 2, 1, 961), Some(959));
    // Larger than the slot: pushed back inside the span.
    assert_eq!(axis_centered_start(0, 1920, 2, 0, 1900), Some(0));
    assert_eq!(axis_centered_start(0, 1920, 2, 1, 1900), Some(20));
    assert_eq!(axis_centered_start(0, 1920, 2, 1, 1920), Some(0));
    assert_eq!(axis_centered_start(0, 1920, 2, 1, 1921), None);
    assert_eq!(axis_centered_start(0, 1920, 2, 1, -1), None);
    assert_eq!(axis_centered_start(0, 1920, 2, 1, 0), Some(1440));
}

#[test]
fn cells_of_a_two_by_two_grid() {
    let grid = GridState::new(config(2, 2, FULL_HD)).unwrap();
    assert_eq!(grid.cell_count(), 4);
    assert_eq!(grid.cell_size(), (960, 540));
    assert_eq!(grid.cell_position(0), (0, 0));
    assert_eq!(grid.cell_position(1), (0, 1));
    assert_eq!(grid.cell_position(2), (1, 0));
    assert_eq!(grid.cell_origin(0), (0, 0));
    assert_eq!(grid.cell_origin(1), (960, 0));
    assert_eq!(grid.cell_origin(2), (0, 540));
    assert_eq!(grid.cell_origin(3), (960, 540));
    assert_eq!(grid.cell_center(0), (480, 270));
    assert_eq!(grid.cell_center(3), (1440, 810));
    assert_eq!(grid.cell(3), Some(GridCell { hwnd: None, filled_at: None }));
    assert_eq!(grid.cell(4), None);
    assert_eq!(grid.config(), config(2, 2, FULL_HD));
}

#[test]
fn cells_of_an_uneven_grid_on_a_second_monitor() {
    let rect = Rect { left: -1000, top: 100, right: 0, bottom: 500 };
    let grid = GridState::new(config(2, 3, rect)).unwrap();
    assert_eq!(grid.cell_size(), (333, 200));
    assert_eq!(grid.cell_position(5), (1, 2));
    assert_eq!(grid.cell_origin(5), (-334, 300));
    assert_eq!(grid.cell_center(5), (-168, 400));
    assert_eq!(
        grid.move_target(4, None),
        MoveRequest { cell: 4, x: -667, y: 300, width: 333, height: 200, resize: true }
    );
}

#[test]
fn a_fitted_move_goes_to_the_cells_corner_with_the_cells_size() {
    let grid = GridState::new(config(2, 2, FULL_HD)).unwrap();
    let window = Some(Rect { left: 7, top: 9, right: 407, bottom: 309 });
    assert_eq!(
        grid.move_hwnd_to_cell(3, true, window),
        MoveRequest { cell: 3, x: 960, y: 540, width: 960, height: 540, resize: true }
    );
    let huge = Some(Rect { left: 0, top: 0, right: 5000, bottom: 5000 });
    assert_eq!(
        grid.move_hwnd_to_cell(0, true, huge),
        MoveRequest { cell: 0, x: 0, y: 0, width: 960, height: 540, resize: true }
    );
}

#[test]
fn an_unfitted_move_centres_the_window_in_the_cell() {
    let grid = GridState::new(config(2, 2, FULL_HD)).unwrap();
    let window = Some(Rect { left: 7, top: 9, right: 407, bottom: 309 });
    assert_eq!(
        grid.move_hwnd_to_cell(0, false, window),
        MoveRequest { cell: 0, x: 280, y: 120, width: 0, height: 0, resize: false }
    );
    assert_eq!(
        grid.move_hwnd_to_cell(3, false, window),
        MoveRequest { cell: 3, x: 1240, y: 660, width: 0, height: 0, resize: false }
    );
    // A window as large as a cell, or one that did not report its size,
    // lands on the corner.
    assert_eq!(
        grid.move_hwnd_to_cell(1, false, None),
        MoveRequest { cell: 1, x: 960, y: 0, width: 0, height: 0, resize: false }
    );
    // One larger than its cell is pushed back inside the monitor.
    let wide = Some(Rect { left: 0, top: 0, right: 1900, bottom: 1080 });
    assert_eq!(
        grid.move_hwnd_to_cell(3, false, wide),
        MoveRequest { cell: 3, x: 20, y: 0, width: 0, height: 0, resize: false }
    );
    assert!(grid.window_fits_monitor(wide));
    assert!(!grid.window_fits_monitor(Some(Rect { left: 0, top: 0, right: 1921, bottom: 10 })));
    assert!(!grid.window_fits_monitor(Some(Rect { left: 10, top: 0, right: 0, bottom: 10 })));
    assert!(grid.window_fits_monitor(None));
}

#[test]
fn configurations_that_carry_no_grid() {
    assert_eq!(GridState::new(config(0, 2, FULL_HD)).err(), Some(GridError::EmptyGrid));
    assert_eq!(GridState::new(config(2, 0, FULL_HD)).err(), Some(GridError::EmptyGrid));
    let inverted = Rect { left: 10, top: 0, right: 0, bottom: 10 };
    assert_eq!(GridState::new(config(1, 1, inverted)).err(), Some(GridError::InvalidMonitorRect));
    let too_wide = Rect { left: i32::MIN, top: 0, right: 0, bottom: 10 };
    assert_eq!(GridState::new(config(1, 1, too_wide)).err(), Some(GridError::InvalidMonitorRect));
    let mut cfg = config(2, 2, FULL_HD);
    cfg.reserved_cell = Some(4);
    assert_eq!(GridState::new(cfg).err(), Some(GridError::ReservedCellOutOfRange));
    cfg.reserved_cell = Some(3);
    assert!(GridState::new(cfg).is_ok());
    // The first fault is the one reported.
    let mut cfg = config(0, 2, inverted);
    cfg.reserved_cell = Some(9);
    assert_eq!(GridState::check_config(&cfg), Err(GridError::EmptyGrid));
    assert_eq!(GridState::check_config(&config(3, 4, FULL_HD)), Ok(12));
}

#[test]
fn reserving_the_launchers_cell() {
    let mut grid = GridState::new(config(2, 2, FULL_HD)).unwrap();
    assert_eq!(grid.set_parent_cell(None, 9000, None, 5), None);
    assert_eq!(grid.config().reserved_cell, None);
    assert_eq!(
        grid.set_parent_cell(Some(2), 9000, None, 5),
        Some(MoveRequest { cell: 2, x: 0, y: 540, width: 960, height: 540, resize: true })
    );
    assert_eq!(grid.config().reserved_cell, Some(2));
    assert_eq!(grid.cell(2), Some(GridCell { hwnd: Some(9000), filled_at: Some(5) }));
    assert_eq!(grid.cell_of(9000), Some(2));
    // Reserving another cell moves the launcher's window there.
    assert!(grid.set_parent_cell(Some(0), 9000, None, 6).is_some());
    assert_eq!(grid.cell(2), Some(GridCell { hwnd: None, filled_at: None }));
    assert_eq!(grid.cell(0), Some(GridCell { hwnd: Some(9000), filled_at: Some(6) }));
    assert_eq!(grid.cell_of(9000), Some(0));
    assert_eq!(grid.config().reserved_cell, Some(0));
}

#[test]
fn the_launchers_window_is_centred_in_its_cell_when_windows_are_not_fitted() {
    let mut cfg = config(2, 2, FULL_HD);
    cfg.fit_grid = false;
    let mut grid = GridState::new(cfg).unwrap();
    let window = Some(Rect { left: 0, top: 0, right: 400, bottom: 300 });
    assert_eq!(
        grid.set_parent_cell(Some(0), 9000, window, 5),
        Some(MoveRequest { cell: 0, x: 280, y: 120, width: 0, height: 0, resize: false })
    );
    assert_eq!(grid.cell_of(9000), Some(0));
}

#[test]
fn the_default_policy_is_first_free() {
    assert_eq!(GridPlacementMode::default(), GridPlacementMode::FirstFree);
}

#[test]
fn file_times_in_unix_seconds() {
    assert_eq!(filetime_to_unix_time(27111902, 3577643008), 0);
    assert_eq!(filetime_to_unix_time(27111902, 3577643008 + 9_999_999), 0);
    assert_eq!(filetime_to_unix_time(27111902, 3577643008 + 10_000_000), 1);
    assert_eq!(filetime_to_unix_time(30785590, 1761935360), 1577836800);
    assert_eq!(filetime_to_unix_time(0, 0), 0);
    assert_eq!(filetime_to_unix_time(27111902, 0), 0);
    assert_eq!(filetime_to_unix_time(u32::MAX, u32::MAX), 1833029933770);
}

#[test]
fn a_pending_command_starts_empty() {
    let cmd = PendingCmd::default();
    assert!(cmd.args.is_empty());
    assert!(cmd.dir.is_none());
}

#[test]
fn grid_arguments() {
    assert_eq!(parse_grid_arg("2x3"), Ok((2, 3, 0)));
    assert_eq!(parse_grid_arg("2x3m1"), Ok((2, 3, 1)));
    assert_eq!(parse_grid_arg("12x34m-5"), Ok((12, 34, -5)));
    assert_eq!(parse_grid_arg("+2x+3m+4"), Ok((2, 3, 4)));
    assert_eq!(parse_grid_arg("007x010"), Ok((7, 10, 0)));
    assert_eq!(parse_grid_arg("0x0"), Ok((0, 0, 0)));
    assert_eq!(parse_grid_arg("2x3m"), Ok((2, 3, 0)));
    assert_eq!(parse_grid_arg("2x3mfoo"), Ok((2, 3, 0)));
    assert_eq!(parse_grid_arg("2x3m1m2"), Ok((2, 3, 0)));
    assert_eq!(parse_grid_arg("2x3m1x2"), Ok((2, 3, 0)));
    assert_eq!(parse_grid_arg("2x3m-"), Ok((2, 3, 0)));
    assert_eq!(parse_grid_arg("4294967295x1"), Ok((u32::MAX, 1, 0)));
    assert_eq!(parse_grid_arg("4294967296x1"), Err(GridArgError::Rows));
    assert_eq!(parse_grid_arg("1x99999999999999999999999999"), Err(GridArgError::Cols));
    assert_eq!(parse_grid_arg("2x3m2147483647"), Ok((2, 3, i32::MAX)));
    assert_eq!(parse_grid_arg("2x3m2147483648"), Ok((2, 3, 0)));
    assert_eq!(parse_grid_arg("2x3m-2147483648"), Ok((2, 3, i32::MIN)));
    assert_eq!(parse_grid_arg("2x3m-2147483649"), Ok((2, 3, 0)));
    assert_eq!(parse_grid_arg(""), Err(GridArgError::Shape));
    assert_eq!(parse_grid_arg("23"), Err(GridArgError::Shape));
    assert_eq!(parse_grid_arg("2x3x4"), Err(GridArgError::Shape));
    assert_eq!(parse_grid_arg("2X3"), Err(GridArgError::Shape));
    assert_eq!(parse_grid_arg("m"), Err(GridArgError::Shape));
    assert_eq!(parse_grid_arg("m2x3"), Err(GridArgError::Shape));
    assert_eq!(parse_grid_arg("x3"), Err(GridArgError::Rows));
    assert_eq!(parse_grid_arg("-2x3"), Err(GridArgError::Rows));
    assert_eq!(parse_grid_arg(" 2x3"), Err(GridArgError::Rows));
    assert_eq!(parse_grid_arg("+x3"), Err(GridArgError::Rows));
    assert_eq!(parse_grid_arg("2x"), Err(GridArgError::Cols));
    assert_eq!(parse_grid_arg("2xm3"), Err(GridArgError::Cols));
    assert_eq!(parse_grid_arg("2x3 m1"), Err(GridArgError::Cols));
    assert_eq!(parse_grid_arg("ax3"), Err(GridArgError::Rows));
    assert_eq!(parse_grid_arg("2x\u{663}"), Err(GridArgError::Cols));
}

/// The same reading with the standard library's own splitting and number
/// parsing.
fn grid_arg_by_std(text: &str) -> Result<(u32, u32, i32), GridArgError> {
    let (rc, m) = match text.find('m') {
        Some(idx) => (&text[..idx], Some(&text[idx + 1..])),
        None => (text, None),
    };
    let parts: Vec<&str> = rc.split('x').collect();
    if parts.len() != 2 {
        return Err(GridArgError::Shape);
    }
    let rows = parts[0].parse::<u32>().map_err(|_| GridArgError::Rows)?;
    let cols = parts[1].parse::<u32>().map_err(|_| GridArgError::Cols)?;
    Ok((rows, cols, m.and_then(|s| s.parse::<i32>().ok()).unwrap_or(0)))
}

#[test]
fn grid_arguments_read_as_the_standard_library_reads_them() {
    let pieces = ["", "0", "7", "12", "+", "-", "+3", "-3", "x", "m", "4294967295", "4294967296",
        "2147483648", " ", "a", "00"];
    for a in pieces {
        for b in pieces {
            for c in pieces {
                for d in ["", "x", "m"] {
                    let text = format!("{}{}{}{}", a, b, c, d);
                    assert_eq!(parse_grid_arg(&text), grid_arg_by_std(&text), "{:?}", text);
                    let text = format!("{}x{}m{}{}", a, b, c, d);
                    assert_eq!(parse_grid_arg(&text), grid_arg_by_std(&text), "{:?}", text);
                }
            }
        }
    }
}
