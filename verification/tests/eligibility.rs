use startt::eligibility::{
    byte_to_ascii_lower, bytes_equal, bytes_equal_ignoring_ascii_case, bytes_start_with,
};
use startt::{
    is_console_class, is_denied_class, is_hwnd_new, GridConfig, GridPlacementMode, GridState, Rect,
    WindowFacts,
};
use std::collections::HashSet;

fn grid() -> GridState {
    GridState::new(GridConfig {
        rows: 1,
        cols: 1,
        monitor: 0,
        monitor_rect: Rect { left: 0, top: 0, right: 800, bottom: 600 },
        fit_grid: true,
        placement_mode: GridPlacementMode::FirstFree,
        reserved_cell: None,
        timeout_secs: None,
        parent_hwnd: 9000,
        desktop_hwnd: 1,
        launcher_pid: 42,
        retain_parent_focus: false,
        retain_launcher_focus: false,
    })
    .unwrap()
}

const SOUND: WindowFacts = WindowFacts { exists: true, visible: true, has_parent: false };

fn eligible(
    grid: &GridState,
    hwnd: isize,
    pid: u32,
    parent: Option<isize>,
    class: &str,
    facts: WindowFacts,
) -> bool {
    let initial: HashSet<isize> = [11, 12].into_iter().collect();
    let failed_pids: HashSet<u32> = [666].into_iter().collect();
    grid.is_hwnd_eligible(hwnd, pid, parent, class, facts, &initial, &failed_pids, 3)
}

#[test]
fn denied_window_classes() {
    assert!(is_denied_class("NVOpenGLPbuffer"));
    assert!(!is_denied_class("NVOpenGLPbuffer2"));
    assert!(!is_denied_class("nvopenglpbuffer"));
    assert!(is_denied_class("wgpu Device Class"));
    assert!(is_denied_class("wgpu Device Class 0x1234"));
    assert!(!is_denied_class("wgpu Device Clas"));
    assert!(is_denied_class("MSCTFIME UI"));
    assert!(is_denied_class("msctfime ui"));
    assert!(!is_denied_class("MSCTFIME UI "));
    assert!(is_denied_class("Default IME"));
    assert!(is_denied_class("DEFAULT ime"));
    assert!(is_denied_class("temp_d3d_window_42"));
    assert!(!is_denied_class("Temp_d3d_window_42"));
    assert!(is_denied_class("Winit Thread Event Target"));
    assert!(!is_denied_class("Window Class"));
    assert!(!is_denied_class(""));
    assert!(!is_denied_class("<unknown>"));
}

#[test]
fn the_console_class() {
    assert!(is_console_class("ConsoleWindowClass"));
    assert!(!is_console_class("consolewindowclass"));
    assert!(!is_console_class("ConsoleWindowClassic"));
    assert!(!is_console_class(""));
}

#[test]
fn byte_comparisons() {
    assert!(bytes_equal(b"abc", b"abc"));
    assert!(!bytes_equal(b"abc", b"abd"));
    assert!(!bytes_equal(b"abc", b"ab"));
    assert!(bytes_equal(b"", b""));
    assert!(bytes_start_with(b"abcdef", b"abc"));
    assert!(bytes_start_with(b"abc", b""));
    assert!(!bytes_start_with(b"ab", b"abc"));
    assert!(!bytes_start_with(b"xbcdef", b"abc"));
    assert!(bytes_equal_ignoring_ascii_case(b"AbC-1", b"aBc-1"));
    assert!(!bytes_equal_ignoring_ascii_case(b"AbC-1", b"aBc-2"));
    assert!(!bytes_equal_ignoring_ascii_case(b"@", b"`"));
    assert!(!bytes_equal_ignoring_ascii_case(b"[", b"{"));
    assert_eq!(byte_to_ascii_lower(b'A'), b'a');
    assert_eq!(byte_to_ascii_lower(b'Z'), b'z');
    assert_eq!(byte_to_ascii_lower(b'a'), b'a');
    assert_eq!(byte_to_ascii_lower(b'@'), b'@');
    assert_eq!(byte_to_ascii_lower(b'['), b'[');
    assert_eq!(byte_to_ascii_lower(0xC4), 0xC4);
    for b in 0..=255u8 {
        assert_eq!(byte_to_ascii_lower(b), b.to_ascii_lowercase());
    }
}

#[test]
fn windows_from_before_the_snapshot_are_not_new() {
    let initial: HashSet<isize> = [11, 12].into_iter().collect();
    assert!(!is_hwnd_new(&initial, 11));
    assert!(is_hwnd_new(&initial, 13));
    assert!(is_hwnd_new(&HashSet::new(), 11));
}

#[test]
fn a_sound_new_window_is_eligible() {
    let grid = grid();
    assert!(eligible(&grid, 100, 7, None, "Chrome_WidgetWin_1", SOUND));
    assert!(eligible(&grid, 100, 7, Some(200), "Chrome_WidgetWin_1", SOUND));
}

#[test]
fn each_fault_alone_makes_a_window_ineligible() {
    let mut grid = grid();
    assert!(!eligible(&grid, 0, 7, None, "W", SOUND));
    assert!(!eligible(&grid, 11, 7, None, "W", SOUND));
    assert!(!eligible(&grid, 100, 7, None, "default ime", SOUND));
    assert!(!eligible(&grid, 100, 7, None, "W", WindowFacts { exists: false, ..SOUND }));
    assert!(!eligible(&grid, 100, 7, None, "W", WindowFacts { visible: false, ..SOUND }));
    assert!(!eligible(&grid, 100, 7, None, "W", WindowFacts { has_parent: true, ..SOUND }));
    assert!(!eligible(&grid, 100, 666, None, "W", SOUND));
    assert!(!eligible(&grid, 100, 7, Some(100), "W", SOUND));
    grid.record_failure(100);
    grid.record_failure(100);
    assert!(eligible(&grid, 100, 7, None, "W", SOUND));
    grid.record_failure(100);
    assert!(!eligible(&grid, 100, 7, None, "W", SOUND));
    assert!(eligible(&grid, 101, 7, None, "W", SOUND));
}

#[test]
fn a_window_without_failures_passes_even_a_cap_of_zero() {
    let mut grid = grid();
    let none: HashSet<isize> = HashSet::new();
    let no_pids: HashSet<u32> = HashSet::new();
    assert!(grid.is_hwnd_eligible(100, 7, None, "W", SOUND, &none, &no_pids, 0));
    grid.record_failure(100);
    assert!(!grid.is_hwnd_eligible(100, 7, None, "W", SOUND, &none, &no_pids, 1));
    assert!(grid.is_hwnd_eligible(100, 7, None, "W", SOUND, &none, &no_pids, 2));
}
