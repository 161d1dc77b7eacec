use scatto::ewmh::{DesktopInfo, WindowInfo, ALL_DESKTOPS};
use scatto::layout::{Layout, Row};

fn desktop(index: u32, name: &str) -> DesktopInfo {
    DesktopInfo { index, name: name.to_string() }
}

fn window(id: u32, desktop: u32) -> WindowInfo {
    WindowInfo { id, desktop, title: format!("t{id}"), class: format!("c{id}"), icon: None }
}

fn header(desktop_idx: usize, current: bool, empty: bool) -> Row {
    Row::Header { desktop_idx, current, empty }
}

fn app(window_idx: usize, focused: bool, hint: char) -> Row {
    Row::App { window_idx, focused, hint: Some(hint) }
}

const POOL: &str = "fsarewtvcxbzhlnmuiopy";

#[test]
fn topmost_windows_come_first_below_their_desktop() {
    let desktops = [desktop(0, "main"), desktop(1, "code"), desktop(2, "chat")];
    let windows = [window(10, 0), window(11, 1), window(12, 0)];
    let l = Layout::build(&desktops, &windows, 1, Some(12), 1000, 30_000, 26_000);
    assert_eq!(
        l.rows,
        vec![
            header(0, false, false),
            app(2, true, 'f'),
            app(0, false, 's'),
            header(1, true, false),
            app(1, false, 'a'),
            header(2, false, true),
        ]
    );
    assert_eq!(l.row_y, vec![1000, 31_000, 57_000, 83_000, 113_000, 139_000]);
    assert_eq!(l.row_h, vec![30_000, 26_000, 26_000, 30_000, 26_000, 30_000]);
    assert_eq!(l.content_h, 170_000);
}

#[test]
fn sticky_windows_are_listed_below_every_desktop() {
    let desktops = [desktop(0, ""), desktop(1, "")];
    let windows = [window(10, ALL_DESKTOPS), window(11, 1), window(12, 5)];
    let l = Layout::build(&desktops, &windows, 0, None, 0, 1, 1);
    assert_eq!(
        l.rows,
        vec![
            header(0, true, false),
            app(0, false, 'f'),
            header(1, false, false),
            app(1, false, 's'),
            app(0, false, 'a'),
        ]
    );
}

#[test]
fn nothing_to_list() {
    let l = Layout::build(&[], &[window(1, 0)], 0, None, 700, 30_000, 26_000);
    assert_eq!(l.rows, vec![]);
    assert_eq!(l.content_h, 1400);
    assert_eq!(l.row_at_y(0, 0), None);
    assert_eq!(l.row_idx_for_hint('f'), None);
}

#[test]
fn hints_go_in_order_and_run_out() {
    let desktops = [desktop(0, ""), desktop(1, "")];
    let windows: Vec<WindowInfo> = (0..30).map(|i| window(i, i % 2)).collect();
    let l = Layout::build(&desktops, &windows, 0, None, 0, 1, 1);
    let hints: Vec<Option<char>> = l
        .rows
        .iter()
        .filter_map(|r| match r {
            Row::App { hint, .. } => Some(*hint),
            Row::Header { .. } => None,
        })
        .collect();
    let mut expected: Vec<Option<char>> = POOL.chars().map(Some).collect();
    expected.extend([None; 9]);
    assert_eq!(hints, expected);
    assert_eq!(POOL.len(), 21);
}

#[test]
fn hints_lead_to_their_rows() {
    let desktops = [desktop(0, ""), desktop(1, "")];
    let windows: Vec<WindowInfo> = (0..30).map(|i| window(i, i % 2)).collect();
    let l = Layout::build(&desktops, &windows, 0, None, 0, 1, 1);
    for (i, row) in l.rows.iter().enumerate() {
        if let Row::App { hint: Some(c), .. } = row {
            assert_eq!(l.row_idx_for_hint(*c), Some(i));
        }
    }
    for c in "jkgdq0123456789FSA;".chars() {
        assert_eq!(l.row_idx_for_hint(c), None);
        assert!(!POOL.contains(c));
    }
}

#[test]
fn points_find_their_rows() {
    let desktops = [desktop(0, ""), desktop(1, "")];
    let windows = [window(10, 0)];
    let l = Layout::build(&desktops, &windows, 0, None, 1000, 30_000, 26_000);
    assert_eq!(l.row_at_y(999, 0), None);
    assert_eq!(l.row_at_y(1000, 0), Some(0));
    assert_eq!(l.row_at_y(30_999, 0), Some(0));
    assert_eq!(l.row_at_y(31_000, 0), Some(1));
    assert_eq!(l.row_at_y(57_000, 0), Some(2));
    assert_eq!(l.row_at_y(86_999, 0), Some(2));
    assert_eq!(l.row_at_y(87_000, 0), None);
    assert_eq!(l.row_at_y(0, 57_000), Some(2));
    assert_eq!(l.row_at_y(-1, 57_000), Some(1));
}

#[test]
fn empty_rows_are_never_hit() {
    let l = Layout::build(&[desktop(0, ""), desktop(1, "")], &[], 0, None, 0, 0, 0);
    assert_eq!(l.rows.len(), 2);
    assert_eq!(l.row_at_y(0, 0), None);
}
