use scatto::config::Config;
use scatto::ewmh::{DesktopInfo, WindowInfo, ALL_DESKTOPS};
use scatto::layout::Row;
use scatto::state::{drag_label, Drag, State};
use scatto::wm::{stops_at, Commit, Effect, Report, RequestFailed, WmOp};

fn window(id: u32, desktop: u32) -> WindowInfo {
    WindowInfo { id, desktop, title: format!("t{id}"), class: format!("c{id}"), icon: None }
}

/// Three desktops; rows: 0 header, 1 = window 12, 2 = window 10, 3 header,
/// 4 = window 11, 5 header.
fn state() -> State {
    let desktops =
        (0..3).map(|index| DesktopInfo { index, name: format!("d{index}") }).collect();
    let windows = vec![window(10, 0), window(11, 1), window(12, 0)];
    let mut s = State::snapshot(Config::default(), desktops, windows, 0, Some(10));
    s.viewport_h = 60_000;
    s
}

fn done(s: &mut State, commit: Commit) {
    assert_eq!(s.commit(commit, Report { failed: None, focus: None }), Ok(()));
}

fn fail(s: &mut State, commit: Commit, at: usize) {
    let report = Report { failed: Some(at), focus: Some(Some(99)) };
    assert_eq!(s.commit(commit, report), Err(RequestFailed { at }));
}

fn require(op: WmOp) -> Effect {
    Effect::Require(op)
}

fn attempt(op: WmOp) -> Effect {
    Effect::Attempt(op)
}

#[test]
fn snapshot_starts_at_the_top() {
    let s = State::snapshot(Config::default(), vec![], vec![window(1, 0)], 4, None);
    assert_eq!((s.cursor, s.scroll, s.viewport_h), (0, 0, 0));
    assert_eq!((s.current_desktop, s.focused_window), (4, None));
    assert!(s.drag.is_none() && s.middle_press.is_none());
    assert!(!s.pending_dd && !s.pending_gg && !s.show_help);
}

#[test]
fn first_row_is_that_of_the_focus() {
    let mut s = state();
    assert_eq!(s.initial_cursor(), 2);
    s.focused_window = Some(11);
    assert_eq!(s.initial_cursor(), 4);
    s.focused_window = Some(99);
    s.current_desktop = 1;
    assert_eq!(s.initial_cursor(), 3);
    s.focused_window = None;
    assert_eq!(s.initial_cursor(), 3);
    s.current_desktop = 7;
    assert_eq!(s.initial_cursor(), 0);
}

#[test]
fn selected_row_is_scrolled_into_view() {
    let mut s = state();
    let l = s.layout();
    assert_eq!(l.content_h, 170_000);
    s.cursor = 4;
    s.ensure_cursor_visible(&l);
    // Row 4 ends at 139 px.
    assert_eq!(s.scroll, 79_000);
    s.cursor = 3;
    s.ensure_cursor_visible(&l);
    assert_eq!(s.scroll, 79_000);
    s.cursor = 1;
    s.ensure_cursor_visible(&l);
    assert_eq!(s.scroll, 31_000);
    s.cursor = 99;
    s.ensure_cursor_visible(&l);
    assert_eq!((s.cursor, s.scroll), (5, 109_000));
    s.scroll = 1_000_000;
    s.ensure_cursor_visible(&l);
    assert_eq!(s.scroll, 110_000);
    for cursor in 0..6 {
        s.cursor = cursor;
        s.ensure_cursor_visible(&l);
        assert!(s.scroll <= l.row_y[cursor]);
        assert!(l.row_y[cursor] + l.row_h[cursor] <= s.scroll + s.viewport_h);
    }
}

#[test]
fn nothing_to_select() {
    let mut s = State::snapshot(Config::default(), vec![], vec![], 0, None);
    s.cursor = 5;
    s.scroll = 7;
    let l = s.layout();
    s.move_cursor(1);
    s.jump_to(3);
    assert_eq!((s.cursor, s.scroll), (5, 7));
    assert_eq!(s.cursor_window_idx(), None);
    s.ensure_cursor_visible(&l);
    assert_eq!((s.cursor, s.scroll), (0, 0));
}

#[test]
fn cursor_stops_at_the_ends() {
    let mut s = state();
    s.move_cursor(-1);
    assert_eq!(s.cursor, 0);
    s.move_cursor(1);
    s.move_cursor(1);
    assert_eq!(s.cursor, 2);
    s.move_cursor(100);
    assert_eq!(s.cursor, 5);
    s.move_cursor(1);
    assert_eq!(s.cursor, 5);
    s.move_cursor(i32::MIN);
    assert_eq!(s.cursor, 0);
    s.jump_to(usize::MAX);
    assert_eq!(s.cursor, 5);
    s.jump_to(3);
    assert_eq!(s.cursor, 3);
}

#[test]
fn window_at_the_cursor() {
    let mut s = state();
    let found: Vec<Option<usize>> = (0..7)
        .map(|row| {
            s.cursor = row;
            s.cursor_window_idx()
        })
        .collect();
    assert_eq!(found, vec![None, Some(2), Some(0), None, Some(1), None, None]);
}

#[test]
fn cursor_snaps_to_a_window() {
    let mut s = state();
    s.snap_cursor_to_window(1);
    assert_eq!(s.cursor, 4);
    s.snap_cursor_to_window(77);
    assert_eq!(s.cursor, 4);
}

#[test]
fn snapping_to_a_window_without_a_row_changes_nothing() {
    let mut s = state();
    s.cursor = 99;
    s.scroll = 5_000_000;
    s.windows[1].desktop = 9;
    s.snap_cursor_to_window(1);
    assert_eq!((s.cursor, s.scroll), (99, 5_000_000));
    s.snap_cursor_to_window(0);
    assert_eq!((s.cursor, s.scroll), (2, 57_000));
}

#[test]
fn nothing_changes_before_the_requests_are_sent() {
    let s = state();
    let mut fx = vec![];
    let c = s.move_app(0, 1, true, 5, &mut fx);
    assert_eq!(
        c,
        Commit::Place { window_idx: 0, target: 1, moves: true, in_front: true }
    );
    assert_eq!(s.activate_app(7, 2, 5, &mut fx), Commit::Activate { window: 7, target: 2 });
    assert_eq!(s.close_app(1, 5, &mut fx), Commit::Close { window_idx: 1 });
    assert_eq!((s.windows[0].desktop, s.windows.len()), (0, 3));
}

#[test]
fn failed_requests_leave_the_state_alone() {
    let mut s = state();
    let mut fx = vec![];
    s.cursor = 4;
    let c = s.activate_cursor(5, &mut fx);
    fail(&mut s, c, 1);
    assert_eq!((s.current_desktop, s.focused_window, s.cursor), (0, Some(10), 4));
    let c = s.close_app(1, 5, &mut fx);
    fail(&mut s, c, 0);
    assert_eq!((s.windows.len(), s.focused_window, s.cursor), (3, Some(10), 4));
    let c = s.move_app(0, 1, true, 5, &mut fx);
    fail(&mut s, c, 0);
    assert_eq!((s.windows[0].desktop, s.current_desktop), (0, 0));
    // The move itself was carried out, the switch failed.
    let c = s.move_app(0, 1, true, 5, &mut fx);
    fail(&mut s, c, 2);
    assert_eq!((s.windows[0].desktop, s.current_desktop), (1, 0));
    assert_eq!((s.focused_window, s.cursor), (Some(10), 4));
}

#[test]
fn only_required_requests_stop_the_work() {
    let op = WmOp::Raise { window: 1 };
    assert!(stops_at(require(op), false));
    assert!(!stops_at(require(op), true));
    assert!(!stops_at(attempt(op), false));
    assert!(!stops_at(Effect::RefreshFocus, false));
}

#[test]
fn focus_is_taken_over_with_the_move() {
    let mut s = state();
    let mut fx = vec![];
    let c = s.move_app(0, 1, false, 5, &mut fx);
    assert_eq!(s.commit(c, Report { failed: None, focus: Some(Some(12)) }), Ok(()));
    assert_eq!((s.focused_window, s.windows[0].desktop), (Some(12), 1));
    assert_eq!(s.cursor_window_idx(), Some(0));
}

#[test]
fn moving_an_app_by_one_desktop() {
    let mut s = state();
    let mut fx = vec![];
    let c = s.move_app(0, 1, false, 5, &mut fx);
    done(&mut s, c);
    assert_eq!(
        fx,
        vec![require(WmOp::MoveToDesktop { window: 10, desktop: 1 }), Effect::RefreshFocus]
    );
    assert_eq!(s.windows[0].desktop, 1);
    assert_eq!(s.current_desktop, 0);
    assert_eq!(s.cursor_window_idx(), Some(0));
    // On from the last desktop to the first, and back again.
    let c = s.move_app(0, 1, false, 5, &mut fx);
    done(&mut s, c);
    let c = s.move_app(0, 1, false, 5, &mut fx);
    done(&mut s, c);
    assert_eq!(s.windows[0].desktop, 0);
    let c = s.move_app(0, -1, false, 5, &mut fx);
    done(&mut s, c);
    assert_eq!(s.windows[0].desktop, 2);
    let c = s.move_app(0, 1, false, 5, &mut fx);
    done(&mut s, c);
    assert_eq!(s.windows[0].desktop, 0);
    assert_eq!((s.windows[1].desktop, s.windows[2].desktop), (1, 0));
}

#[test]
fn moving_an_app_and_following_it() {
    let mut s = state();
    let mut fx = vec![];
    let c = s.move_app(0, 1, true, 5, &mut fx);
    done(&mut s, c);
    assert_eq!(
        fx,
        vec![
            require(WmOp::MoveToDesktop { window: 10, desktop: 1 }),
            attempt(WmOp::BumpUserTime { window: 10, time: 5 }),
            require(WmOp::SwitchDesktop { desktop: 1, time: 5 }),
            require(WmOp::Activate { window: 10, time: 5 }),
            attempt(WmOp::Raise { window: 10 }),
        ]
    );
    assert_eq!((s.current_desktop, s.focused_window), (1, Some(10)));
    assert_eq!(s.cursor_window_idx(), Some(0));
}

#[test]
fn following_an_app_there_and_back() {
    for (desktop, current) in [(0, 0), (2, 1), (ALL_DESKTOPS, 2)] {
        let mut s = state();
        s.windows[0].desktop = desktop;
        s.current_desktop = current;
        s.focused_window = None;
        for delta in [1, -1] {
            let c = s.move_app(0, delta, true, 5, &mut vec![]);
            done(&mut s, c);
        }
        let desktops: Vec<u32> = s.windows.iter().map(|w| w.desktop).collect();
        assert_eq!(desktops, vec![desktop, 1, 0]);
        let home = if desktop == ALL_DESKTOPS { current } else { desktop };
        assert_eq!((s.current_desktop, s.focused_window), (home, Some(10)));
        assert_eq!(s.cursor_window_idx(), Some(0));
    }
}

#[test]
fn sticky_apps_are_not_moved() {
    let mut s = state();
    s.windows[0].desktop = ALL_DESKTOPS;
    let mut fx = vec![];
    s.cursor = 5;
    let c = s.move_app(0, 1, false, 5, &mut fx);
    done(&mut s, c);
    assert_eq!((fx.len(), s.cursor), (0, 5));
    let c = s.move_app(0, 1, true, 5, &mut fx);
    done(&mut s, c);
    assert_eq!(
        fx,
        vec![
            attempt(WmOp::BumpUserTime { window: 10, time: 5 }),
            require(WmOp::SwitchDesktop { desktop: 1, time: 5 }),
            require(WmOp::Activate { window: 10, time: 5 }),
            attempt(WmOp::Raise { window: 10 }),
        ]
    );
    assert_eq!(s.windows[0].desktop, ALL_DESKTOPS);
    assert_eq!(s.current_desktop, 1);
}

#[test]
fn one_desktop_or_none() {
    let mut s = state();
    s.desktops.truncate(1);
    let mut fx = vec![];
    let c = s.move_app(0, 1, false, 5, &mut fx);
    done(&mut s, c);
    assert_eq!(fx, vec![Effect::RefreshFocus]);
    s.desktops.clear();
    let mut fx = vec![];
    let c = s.move_app(0, 1, true, 5, &mut fx);
    done(&mut s, c);
    assert_eq!(fx, vec![]);
}

#[test]
fn dropping_an_app_on_another_desktop() {
    let mut s = state();
    let mut fx = vec![];
    let c = s.drop_app(0, 2, false, 5, &mut fx);
    done(&mut s, c);
    assert_eq!(
        fx,
        vec![require(WmOp::MoveToDesktop { window: 10, desktop: 2 }), Effect::RefreshFocus]
    );
    assert_eq!((s.windows[0].desktop, s.current_desktop), (2, 0));
    assert_eq!(s.cursor_window_idx(), Some(0));
}

#[test]
fn dropping_an_app_in_front_of_the_user() {
    // On the current desktop.
    let mut s = state();
    let mut fx = vec![];
    let c = s.drop_app(1, 0, false, 5, &mut fx);
    done(&mut s, c);
    assert_eq!(
        fx,
        vec![
            require(WmOp::MoveToDesktop { window: 11, desktop: 0 }),
            attempt(WmOp::BumpUserTime { window: 11, time: 5 }),
            require(WmOp::Activate { window: 11, time: 5 }),
            attempt(WmOp::Raise { window: 11 }),
        ]
    );
    // With the user going along.
    let mut s = state();
    let mut fx = vec![];
    let c = s.drop_app(1, 2, true, 5, &mut fx);
    done(&mut s, c);
    assert_eq!(fx.len(), 5);
    assert_eq!(fx[2], require(WmOp::SwitchDesktop { desktop: 2, time: 5 }));
    assert_eq!((s.current_desktop, s.focused_window), (2, Some(11)));
}

#[test]
fn dropping_a_sticky_app_unsticks_it() {
    let mut s = state();
    s.windows[0].desktop = ALL_DESKTOPS;
    let mut fx = vec![];
    let c = s.drop_app(0, 1, false, 5, &mut fx);
    done(&mut s, c);
    assert_eq!(fx[0], require(WmOp::MoveToDesktop { window: 10, desktop: 1 }));
    assert_eq!(s.windows[0].desktop, 1);
}

#[test]
fn dropping_an_app_where_it_is() {
    let mut s = state();
    let mut fx = vec![];
    let c = s.drop_app(1, 1, false, 5, &mut fx);
    done(&mut s, c);
    assert_eq!(fx, vec![Effect::RefreshFocus]);
}

#[test]
fn focus_is_read_again() {
    let mut s = state();
    s.refresh_focus(Some(Some(12)));
    assert_eq!(s.focused_window, Some(12));
    s.refresh_focus(None);
    assert_eq!(s.focused_window, Some(12));
    s.refresh_focus(Some(None));
    assert_eq!(s.focused_window, None);
}

#[test]
fn reading_the_focus_late_makes_no_difference() {
    let mut a = state();
    let mut b = state();
    a.snap_cursor_to_window(1);
    a.refresh_focus(Some(Some(11)));
    b.refresh_focus(Some(Some(11)));
    b.snap_cursor_to_window(1);
    assert_eq!((a.cursor, a.scroll, a.focused_window), (b.cursor, b.scroll, b.focused_window));
}

#[test]
fn closing_an_app_takes_its_row_away() {
    let mut s = state();
    let mut fx = vec![];
    s.cursor = 2;
    let c = s.close_app(0, 5, &mut fx);
    done(&mut s, c);
    assert_eq!(fx, vec![require(WmOp::Close { window: 10, time: 5 })]);
    let ids: Vec<u32> = s.windows.iter().map(|w| w.id).collect();
    assert_eq!(ids, vec![11, 12]);
    assert_eq!(s.focused_window, None);
    assert_eq!((s.cursor, s.layout().rows.len()), (2, 5));
    s.cursor = 4;
    let c = s.close_app(1, 5, &mut fx);
    done(&mut s, c);
    assert_eq!((s.cursor, s.layout().rows.len()), (3, 4));
}

#[test]
fn closing_another_app_keeps_the_focus() {
    let mut s = state();
    let mut fx = vec![];
    let c = s.close_app(1, 5, &mut fx);
    done(&mut s, c);
    assert_eq!(s.focused_window, Some(10));
}

#[test]
fn choosing_a_header_shows_its_desktop() {
    let mut s = state();
    let mut fx = vec![];
    s.cursor = 3;
    let c = s.activate_cursor(5, &mut fx);
    done(&mut s, c);
    assert_eq!(fx, vec![require(WmOp::SwitchDesktop { desktop: 1, time: 5 })]);
}

#[test]
fn choosing_an_app_goes_to_it() {
    let mut s = state();
    let mut fx = vec![];
    s.cursor = 4;
    let c = s.activate_cursor(5, &mut fx);
    done(&mut s, c);
    assert_eq!(
        fx,
        vec![
            attempt(WmOp::BumpUserTime { window: 11, time: 5 }),
            require(WmOp::SwitchDesktop { desktop: 1, time: 5 }),
            require(WmOp::Activate { window: 11, time: 5 }),
            attempt(WmOp::Raise { window: 11 }),
        ]
    );
    assert_eq!(s.windows[1].desktop, 1);
    // A sticky app is where the user is.
    let mut s = state();
    s.windows[1].desktop = ALL_DESKTOPS;
    s.snap_cursor_to_window(1);
    let mut fx = vec![];
    let c = s.activate_cursor(5, &mut fx);
    done(&mut s, c);
    assert_eq!(fx.len(), 3);
    assert_eq!(s.current_desktop, 0);
    // Past the last row there is nothing.
    s.cursor = 99;
    let mut fx = vec![];
    let c = s.activate_cursor(5, &mut fx);
    done(&mut s, c);
    assert_eq!(fx, vec![]);
}

#[test]
fn focused_rows_are_marked() {
    let s = state();
    let l = s.layout();
    assert!(matches!(l.rows[2], Row::App { focused: true, .. }));
    assert!(matches!(l.rows[1], Row::App { focused: false, .. }));
    assert!(matches!(l.rows[0], Row::Header { current: true, empty: false, .. }));
    assert!(matches!(l.rows[5], Row::Header { current: false, empty: true, .. }));
}

fn drag(dx: i32, dy: i32) -> Drag {
    Drag {
        window_id: 1,
        label: String::new(),
        cursor_x: 10 + dx,
        cursor_y: 20 + dy,
        target_desktop: None,
        press_x: 10,
        press_y: 20,
        started: false,
        follow: false,
    }
}

#[test]
fn drags_start_four_pixels_away() {
    assert!(!drag(0, 0).moved_enough());
    assert!(!drag(4, 0).moved_enough());
    assert!(!drag(0, -4).moved_enough());
    assert!(!drag(2, 3).moved_enough());
    assert!(drag(4, 1).moved_enough());
    assert!(drag(-5, 0).moved_enough());
    assert!(drag(3, -3).moved_enough());
}

#[test]
fn dragged_windows_show_their_class() {
    let mut w = window(1, 0);
    assert_eq!(drag_label(&w), "C1");
    w.class = String::new();
    assert_eq!(drag_label(&w), "t1");
}
