use scatto::config::Config;
use scatto::ewmh::{DesktopInfo, WindowInfo, ALL_DESKTOPS};
use scatto::keymap::{Key, Keymap};
use scatto::keys::{handle_keypress, Mods, Outcome};
use scatto::session::{PopupEvent, Session};
use scatto::state::State;
use scatto::wm::{Effect, Report, WmOp};

const NONE: Mods = Mods { shift: false, ctrl: false, super_: false };
const SHIFT: Mods = Mods { shift: true, ctrl: false, super_: false };
const CTRL: Mods = Mods { shift: false, ctrl: true, super_: false };
const SHIFT_CTRL: Mods = Mods { shift: true, ctrl: true, super_: false };
const SUPER: Mods = Mods { shift: false, ctrl: false, super_: true };

fn window(id: u32, desktop: u32) -> WindowInfo {
    WindowInfo { id, desktop, title: format!("t{id}"), class: format!("c{id}"), icon: None }
}

/// Three desktops numbered 0, 1, 2; rows: 0 header (1 px), 1 = window 12
/// (31 px, hint f), 2 = window 10 (57 px, hint s), 3 header (83 px),
/// 4 = window 11 (113 px, hint a), 5 header (139 px).
fn state() -> State {
    let desktops =
        (0..3).map(|index| DesktopInfo { index, name: format!("d{index}") }).collect();
    let windows = vec![window(10, 0), window(11, 1), window(12, 0)];
    let mut s = State::snapshot(Config::default(), desktops, windows, 0, Some(10));
    assert_eq!(s.open(), 170);
    s
}

fn press(s: &mut State, key: Key, mods: Mods) -> (Outcome, Vec<Effect>) {
    let mut fx = vec![];
    let reply = handle_keypress(s, key, 5, mods, &mut fx);
    s.commit(reply.commit, Report { failed: None, focus: None }).unwrap();
    (reply.outcome, fx)
}

fn switch(desktop: u32) -> Effect {
    Effect::Require(WmOp::SwitchDesktop { desktop, time: 5 })
}

fn close(window: u32) -> Effect {
    Effect::Require(WmOp::Close { window, time: 5 })
}

fn ids(s: &State) -> Vec<u32> {
    s.windows.iter().map(|w| w.id).collect()
}

#[test]
fn popup_opens_at_the_focus() {
    let s = state();
    assert_eq!((s.cursor, s.scroll, s.viewport_h), (2, 0, 170_000));
}

#[test]
fn popup_height_is_limited() {
    let mut s = state();
    s.cfg.max_height = 100;
    assert_eq!(s.open(), 100);
    s.cfg.max_height = 640;
    s.cfg.border_thickness = 1_500;
    // 2 * 1.5 px more padding instead of 2 px.
    assert_eq!(s.open(), 171);
    s.desktops.clear();
    assert_eq!(s.open(), 33);
}

#[test]
fn escape_q_and_super_d_close_the_popup() {
    for (key, mods) in [
        (Key::Escape, NONE),
        (Key::Char('q'), NONE),
        (Key::Char('Q'), SHIFT),
        (Key::Char('d'), SUPER),
        (Key::Char('D'), SUPER),
    ] {
        let mut s = state();
        s.pending_dd = true;
        assert_eq!(press(&mut s, key, mods), (Outcome::Close, vec![]));
        assert_eq!(ids(&s), vec![10, 11, 12]);
    }
}

#[test]
fn cursor_keys() {
    let mut s = state();
    for (key, row) in [
        (Key::Char('j'), 3),
        (Key::Down, 4),
        (Key::Char('k'), 3),
        (Key::Up, 2),
        (Key::Char('J'), 3),
        (Key::Char('G'), 5),
        (Key::Down, 5),
    ] {
        assert_eq!(press(&mut s, key, NONE), (Outcome::Repaint, vec![]));
        assert_eq!(s.cursor, row);
    }
}

#[test]
fn down_and_up_come_back() {
    for row in 1..5 {
        let mut s = state();
        s.cursor = row;
        press(&mut s, Key::Down, NONE);
        press(&mut s, Key::Up, NONE);
        assert_eq!(s.cursor, row);
        press(&mut s, Key::Char('k'), NONE);
        press(&mut s, Key::Char('j'), NONE);
        assert_eq!(s.cursor, row);
    }
}

#[test]
fn gg_goes_to_the_top() {
    let mut s = state();
    assert_eq!(press(&mut s, Key::Char('g'), NONE), (Outcome::Repaint, vec![]));
    assert!(s.pending_gg);
    assert_eq!(s.cursor, 2);
    assert_eq!(press(&mut s, Key::Char('g'), NONE), (Outcome::Repaint, vec![]));
    assert!(!s.pending_gg);
    assert_eq!(s.cursor, 0);
    s.cursor = 2;
    press(&mut s, Key::Char('g'), NONE);
    press(&mut s, Key::Char('j'), NONE);
    assert!(!s.pending_gg);
    assert_eq!(s.cursor, 3);
}

#[test]
fn enter_on_a_header() {
    let mut s = state();
    s.cursor = 3;
    assert_eq!(press(&mut s, Key::Return, NONE), (Outcome::Close, vec![switch(1)]));
}

#[test]
fn enter_on_an_app() {
    let mut s = state();
    s.cursor = 4;
    let (outcome, fx) = press(&mut s, Key::Return, NONE);
    assert_eq!(outcome, Outcome::Close);
    assert_eq!(fx[1], switch(1));
    assert_eq!(fx[2], Effect::Require(WmOp::Activate { window: 11, time: 5 }));
}

#[test]
fn hints_are_enter_on_their_row() {
    for (hint, row) in [('f', 1), ('s', 2), ('a', 4), ('A', 4)] {
        let mut s = state();
        let by_hint = press(&mut s, Key::Char(hint), NONE);
        let mut t = state();
        t.cursor = row;
        let by_enter = press(&mut t, Key::Return, NONE);
        assert_eq!(by_hint, by_enter);
        assert_eq!((s.cursor, s.current_desktop), (t.cursor, t.current_desktop));
        assert_eq!(s.focused_window, t.focused_window);
    }
}

#[test]
fn hints_need_a_row_and_no_modifiers() {
    let mut s = state();
    assert_eq!(press(&mut s, Key::Char('r'), NONE), (Outcome::Nothing, vec![]));
    for mods in [SHIFT, CTRL, SUPER] {
        assert_eq!(press(&mut s, Key::Char('f'), mods), (Outcome::Nothing, vec![]));
    }
}

#[test]
fn digits_show_desktops() {
    let mut s = state();
    s.desktops = (0..11).map(|i| DesktopInfo { index: 100 + i, name: String::new() }).collect();
    assert_eq!(press(&mut s, Key::Char('1'), NONE), (Outcome::Close, vec![switch(100)]));
    assert_eq!(press(&mut s, Key::Char('9'), NONE), (Outcome::Close, vec![switch(108)]));
    assert_eq!(press(&mut s, Key::Char('0'), NONE), (Outcome::Close, vec![switch(109)]));
}

#[test]
fn digits_without_a_desktop_are_ignored() {
    let mut s = state();
    assert_eq!(press(&mut s, Key::Char('4'), NONE), (Outcome::Nothing, vec![]));
    assert_eq!(press(&mut s, Key::Char('0'), NONE), (Outcome::Nothing, vec![]));
    s.pending_dd = true;
    assert_eq!(press(&mut s, Key::Char('4'), NONE), (Outcome::Repaint, vec![]));
    assert!(!s.pending_dd);
}

#[test]
fn dd_closes_the_app() {
    let mut s = state();
    assert_eq!(press(&mut s, Key::Char('d'), NONE), (Outcome::Repaint, vec![]));
    assert!(s.pending_dd);
    assert_eq!(ids(&s), vec![10, 11, 12]);
    assert_eq!(press(&mut s, Key::Char('d'), NONE), (Outcome::Repaint, vec![close(10)]));
    assert!(!s.pending_dd);
    assert_eq!(ids(&s), vec![11, 12]);
    // On a header there is nothing to close.
    s.cursor = 0;
    press(&mut s, Key::Char('d'), NONE);
    assert_eq!(press(&mut s, Key::Char('D'), SHIFT), (Outcome::Repaint, vec![]));
    assert!(!s.pending_dd);
}

#[test]
fn other_keys_cancel_dd() {
    for key in [Key::Char('x'), Key::Char('j'), Key::Char('g'), Key::Up, Key::Other, Key::F1] {
        let mut s = state();
        press(&mut s, Key::Char('d'), NONE);
        let (outcome, fx) = press(&mut s, key, NONE);
        assert_eq!((outcome, fx), (Outcome::Repaint, vec![]));
        assert!(!s.pending_dd);
        s.show_help = false;
        assert_eq!(press(&mut s, Key::Char('d'), NONE), (Outcome::Repaint, vec![]));
        assert_eq!(ids(&s), vec![10, 11, 12]);
    }
}

#[test]
fn keys_without_meaning_do_nothing() {
    let mut s = state();
    assert_eq!(press(&mut s, Key::Other, NONE), (Outcome::Nothing, vec![]));
    assert_eq!(press(&mut s, Key::Char('%'), NONE), (Outcome::Nothing, vec![]));
    s.pending_gg = true;
    assert_eq!(press(&mut s, Key::Char('%'), NONE), (Outcome::Repaint, vec![]));
}

#[test]
fn shift_j_and_k_move_the_app() {
    let mut s = state();
    let (outcome, fx) = press(&mut s, Key::Char('J'), SHIFT);
    assert_eq!(outcome, Outcome::Repaint);
    assert_eq!(
        fx,
        vec![
            Effect::Require(WmOp::MoveToDesktop { window: 10, desktop: 1 }),
            Effect::RefreshFocus,
        ]
    );
    assert_eq!(s.cursor_window_idx(), Some(0));
    press(&mut s, Key::Char('K'), SHIFT);
    assert_eq!(s.windows[0].desktop, 0);
    press(&mut s, Key::Char('k'), SHIFT);
    assert_eq!(s.windows[0].desktop, 2);
    let (_, fx) = press(&mut s, Key::Char('J'), SHIFT_CTRL);
    assert_eq!(s.windows[0].desktop, 0);
    assert_eq!(fx.len(), 4);
    assert_eq!(s.focused_window, Some(10));
}

#[test]
fn shift_j_on_a_header_is_ignored() {
    let mut s = state();
    s.cursor = 3;
    assert_eq!(press(&mut s, Key::Char('J'), SHIFT), (Outcome::Nothing, vec![]));
    s.pending_gg = true;
    assert_eq!(press(&mut s, Key::Char('K'), SHIFT_CTRL), (Outcome::Repaint, vec![]));
    assert_eq!((s.cursor, s.pending_gg), (3, false));
}

#[test]
fn help_is_modal() {
    let mut s = state();
    s.pending_gg = true;
    s.pending_dd = true;
    assert_eq!(press(&mut s, Key::F1, NONE), (Outcome::Repaint, vec![]));
    assert!(s.show_help && !s.pending_dd && !s.pending_gg);
    for key in [Key::Char('j'), Key::Char('f'), Key::Char('1'), Key::Return, Key::Char('d')] {
        assert_eq!(press(&mut s, key, NONE), (Outcome::Nothing, vec![]));
        assert!(s.show_help);
        assert_eq!(s.cursor, 2);
    }
    assert_eq!(press(&mut s, Key::Char('d'), SUPER), (Outcome::Close, vec![]));
    assert_eq!(press(&mut s, Key::Char('Q'), NONE), (Outcome::Close, vec![]));
    assert_eq!(press(&mut s, Key::Escape, NONE), (Outcome::Repaint, vec![]));
    assert!(!s.show_help);
    press(&mut s, Key::F1, NONE);
    assert_eq!(press(&mut s, Key::F1, NONE), (Outcome::Repaint, vec![]));
    assert!(!s.show_help);
}

// A keyboard where key code 8 + n is the n-th letter.
fn keymap() -> Keymap {
    Keymap::fetch(8, 2, (0..26).flat_map(|n| [0x61 + n, 0x41 + n]).collect())
}

fn code(letter: char) -> u8 {
    8 + (letter as u8 - b'a')
}

fn session(held: Vec<u8>) -> Session {
    Session::new(state(), keymap(), held, 520, 170)
}

fn send(s: &mut Session, event: PopupEvent) -> (Outcome, Vec<Effect>) {
    let mut fx = vec![];
    assert!(s.can_handle(event));
    let reply = s.handle(event, &mut fx);
    s.finish(reply.commit, Report { failed: None, focus: None }).unwrap();
    (reply.outcome, fx)
}

fn key_press(letter: char, state: u16) -> PopupEvent {
    PopupEvent::KeyPress { keycode: code(letter), state, time: 5 }
}

fn button(button: u8, x: i16, y: i16, state: u16) -> PopupEvent {
    PopupEvent::ButtonPress { button, x, y, state, time: 5 }
}

fn release(button: u8, y: i16) -> PopupEvent {
    PopupEvent::ButtonRelease { button, y, time: 5 }
}

fn motion(x: i16, y: i16) -> PopupEvent {
    PopupEvent::Motion { x, y }
}

#[test]
fn exposure_and_other_events() {
    let mut s = session(vec![]);
    assert_eq!(send(&mut s, PopupEvent::Expose), (Outcome::Repaint, vec![]));
    assert_eq!(send(&mut s, PopupEvent::Other), (Outcome::Nothing, vec![]));
    assert_eq!(send(&mut s, PopupEvent::FocusOut { mode: 0 }), (Outcome::Close, vec![]));
    assert_eq!(send(&mut s, PopupEvent::FocusOut { mode: 1 }), (Outcome::Nothing, vec![]));
}

#[test]
fn key_presses_reach_the_popup() {
    let mut s = session(vec![]);
    assert_eq!(send(&mut s, key_press('j', 0)), (Outcome::Repaint, vec![]));
    assert_eq!(s.state.cursor, 3);
    // Super, Shift and Ctrl are bits 6, 0 and 2.
    assert_eq!(send(&mut s, key_press('d', 64)), (Outcome::Close, vec![]));
    s.state.cursor = 2;
    let (_, fx) = send(&mut s, key_press('j', 1));
    assert_eq!(fx.len(), 2);
    let (_, fx) = send(&mut s, key_press('j', 1 | 4));
    assert_eq!(fx.len(), 5);
}

#[test]
fn held_keys_are_swallowed_once() {
    let mut s = session(vec![code('x'), code('d'), code('y')]);
    assert_eq!(send(&mut s, key_press('d', 64)), (Outcome::Nothing, vec![]));
    assert_eq!(s.swallow, vec![code('x'), code('y')]);
    assert_eq!(send(&mut s, key_press('d', 64)), (Outcome::Close, vec![]));
    let released = PopupEvent::KeyRelease { keycode: code('x') };
    assert_eq!(send(&mut s, released), (Outcome::Nothing, vec![]));
    assert_eq!(s.swallow, vec![code('y')]);
}

#[test]
fn clicks_outside_close_the_popup() {
    for (x, y) in [(-1, 10), (10, -1), (520, 10), (10, 170)] {
        let mut s = session(vec![]);
        s.state.show_help = true;
        assert_eq!(send(&mut s, button(3, x, y, 0)), (Outcome::Close, vec![]));
    }
    let mut s = session(vec![]);
    assert_eq!(send(&mut s, button(1, 519, 169, 0)), (Outcome::Nothing, vec![]));
    assert_eq!(send(&mut s, button(1, 0, 0, 0)), (Outcome::Nothing, vec![]));
}

#[test]
fn clicks_on_headers_show_desktops() {
    let mut s = session(vec![]);
    assert_eq!(send(&mut s, button(1, 10, 83, 0)), (Outcome::Close, vec![switch(1)]));
    assert_eq!(send(&mut s, button(2, 10, 83, 0)), (Outcome::Nothing, vec![]));
    assert_eq!(send(&mut s, button(3, 10, 83, 0)), (Outcome::Nothing, vec![]));
    s.state.show_help = true;
    assert_eq!(send(&mut s, button(1, 10, 83, 0)), (Outcome::Nothing, vec![]));
}

#[test]
fn clicks_on_apps_go_to_them() {
    let mut s = session(vec![]);
    assert_eq!(send(&mut s, button(1, 10, 120, 0)), (Outcome::Repaint, vec![]));
    assert_eq!(s.state.cursor, 4);
    assert_eq!(send(&mut s, motion(12, 118)), (Outcome::Repaint, vec![]));
    assert!(!s.state.drag.as_ref().unwrap().started);
    let (outcome, fx) = send(&mut s, release(1, 118));
    let mut t = state();
    t.cursor = 4;
    assert_eq!((outcome, fx), press(&mut t, Key::Return, NONE));
}

#[test]
fn drags_move_apps() {
    let mut s = session(vec![]);
    send(&mut s, button(1, 10, 120, 0));
    {
        let d = s.state.drag.as_ref().unwrap();
        assert_eq!((d.window_id, d.label.as_str(), d.follow), (11, "C11", false));
        assert_eq!((d.press_x, d.press_y, d.target_desktop), (10, 120, None));
    }
    send(&mut s, motion(10, 150));
    {
        let d = s.state.drag.as_ref().unwrap();
        assert!(d.started);
        assert_eq!((d.cursor_x, d.cursor_y, d.target_desktop), (10, 150, Some(2)));
    }
    // A drag that has started stays one.
    send(&mut s, motion(10, 121));
    assert!(s.state.drag.as_ref().unwrap().started);
    send(&mut s, motion(10, 150));
    let (outcome, fx) = send(&mut s, release(1, 150));
    assert_eq!(outcome, Outcome::Close);
    assert_eq!(
        fx,
        vec![
            Effect::Require(WmOp::MoveToDesktop { window: 11, desktop: 2 }),
            Effect::RefreshFocus,
        ]
    );
    assert_eq!(s.state.windows[1].desktop, 2);
    assert!(s.state.drag.is_none());
}

#[test]
fn drags_with_shift_take_the_user_along() {
    let mut s = session(vec![]);
    send(&mut s, button(1, 10, 120, 1));
    send(&mut s, motion(10, 150));
    let (outcome, fx) = send(&mut s, release(1, 150));
    assert_eq!(outcome, Outcome::Close);
    assert_eq!(fx[2], switch(2));
    assert_eq!(fx[3], Effect::Require(WmOp::Activate { window: 11, time: 5 }));
}

#[test]
fn drags_to_app_rows_go_to_their_desktop() {
    let mut s = session(vec![]);
    s.state.windows[2].desktop = ALL_DESKTOPS;
    send(&mut s, button(1, 10, 65, 0));
    send(&mut s, motion(10, 145));
    assert_eq!(s.state.drag.as_ref().unwrap().target_desktop, Some(1));
    send(&mut s, motion(10, 40));
    assert_eq!(s.state.drag.as_ref().unwrap().target_desktop, Some(ALL_DESKTOPS));
}

#[test]
fn drags_to_nowhere_change_nothing() {
    let mut s = session(vec![]);
    send(&mut s, button(1, 10, 120, 0));
    send(&mut s, motion(10, -50));
    assert_eq!(s.state.drag.as_ref().unwrap().target_desktop, None);
    assert_eq!(send(&mut s, release(1, -50)), (Outcome::Repaint, vec![]));
    assert!(s.state.drag.is_none());
    assert_eq!(s.state.windows[1].desktop, 1);
    assert_eq!(send(&mut s, release(1, 50)), (Outcome::Nothing, vec![]));
    assert_eq!(send(&mut s, motion(1, 1)), (Outcome::Nothing, vec![]));
}

#[test]
fn drags_of_windows_that_are_gone_change_nothing() {
    let mut s = session(vec![]);
    send(&mut s, button(1, 10, 120, 0));
    send(&mut s, motion(10, 150));
    s.state.windows.remove(1);
    assert_eq!(send(&mut s, release(1, 150)), (Outcome::Repaint, vec![]));
}

#[test]
fn middle_clicks_close_apps() {
    let mut s = session(vec![]);
    assert_eq!(send(&mut s, button(2, 10, 120, 0)), (Outcome::Nothing, vec![]));
    assert_eq!(s.state.middle_press, Some(11));
    assert_eq!(send(&mut s, release(2, 130)), (Outcome::Repaint, vec![close(11)]));
    assert_eq!(ids(&s.state), vec![10, 12]);
    assert_eq!(s.state.middle_press, None);
}

#[test]
fn middle_clicks_can_be_taken_back() {
    for y in [65, 83, 1000, -3] {
        let mut s = session(vec![]);
        send(&mut s, button(2, 10, 120, 0));
        assert_eq!(send(&mut s, release(2, y)), (Outcome::Nothing, vec![]));
        assert_eq!(s.state.middle_press, None);
        assert_eq!(ids(&s.state), vec![10, 11, 12]);
        assert_eq!(send(&mut s, release(2, 120)), (Outcome::Nothing, vec![]));
    }
    let mut s = session(vec![]);
    assert_eq!(send(&mut s, release(3, 120)), (Outcome::Nothing, vec![]));
}

#[test]
fn events_keep_desktops_and_size_and_lose_one_window_at_a_time() {
    let events = [
        key_press('d', 0),
        key_press('d', 0),
        key_press('j', 1),
        key_press('g', 0),
        key_press('g', 0),
        button(2, 10, 40, 0),
        release(2, 40),
        button(1, 10, 40, 0),
        motion(10, 100),
        release(1, 100),
        PopupEvent::Expose,
    ];
    let mut s = session(vec![]);
    for event in events {
        let before = s.state.windows.len();
        let (_, fx) = send(&mut s, event);
        let after = s.state.windows.len();
        let closed = fx.iter().any(|e| matches!(e, Effect::Require(WmOp::Close { .. })));
        assert_eq!(after, if closed { before - 1 } else { before });
        assert_eq!(s.state.desktops.len(), 3);
        assert_eq!(s.state.viewport_h, 170_000);
        assert!(s.state.cursor < s.state.layout().rows.len());
    }
}

#[test]
fn failed_requests_of_an_event() {
    let mut s = session(vec![]);
    let mut fx = vec![];
    send(&mut s, key_press('d', 0));
    let reply = s.handle(key_press('d', 0), &mut fx);
    assert!(s.finish(reply.commit, Report { failed: Some(0), focus: None }).is_err());
    assert_eq!(ids(&s.state), vec![10, 11, 12]);
    assert_eq!((s.state.cursor, s.state.focused_window), (2, Some(10)));
}

#[test]
fn swallowed_keys_need_no_symbol() {
    let mut s = session(vec![9]);
    // Key code 9 has its first symbol only.
    s.keymap = Keymap::fetch(8, 2, vec![0x61, 0x41, 0x62]);
    let shifted = PopupEvent::KeyPress { keycode: 9, state: 1, time: 5 };
    assert!(s.can_handle(shifted));
    assert_eq!(send(&mut s, shifted), (Outcome::Nothing, vec![]));
    assert!(!s.can_handle(shifted));
    assert!(s.can_handle(PopupEvent::KeyPress { keycode: 9, state: 0, time: 5 }));
    assert!(s.can_handle(PopupEvent::Expose));
}

#[test]
fn clicks_on_very_large_popups_are_inside() {
    let mut s = session(vec![]);
    s.width = 40_000;
    s.height = u16::MAX;
    assert_eq!(send(&mut s, button(1, 30_000, 83, 0)), (Outcome::Close, vec![switch(1)]));
    assert_eq!(send(&mut s, button(1, 30_000, 30_000, 0)), (Outcome::Nothing, vec![]));
    assert_eq!(send(&mut s, button(1, -1, 83, 0)), (Outcome::Close, vec![]));
}

#[test]
fn one_chord_at_a_time() {
    let mut s = state();
    press(&mut s, Key::Char('d'), NONE);
    press(&mut s, Key::Char('g'), NONE);
    assert_eq!((s.pending_dd, s.pending_gg), (false, true));
    press(&mut s, Key::Char('d'), NONE);
    assert_eq!((s.pending_dd, s.pending_gg), (true, false));
    assert_eq!(press(&mut s, Key::Other, NONE), (Outcome::Repaint, vec![]));
    assert_eq!(press(&mut s, Key::Char('d'), NONE), (Outcome::Repaint, vec![]));
    assert_eq!(ids(&s), vec![10, 11, 12]);
}
