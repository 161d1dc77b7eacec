//! What the mouse promises, and what holds of every event.

#[allow(unused_imports)]
use crate::behaviour::{closes_a_window, no_mods};
#[allow(unused_imports)]
use crate::cursor::{brings_in_front, law_drops_end_on_their_desktop, lemma_window_from};
#[allow(unused_imports)]
use crate::ewmh::WindowInfo;
#[allow(unused_imports)]
use crate::keymap::{law_whole_groups_are_complete, Key};
#[allow(unused_imports)]
use crate::keys::{quiet, Mods, Outcome, Step};
#[allow(unused_imports)]
use crate::layout::Row;
#[allow(unused_imports)]
use crate::render::capitalized;
#[allow(unused_imports)]
use crate::rows::{law_point_finds_its_row, law_rows_are_right, row_is_right};
#[allow(unused_imports)]
use crate::session::{
    code_from, lemma_row_from_in_range, mods_of, outside, set_bits, swap_removed, window_from,
    without, PopupEvent, SessionView, PX,
};
#[allow(unused_imports)]
use crate::state::{DragView, StateView};
#[allow(unused_imports)]
use crate::wm::{Commit, Effect, Report, WmOp};
use vstd::prelude::*;

verus! {

/// A click outside the popup closes it and does nothing else, and so does
/// losing the focus.
pub proof fn law_leaving_closes_the_popup(
    s: SessionView,
    button: u8,
    x: i16,
    y: i16,
    state: u16,
    time: u32,
)
    requires
        outside(x, y, s.width, s.height),
    ensures
        s.on_event(PopupEvent::ButtonPress { button, x, y, state, time }) == quiet(
            s.state,
            Outcome::Close,
        ),
        s.on_event(PopupEvent::FocusOut { mode: 0 }) == quiet(s.state, Outcome::Close),
{
}

/// A click on a header does what Enter does on it.
pub proof fn law_click_on_header_is_enter(
    s: StateView,
    i: usize,
    x: i16,
    y: i16,
    state: u16,
    time: u32,
    w: u16,
    h: u16,
)
    requires
        s.wf(),
        s.rows().len() <= usize::MAX,
        !s.show_help,
        !outside(x, y, w, h),
        s.row_at(y) == Some(i),
        s.rows()[i as int] is Header,
    ensures
        ({
            let click = s.on_press(1, x, y, state, time, w, h);
            let enter = (StateView { cursor: i as int, ..s }).on_key(Key::Return, time, no_mods());
            click.fx == enter.fx && click.outcome == enter.outcome && click.outcome
                == Outcome::Close
        }),
{
    lemma_row_from_in_range(s.layout(), y * PX + s.scroll, 0);
    let e = StateView { cursor: i as int, ..s };
    let d = e.disarmed(Key::Return, no_mods());
    assert(d.rows() == s.rows());
}

/// A click on an app row does what Enter does on it, also when the pointer
/// moves a little before the button comes up.
pub proof fn law_click_on_app_is_enter(
    s: StateView,
    i: usize,
    x: i16,
    y: i16,
    x2: i16,
    y2: i16,
    state: u16,
    time1: u32,
    time2: u32,
    w: u16,
    h: u16,
)
    requires
        s.wf(),
        s.rows().len() <= usize::MAX,
        !s.show_help,
        !outside(x, y, w, h),
        s.row_at(y) == Some(i),
        s.rows()[i as int] is App,
        (x2 - x) * (x2 - x) + (y2 - y) * (y2 - y) <= 16,
    ensures
        ({
            let pressed = s.on_press(1, x, y, state, time1, w, h);
            let moved = pressed.state().on_motion(x2, y2);
            let released = pressed.state().on_release(1, y, time2);
            let released2 = moved.state().on_release(1, y2, time2);
            let enter = (StateView { cursor: i as int, ..s }).on_key(Key::Return, time2, no_mods());
            &&& pressed.fx == Seq::<Effect>::empty() && pressed.outcome == Outcome::Repaint
            &&& released.fx == enter.fx && released.outcome == Outcome::Close
            &&& released2.fx == enter.fx && released2.outcome == Outcome::Close
        }),
{
    lemma_row_from_in_range(s.layout(), y * PX + s.scroll, 0);
    let e = StateView { cursor: i as int, ..s };
    let d = e.disarmed(Key::Return, no_mods());
    assert(d.rows() == s.rows());
    let pressed = s.on_press(1, x, y, state, time1, w, h).state();
    let a = StateView { drag: None, ..pressed };
    assert(a.rows() == s.rows());
    let moved = pressed.on_motion(x2, y2).state();
    let b = StateView { drag: None, ..moved };
    assert(b.rows() == s.rows());
    assert(moved.drag matches Some(m) && !m.started);
}

/// A middle click closes the app that it is on. If the pointer is on another
/// window when the button comes up, or on none, nothing happens.
pub proof fn law_middle_click_closes_its_app(
    s: StateView,
    wi: int,
    x: i16,
    y: i16,
    y2: i16,
    state: u16,
    time1: u32,
    time2: u32,
    w: u16,
    h: u16,
)
    requires
        s.wf(),
        !s.show_help,
        !outside(x, y, w, h),
        s.window_at(y) == Some(wi),
    ensures
        ({
            let pressed = s.on_press(2, x, y, state, time1, w, h);
            let released = pressed.state().on_release(2, y2, time2);
            &&& pressed.fx == Seq::<Effect>::empty() && pressed.outcome == Outcome::Nothing
            &&& match s.window_at(y2) {
                Some(wj) if s.windows[wj].id == s.windows[wi].id => {
                    &&& released.fx == seq![
                        Effect::Require(WmOp::Close { window: s.windows[wi].id, time: time2 }),
                    ]
                    &&& released.state().windows == s.windows.remove(wj)
                    &&& released.outcome == Outcome::Repaint
                },
                _ => released == quiet(
                    StateView { middle_press: None, ..s },
                    Outcome::Nothing,
                ),
            }
        }),
{
    reveal(StateView::visible);
    let pressed = s.on_press(2, x, y, state, time1, w, h).state();
    assert(pressed.rows() == s.rows());
    assert(pressed.layout() == s.layout());
    assert(pressed.window_at(y2) == s.window_at(y2));
}

/// A drag moves its app to the desktop where it is let go of, and closes the
/// popup. The focus goes there only with the user: when Shift was held, or on
/// the current desktop.
pub proof fn law_drop_moves_the_app(
    s: StateView,
    wi: int,
    target: u32,
    y: i16,
    time: u32,
)
    requires
        s.wf(),
        s.drag matches Some(d) && d.started && d.target_desktop == Some(target) && window_from(
            s.windows,
            d.window_id,
            0,
        ) == Some(wi),
    ensures
        ({
            let step = s.on_release(1, y, time);
            &&& step.outcome == Outcome::Close
            &&& step.state().windows[wi].desktop == target
            &&& step.state().drag is None
            &&& s.windows[wi].desktop != target ==> step.fx[0] == Effect::Require(
                WmOp::MoveToDesktop { window: s.windows[wi].id, desktop: target },
            )
            &&& (exists|k: int|
                0 <= k < step.fx.len() && #[trigger] step.fx[k] == Effect::Require(
                    WmOp::Activate { window: s.windows[wi].id, time },
                )) <==> s.drag->0.follow || target == s.current_desktop
        }),
{
    reveal(StateView::visible);
    let d = s.drag->0;
    lemma_window_from(s.windows, d.window_id, 0);
    let a = StateView { drag: None, ..s };
    let step = s.on_release(1, y, time);
    let win = s.windows[wi].id;
    let moves = a.sticky(wi) || a.windows[wi].desktop != target;
    let in_front = d.follow || target == a.current_desktop;
    let activate = Effect::Require(WmOp::Activate { window: win, time });
    assert(step.fx == a.placing(wi, target, moves, in_front, time));
    let skipped: int = if moves {
        1
    } else {
        0
    };
    if in_front {
        let at = skipped + if target != a.current_desktop {
            2int
        } else {
            1int
        };
        assert(step.fx[at] == activate);
    } else {
        assert(step.fx[skipped] == Effect::RefreshFocus);
        assert(step.fx.len() == skipped + 1);
    }
}

/// A drag that is let go of where there is no desktop changes nothing.
pub proof fn law_drop_outside_changes_nothing(s: StateView, y: i16, time: u32)
    requires
        s.drag matches Some(d) && d.started && d.target_desktop is None,
    ensures
        s.on_release(1, y, time) == quiet(StateView { drag: None, ..s }, Outcome::Repaint),
{
}

/// The popup is never higher than configured, and as high as its content if
/// that is allowed and possible for a window.
pub proof fn law_popup_fits(s: StateView)
    requires
        s.wf(),
    ensures
        s.popup_height() <= s.cfg.max_height,
        s.popup_height() < s.cfg.max_height ==> s.popup_height() * PX >= s.layout().content_h,
        s.popup_height() < s.cfg.max_height ==> s.popup_height() * PX > s.cfg.header_height
            + s.cfg.border_thickness * 2 - PX,
{
}

proof fn lemma_set_bits(keys: Seq<u8>, n: int)
    requires
        0 <= n <= 256,
    ensures
        forall|i: int| 0 <= i < set_bits(keys, n).len() ==> (#[trigger] set_bits(keys, n)[i]) < n,
        forall|i: int, k: int|
            0 <= i < k < set_bits(keys, n).len() ==> set_bits(keys, n)[i] < set_bits(keys, n)[k],
    decreases n,
{
    if n > 0 {
        lemma_set_bits(keys, n - 1);
        let below = set_bits(keys, n - 1);
        let all = set_bits(keys, n);
        assert(forall|i: int| 0 <= i < below.len() ==> all[i] == below[i]);
        assert(all.len() > below.len() ==> all.last() == (n - 1) as u8);
    }
}

proof fn lemma_code_from(codes: Seq<u8>, keycode: u8, from: int)
    requires
        0 <= from,
    ensures
        match code_from(codes, keycode, from) {
            Some(i) => from <= i < codes.len() && codes[i] == keycode,
            None => forall|i: int| from <= i < codes.len() ==> (#[trigger] codes[i]) != keycode,
        },
    decreases codes.len() - from,
{
    if from < codes.len() {
        lemma_code_from(codes, keycode, from + 1);
    }
}

/// Every key that was down when the popup opened is listed once.
pub proof fn law_held_keys_are_listed_once(keys: Seq<u8>)
    requires
        keys.len() <= 32,
    ensures
        set_bits(keys, keys.len() as int * 8).no_duplicates(),
{
    lemma_set_bits(keys, keys.len() as int * 8);
}

/// The first press of a key that was down when the popup opened does nothing;
/// the next one counts.
pub proof fn law_held_key_is_swallowed_once(s: SessionView, keycode: u8, state: u16, time: u32)
    requires
        s.swallow.no_duplicates(),
        s.swallow.contains(keycode),
    ensures
        ({
            let press = PopupEvent::KeyPress { keycode, state, time };
            &&& s.on_event(press) == quiet(s.state, Outcome::Nothing)
            &&& !s.swallow_after(press).contains(keycode)
            &&& s.swallow_after(press).no_duplicates()
            &&& forall|other: u8|
                other != keycode ==> (#[trigger] s.swallow_after(press).contains(other)
                    <==> s.swallow.contains(other))
        }),
{
    lemma_code_from(s.swallow, keycode, 0);
    lemma_swap_removed(s.swallow, code_from(s.swallow, keycode, 0)->0);
}

proof fn lemma_swap_removed(codes: Seq<u8>, i: int)
    requires
        codes.no_duplicates(),
        0 <= i < codes.len(),
    ensures
        !swap_removed(codes, i).contains(codes[i]),
        swap_removed(codes, i).no_duplicates(),
        forall|other: u8|
            other != codes[i] ==> (#[trigger] swap_removed(codes, i).contains(other)
                <==> codes.contains(other)),
{
    let rest = swap_removed(codes, i);
    let last = codes.len() - 1;
    assert forall|other: u8| other != codes[i] implies (#[trigger] rest.contains(other)
        <==> codes.contains(other)) by {
        if codes.contains(other) {
            let k = choose|k: int| 0 <= k < codes.len() && codes[k] == other;
            if k == last {
                assert(rest[i] == other);
            } else {
                assert(rest[k] == other);
            }
        }
        if rest.contains(other) {
            let k = choose|k: int| 0 <= k < rest.len() && rest[k] == other;
            if k == i {
                assert(codes[last] == other);
            } else {
                assert(codes[k] == other);
            }
        }
    }
}

/// Once a key has been released, its next press counts.
pub proof fn law_release_ends_swallowing(s: SessionView, keycode: u8)
    ensures
        !s.swallow_after(PopupEvent::KeyRelease { keycode }).contains(keycode),
{
    lemma_without(s.swallow, keycode);
}

proof fn lemma_without(codes: Seq<u8>, keycode: u8)
    ensures
        !without(codes, keycode).contains(keycode),
    decreases codes.len(),
{
    if codes.len() > 0 {
        lemma_without(codes.drop_last(), keycode);
        let rest = without(codes.drop_last(), keycode);
        if codes.last() != keycode {
            assert forall|k: int| 0 <= k < rest.push(codes.last()).len() implies rest.push(
                codes.last(),
            )[k] != keycode by {
                if k < rest.len() {
                    assert(rest[k] != keycode) by {
                        if rest[k] == keycode {
                            assert(rest.contains(keycode));
                        }
                    }
                }
            }
        }
    }
}

/// A press of a key that is not swallowed is handled as that key.
pub proof fn law_other_keys_count(s: SessionView, keycode: u8, state: u16, time: u32)
    requires
        !s.swallow.contains(keycode),
    ensures
        s.on_event(PopupEvent::KeyPress { keycode, state, time }) == s.state.on_key(
            s.keymap.meaning(keycode, state),
            time,
            mods_of(state),
        ),
        s.swallow_after(PopupEvent::KeyPress { keycode, state, time }) == s.swallow,
{
    lemma_code_from(s.swallow, keycode, 0);
}

impl StateView {
    /// Whether `self` has the desktops, the configuration and the size of
    /// `before`.
    pub open spec fn same_frame(self, before: StateView) -> bool {
        self.cfg == before.cfg && self.desktops == before.desktops && self.viewport_h
            == before.viewport_h
    }

    /// Whether `self` also has as many windows as `before`.
    pub open spec fn same_list(self, before: StateView) -> bool {
        self.same_frame(before) && self.windows.len() == before.windows.len()
    }
}

impl Step {
    /// Whether a step, whose work goes as reported, keeps everything but the
    /// position of windows, or takes one window off the list after asking it
    /// to close.
    pub open spec fn keeps_the_rest(self, before: StateView, report: Report) -> bool {
        let t = self.finished(report);
        &&& self.held.same_list(before)
        &&& t.same_list(before) || t.same_frame(before) && t.windows.len() + 1
            == before.windows.len() && report.failed is None && self.fx.len() == 1
            && closes_a_window(self.fx[0])
    }
}

proof fn lemma_snapped_keeps(s: StateView, wi: int)
    ensures
        s.snapped(wi).same_list(s),
{
    reveal(StateView::visible);
}

proof fn lemma_placed_keeps(
    s: StateView,
    wi: int,
    target: u32,
    moves: bool,
    in_front: bool,
    report: Report,
)
    requires
        0 <= wi < s.windows.len(),
    ensures
        s.placed_after(wi, target, moves, in_front, report).same_list(s),
{
    let a = if moves {
        s.with_desktop(wi, target)
    } else {
        s
    };
    lemma_snapped_keeps(a.focus_read(report.focus), wi);
    lemma_snapped_keeps(a.activated(s.windows[wi].id, target), wi);
}

proof fn lemma_closed_keeps(s: StateView, wi: int)
    requires
        0 <= wi < s.windows.len(),
    ensures
        s.app_closed(wi).same_frame(s),
        s.app_closed(wi).windows.len() + 1 == s.windows.len(),
{
    reveal(StateView::visible);
}

proof fn lemma_with_cursor_keeps(s: StateView, row: int)
    ensures
        s.with_cursor(row).same_list(s),
{
    reveal(StateView::visible);
    reveal(StateView::with_cursor);
}

proof fn lemma_shown_window(s: StateView, i: int)
    requires
        s.wf(),
        0 <= i < s.rows().len(),
    ensures
        s.rows()[i] matches Row::App { window_idx, .. } ==> window_idx < s.windows.len(),
{
    law_rows_are_right(s.desktops, s.windows, s.current_desktop, s.focused_window);
    assert(row_is_right(
        s.desktops,
        s.windows,
        s.current_desktop,
        s.focused_window,
        s.rows(),
        i,
    ));
}

proof fn lemma_step_keeps(
    s: StateView,
    delta: int,
    time: u32,
    mods: Mods,
    idle: Outcome,
    report: Report,
)
    requires
        s.wf(),
    ensures
        s.on_step(delta, time, mods, idle).keeps_the_rest(s, report),
{
    reveal(StateView::on_step);
    lemma_with_cursor_keeps(s, s.cursor + delta);
    if let Some(wi) = s.cursor_window() {
        lemma_shown_window(s, s.cursor);
        let target = s.move_target(wi as int, delta);
        lemma_placed_keeps(
            s,
            wi as int,
            target,
            !s.sticky(wi as int) && target != s.windows[wi as int].desktop,
            mods.ctrl,
            report,
        );
    }
}

proof fn lemma_chords_keep(s: StateView, time: u32, report: Report)
    requires
        s.wf(),
    ensures
        s.on_d(time).keeps_the_rest(s, report),
        s.on_g().keeps_the_rest(s, report),
{
    reveal(StateView::on_d);
    lemma_with_cursor_keeps(StateView { pending_gg: false, ..s }, 0);
    if let Some(wi) = s.cursor_window() {
        lemma_shown_window(s, s.cursor);
        lemma_closed_keeps(StateView { pending_dd: false, ..s }, wi as int);
    }
}

proof fn lemma_char_keeps(
    s: StateView,
    c: char,
    time: u32,
    mods: Mods,
    idle: Outcome,
    report: Report,
)
    requires
        s.wf(),
    ensures
        s.on_char(c, time, mods, idle).keeps_the_rest(s, report),
{
    reveal(StateView::on_char);
    lemma_chords_keep(s, time, report);
    lemma_with_cursor_keeps(s, usize::MAX as int);
    lemma_step_keeps(s, 1, time, mods, idle, report);
    lemma_step_keeps(s, -1, time, mods, idle, report);
}

proof fn lemma_key_keeps(s: StateView, key: Key, time: u32, mods: Mods, report: Report)
    requires
        s.wf(),
    ensures
        s.on_key(key, time, mods).keeps_the_rest(s, report),
{
    let d = s.disarmed(key, mods);
    match key {
        Key::Char(c) => lemma_char_keeps(d, c, time, mods, s.idle(key, mods), report),
        Key::Down => lemma_with_cursor_keeps(d, d.cursor + 1),
        Key::Up => lemma_with_cursor_keeps(d, d.cursor - 1),
        _ => {},
    }
}

proof fn lemma_release_keeps(s: StateView, button: u8, y: i16, time: u32, report: Report)
    requires
        s.wf(),
        s.rows().len() <= usize::MAX,
    ensures
        s.on_release(button, y, time).keeps_the_rest(s, report),
{
    lemma_row_from_in_range(s.layout(), y * PX + s.scroll, 0);
    if let Some(wi) = s.window_at(y) {
        lemma_shown_window(s, s.row_at(y)->0 as int);
        lemma_closed_keeps(StateView { middle_press: None, ..s }, wi);
    }
    if let Some(d) = s.drag {
        let a = StateView { drag: None, ..s };
        if let (Some(target), Some(wi)) = (
            d.target_desktop,
            window_from(s.windows, d.window_id, 0),
        ) {
            lemma_window_from(s.windows, d.window_id, 0);
            lemma_placed_keeps(
                a,
                wi,
                target,
                a.sticky(wi) || a.windows[wi].desktop != target,
                d.follow || target == a.current_desktop,
                report,
            );
        }
    }
}

/// Whatever happens, the desktops, the configuration and the size of the popup
/// stay as they are, also if a request fails. At most one window leaves the
/// list, after it was asked to close.
pub proof fn law_events_keep_the_rest(s: SessionView, event: PopupEvent, report: Report)
    requires
        s.state.wf(),
        s.state.rows().len() <= usize::MAX,
    ensures
        s.on_event(event).keeps_the_rest(s.state, report),
{
    match event {
        PopupEvent::KeyPress { keycode, state, time } => {
            lemma_key_keeps(
                s.state,
                s.keymap.meaning(keycode, state),
                time,
                mods_of(state),
                report,
            );
        },
        PopupEvent::ButtonRelease { button, y, time } => {
            lemma_release_keeps(s.state, button, y, time, report);
        },
        _ => {},
    }
}

impl StateView {
    /// Whether a point `y` pixels below the top of the popup lies within row
    /// `i`, as the rows are placed and scrolled.
    pub open spec fn lies_within(self, y: i16, i: int) -> bool {
        let l = self.layout();
        0 <= i < l.rows.len() && l.row_y[i] <= y * 1000 + self.scroll && y * 1000 + self.scroll
            < l.row_y[i] + l.row_h[i]
    }

    /// Whether the heights of rows make sense.
    pub open spec fn has_heights(self) -> bool {
        self.cfg.header_height >= 0 && self.cfg.app_height >= 0 && self.rows().len() <= usize::MAX
    }
}

proof fn lemma_row_under(s: StateView, y: i16, i: int)
    requires
        s.has_heights(),
        s.lies_within(y, i),
    ensures
        s.row_at(y) == Some(i as usize),
{
    law_point_finds_its_row(
        s.rows(),
        s.cfg.border_thickness as int,
        s.cfg.header_height as int,
        s.cfg.app_height as int,
        y * PX,
        s.scroll,
        i,
    );
}

proof fn lemma_no_row_under(s: StateView, y: i16)
    requires
        s.rows().len() <= usize::MAX,
        forall|i: int| !#[trigger] s.lies_within(y, i),
    ensures
        s.row_at(y) is None,
{
    lemma_row_from_in_range(s.layout(), y * PX + s.scroll, 0);
    if let Some(k) = s.row_at(y) {
        assert(s.lies_within(y, k as int));
    }
}

/// While an app is being dragged, the pointer on a header points at the desktop
/// of that header, whichever it is, and on an app row at the desktop of that
/// app; elsewhere it points at none.
pub proof fn law_drag_points_at_the_row(s: StateView, x: i16, y: i16, i: int)
    requires
        s.wf(),
        s.has_heights(),
        s.drag is Some,
    ensures
        s.lies_within(y, i) ==> (s.on_motion(x, y).state().drag matches Some(d)
            && d.target_desktop == Some(
            match s.rows()[i] {
                Row::Header { desktop_idx, .. } => s.desktops[desktop_idx as int].index,
                Row::App { window_idx, .. } => s.windows[window_idx as int].desktop,
            },
        )),
        (forall|k: int| !#[trigger] s.lies_within(y, k)) ==> (
        s.on_motion(x, y).state().drag matches Some(d) && d.target_desktop is None),
{
    if s.lies_within(y, i) {
        lemma_row_under(s, y, i);
    }
    if forall|k: int| !#[trigger] s.lies_within(y, k) {
        lemma_no_row_under(s, y);
    }
}

/// A drag follows the pointer and has started once the pointer has been more
/// than four pixels away from the press; then it stays so. Nothing else
/// changes, and without a drag nothing at all.
pub proof fn law_drag_follows_the_pointer(s: StateView, x: i16, y: i16)
    ensures
        ({
            let step = s.on_motion(x, y);
            let t = step.state();
            &&& step.fx.len() == 0
            &&& s.drag is None ==> t == s && step.outcome == Outcome::Nothing
            &&& s.drag matches Some(d) ==> {
                let (dx, dy) = (x - d.press_x, y - d.press_y);
                &&& step.outcome == Outcome::Repaint
                &&& t.drag matches Some(e) && {
                    &&& e.cursor_x == x && e.cursor_y == y
                    &&& e.started == (d.started || dx * dx + dy * dy > 16)
                    &&& e == (DragView {
                        cursor_x: e.cursor_x,
                        cursor_y: e.cursor_y,
                        started: e.started,
                        target_desktop: e.target_desktop,
                        ..d
                    })
                }
                &&& t == (StateView { drag: t.drag, ..s })
            }
        }),
{
}

/// What a button does inside the popup. The left one on an app row selects the
/// row and takes hold of its window there, on a header it shows the desktop and
/// closes the popup. The middle one remembers the window under it. Off the rows,
/// and with any other button, nothing happens.
pub proof fn law_buttons_inside(
    s: StateView,
    button: u8,
    x: i16,
    y: i16,
    state: u16,
    time: u32,
    w: u16,
    h: u16,
    i: int,
)
    requires
        s.wf(),
        s.has_heights(),
        !s.show_help,
        0 <= x < w,
        0 <= y < h,
    ensures
        ({
            let step = s.on_press(button, x, y, state, time, w, h);
            let t = step.state();
            &&& s.lies_within(y, i) && button == 1 ==> match s.rows()[i] {
                Row::App { window_idx, .. } => {
                    &&& step.fx.len() == 0 && step.outcome == Outcome::Repaint
                    &&& t.cursor == i
                    &&& t.drag matches Some(d) && {
                        &&& d.window_id == s.windows[window_idx as int].id
                        &&& d.press_x == x && d.press_y == y
                        &&& d.cursor_x == x && d.cursor_y == y
                        &&& !d.started && d.target_desktop is None
                        &&& d.follow == (state % 2 == 1)
                        &&& s.windows[window_idx as int].class@.len() == 0 ==> d.label
                            == s.windows[window_idx as int].title@
                        &&& s.windows[window_idx as int].class@.len() > 0 ==> d.label
                            == capitalized(s.windows[window_idx as int].class@)
                    }
                    &&& t == (StateView { cursor: t.cursor, drag: t.drag, ..s })
                },
                Row::Header { desktop_idx, .. } => {
                    &&& step.fx == seq![
                        Effect::Require(
                            WmOp::SwitchDesktop {
                                desktop: s.desktops[desktop_idx as int].index,
                                time,
                            },
                        ),
                    ]
                    &&& step.outcome == Outcome::Close
                    &&& t == s
                },
            }
            &&& s.lies_within(y, i) && button == 2 ==> {
                &&& step.fx.len() == 0 && step.outcome == Outcome::Nothing
                &&& t == match s.rows()[i] {
                    Row::App { window_idx, .. } => StateView {
                        middle_press: Some(s.windows[window_idx as int].id),
                        ..s
                    },
                    Row::Header { .. } => s,
                }
            }
            &&& (button != 1 && button != 2) || (forall|k: int| !#[trigger] s.lies_within(y, k))
                ==> step.fx.len() == 0 && step.outcome == Outcome::Nothing && t == s
        }),
{
    law_modifier_bits(state);
    if s.lies_within(y, i) {
        lemma_row_under(s, y, i);
    }
    if forall|k: int| !#[trigger] s.lies_within(y, k) {
        lemma_no_row_under(s, y);
    }
}

/// A press to the left of the popup, above it, to the right of it or below it
/// closes it and asks for nothing; so does losing the focus, but not as part of
/// a grab. While the key bindings are shown, a press inside does nothing.
pub proof fn law_presses_outside_close(
    s: SessionView,
    button: u8,
    x: i16,
    y: i16,
    state: u16,
    time: u32,
    mode: u8,
)
    ensures
        ({
            let press = s.on_event(PopupEvent::ButtonPress { button, x, y, state, time });
            let lost = s.on_event(PopupEvent::FocusOut { mode });
            let inside = 0 <= x && x < s.width && 0 <= y && y < s.height;
            &&& !inside ==> press.outcome == Outcome::Close && press.fx.len() == 0
                && press.state() == s.state
            &&& inside && s.state.show_help ==> press.outcome == Outcome::Nothing && press.fx.len()
                == 0 && press.state() == s.state
            &&& lost.fx.len() == 0 && lost.state() == s.state
            &&& lost.outcome == if mode == 0 {
                Outcome::Close
            } else {
                Outcome::Nothing
            }
        }),
{
}

/// The modifiers are those bits of an event's state: the first for Shift, the
/// third for Ctrl, the seventh for Super.
pub proof fn law_modifier_bits(state: u16)
    ensures
        mods_of(state).shift == (state % 2 == 1),
        mods_of(state).ctrl == (state / 4 % 2 == 1),
        mods_of(state).super_ == (state / 64 % 2 == 1),
{
    assert((state & 1 != 0) == (state % 2 == 1)) by (bit_vector);
    assert((state & 4 != 0) == (state / 4 % 2 == 1)) by (bit_vector);
    assert((state & 64 != 0) == (state / 64 % 2 == 1)) by (bit_vector);
}

/// The left button coming up ends a drag. One that has not started was a click:
/// the selected row is chosen. One that has started drops its window on the
/// desktop it points at; if it points at none, or the window is gone, nothing
/// is asked for.
pub proof fn law_left_button_up(s: StateView, y: i16, time: u32, report: Report, wi: int)
    requires
        s.wf(),
    ensures
        ({
            let step = s.on_release(1, y, time);
            let rest = StateView { drag: None, ..s };
            match s.drag {
                None => step.fx.len() == 0 && step.outcome == Outcome::Nothing && step.finished(
                    report,
                ) == s,
                Some(d) => {
                    &&& !d.started ==> step.fx == s.choosing(time) && step.outcome == Outcome::Close
                        && step.finished(report) == rest.committed(s.choice(), report)
                    &&& d.started && (d.target_desktop is None || forall|k: int|
                        0 <= k < s.windows.len() ==> (#[trigger] s.windows[k]).id != d.window_id)
                        ==> step.fx.len() == 0 && step.outcome == Outcome::Repaint
                        && step.finished(report) == rest
                    &&& d.started && d.target_desktop is Some && 0 <= wi < s.windows.len()
                        && s.windows[wi].id == d.window_id && (forall|k: int|
                        0 <= k < wi ==> (#[trigger] s.windows[k]).id != d.window_id) ==> {
                        let target = d.target_desktop->0;
                        &&& step.fx == s.dropping_app(wi, target, d.follow, time)
                        &&& step.outcome == Outcome::Close
                        &&& step.finished(report) == rest.committed(
                            s.drop_commit(wi as usize, target, d.follow),
                            report,
                        )
                    }
                },
            }
        }),
{
    let rest = StateView { drag: None, ..s };
    assert(rest.rows() == s.rows());
    if let Some(d) = s.drag {
        lemma_first_window(s.windows, d.window_id, 0);
    }
}

proof fn lemma_first_window(windows: Seq<WindowInfo>, id: u32, from: int)
    requires
        0 <= from,
    ensures
        match window_from(windows, id, from) {
            Some(i) => from <= i < windows.len() && windows[i].id == id && forall|k: int|
                from <= k < i ==> (#[trigger] windows[k]).id != id,
            None => forall|k: int| from <= k < windows.len() ==> (#[trigger] windows[k]).id != id,
        },
    decreases windows.len() - from,
{
    if from < windows.len() && windows[from].id != id {
        lemma_first_window(windows, id, from + 1);
    }
}

/// A press on an app row, a motion of more than four pixels onto any row and a
/// release move that app to the desktop of the row: of every header, that of
/// the current desktop as well. The app is asked to go there first, and the
/// popup closes.
pub proof fn law_drag_and_drop(
    s: StateView,
    i: int,
    k: int,
    wi: usize,
    x: i16,
    y: i16,
    x2: i16,
    y2: i16,
    y3: i16,
    state: u16,
    time1: u32,
    time2: u32,
    w: u16,
    h: u16,
    report: Report,
)
    requires
        s.wf(),
        s.has_heights(),
        !s.show_help,
        0 <= x < w,
        0 <= y < h,
        s.lies_within(y, i),
        s.rows()[i] matches Row::App { window_idx, .. } && window_idx == wi,
        wi < s.windows.len(),
        forall|j: int|
            0 <= j < s.windows.len() && j != wi ==> (#[trigger] s.windows[j]).id
                != s.windows[wi as int].id,
        (x2 - x) * (x2 - x) + (y2 - y) * (y2 - y) > 16,
        s.lies_within(y2, k),
        report.failed is None,
    ensures
        ({
            let pressed = s.on_press(1, x, y, state, time1, w, h).state();
            let moved = pressed.on_motion(x2, y2).state();
            let released = moved.on_release(1, y3, time2);
            let target = match s.rows()[k] {
                Row::Header { desktop_idx, .. } => s.desktops[desktop_idx as int].index,
                Row::App { window_idx, .. } => s.windows[window_idx as int].desktop,
            };
            let home = s.windows[wi as int].desktop;
            let id = s.windows[wi as int].id;
            let with_user = state % 2 == 1 || target == s.current_desktop;
            let from: int = if target != home || home == u32::MAX {
                1
            } else {
                0
            };
            let t = released.finished(report);
            &&& released.outcome == Outcome::Close
            &&& t.windows[wi as int].desktop == target
            &&& t.drag is None
            &&& from == 1 ==> released.fx[0] == Effect::Require(
                WmOp::MoveToDesktop { window: id, desktop: target },
            )
            &&& with_user ==> brings_in_front(
                released.fx,
                from,
                id,
                target,
                s.current_desktop,
                time2,
            ) && t.focused_window == Some(id) && t.current_desktop == target
            &&& !with_user ==> released.fx.len() == from + 1 && released.fx[from]
                == Effect::RefreshFocus && t.current_desktop == s.current_desktop
        }),
{
    law_buttons_inside(s, 1, x, y, state, time1, w, h, i);
    let pressed = s.on_press(1, x, y, state, time1, w, h).state();
    assert(pressed.rows() == s.rows());
    assert(pressed.layout() == s.layout());
    assert(pressed.lies_within(y2, k));
    law_drag_points_at_the_row(pressed, x2, y2, k);
    law_drag_follows_the_pointer(pressed, x2, y2);
    let moved = pressed.on_motion(x2, y2).state();
    law_left_button_up(moved, y3, time2, report, wi as int);
    let d = moved.drag->0;
    let target = d.target_desktop->0;
    let rest = StateView { drag: None, ..moved };
    law_drops_end_on_their_desktop(rest, wi as int, target, d.follow, time2, report);
    assert(rest.dropping_app(wi as int, target, d.follow, time2) == moved.dropping_app(
        wi as int,
        target,
        d.follow,
        time2,
    ));
    assert(rest.drop_commit(wi, target, d.follow) == moved.drop_commit(wi, target, d.follow));
}

/// The middle button coming up asks the window under the pointer to close, if it
/// is the one that the button went down on, and forgets that window in any
/// case. Buttons other than the left and the middle one do nothing.
pub proof fn law_middle_button_up(
    s: StateView,
    button: u8,
    y: i16,
    time: u32,
    report: Report,
    i: int,
)
    requires
        s.wf(),
        s.has_heights(),
        button != 1,
    ensures
        ({
            let step = s.on_release(button, y, time);
            let rest = StateView { middle_press: None, ..s };
            let closing = s.lies_within(y, i) && (s.rows()[i] matches Row::App { window_idx, .. }
                && s.middle_press == Some(s.windows[window_idx as int].id));
            &&& button != 2 ==> step.fx.len() == 0 && step.outcome == Outcome::Nothing
                && step.finished(report) == s
            &&& button == 2 && closing ==> {
                let wi = s.rows()[i]->window_idx;
                &&& step.fx == seq![
                    Effect::Require(WmOp::Close { window: s.windows[wi as int].id, time }),
                ]
                &&& step.outcome == Outcome::Repaint
                &&& step.finished(report) == rest.committed(
                    Commit::Close { window_idx: wi },
                    report,
                )
            }
            &&& button == 2 && !closing && (s.lies_within(y, i) || forall|k: int|
                !#[trigger] s.lies_within(y, k)) ==> step.fx.len() == 0 && step.outcome
                == Outcome::Nothing && step.finished(report) == rest
        }),
{
    if s.lies_within(y, i) {
        lemma_row_under(s, y, i);
    }
    if forall|k: int| !#[trigger] s.lies_within(y, k) {
        lemma_no_row_under(s, y);
    }
}

/// The popup is repainted when part of it comes into sight, and does nothing on
/// a key release or an event that is not for it. None of these changes the
/// state.
pub proof fn law_quiet_events(s: SessionView, keycode: u8)
    ensures
        s.on_event(PopupEvent::Expose) == quiet(s.state, Outcome::Repaint),
        s.on_event(PopupEvent::KeyRelease { keycode }) == quiet(s.state, Outcome::Nothing),
        s.on_event(PopupEvent::Other) == quiet(s.state, Outcome::Nothing),
        s.swallow_after(PopupEvent::Expose) == s.swallow,
        s.swallow_after(PopupEvent::Other) == s.swallow,
{
}

/// The release of a key takes it off the list of swallowed ones, and no other.
pub proof fn law_release_frees_one_key(s: SessionView, keycode: u8, other: u8)
    ensures
        s.swallow_after(PopupEvent::KeyRelease { keycode }).contains(other) <==> s.swallow.contains(
            other,
        ) && other != keycode,
{
    lemma_without_keeps(s.swallow, keycode, other);
}

proof fn lemma_without_keeps(codes: Seq<u8>, keycode: u8, other: u8)
    ensures
        without(codes, keycode).contains(other) <==> codes.contains(other) && other != keycode,
    decreases codes.len(),
{
    if codes.len() > 0 {
        let front = codes.drop_last();
        let rest = without(front, keycode);
        lemma_without_keeps(front, keycode, other);
        assert(codes.contains(other) <==> front.contains(other) || codes.last() == other) by {
            if codes.contains(other) {
                let k = choose|k: int| 0 <= k < codes.len() && codes[k] == other;
                if k < front.len() {
                    assert(front[k] == other);
                }
            }
            if front.contains(other) {
                let k = choose|k: int| 0 <= k < front.len() && front[k] == other;
                assert(codes[k] == other);
            }
        }
        let all = rest.push(codes.last());
        assert(all.contains(other) <==> rest.contains(other) || codes.last() == other) by {
            if all.contains(other) {
                let k = choose|k: int| 0 <= k < all.len() && all[k] == other;
                if k < rest.len() {
                    assert(rest[k] == other);
                }
            }
            if rest.contains(other) {
                let k = choose|k: int| 0 <= k < rest.len() && rest[k] == other;
                assert(all[k] == other);
            }
            assert(all[all.len() - 1] == codes.last());
        }
    }
}

/// A key was down when the popup opened just if its bit is set in the server's
/// bitmap.
pub proof fn law_held_keys_are_the_set_bits(keys: Seq<u8>, code: u8)
    requires
        keys.len() <= 32,
    ensures
        set_bits(keys, keys.len() as int * 8).contains(code) <==> code < keys.len() * 8 && keys[code
            as int / 8] & (1u8 << (code % 8)) != 0,
{
    lemma_set_bits_are(keys, keys.len() as int * 8, code);
    if code < keys.len() * 8 {
        let byte = keys[code as int / 8];
        let bit = (code % 8) as u8;
        assert(((byte >> bit) & 1 == 1) == (byte & (1u8 << bit) != 0)) by (bit_vector)
            requires
                bit < 8,
        ;
    }
}

proof fn lemma_set_bits_are(keys: Seq<u8>, n: int, code: u8)
    requires
        0 <= n <= 256,
    ensures
        set_bits(keys, n).contains(code) <==> code < n && (keys[code as int / 8] >> (code as int
            % 8) as u8) & 1 == 1,
    decreases n,
{
    if n > 0 {
        lemma_set_bits_are(keys, n - 1, code);
        let below = set_bits(keys, n - 1);
        let all = set_bits(keys, n);
        let top = below.push((n - 1) as u8);
        assert(top.contains(code) <==> below.contains(code) || code == n - 1) by {
            if top.contains(code) {
                let k = choose|k: int| 0 <= k < top.len() && top[k] == code;
                if k < below.len() {
                    assert(below[k] == code);
                }
            }
            if below.contains(code) {
                let k = choose|k: int| 0 <= k < below.len() && below[k] == code;
                assert(top[k] == code);
            }
            assert(top[top.len() - 1] == (n - 1) as u8);
        }
    }
}

/// The popup is as high as its content, in whole pixels, but not lower than a
/// header with its frame and not higher than configured. It opens with its
/// whole height in use.
pub proof fn law_popup_is_as_high_as_its_content(s: StateView)
    requires
        s.wf(),
        s.cfg.header_height >= 0,
        s.cfg.border_thickness >= 0,
    ensures
        ({
            let height = s.popup_height() as int;
            let content = s.layout().content_h;
            let least = s.cfg.header_height + 2 * s.cfg.border_thickness;
            let most = s.cfg.max_height as int;
            &&& height <= most
            &&& height < most ==> height * 1000 >= content && (height + 1) * 1000 > least
            &&& height > 0 ==> (height - 1) * 1000 < content || height * 1000 <= least
            &&& s.opened().viewport_h == height * 1000
        }),
{
    reveal(StateView::visible);
}

/// Every event can be handled, if the keyboard mapping holds whole groups. A
/// press of a swallowed key can be handled in any case, and so can everything
/// that is no key press.
pub proof fn law_events_can_be_handled(s: SessionView, event: PopupEvent, groups: int)
    ensures
        !(event is KeyPress) ==> s.is_answerable(event),
        event matches PopupEvent::KeyPress { keycode, .. } ==> s.swallow.contains(keycode)
            ==> s.is_answerable(event),
        groups >= 0 && s.keymap.table@.len() == groups * s.keymap.keysyms_per_keycode
            ==> s.is_answerable(event),
{
    if let PopupEvent::KeyPress { keycode, state, .. } = event {
        lemma_code_from(s.swallow, keycode, 0);
        if groups >= 0 && s.keymap.table@.len() == groups * s.keymap.keysyms_per_keycode {
            law_whole_groups_are_complete(s.keymap, groups, keycode, state);
        }
    }
}

/// What the mouse does to the popup is what it does to the state, with the
/// coordinates as they are and with the size of the popup. None of it changes
/// which keys are swallowed.
pub proof fn law_mouse_events_reach_the_state(
    s: SessionView,
    button: u8,
    x: i16,
    y: i16,
    state: u16,
    time: u32,
)
    ensures
        ({
            let press = PopupEvent::ButtonPress { button, x, y, state, time };
            let release = PopupEvent::ButtonRelease { button, y, time };
            let motion = PopupEvent::Motion { x, y };
            &&& s.on_event(press) == s.state.on_press(
                button,
                x,
                y,
                state,
                time,
                s.width,
                s.height,
            )
            &&& s.on_event(release) == s.state.on_release(button, y, time)
            &&& s.on_event(motion) == s.state.on_motion(x, y)
            &&& s.swallow_after(press) == s.swallow
            &&& s.swallow_after(release) == s.swallow
            &&& s.swallow_after(motion) == s.swallow
        }),
{
}

} // verus!
