//! What holds of the cursor and of the windows, whatever happens to them.

use crate::ewmh::{DesktopInfo, WindowInfo, ALL_DESKTOPS};
#[allow(unused_imports)]
use crate::keymap::Key;
#[allow(unused_imports)]
use crate::keys::{Mods, Outcome};
#[allow(unused_imports)]
use crate::layout::{app_count, listed_on, placed, rows_of, rows_upto, top_of, Row};
#[allow(unused_imports)]
use crate::rows::{
    desktop_above, is_header_of, law_everything_is_listed, law_only_hints_lead_to_rows,
    law_rows_are_right, lemma_top_grows, row_is_right, shows_below,
};
#[allow(unused_imports)]
use crate::session::{
    lemma_row_from_in_range, mods_of, window_from, PopupEvent, SessionView, PX,
};
#[allow(unused_imports)]
use crate::state::{clamped, focused_row, header_row, row_showing, StateView};
#[allow(unused_imports)]
use crate::text::ascii_lower;
#[allow(unused_imports)]
use crate::wm::{
    all_done, law_steps_can_be_taken_back, law_steps_count, law_steps_go_round, lemma_rem_range,
    start_of, stepped, Commit, Effect, Report, WmOp,
};
use vstd::prelude::*;

verus! {

/// Whether two rows show the same desktop or the same window with the same
/// hint; which desktop is current and which window has the focus makes no
/// difference.
pub open spec fn same_place(a: Row, b: Row) -> bool {
    match (a, b) {
        (
            Row::Header { desktop_idx: x, empty: p, .. },
            Row::Header { desktop_idx: y, empty: q, .. },
        ) => x == y && p == q,
        (
            Row::App { window_idx: x, hint: p, .. },
            Row::App { window_idx: y, hint: q, .. },
        ) => x == y && p == q,
        _ => false,
    }
}

/// Whether two lists of rows show the same in the same order.
pub open spec fn same_shape(a: Seq<Row>, b: Seq<Row>) -> bool {
    a.len() == b.len() && forall|i: int| 0 <= i < a.len() ==> same_place(#[trigger] a[i], b[i])
}

proof fn lemma_same_app_count(a: Seq<Row>, b: Seq<Row>)
    requires
        same_shape(a, b),
    ensures
        app_count(a) == app_count(b),
    decreases a.len(),
{
    if a.len() > 0 {
        assert(same_place(a[a.len() - 1], b[a.len() - 1]));
        assert forall|i: int| 0 <= i < a.len() - 1 implies same_place(
            #[trigger] a.drop_last()[i],
            b.drop_last()[i],
        ) by {
            assert(same_place(a[i], b[i]));
        }
        lemma_same_app_count(a.drop_last(), b.drop_last());
    }
}

/// Which rows there are depends neither on the current desktop nor on the
/// focus.
proof fn lemma_same_shape(
    desktops: Seq<DesktopInfo>,
    windows: Seq<WindowInfo>,
    c1: u32,
    f1: Option<u32>,
    c2: u32,
    f2: Option<u32>,
    n: int,
)
    ensures
        same_shape(
            rows_upto(desktops, windows, c1, f1, n),
            rows_upto(desktops, windows, c2, f2, n),
        ),
    decreases n,
{
    if n > 0 {
        lemma_same_shape(desktops, windows, c1, f1, c2, f2, n - 1);
        let above1 = rows_upto(desktops, windows, c1, f1, n - 1);
        let above2 = rows_upto(desktops, windows, c2, f2, n - 1);
        let a = rows_upto(desktops, windows, c1, f1, n);
        let b = rows_upto(desktops, windows, c2, f2, n);
        lemma_same_app_count(above1, above2);
        assert forall|i: int| 0 <= i < a.len() implies same_place(#[trigger] a[i], b[i]) by {
            if i < above1.len() {
                assert(a[i] == above1[i] && b[i] == above2[i]);
            }
        }
    }
}

proof fn lemma_same_tops(a: Seq<Row>, b: Seq<Row>, pad_y: int, header_h: int, app_h: int, i: int)
    requires
        same_shape(a, b),
        0 <= i <= a.len(),
    ensures
        top_of(a, pad_y, header_h, app_h, i) == top_of(b, pad_y, header_h, app_h, i),
    decreases i,
{
    if i > 0 {
        lemma_same_tops(a, b, pad_y, header_h, app_h, i - 1);
        assert(same_place(a[i - 1], b[i - 1]));
    }
}

proof fn lemma_same_layout(a: Seq<Row>, b: Seq<Row>, pad_y: int, header_h: int, app_h: int)
    requires
        same_shape(a, b),
    ensures
        ({
            let l = placed(a, pad_y, header_h, app_h);
            let m = placed(b, pad_y, header_h, app_h);
            l.row_y == m.row_y && l.row_h == m.row_h && l.content_h == m.content_h
        }),
{
    let l = placed(a, pad_y, header_h, app_h);
    let m = placed(b, pad_y, header_h, app_h);
    assert forall|i: int| 0 <= i < a.len() implies l.row_y[i] == m.row_y[i] && l.row_h[i]
        == m.row_h[i] by {
        lemma_same_tops(a, b, pad_y, header_h, app_h, i);
        assert(same_place(a[i], b[i]));
    }
    assert(l.row_y =~= m.row_y);
    assert(l.row_h =~= m.row_h);
    lemma_same_tops(a, b, pad_y, header_h, app_h, a.len() as int);
}

proof fn lemma_same_row_showing(a: Seq<Row>, b: Seq<Row>, window_idx: int, i: int)
    requires
        same_shape(a, b),
        0 <= i,
    ensures
        row_showing(a, window_idx, i) == row_showing(b, window_idx, i),
    decreases a.len() - i,
{
    if i < a.len() {
        assert(same_place(a[i], b[i]));
        lemma_same_row_showing(a, b, window_idx, i + 1);
    }
}

proof fn lemma_row_showing(rows: Seq<Row>, window_idx: int, from: int)
    requires
        0 <= from,
    ensures
        match row_showing(rows, window_idx, from) {
            Some(i) => from <= i < rows.len() && (rows[i] matches Row::App { window_idx: wi, .. }
                && wi == window_idx),
            None => forall|i: int|
                from <= i < rows.len() ==> !((#[trigger] rows[i]) matches Row::App {
                    window_idx: wi,
                    ..
                } && wi == window_idx),
        },
    decreases rows.len() - from,
{
    if from < rows.len() {
        lemma_row_showing(rows, window_idx, from + 1);
    }
}

/// Reading the focus again after the cursor has gone to a window gives the same
/// as reading it before.
pub proof fn law_focus_can_be_read_late(s: StateView, window_idx: int, focus: Option<u32>)
    ensures
        (StateView { focused_window: focus, ..s.snapped(window_idx) }) == (StateView {
            focused_window: focus,
            ..s
        }).snapped(window_idx),
{
    reveal(StateView::visible);
    reveal(rows_of);
    let t = StateView { focused_window: focus, ..s };
    let n = s.desktops.len() as int;
    lemma_same_shape(
        s.desktops,
        s.windows,
        s.current_desktop,
        s.focused_window,
        s.current_desktop,
        focus,
        n,
    );
    lemma_same_layout(
        s.rows(),
        t.rows(),
        s.cfg.border_thickness as int,
        s.cfg.header_height as int,
        s.cfg.app_height as int,
    );
    lemma_same_row_showing(s.rows(), t.rows(), window_idx, 0);
}

/// Scrolling to the selected row keeps the content inside the popup, and shows
/// the whole row if it fits.
pub proof fn law_selected_row_is_in_sight(s: StateView)
    requires
        s.wf(),
        s.rows().len() > 0,
        s.cfg.border_thickness >= 0,
        s.cfg.header_height >= 0,
        s.cfg.app_height >= 0,
    ensures
        ({
            let l = s.layout();
            let t = s.visible(l);
            &&& 0 <= t.cursor < l.rows.len()
            &&& s.cursor < l.rows.len() ==> t.cursor == s.cursor
            &&& 0 <= t.scroll
            &&& t.scroll == 0 || t.scroll + t.viewport_h <= l.content_h
            &&& l.row_h[t.cursor] <= t.viewport_h ==> t.scroll <= l.row_y[t.cursor]
                && l.row_y[t.cursor] + l.row_h[t.cursor] <= t.scroll + t.viewport_h
        }),
{
    reveal(StateView::visible);
    let l = s.layout();
    let t = s.visible(l);
    let (p, hh, ah) = (
        s.cfg.border_thickness as int,
        s.cfg.header_height as int,
        s.cfg.app_height as int,
    );
    lemma_top_grows(s.rows(), p, hh, ah, 0, t.cursor);
    lemma_top_grows(s.rows(), p, hh, ah, t.cursor, s.rows().len() as int);
}

impl StateView {
    /// Whether the cursor is on a row, if there are any.
    pub open spec fn on_a_row(self) -> bool {
        0 <= self.cursor && (self.rows().len() == 0 || self.cursor < self.rows().len())
    }

    /// Whether the desktops are numbered from zero, as they are when they are
    /// read from the window manager.
    pub open spec fn numbered(self) -> bool {
        forall|i: int| 0 <= i < self.desktops.len() ==> (#[trigger] self.desktops[i]).index == i
    }

    /// Whether windows on desktop `d` are listed.
    pub open spec fn lists(self, d: u32) -> bool {
        d == ALL_DESKTOPS || d < self.desktops.len()
    }

    /// What holds of the state between two events: the desktops are numbered,
    /// the cursor is on a row, and a drag is over a desktop that is listed.
    pub open spec fn sound(self) -> bool {
        &&& self.numbered()
        &&& self.on_a_row()
        &&& self.drag matches Some(d) ==> d.target_desktop matches Some(t) ==> self.lists(t)
    }
}

proof fn lemma_visible_on_a_row(s: StateView)
    requires
        0 <= s.cursor,
    ensures
        s.visible(s.layout()).on_a_row(),
        s.visible(s.layout()).rows() == s.rows(),
        s.visible(s.layout()).desktops == s.desktops,
        s.visible(s.layout()).drag == s.drag,
{
    reveal(StateView::visible);
}

/// Putting the cursor on a window that is listed leaves it on a row.
proof fn lemma_snapped_on_a_row(s: StateView, window_idx: int)
    requires
        s.desktops.len() <= usize::MAX,
        s.windows.len() <= usize::MAX,
        s.numbered(),
        0 <= s.cursor,
        0 <= window_idx < s.windows.len(),
        s.lists(s.windows[window_idx].desktop),
    ensures
        s.snapped(window_idx).on_a_row(),
        s.snapped(window_idx).desktops == s.desktops,
        s.snapped(window_idx).drag == s.drag,
{
    lemma_row_showing(s.rows(), window_idx, 0);
    match row_showing(s.rows(), window_idx, 0) {
        Some(i) => {
            let t = StateView { cursor: i, ..s };
            assert(t.layout() == s.layout());
            lemma_visible_on_a_row(t);
        },
        None => {
            if s.desktops.len() > 0 {
                let d = s.windows[window_idx].desktop;
                let di: int = if d == ALL_DESKTOPS {
                    0
                } else {
                    d as int
                };
                assert(s.desktops[di].index == di);
                law_everything_is_listed(
                    s.desktops,
                    s.windows,
                    s.current_desktop,
                    s.focused_window,
                    di,
                );
                assert(listed_on(s.windows[window_idx], s.desktops[di].index));
                let i = choose|i: int| shows_below(s.rows(), i, window_idx, di);
                assert(s.rows()[i] is App);
            } else {
                reveal(rows_of);
            }
        },
    }
}

proof fn lemma_activated_rows(s: StateView, win: u32, target: u32)
    ensures
        s.activated(win, target).rows().len() == s.rows().len(),
{
    reveal(rows_of);
    lemma_same_shape(
        s.desktops,
        s.windows,
        s.current_desktop,
        s.focused_window,
        target,
        Some(win),
        s.desktops.len() as int,
    );
}

/// A window that has been put on a listed desktop leaves the state sound.
proof fn lemma_placed_is_sound(
    s: StateView,
    wi: usize,
    target: u32,
    moves: bool,
    in_front: bool,
    r: Report,
)
    requires
        s.wf(),
        s.sound(),
        wi < s.windows.len(),
        r.failed is None,
        s.lists(
            if moves {
                target
            } else {
                s.windows[wi as int].desktop
            },
        ),
    ensures
        s.placed_after(wi as int, target, moves, in_front, r).sound(),
{
    let a = if moves {
        s.with_desktop(wi as int, target)
    } else {
        s
    };
    let b = if in_front {
        a.activated(s.windows[wi as int].id, target)
    } else {
        a.focus_read(r.focus)
    };
    lemma_snapped_on_a_row(b, wi as int);
}

proof fn lemma_chosen_on_a_row(s: StateView)
    requires
        s.on_a_row(),
    ensures
        s.chosen().on_a_row(),
{
    if let Some(wi) = s.cursor_window() {
        lemma_activated_rows(s, s.windows[wi as int].id, s.home_of(wi as int));
    }
}

proof fn lemma_closed_is_sound(s: StateView, wi: int)
    requires
        s.sound(),
    ensures
        s.app_closed(wi).sound(),
{
    let t = StateView {
        windows: s.windows.remove(wi),
        focused_window: if s.focused_window == Some(s.windows[wi].id) {
            None
        } else {
            s.focused_window
        },
        ..s
    };
    lemma_visible_on_a_row(t);
}

/// The cursor starts on a row, and the state is sound if the desktops are
/// numbered.
pub proof fn law_cursor_starts_on_a_row(s: StateView)
    requires
        s.wf(),
    ensures
        s.opened().on_a_row(),
        s.numbered() && s.drag is None ==> s.opened().sound(),
{
    lemma_focused_row_in_range(s.rows(), s.windows, s.focused_window, 0);
    lemma_header_row_in_range(s.rows(), s.desktops, s.current_desktop, 0);
    let t = StateView {
        cursor: s.first_cursor(),
        viewport_h: s.popup_height() * PX,
        ..s
    };
    assert(t.rows() == s.rows());
    assert(t.layout() == s.layout());
    lemma_visible_on_a_row(t);
}

proof fn lemma_focused_row_in_range(
    rows: Seq<Row>,
    windows: Seq<WindowInfo>,
    focused: Option<u32>,
    from: int,
)
    requires
        0 <= from,
    ensures
        match focused_row(rows, windows, focused, from) {
            Some(i) => from <= i < rows.len() && (rows[i] matches Row::App { window_idx, .. }
                && focused == Some(windows[window_idx as int].id)),
            None => forall|i: int|
                from <= i < rows.len() ==> !((#[trigger] rows[i]) matches Row::App {
                    window_idx,
                    ..
                } && focused == Some(windows[window_idx as int].id)),
        },
    decreases rows.len() - from,
{
    if from < rows.len() {
        lemma_focused_row_in_range(rows, windows, focused, from + 1);
    }
}

proof fn lemma_header_row_in_range(
    rows: Seq<Row>,
    desktops: Seq<DesktopInfo>,
    current: u32,
    from: int,
)
    requires
        0 <= from,
    ensures
        match header_row(rows, desktops, current, from) {
            Some(i) => from <= i < rows.len() && (rows[i] matches Row::Header { desktop_idx, .. }
                && desktops[desktop_idx as int].index == current),
            None => forall|i: int|
                from <= i < rows.len() ==> !((#[trigger] rows[i]) matches Row::Header {
                    desktop_idx,
                    ..
                } && desktops[desktop_idx as int].index == current),
        },
    decreases rows.len() - from,
{
    if from < rows.len() {
        lemma_header_row_in_range(rows, desktops, current, from + 1);
    }
}

/// The state stays sound, whatever happens: while the requests of an event are
/// being sent, and once they have succeeded, whatever the focus is then. So
/// the cursor stays on a row.
pub proof fn law_cursor_stays_on_a_row(s: SessionView, event: PopupEvent, report: Report)
    requires
        s.state.wf(),
        s.state.rows().len() <= usize::MAX,
        s.state.sound(),
        report.failed is None,
    ensures
        s.on_event(event).held.sound(),
        s.on_event(event).finished(report).sound(),
{
    let st = s.state;
    match event {
        PopupEvent::KeyPress { keycode, state, time } => {
            lemma_key_is_sound(
                st,
                s.keymap.meaning(keycode, state),
                time,
                mods_of(state),
                report,
            );
        },
        PopupEvent::ButtonPress { button, x, y, state, time } => {
            lemma_row_from_in_range(st.layout(), y * PX + st.scroll, 0);
            assert(s.on_event(event).held.rows() == st.rows());
        },
        PopupEvent::Motion { x, y } => {
            lemma_target_is_listed(st, y);
            assert(s.on_event(event).held.rows() == st.rows());
        },
        PopupEvent::ButtonRelease { button, y, time } => {
            lemma_release_is_sound(st, button, y, time, report);
        },
        _ => {},
    }
}

/// What a row points to is listed.
proof fn lemma_target_is_listed(s: StateView, y: i16)
    requires
        s.wf(),
        s.rows().len() <= usize::MAX,
        s.numbered(),
    ensures
        s.desktop_at(y) matches Some(t) ==> s.lists(t),
{
    lemma_row_from_in_range(s.layout(), y * PX + s.scroll, 0);
    if let Some(i) = s.row_at(y) {
        lemma_row_is_listed(s, i as int);
    }
}

proof fn lemma_row_is_listed(s: StateView, i: int)
    requires
        s.wf(),
        s.numbered(),
        0 <= i < s.rows().len(),
    ensures
        match s.rows()[i] {
            Row::App { window_idx, .. } => window_idx < s.windows.len() && s.lists(
                s.windows[window_idx as int].desktop,
            ),
            Row::Header { desktop_idx, .. } => desktop_idx < s.desktops.len() && s.lists(
                s.desktops[desktop_idx as int].index,
            ),
        },
{
    law_rows_are_right(s.desktops, s.windows, s.current_desktop, s.focused_window);
    assert(row_is_right(
        s.desktops,
        s.windows,
        s.current_desktop,
        s.focused_window,
        s.rows(),
        i,
    ));
    match s.rows()[i] {
        Row::App { .. } => {
            let di = desktop_above(s.rows(), i)->0;
            assert(s.desktops[di as int].index == di);
        },
        Row::Header { desktop_idx, .. } => {
            assert(s.desktops[desktop_idx as int].index == desktop_idx);
        },
    }
}

proof fn lemma_release_is_sound(s: StateView, button: u8, y: i16, time: u32, report: Report)
    requires
        s.wf(),
        s.rows().len() <= usize::MAX,
        s.sound(),
        report.failed is None,
    ensures
        s.on_release(button, y, time).held.sound(),
        s.on_release(button, y, time).finished(report).sound(),
{
    let a = StateView { middle_press: None, ..s };
    assert(a.rows() == s.rows());
    lemma_row_from_in_range(s.layout(), y * PX + s.scroll, 0);
    if let Some(wi) = s.window_at(y) {
        lemma_row_is_listed(s, s.row_at(y)->0 as int);
        lemma_closed_is_sound(a, wi);
    }
    if let Some(d) = s.drag {
        let c = StateView { drag: None, ..s };
        assert(c.rows() == s.rows());
        lemma_chosen_on_a_row(c);
        if let (Some(target), Some(wi)) = (
            d.target_desktop,
            window_from(s.windows, d.window_id, 0),
        ) {
            lemma_window_from(s.windows, d.window_id, 0);
            lemma_placed_is_sound(
                c,
                wi as usize,
                target,
                c.sticky(wi) || c.windows[wi].desktop != target,
                d.follow || target == c.current_desktop,
                report,
            );
        }
    }
}

pub(crate) proof fn lemma_window_from(windows: Seq<WindowInfo>, id: u32, from: int)
    requires
        0 <= from,
    ensures
        window_from(windows, id, from) matches Some(i) ==> from <= i < windows.len(),
    decreases windows.len() - from,
{
    if from < windows.len() {
        lemma_window_from(windows, id, from + 1);
    }
}

proof fn lemma_with_cursor_is_sound(s: StateView, row: int)
    requires
        s.sound(),
    ensures
        s.with_cursor(row).sound(),
{
    reveal(StateView::with_cursor);
    let n = s.rows().len() as int;
    if n > 0 {
        let t = StateView { cursor: clamped(row, 0, n - 1), ..s };
        assert(t.layout() == s.layout());
        lemma_visible_on_a_row(t);
    }
}

/// The desktop that a move leads to is listed.
proof fn lemma_stepped_is_listed(base: u32, delta: int, n: int)
    requires
        0 < n <= 0x1_0000_0000,
    ensures
        stepped(base, delta, n) < n,
{
    lemma_rem_range(start_of(base, n) + delta, n);
}

proof fn lemma_step_is_sound(
    s: StateView,
    delta: int,
    time: u32,
    mods: Mods,
    idle: Outcome,
    report: Report,
)
    requires
        s.wf(),
        s.sound(),
        report.failed is None,
    ensures
        s.on_step(delta, time, mods, idle).held.sound(),
        s.on_step(delta, time, mods, idle).finished(report).sound(),
{
    reveal(StateView::on_step);
    lemma_with_cursor_is_sound(s, s.cursor + delta);
    if let Some(wi) = s.cursor_window() {
        lemma_row_is_listed(s, s.cursor);
        if !s.stays(wi as int, mods.ctrl) {
            let n = s.desktops.len() as int;
            assert(n <= 0x1_0000_0000) by {
                if n > 0x1_0000_0000 {
                    assert(s.desktops[0x1_0000_0000].index == 0x1_0000_0000);
                }
            }
            let base = if s.sticky(wi as int) {
                s.current_desktop
            } else {
                s.windows[wi as int].desktop
            };
            lemma_stepped_is_listed(base, delta, n);
            let target = s.move_target(wi as int, delta);
            lemma_placed_is_sound(
                s,
                wi,
                target,
                !s.sticky(wi as int) && target != s.windows[wi as int].desktop,
                mods.ctrl,
                report,
            );
        }
    }
}

proof fn lemma_chord_is_sound(s: StateView, time: u32, report: Report)
    requires
        s.sound(),
        report.failed is None,
    ensures
        s.on_d(time).held.sound(),
        s.on_d(time).finished(report).sound(),
        s.on_g().held.sound(),
        s.on_g().finished(report).sound(),
{
    reveal(StateView::on_d);
    let armed = StateView { pending_gg: true, ..s };
    let done = StateView { pending_gg: false, ..s };
    assert(armed.rows() == s.rows() && done.rows() == s.rows());
    lemma_with_cursor_is_sound(done, 0);
    let armed = StateView { pending_dd: true, ..s };
    let done = StateView { pending_dd: false, ..s };
    assert(armed.rows() == s.rows() && done.rows() == s.rows());
    if let Some(wi) = s.cursor_window() {
        lemma_closed_is_sound(done, wi as int);
    }
}

proof fn lemma_char_is_sound(
    s: StateView,
    c: char,
    time: u32,
    mods: Mods,
    idle: Outcome,
    report: Report,
)
    requires
        s.wf(),
        s.rows().len() <= usize::MAX,
        s.sound(),
        report.failed is None,
    ensures
        s.on_char(c, time, mods, idle).held.sound(),
        s.on_char(c, time, mods, idle).finished(report).sound(),
{
    reveal(StateView::on_char);
    law_only_hints_lead_to_rows(
        s.desktops,
        s.windows,
        s.current_desktop,
        s.focused_window,
        s.cfg.border_thickness as int,
        s.cfg.header_height as int,
        s.cfg.app_height as int,
        ascii_lower(c),
    );
    match s.hinted(c, mods) {
        Some(row) => {
            let e = StateView { cursor: row as int, ..s };
            assert(e.rows() == s.rows());
            lemma_chosen_on_a_row(e);
        },
        None => {
            lemma_chord_is_sound(s, time, report);
            lemma_with_cursor_is_sound(s, usize::MAX as int);
            lemma_step_is_sound(s, 1, time, mods, idle, report);
            lemma_step_is_sound(s, -1, time, mods, idle, report);
        },
    }
}

proof fn lemma_key_is_sound(s: StateView, key: Key, time: u32, mods: Mods, report: Report)
    requires
        s.wf(),
        s.rows().len() <= usize::MAX,
        s.sound(),
        report.failed is None,
    ensures
        s.on_key(key, time, mods).held.sound(),
        s.on_key(key, time, mods).finished(report).sound(),
{
    let d = s.disarmed(key, mods);
    assert(d.rows() == s.rows());
    match key {
        Key::Char(c) => lemma_char_is_sound(d, c, time, mods, s.idle(key, mods), report),
        Key::Return => lemma_chosen_on_a_row(d),
        Key::Down => lemma_with_cursor_is_sound(d, d.cursor + 1),
        Key::Up => lemma_with_cursor_is_sound(d, d.cursor - 1),
        Key::F1 => {
            let e = StateView { show_help: true, pending_dd: false, pending_gg: false, ..s };
            assert(e.rows() == s.rows());
        },
        _ => {},
    }
    let e = StateView { show_help: false, ..s };
    assert(e.rows() == s.rows());
}

/// When an app is moved by some desktops, or the user goes to it, the cursor
/// follows the app, as long as it is still listed somewhere.
pub proof fn law_cursor_follows_the_app(
    s: StateView,
    wi: int,
    delta: int,
    follow: bool,
    di: int,
)
    requires
        s.wf(),
        s.rows().len() <= usize::MAX,
        0 <= wi < s.windows.len(),
        !s.stays(wi, follow),
        0 <= di < s.desktops.len(),
        s.sticky(wi) || s.desktops[di].index == s.move_target(wi, delta),
    ensures
        s.app_moved(wi, delta, follow).cursor_window() == Some(wi as usize),
{
    let target = s.move_target(wi, delta);
    let moves = !s.sticky(wi) && target != s.windows[wi].desktop;
    let a = if moves {
        s.with_desktop(wi, target)
    } else {
        s
    };
    let b = if follow {
        a.activated(s.windows[wi].id, target)
    } else {
        a
    };
    lemma_cursor_finds_the_window(b, wi, di);
}

/// Putting the cursor on a window that is listed on desktop `di` finds it.
proof fn lemma_cursor_finds_the_window(s: StateView, wi: int, di: int)
    requires
        s.desktops.len() <= usize::MAX,
        s.windows.len() <= usize::MAX,
        0 <= wi < s.windows.len(),
        0 <= di < s.desktops.len(),
        listed_on(s.windows[wi], s.desktops[di].index),
    ensures
        s.snapped(wi).cursor_window() == Some(wi as usize),
{
    reveal(StateView::visible);
    law_everything_is_listed(s.desktops, s.windows, s.current_desktop, s.focused_window, di);
    let i = choose|i: int| shows_below(s.rows(), i, wi, di);
    assert(s.rows()[i] is App);
    lemma_row_showing(s.rows(), wi, 0);
    let t = s.snapped(wi);
    assert(t.rows() == s.rows());
}

/// When an app is dropped on a listed desktop, the cursor goes to it.
pub proof fn law_cursor_goes_to_the_drop(
    s: StateView,
    wi: int,
    target: u32,
    follow: bool,
    di: int,
)
    requires
        s.wf(),
        0 <= wi < s.windows.len(),
        0 <= di < s.desktops.len(),
        s.desktops[di].index == target,
    ensures
        s.app_dropped(wi, target, follow).windows[wi].desktop == target,
        s.app_dropped(wi, target, follow).cursor_window() == Some(wi as usize),
{
    reveal(StateView::visible);
    let a = if s.sticky(wi) || s.windows[wi].desktop != target {
        s.with_desktop(wi, target)
    } else {
        s
    };
    let b = if follow || target == s.current_desktop {
        a.activated(s.windows[wi].id, target)
    } else {
        a
    };
    lemma_cursor_finds_the_window(b, wi, di);
}

/// What putting a window on a desktop leaves behind, once it has succeeded.
proof fn lemma_placed_leaves(
    s: StateView,
    wi: int,
    target: u32,
    moves: bool,
    in_front: bool,
    report: Report,
)
    requires
        report.failed is None,
    ensures
        ({
            let t = s.placed_after(wi, target, moves, in_front, report);
            t == (StateView {
                windows: if moves {
                    s.windows.update(wi, WindowInfo { desktop: target, ..s.windows[wi] })
                } else {
                    s.windows
                },
                current_desktop: if in_front {
                    target
                } else {
                    s.current_desktop
                },
                focused_window: if in_front {
                    Some(s.windows[wi].id)
                } else {
                    match report.focus {
                        Some(w) => w,
                        None => s.focused_window,
                    }
                },
                cursor: t.cursor,
                scroll: t.scroll,
                ..s
            })
        }),
{
    reveal(StateView::visible);
}

/// What moving a window by some desktops leaves behind, once it has succeeded.
proof fn lemma_moved_leaves(s: StateView, wi: int, delta: int, follow: bool, report: Report)
    requires
        0 <= wi < s.windows.len() <= usize::MAX,
        report.failed is None,
    ensures
        ({
            let t = s.committed(s.move_commit(wi as usize, delta, follow), report);
            let target = s.move_target(wi, delta);
            let moves = !s.sticky(wi) && target != s.windows[wi].desktop;
            if s.stays(wi, follow) {
                t == s
            } else {
                t == (StateView {
                    windows: if moves {
                        s.windows.update(wi, WindowInfo { desktop: target, ..s.windows[wi] })
                    } else {
                        s.windows
                    },
                    current_desktop: if follow {
                        target
                    } else {
                        s.current_desktop
                    },
                    focused_window: if follow {
                        Some(s.windows[wi].id)
                    } else {
                        match report.focus {
                            Some(w) => w,
                            None => s.focused_window,
                        }
                    },
                    cursor: t.cursor,
                    scroll: t.scroll,
                    ..s
                })
            }
        }),
{
    let target = s.move_target(wi, delta);
    lemma_placed_leaves(
        s,
        wi,
        target,
        !s.sticky(wi) && target != s.windows[wi].desktop,
        follow,
        report,
    );
}

/// Moving an app on and then back puts every window where it was, whether the
/// user goes along or not.
pub proof fn law_moving_can_be_taken_back(s: StateView, wi: int, delta: int, follow: bool)
    requires
        s.wf(),
        0 <= wi < s.windows.len(),
        s.windows[wi].desktop < s.desktops.len() <= u32::MAX,
    ensures
        s.app_moved(wi, delta, follow).app_moved(wi, -delta, follow).windows == s.windows,
{
    let n = s.desktops.len() as int;
    let home = s.windows[wi].desktop;
    law_steps_can_be_taken_back(home, delta, n);
    lemma_moved_leaves(s, wi, delta, follow, all_done());
    let t = s.app_moved(wi, delta, follow);
    lemma_moved_leaves(t, wi, -delta, follow, all_done());
    assert(t.windows[wi].desktop == stepped(home, delta, n));
    let u = t.app_moved(wi, -delta, follow);
    assert(u.windows =~= s.windows);
}

/// Going along with an app, on and then back, ends in front of the app where
/// it was: its desktop is the current one, or for an app on all desktops the
/// current desktop is the same again; the app has the focus, every window is
/// where it was, and the cursor is on the app.
pub proof fn law_going_along_can_be_taken_back(s: StateView, wi: int, delta: int)
    requires
        s.wf(),
        0 <= wi < s.windows.len(),
        s.home_of(wi) < s.desktops.len() <= u32::MAX,
        s.numbered(),
    ensures
        ({
            let u = s.app_moved(wi, delta, true).app_moved(wi, -delta, true);
            &&& u.windows == s.windows && u.desktops == s.desktops
            &&& u.current_desktop == s.home_of(wi)
            &&& u.focused_window == Some(s.windows[wi].id)
            &&& u.cursor_window() == Some(wi as usize)
        }),
{
    let n = s.desktops.len() as int;
    let home = s.home_of(wi);
    law_steps_can_be_taken_back(home, delta, n);
    lemma_moved_leaves(s, wi, delta, true, all_done());
    let t = s.app_moved(wi, delta, true);
    lemma_moved_leaves(t, wi, -delta, true, all_done());
    assert(t.home_of(wi) == stepped(home, delta, n));
    assert(t.move_target(wi, -delta) == home);
    let u = t.app_moved(wi, -delta, true);
    assert(u.windows =~= s.windows);
    let a = StateView { windows: s.windows, ..t }.activated(s.windows[wi].id, home);
    assert(u == a.snapped(wi));
    lemma_cursor_finds_the_window(a, wi, home as int);
}

/// Moving or dropping an app changes no other window, and of the app itself
/// only the desktop.
pub proof fn law_moving_changes_one_desktop(
    s: StateView,
    wi: int,
    delta: int,
    target: u32,
    follow: bool,
    other: int,
)
    requires
        s.wf(),
        0 <= wi < s.windows.len(),
        0 <= other < s.windows.len(),
    ensures
        ({
            let a = s.app_moved(wi, delta, follow);
            let b = s.app_dropped(wi, target, follow);
            &&& a.windows.len() == s.windows.len() && b.windows.len() == s.windows.len()
            &&& a.desktops == s.desktops && b.desktops == s.desktops
            &&& other != wi ==> a.windows[other] == s.windows[other] && b.windows[other]
                == s.windows[other]
            &&& a.windows[wi] == (WindowInfo { desktop: a.windows[wi].desktop, ..s.windows[wi] })
            &&& b.windows[wi] == (WindowInfo { desktop: target, ..s.windows[wi] })
        }),
{
    lemma_moved_leaves(s, wi, delta, follow, all_done());
    lemma_placed_leaves(
        s,
        wi,
        target,
        s.sticky(wi) || s.windows[wi].desktop != target,
        follow || target == s.current_desktop,
        all_done(),
    );
}

/// An app that is on all desktops is left alone unless the user goes along,
/// and even then it stays on all desktops.
pub proof fn law_sticky_apps_stay(s: StateView, wi: int, delta: int, follow: bool, time: u32)
    requires
        s.wf(),
        0 <= wi < s.windows.len(),
        s.sticky(wi),
    ensures
        !follow ==> s.app_moved(wi, delta, follow) == s && s.moving_app(wi, delta, follow, time)
            == Seq::<Effect>::empty(),
        s.app_moved(wi, delta, follow).windows == s.windows,
        forall|k: int|
            0 <= k < s.moving_app(wi, delta, follow, time).len() ==> !moves_a_window(
                #[trigger] s.moving_app(wi, delta, follow, time)[k],
            ),
{
    lemma_moved_leaves(s, wi, delta, follow, all_done());
}

/// Whether an effect puts a window on a desktop.
pub open spec fn moves_a_window(e: Effect) -> bool {
    match e {
        Effect::Require(op) => op is MoveToDesktop,
        Effect::Attempt(op) => op is MoveToDesktop,
        Effect::RefreshFocus => false,
    }
}

/// Choosing a row moves no window: an app stays on its own desktop, and the
/// user goes there.
pub proof fn law_choosing_moves_no_window(s: StateView, time: u32)
    requires
        s.wf(),
    ensures
        s.chosen().windows == s.windows,
        forall|k: int|
            0 <= k < s.choosing(time).len() ==> !moves_a_window(#[trigger] s.choosing(time)[k]),
        s.cursor_window() matches Some(wi) ==> s.chosen().focused_window == Some(
            s.windows[wi as int].id,
        ) && s.chosen().current_desktop == if s.sticky(wi as int) {
            s.current_desktop
        } else {
            s.windows[wi as int].desktop
        },
{
}

/// The popup opens with the cursor on the window that has the focus, if that
/// window is listed, and otherwise on the header of the current desktop.
pub proof fn law_opens_at_the_focus(s: StateView, di: int)
    requires
        s.wf(),
        0 <= di < s.desktops.len(),
    ensures
        s.desktops[di].index == s.current_desktop ==> match s.rows()[s.opened().cursor] {
            Row::App { window_idx, .. } => s.focused_window == Some(
                s.windows[window_idx as int].id,
            ),
            Row::Header { desktop_idx, .. } => s.desktops[desktop_idx as int].index
                == s.current_desktop,
        },
        forall|wi: int|
            0 <= wi < s.windows.len() && listed_on(
                #[trigger] s.windows[wi],
                s.desktops[di].index,
            ) && s.focused_window == Some(s.windows[wi].id) ==> (s.rows()[s.opened().cursor]
                matches Row::App { window_idx, .. } && s.windows[window_idx as int].id
                == s.windows[wi].id),
{
    reveal(StateView::visible);
    let rows = s.rows();
    law_everything_is_listed(s.desktops, s.windows, s.current_desktop, s.focused_window, di);
    lemma_focused_row_in_range(rows, s.windows, s.focused_window, 0);
    lemma_header_row_in_range(rows, s.desktops, s.current_desktop, 0);
    let h = choose|h: int| is_header_of(rows, h, di);
    assert(rows[h] is Header);
    assert forall|wi: int|
        0 <= wi < s.windows.len() && listed_on(
            #[trigger] s.windows[wi],
            s.desktops[di].index,
        ) && s.focused_window == Some(s.windows[wi].id) implies (rows[s.opened().cursor]
        matches Row::App { window_idx, .. } && s.windows[window_idx as int].id == s.windows[wi].id)
        by {
        let i = choose|i: int| shows_below(rows, i, wi, di);
        assert(rows[i] is App);
    }
}

/// Whether the work from number `from` on is to bring `window` in front of the
/// user on desktop `desktop`: it is marked as touched, the desktop is shown if
/// another one is current, and then the window is focused and raised.
pub open spec fn brings_in_front(
    fx: Seq<Effect>,
    from: int,
    window: u32,
    desktop: u32,
    current: u32,
    time: u32,
) -> bool {
    let n = fx.len() as int;
    &&& n - from == if desktop == current {
        3int
    } else {
        4int
    }
    &&& fx[from] == Effect::Attempt(WmOp::BumpUserTime { window, time })
    &&& desktop != current ==> fx[from + 1] == Effect::Require(
        WmOp::SwitchDesktop { desktop, time },
    )
    &&& fx[n - 2] == Effect::Require(WmOp::Activate { window, time })
    &&& fx[n - 1] == Effect::Attempt(WmOp::Raise { window })
}

/// An app that ends up on another desktop than before was asked to go there,
/// before anything else, and an app is asked to go to a desktop only if it ends
/// up there. That holds in both directions, with the user going along or not.
pub proof fn law_moves_are_asked_for(
    s: StateView,
    wi: int,
    delta: int,
    follow: bool,
    time: u32,
    report: Report,
    k: int,
)
    requires
        s.wf(),
        0 <= wi < s.windows.len(),
        report.failed is None,
    ensures
        ({
            let fx = s.moving_app(wi, delta, follow, time);
            let t = s.committed(s.move_commit(wi as usize, delta, follow), report);
            let (before, after) = (s.windows[wi].desktop, t.windows[wi].desktop);
            &&& after != before ==> fx.len() > 0 && fx[0] == Effect::Require(
                WmOp::MoveToDesktop { window: s.windows[wi].id, desktop: after },
            )
            &&& 0 <= k < fx.len() && moves_a_window(fx[k]) ==> k == 0 && after != before && fx[k]
                == Effect::Require(
                WmOp::MoveToDesktop { window: s.windows[wi].id, desktop: after },
            )
        }),
{
    lemma_moved_leaves(s, wi, delta, follow, report);
}

/// An app that is on one of `n` desktops, moved by `delta`, goes that many
/// desktops on, around the ends, for any `delta`. Where the desktops are
/// numbered, one down is the next desktop, and one up the one before.
pub proof fn law_apps_move_by_desktops(
    s: StateView,
    wi: int,
    delta: int,
    follow: bool,
    report: Report,
)
    requires
        s.wf(),
        0 <= wi < s.windows.len(),
        s.windows[wi].desktop < s.desktops.len() <= u32::MAX,
        report.failed is None,
    ensures
        ({
            let n = s.desktops.len() as int;
            let before = s.windows[wi].desktop as int;
            let t = s.committed(s.move_commit(wi as usize, delta, follow), report);
            let after = t.windows[wi].desktop as int;
            &&& 0 <= after < n
            &&& (after - before - delta) % n == 0
            &&& delta == 1 ==> after == if before == n - 1 {
                0
            } else {
                before + 1
            }
            &&& delta == -1 ==> after == if before == 0 {
                n - 1
            } else {
                before - 1
            }
        }),
{
    lemma_moved_leaves(s, wi, delta, follow, report);
    let n = s.desktops.len() as int;
    law_steps_count(s.windows[wi].desktop, delta, n);
    law_steps_go_round(s.windows[wi].desktop, n);
}

/// Moving an app without going along leaves the user where they are: the
/// current desktop stays, nothing is focused, and the focus is whatever it is
/// found to be afterwards.
pub proof fn law_moving_alone_leaves_the_user(
    s: StateView,
    wi: int,
    delta: int,
    time: u32,
    report: Report,
)
    requires
        s.wf(),
        0 <= wi < s.windows.len(),
        s.windows[wi].desktop != u32::MAX,
        s.desktops.len() > 0,
        report.failed is None,
    ensures
        ({
            let fx = s.moving_app(wi, delta, false, time);
            let t = s.committed(s.move_commit(wi as usize, delta, false), report);
            &&& t.current_desktop == s.current_desktop
            &&& t.focused_window == match report.focus {
                Some(w) => w,
                None => s.focused_window,
            }
            &&& fx.len() == if t.windows[wi].desktop == s.windows[wi].desktop {
                1int
            } else {
                2int
            }
            &&& fx[fx.len() - 1] == Effect::RefreshFocus
            &&& t == (StateView {
                windows: t.windows,
                focused_window: t.focused_window,
                cursor: t.cursor,
                scroll: t.scroll,
                ..s
            })
        }),
{
    lemma_moved_leaves(s, wi, delta, false, report);
}

/// Moving an app and going along ends in front of the app: the desktop it goes
/// to is shown and becomes the current one, and the app gets the focus. An app
/// on all desktops takes the user one desktop on from the current one.
pub proof fn law_following_ends_in_front(
    s: StateView,
    wi: int,
    delta: int,
    time: u32,
    report: Report,
)
    requires
        s.wf(),
        0 <= wi < s.windows.len(),
        0 < s.desktops.len() <= u32::MAX,
        report.failed is None,
    ensures
        ({
            let n = s.desktops.len() as int;
            let fx = s.moving_app(wi, delta, true, time);
            let t = s.committed(s.move_commit(wi as usize, delta, true), report);
            let moved = t.windows[wi].desktop != s.windows[wi].desktop;
            let id = s.windows[wi].id;
            &&& brings_in_front(
                fx,
                if moved {
                    1
                } else {
                    0
                },
                id,
                t.current_desktop,
                s.current_desktop,
                time,
            )
            &&& t.focused_window == Some(id)
            &&& t.current_desktop < n
            &&& s.windows[wi].desktop != u32::MAX ==> t.current_desktop == t.windows[wi].desktop
            &&& s.windows[wi].desktop == u32::MAX && s.current_desktop < n ==> (t.current_desktop
                - s.current_desktop - delta) % n == 0
            &&& t == (StateView {
                windows: t.windows,
                current_desktop: t.current_desktop,
                focused_window: t.focused_window,
                cursor: t.cursor,
                scroll: t.scroll,
                ..s
            })
        }),
{
    lemma_moved_leaves(s, wi, delta, true, report);
    let n = s.desktops.len() as int;
    if s.windows[wi].desktop == u32::MAX {
        lemma_stepped_is_listed(s.current_desktop, delta, n);
        if s.current_desktop < n {
            law_steps_count(s.current_desktop, delta, n);
        }
    } else {
        lemma_stepped_is_listed(s.windows[wi].desktop, delta, n);
    }
}

/// Without desktops, and for an app on all of them without going along, a move
/// asks for nothing and changes nothing.
pub proof fn law_moves_that_do_nothing(
    s: StateView,
    wi: int,
    delta: int,
    follow: bool,
    time: u32,
    report: Report,
)
    requires
        0 <= wi < s.windows.len() <= usize::MAX,
        s.desktops.len() == 0 || (!follow && s.windows[wi].desktop == u32::MAX),
    ensures
        s.moving_app(wi, delta, follow, time).len() == 0,
        s.committed(s.move_commit(wi as usize, delta, follow), report) == s,
{
}

/// Dropping an app on a desktop leaves it there. It is asked to go there first,
/// unless it is there already and not on all desktops. If the user is there or
/// goes along, the app is brought in front of them; otherwise the user stays
/// where they are and the focus is read again.
pub proof fn law_drops_end_on_their_desktop(
    s: StateView,
    wi: int,
    target: u32,
    follow: bool,
    time: u32,
    report: Report,
)
    requires
        s.wf(),
        0 <= wi < s.windows.len(),
        report.failed is None,
    ensures
        ({
            let fx = s.dropping_app(wi, target, follow, time);
            let t = s.committed(s.drop_commit(wi as usize, target, follow), report);
            let id = s.windows[wi].id;
            let asked = s.windows[wi].desktop != target || s.windows[wi].desktop == u32::MAX;
            let from: int = if asked {
                1
            } else {
                0
            };
            &&& t.windows.len() == s.windows.len()
            &&& t.windows[wi] == (WindowInfo { desktop: target, ..s.windows[wi] })
            &&& forall|k: int|
                0 <= k < s.windows.len() && k != wi ==> #[trigger] t.windows[k] == s.windows[k]
            &&& asked ==> fx.len() > 0 && fx[0] == Effect::Require(
                WmOp::MoveToDesktop { window: id, desktop: target },
            )
            &&& if follow || s.current_desktop == target {
                brings_in_front(fx, from, id, target, s.current_desktop, time) && t.focused_window
                    == Some(id) && t.current_desktop == target
            } else {
                fx.len() == from + 1 && fx[from] == Effect::RefreshFocus && t.current_desktop
                    == s.current_desktop && t.focused_window == match report.focus {
                    Some(w) => w,
                    None => s.focused_window,
                }
            }
            &&& t == (StateView {
                windows: t.windows,
                current_desktop: t.current_desktop,
                focused_window: t.focused_window,
                cursor: t.cursor,
                scroll: t.scroll,
                ..s
            })
        }),
{
    lemma_placed_leaves(
        s,
        wi,
        target,
        s.sticky(wi) || s.windows[wi].desktop != target,
        follow || target == s.current_desktop,
        report,
    );
}

/// Choosing an app row always brings that app in front of the user, on its own
/// desktop, or on the current one if it is on all of them. The desktop is shown
/// just if it is not the current one.
pub proof fn law_choosing_an_app_focuses_it(s: StateView, wi: usize, time: u32, report: Report)
    requires
        s.wf(),
        0 <= s.cursor < s.rows().len(),
        s.rows()[s.cursor] matches Row::App { window_idx, .. } && window_idx == wi,
    ensures
        ({
            let fx = s.choosing(time);
            let w = s.windows[wi as int];
            let home = if w.desktop == u32::MAX {
                s.current_desktop
            } else {
                w.desktop
            };
            let t = s.committed(s.choice(), report);
            &&& brings_in_front(fx, 0, w.id, home, s.current_desktop, time)
            &&& report.failed is None ==> t == (StateView {
                current_desktop: home,
                focused_window: Some(w.id),
                ..s
            })
            &&& report.failed is Some ==> t == s
        }),
{
}

/// Choosing a header asks for its desktop to be shown, current or not, and for
/// nothing else. Where there is no row, nothing is asked for.
pub proof fn law_choosing_a_header_shows_it(s: StateView, time: u32, report: Report)
    requires
        s.wf(),
    ensures
        0 <= s.cursor < s.rows().len() ==> (s.rows()[s.cursor] matches Row::Header {
            desktop_idx,
            ..
        } ==> s.choosing(time) == seq![
            Effect::Require(
                WmOp::SwitchDesktop { desktop: s.desktops[desktop_idx as int].index, time },
            ),
        ] && s.committed(s.choice(), report) == s),
        s.cursor >= s.rows().len() ==> s.choosing(time).len() == 0 && s.committed(
            s.choice(),
            report,
        ) == s,
{
}

/// A closed app is gone from the list and the others stay in their order. It
/// cannot have the focus any more, and another window that has it keeps it. The
/// cursor stays on its place, or goes to the last row if there are fewer.
pub proof fn law_closing_takes_one_app_away(s: StateView, wi: usize, report: Report)
    requires
        s.wf(),
        wi < s.windows.len(),
    ensures
        ({
            let t = s.committed(Commit::Close { window_idx: wi }, report);
            let n = t.rows().len() as int;
            &&& report.failed is Some ==> t == s
            &&& report.failed is None ==> {
                &&& t.windows.len() + 1 == s.windows.len()
                &&& forall|k: int| 0 <= k < wi ==> #[trigger] t.windows[k] == s.windows[k]
                &&& forall|k: int|
                    wi <= k < t.windows.len() ==> #[trigger] t.windows[k] == s.windows[k + 1]
                &&& s.focused_window == Some(s.windows[wi as int].id) ==> t.focused_window is None
                &&& s.focused_window != Some(s.windows[wi as int].id) ==> t.focused_window
                    == s.focused_window
                &&& n > 0 ==> t.cursor == if s.cursor < n {
                    s.cursor
                } else {
                    n - 1
                }
                &&& n == 0 ==> t.cursor == 0 && t.scroll == 0
                &&& t == (StateView {
                    windows: t.windows,
                    focused_window: t.focused_window,
                    cursor: t.cursor,
                    scroll: t.scroll,
                    ..s
                })
            }
        }),
{
    reveal(StateView::visible);
}

/// After a move or a drop, the cursor is on the first row that shows the app,
/// if there is one; otherwise neither the cursor nor the scroll position
/// changes.
pub proof fn law_cursor_snaps_to_the_first_row(s: StateView, wi: int)
    requires
        s.wf(),
    ensures
        ({
            let t = s.snapped(wi);
            let rows = s.rows();
            let shown = exists|i: int|
                0 <= i < rows.len() && #[trigger] shows_window(rows, i, wi);
            &&& t == (StateView { cursor: t.cursor, scroll: t.scroll, ..s })
            &&& !shown ==> t == s
            &&& shown ==> 0 <= t.cursor < rows.len() && shows_window(rows, t.cursor, wi) && forall|
                i: int,
            |
                0 <= i < t.cursor ==> !#[trigger] shows_window(rows, i, wi)
        }),
{
    reveal(StateView::visible);
    lemma_first_row_showing(s.rows(), wi, 0);
}

/// Whether row `i` shows window `wi`.
pub open spec fn shows_window(rows: Seq<Row>, i: int, wi: int) -> bool {
    rows[i] matches Row::App { window_idx, .. } && window_idx == wi
}

proof fn lemma_first_row_showing(rows: Seq<Row>, wi: int, from: int)
    requires
        0 <= from,
    ensures
        match row_showing(rows, wi, from) {
            Some(i) => from <= i < rows.len() && shows_window(rows, i, wi) && forall|k: int|
                from <= k < i ==> !#[trigger] shows_window(rows, k, wi),
            None => forall|k: int|
                from <= k < rows.len() ==> !#[trigger] shows_window(rows, k, wi),
        },
    decreases rows.len() - from,
{
    if from < rows.len() && !shows_window(rows, from, wi) {
        lemma_first_row_showing(rows, wi, from + 1);
    }
}

/// Scrolling to the selected row goes no further than needed: a row that is
/// wholly in sight leaves the scroll position alone, one that starts above the
/// popup ends up at its top edge, and one that ends below it at its bottom
/// edge, as far as the content allows.
pub proof fn law_scrolling_is_minimal(s: StateView)
    requires
        s.wf(),
        0 <= s.cursor < s.rows().len(),
    ensures
        ({
            let l = s.layout();
            let t = s.visible(l);
            let (top, bottom) = (l.row_y[s.cursor], l.row_y[s.cursor] + l.row_h[s.cursor]);
            let most = l.content_h - s.viewport_h;
            &&& t == (StateView { scroll: t.scroll, ..s })
            &&& most <= 0 ==> t.scroll == 0
            &&& most > 0 && s.scroll <= top && bottom <= s.scroll + s.viewport_h && 0 <= s.scroll
                <= most ==> t.scroll == s.scroll
            &&& 0 <= top <= most && top < s.scroll ==> t.scroll == top
            &&& 0 <= bottom - s.viewport_h <= most && s.scroll <= top && s.scroll + s.viewport_h
                < bottom ==> t.scroll + s.viewport_h == bottom
        }),
{
    reveal(StateView::visible);
}

/// Going to a row that is there puts the cursor on it; going above the first
/// row or past the last one stops there. Nothing but the cursor and the scroll
/// position changes, and nothing at all where there are no rows.
pub proof fn law_cursor_goes_where_it_is_sent(s: StateView, row: int)
    requires
        s.wf(),
    ensures
        ({
            let n = s.rows().len() as int;
            let t = s.with_cursor(row);
            &&& n == 0 ==> t == s
            &&& n > 0 && 0 <= row < n ==> t.cursor == row
            &&& n > 0 && row < 0 ==> t.cursor == 0
            &&& n > 0 && row >= n ==> t.cursor == n - 1
            &&& n > 0 ==> t == (StateView { cursor: t.cursor, ..s }).visible(s.layout())
            &&& t == (StateView { cursor: t.cursor, scroll: t.scroll, ..s })
        }),
{
    reveal(StateView::visible);
    reveal(StateView::with_cursor);
}

/// Focusing a window brings it in front of the user, and nothing else is asked
/// for. Once that has succeeded, its desktop is the current one and it has the
/// focus.
pub proof fn law_focusing_brings_in_front(
    s: StateView,
    window: u32,
    target: u32,
    time: u32,
    report: Report,
)
    ensures
        brings_in_front(
            s.activation(window, target, time),
            0,
            window,
            target,
            s.current_desktop,
            time,
        ),
        report.failed is None ==> s.committed(Commit::Activate { window, target }, report) == (
        StateView { current_desktop: target, focused_window: Some(window), ..s }),
{
}

/// The rows are laid out with the configured heights, and with the width of the
/// frame above and below them.
pub proof fn law_layout_goes_by_the_configuration(s: StateView, i: int)
    requires
        0 <= i < s.rows().len(),
    ensures
        ({
            let l = s.layout();
            &&& l.rows == s.rows()
            &&& i == 0 ==> l.row_y[i] == s.cfg.border_thickness
            &&& i > 0 ==> l.row_y[i] == l.row_y[i - 1] + l.row_h[i - 1]
            &&& s.rows()[i] is Header ==> l.row_h[i] == s.cfg.header_height
            &&& s.rows()[i] is App ==> l.row_h[i] == s.cfg.app_height
            &&& i == s.rows().len() - 1 ==> l.content_h == l.row_y[i] + l.row_h[i]
                + s.cfg.border_thickness
        }),
{
}

/// The popup opens with the cursor on the first row of the window that has the
/// focus. If it has no row, the cursor is on the first header of the current
/// desktop, and without one at the top. That row is scrolled into view.
pub proof fn law_cursor_opens_on_the_focus(s: StateView, i: int)
    requires
        s.wf(),
        0 <= i < s.rows().len(),
    ensures
        ({
            let rows = s.rows();
            let focus = |k: int|
                rows[k] matches Row::App { window_idx, .. } && s.focused_window == Some(
                    s.windows[window_idx as int].id,
                );
            let header = |k: int|
                rows[k] matches Row::Header { desktop_idx, .. }
                    && s.desktops[desktop_idx as int].index == s.current_desktop;
            let no_focus = forall|k: int| 0 <= k < rows.len() ==> !#[trigger] focus(k);
            let no_header = forall|k: int| 0 <= k < rows.len() ==> !#[trigger] header(k);
            let t = s.opened();
            &&& focus(i) && (forall|k: int| 0 <= k < i ==> !#[trigger] focus(k)) ==> t.cursor == i
            &&& no_focus && header(i) && (forall|k: int| 0 <= k < i ==> !#[trigger] header(k))
                ==> t.cursor == i
            &&& no_focus && no_header ==> t.cursor == 0
            &&& t == (StateView {
                cursor: t.cursor,
                viewport_h: t.viewport_h,
                ..s
            }).visible(s.layout())
            &&& t == (StateView {
                cursor: t.cursor,
                viewport_h: t.viewport_h,
                scroll: t.scroll,
                ..s
            })
        }),
{
    reveal(StateView::visible);
    let rows = s.rows();
    let focus = |k: int|
        rows[k] matches Row::App { window_idx, .. } && s.focused_window == Some(
            s.windows[window_idx as int].id,
        );
    let header = |k: int|
        rows[k] matches Row::Header { desktop_idx, .. } && s.desktops[desktop_idx as int].index
            == s.current_desktop;
    lemma_first_focused_row(s, 0);
    lemma_first_header_row(s, 0);
    lemma_focused_row_in_range(rows, s.windows, s.focused_window, 0);
    lemma_header_row_in_range(rows, s.desktops, s.current_desktop, 0);
    if let Some(f) = focused_row(rows, s.windows, s.focused_window, 0) {
        assert(focus(f));
    }
    if let Some(h) = header_row(rows, s.desktops, s.current_desktop, 0) {
        assert(header(h));
    }
    if focus(i) && (forall|k: int| 0 <= k < i ==> !#[trigger] focus(k)) {
        assert(rows[i] is App);
        let f = focused_row(rows, s.windows, s.focused_window, 0)->0;
        assert(rows[f] is App);
    }
    if header(i) && (forall|k: int| 0 <= k < i ==> !#[trigger] header(k)) {
        assert(rows[i] is Header);
        let h = header_row(rows, s.desktops, s.current_desktop, 0)->0;
        assert(rows[h] is Header);
    }
}

proof fn lemma_first_focused_row(s: StateView, from: int)
    requires
        0 <= from,
    ensures
        focused_row(s.rows(), s.windows, s.focused_window, from) matches Some(i) ==> forall|k: int|
            from <= k < i ==> !((#[trigger] s.rows()[k]) matches Row::App { window_idx, .. }
                && s.focused_window == Some(s.windows[window_idx as int].id)),
    decreases s.rows().len() - from,
{
    if from < s.rows().len() {
        lemma_first_focused_row(s, from + 1);
    }
}

proof fn lemma_first_header_row(s: StateView, from: int)
    requires
        0 <= from,
    ensures
        header_row(s.rows(), s.desktops, s.current_desktop, from) matches Some(i) ==> forall|k: int|
            from <= k < i ==> !((#[trigger] s.rows()[k]) matches Row::Header { desktop_idx, .. }
                && s.desktops[desktop_idx as int].index == s.current_desktop),
    decreases s.rows().len() - from,
{
    if from < s.rows().len() {
        lemma_first_header_row(s, from + 1);
    }
}

/// A step from a desktop that is not listed counts from its number all the same,
/// taken as a signed one, and ends on a listed desktop. That holds of an app
/// that is moved, and of the user who goes along with an app on all desktops.
pub proof fn law_moves_from_elsewhere(
    s: StateView,
    wi: int,
    delta: int,
    follow: bool,
    report: Report,
)
    requires
        s.wf(),
        0 <= wi < s.windows.len(),
        0 < s.desktops.len() <= u32::MAX,
        report.failed is None,
    ensures
        ({
            let n = s.desktops.len() as int;
            let t = s.committed(s.move_commit(wi as usize, delta, follow), report);
            let sticky = s.windows[wi].desktop == u32::MAX;
            let (before, after) = if sticky {
                (s.current_desktop, t.current_desktop)
            } else {
                (s.windows[wi].desktop, t.windows[wi].desktop)
            };
            !sticky || follow ==> {
                &&& after < n
                &&& before < n || before < 0x8000_0000 ==> (after - before - delta) % n == 0
                &&& before >= n && before >= 0x8000_0000 ==> (after - (before - 0x1_0000_0000)
                    - delta) % n == 0
            }
        }),
{
    lemma_moved_leaves(s, wi, delta, follow, report);
    let n = s.desktops.len() as int;
    if s.windows[wi].desktop == u32::MAX {
        law_steps_count(s.current_desktop, delta, n);
    } else {
        law_steps_count(s.windows[wi].desktop, delta, n);
    }
}

} // verus!
