//! What the keys promise.

#[allow(unused_imports)]
use crate::keymap::Key;
#[allow(unused_imports)]
use crate::keys::{plain_d, quit_key, super_d, Mods, Outcome};
#[allow(unused_imports)]
use crate::layout::Row;
#[allow(unused_imports)]
use crate::rows::{
    is_bound, law_hint_finds_its_row, law_hint_pool, law_hints_go_in_order,
    law_only_hints_lead_to_rows, lemma_hint_from_sound,
};
#[allow(unused_imports)]
use crate::state::{clamped, StateView};
#[allow(unused_imports)]
use crate::text::ascii_lower;
#[allow(unused_imports)]
use crate::wm::{all_done, Commit, Effect, Report, WmOp};
use vstd::prelude::*;

verus! {

/// No modifier is down.
pub open spec fn no_mods() -> Mods {
    Mods { shift: false, ctrl: false, super_: false }
}

/// Whether an effect asks a window to close.
pub open spec fn closes_a_window(e: Effect) -> bool {
    match e {
        Effect::Require(op) => op is Close,
        Effect::Attempt(op) => op is Close,
        Effect::RefreshFocus => false,
    }
}

/// A letter or digit that is bound never acts as a hint, in either case.
pub proof fn law_bound_keys_are_no_hints(s: StateView, c: char, mods: Mods)
    requires
        s.rows().len() <= usize::MAX,
        is_bound(ascii_lower(c)),
    ensures
        s.hinted(c, mods) is None,
{
    law_only_hints_lead_to_rows(
        s.desktops,
        s.windows,
        s.current_desktop,
        s.focused_window,
        s.cfg.border_thickness as int,
        s.cfg.header_height as int,
        s.cfg.app_height as int,
        ascii_lower(c),
    );
}

/// Pressing the hint of a row does what Enter does on that row. Caps lock
/// makes no difference.
pub proof fn law_hint_is_enter(s: StateView, i: int, c: char, time: u32)
    requires
        s.wf(),
        s.rows().len() <= usize::MAX,
        !s.show_help,
        0 <= i < s.rows().len(),
        s.layout().has_hint(ascii_lower(c), i),
    ensures
        s.on_key(Key::Char(c), time, no_mods()) == (StateView { cursor: i, ..s }).on_key(
            Key::Return,
            time,
            no_mods(),
        ),
        s.on_key(Key::Char(c), time, no_mods()).outcome == Outcome::Close,
{
    reveal(StateView::on_char);
    let d = s.disarmed(Key::Char(c), no_mods());
    assert(d.layout() == s.layout());
    law_hint_finds_its_row(
        s.desktops,
        s.windows,
        s.current_desktop,
        s.focused_window,
        s.cfg.border_thickness as int,
        s.cfg.header_height as int,
        s.cfg.app_height as int,
        ascii_lower(c),
        i,
    );
    if is_bound(ascii_lower(c)) {
        law_bound_keys_are_no_hints(s, c, no_mods());
    }
    let e = StateView { cursor: i, ..s };
    assert((StateView { cursor: i, ..d }) == e.disarmed(Key::Return, no_mods()));
}

/// A key with a modifier is never taken for a hint.
pub proof fn law_hints_need_no_modifiers(s: StateView, c: char, mods: Mods)
    requires
        mods.shift || mods.ctrl || mods.super_,
    ensures
        s.hinted(c, mods) is None,
{
}

/// On an app row, the first `d` only arms the chord; the second asks exactly
/// that app to close and takes its row away, and the popup stays open.
pub proof fn law_dd_closes_the_app(
    s: StateView,
    wi: usize,
    time1: u32,
    time2: u32,
    mods1: Mods,
    mods2: Mods,
)
    requires
        s.wf(),
        s.rows().len() <= usize::MAX,
        !s.show_help,
        !s.pending_dd,
        s.cursor_window() == Some(wi),
        !mods1.super_,
        !mods2.super_,
    ensures
        ({
            let first = s.on_key(Key::Char('d'), time1, mods1);
            let second = first.state().on_key(Key::Char('d'), time2, mods2);
            &&& first.fx == Seq::<Effect>::empty()
            &&& first.outcome == Outcome::Repaint
            &&& first.state().windows == s.windows
            &&& second.fx == seq![
                Effect::Require(WmOp::Close { window: s.windows[wi as int].id, time: time2 }),
            ]
            &&& second.outcome == Outcome::Repaint
            &&& second.state().windows == s.windows.remove(wi as int)
        }),
{
    reveal(StateView::on_char);
    reveal(StateView::on_d);
    reveal(StateView::visible);
    law_bound_keys_are_no_hints(s, 'd', mods1);
    let first = s.on_key(Key::Char('d'), time1, mods1);
    let d1 = s.disarmed(Key::Char('d'), mods1);
    assert(d1.layout() == s.layout());
    assert(first.state().rows() == s.rows());
    assert(first.state().layout() == s.layout());
    law_bound_keys_are_no_hints(first.state(), 'd', mods2);
    let d2 = first.state().disarmed(Key::Char('d'), mods2);
    assert(d2.layout() == s.layout());
    assert(d2.rows() == s.rows());
    assert(d2.cursor_window() == Some(wi));
}

proof fn lemma_activation_closes_nothing(s: StateView, win: u32, target: u32, time: u32)
    ensures
        forall|k: int|
            0 <= k < s.activation(win, target, time).len() ==> !closes_a_window(
                #[trigger] s.activation(win, target, time)[k],
            ),
{
}

proof fn lemma_choosing_closes_nothing(s: StateView, time: u32)
    ensures
        forall|k: int|
            0 <= k < s.choosing(time).len() ==> !closes_a_window(#[trigger] s.choosing(time)[k]),
{
    if let Some(wi) = s.cursor_window() {
        lemma_activation_closes_nothing(
            s,
            s.windows[wi as int].id,
            s.home_of(wi as int),
            time,
        );
    }
}

proof fn lemma_moving_closes_nothing(
    s: StateView,
    wi: int,
    delta: int,
    follow: bool,
    time: u32,
)
    ensures
        forall|k: int|
            0 <= k < s.moving_app(wi, delta, follow, time).len() ==> !closes_a_window(
                #[trigger] s.moving_app(wi, delta, follow, time)[k],
            ),
{
    let win = s.windows[wi].id;
    let target = s.move_target(wi, delta);
    let activation = s.activation(win, target, time);
    lemma_activation_closes_nothing(s, win, target, time);
    assert forall|k: int| 0 <= k < s.moving_app(wi, delta, follow, time).len() implies
        !closes_a_window(#[trigger] s.moving_app(wi, delta, follow, time)[k]) by {
        let fx = s.moving_app(wi, delta, follow, time);
        if follow && !s.stays(wi, follow) {
            let skipped = fx.len() - activation.len();
            if k >= skipped {
                assert(fx[k] == activation[k - skipped]);
            }
        }
    }
}

/// A key press closes a window only as the second `d` in a row.
pub proof fn law_only_dd_closes(s: StateView, key: Key, time: u32, mods: Mods, k: int)
    requires
        s.wf(),
        0 <= k < s.on_key(key, time, mods).fx.len(),
        closes_a_window(s.on_key(key, time, mods).fx[k]),
    ensures
        s.pending_dd,
        plain_d(key, mods),
        !s.show_help,
{
    reveal(StateView::on_char);
    reveal(StateView::on_d);
    reveal(StateView::on_step);
    let d = s.disarmed(key, mods);
    let idle = s.idle(key, mods);
    lemma_choosing_closes_nothing(d, time);
    if let Key::Char(c) = key {
        if !s.show_help {
            match d.hinted(c, mods) {
                Some(row) => {
                    lemma_choosing_closes_nothing(StateView { cursor: row as int, ..d }, time);
                },
                None => {
                    if let Some(wi) = d.cursor_window() {
                        lemma_moving_closes_nothing(d, wi as int, 1, mods.ctrl, time);
                        lemma_moving_closes_nothing(d, wi as int, -1, mods.ctrl, time);
                    }
                    assert(s.on_key(key, time, mods) == d.on_char(c, time, mods, idle));
                },
            }
        }
    }
}

/// Every key other than a plain `d` cancels a half-typed `dd`, unless it
/// closes the popup.
pub proof fn law_other_keys_cancel_dd(s: StateView, key: Key, time: u32, mods: Mods)
    requires
        s.wf(),
        !s.show_help,
        !plain_d(key, mods),
    ensures
        s.on_key(key, time, mods).outcome == Outcome::Close || !s.on_key(
            key,
            time,
            mods,
        ).state().pending_dd,
{
    let step = s.on_key(key, time, mods);
    law_changes_keep_the_chords(step.held, step.commit, all_done());
    let d = s.disarmed(key, mods);
    lemma_with_cursor(d, d.cursor + 1);
    lemma_with_cursor(d, d.cursor - 1);
    if let Key::Char(c) = key {
        lemma_char_chords(d, c, time, mods, s.idle(key, mods));
    }
}

/// Super+D closes the popup at any time and does nothing else; it is no half
/// of a `dd`.
pub proof fn law_super_d_closes_the_popup(s: StateView, c: char, time: u32, mods: Mods)
    requires
        ascii_lower(c) == 'd',
        mods.super_,
    ensures
        s.on_key(Key::Char(c), time, mods).outcome == Outcome::Close,
        s.on_key(Key::Char(c), time, mods).fx == Seq::<Effect>::empty(),
{
    reveal(StateView::on_char);
}

/// Escape closes the popup, and so does `q`; while the key bindings are shown,
/// Escape only takes them away.
pub proof fn law_keys_that_close_the_popup(s: StateView, time: u32, mods: Mods)
    requires
        s.wf(),
        s.rows().len() <= usize::MAX,
    ensures
        s.on_key(Key::Escape, time, mods).outcome == if s.show_help {
            Outcome::Repaint
        } else {
            Outcome::Close
        },
        s.on_key(Key::Char('q'), time, mods).outcome == Outcome::Close,
        s.on_key(Key::Char('Q'), time, mods).outcome == Outcome::Close,
        s.on_key(Key::Escape, time, mods).fx == Seq::<Effect>::empty(),
        s.on_key(Key::Char('q'), time, mods).fx == Seq::<Effect>::empty(),
        s.on_key(Key::Char('Q'), time, mods).fx == Seq::<Effect>::empty(),
{
    reveal(StateView::on_char);
    let a = s.disarmed(Key::Char('q'), mods);
    let b = s.disarmed(Key::Char('Q'), mods);
    assert(a.rows() == s.rows() && b.rows() == s.rows());
    law_bound_keys_are_no_hints(a, 'q', mods);
    law_bound_keys_are_no_hints(b, 'Q', mods);
}

/// While the key bindings are shown, no key does any work or changes anything
/// but that; F1 and Escape take them away, and only Super+D and `q` close the
/// popup.
pub proof fn law_help_is_modal(s: StateView, key: Key, time: u32, mods: Mods)
    requires
        s.show_help,
    ensures
        ({
            let step = s.on_key(key, time, mods);
            &&& step.fx == Seq::<Effect>::empty()
            &&& step.state() == (StateView { show_help: step.state().show_help, ..s })
            &&& !step.state().show_help <==> key == Key::F1 || key == Key::Escape
            &&& step.outcome == Outcome::Close <==> super_d(key, mods) || quit_key(key)
        }),
{
}

/// F1 shows the key bindings, and a second F1 takes them away again. A
/// half-typed chord is dropped; nothing else changes.
pub proof fn law_help_can_be_toggled(
    s: StateView,
    time1: u32,
    time2: u32,
    mods1: Mods,
    mods2: Mods,
)
    requires
        !s.show_help,
    ensures
        s.on_key(Key::F1, time1, mods1).state().show_help,
        s.on_key(Key::F1, time1, mods1).state().on_key(Key::F1, time2, mods2).state() == (
            StateView { pending_dd: false, pending_gg: false, ..s }),
{
}

/// A digit shows the desktop at its position and closes the popup; one without
/// a desktop does nothing but drop a half-typed chord.
pub proof fn law_digits_go_to_desktops(s: StateView, c: char, time: u32, mods: Mods)
    requires
        s.wf(),
        s.rows().len() <= usize::MAX,
        !s.show_help,
        '0' <= c <= '9',
    ensures
        ({
            let slot = if c == '0' {
                9
            } else {
                c as int - '1' as int
            };
            let step = s.on_key(Key::Char(c), time, mods);
            if slot < s.desktops.len() {
                step.fx == seq![
                    Effect::Require(
                        WmOp::SwitchDesktop { desktop: s.desktops[slot].index, time },
                    ),
                ] && step.outcome == Outcome::Close
            } else {
                step.fx == Seq::<Effect>::empty() && step.outcome != Outcome::Close && step.state()
                    == (StateView { pending_dd: false, pending_gg: false, ..s })
            }
        }),
{
    reveal(StateView::on_char);
    let d = s.disarmed(Key::Char(c), mods);
    assert(d.rows() == s.rows());
    law_bound_keys_are_no_hints(d, c, mods);
}

/// Going to a row changes the cursor and the scroll position only.
proof fn lemma_with_cursor(s: StateView, row: int)
    ensures
        s.with_cursor(row) == (StateView {
            cursor: s.with_cursor(row).cursor,
            scroll: s.with_cursor(row).scroll,
            ..s
        }),
        s.rows().len() > 0 ==> s.with_cursor(row).cursor == clamped(
            row,
            0,
            s.rows().len() - 1,
        ),
        s.with_cursor(row).rows() == s.rows(),
{
    reveal(StateView::with_cursor);
    reveal(StateView::visible);
}

/// Moving down and then up comes back to the same row, and so does moving up
/// and then down, away from the ends.
pub proof fn law_down_and_up(s: StateView, time1: u32, time2: u32, mods1: Mods, mods2: Mods)
    requires
        s.wf(),
        !s.show_help,
        0 <= s.cursor < s.rows().len(),
    ensures
        s.cursor + 1 < s.rows().len() ==> s.on_key(Key::Down, time1, mods1).state().on_key(
            Key::Up,
            time2,
            mods2,
        ).state().cursor == s.cursor,
        s.cursor > 0 ==> s.on_key(Key::Up, time1, mods1).state().on_key(
            Key::Down,
            time2,
            mods2,
        ).state().cursor == s.cursor,
{
    let a = s.disarmed(Key::Down, mods1);
    assert(a == s.disarmed(Key::Up, mods1));
    assert(a.rows() == s.rows());
    lemma_with_cursor(a, a.cursor + 1);
    lemma_with_cursor(a, a.cursor - 1);
    let b = a.with_cursor(a.cursor + 1).disarmed(Key::Up, mods2);
    assert(b.rows() == s.rows());
    lemma_with_cursor(b, b.cursor - 1);
    let c = a.with_cursor(a.cursor - 1).disarmed(Key::Down, mods2);
    assert(c.rows() == s.rows());
    lemma_with_cursor(c, c.cursor + 1);
}

/// `j` and `k` without Shift are Down and Up.
pub proof fn law_j_is_down_and_k_is_up(s: StateView, time: u32, mods: Mods)
    requires
        s.wf(),
        s.rows().len() <= usize::MAX,
        !s.show_help,
        !mods.shift,
    ensures
        s.on_key(Key::Char('j'), time, mods) == s.on_key(Key::Down, time, mods),
        s.on_key(Key::Char('k'), time, mods) == s.on_key(Key::Up, time, mods),
{
    reveal(StateView::on_char);
    reveal(StateView::on_step);
    let a = s.disarmed(Key::Char('j'), mods);
    let b = s.disarmed(Key::Char('k'), mods);
    assert(a == s.disarmed(Key::Down, mods));
    assert(b == s.disarmed(Key::Up, mods));
    assert(a.rows() == s.rows() && b.rows() == s.rows());
    law_bound_keys_are_no_hints(a, 'j', mods);
    law_bound_keys_are_no_hints(b, 'k', mods);
}

/// The first `g` leaves the cursor alone and arms the chord, and the second
/// goes to the first row; `G` goes to the last. None of them does any work or
/// changes the windows.
pub proof fn law_first_and_last_row(
    s: StateView,
    time1: u32,
    time2: u32,
    mods1: Mods,
    mods2: Mods,
)
    requires
        s.wf(),
        0 < s.rows().len() <= usize::MAX,
        !s.show_help,
        !s.pending_gg,
    ensures
        ({
            let first = s.on_key(Key::Char('g'), time1, mods1);
            let second = first.state().on_key(Key::Char('g'), time2, mods2);
            &&& first.fx == Seq::<Effect>::empty() && first.outcome == Outcome::Repaint
            &&& first.state() == (StateView { pending_gg: true, pending_dd: false, ..s })
            &&& second.fx == Seq::<Effect>::empty() && second.outcome == Outcome::Repaint
            &&& second.state().cursor == 0 && !second.state().pending_gg
            &&& second.state().windows == s.windows && second.state().desktops == s.desktops
        }),
        ({
            let last = s.on_key(Key::Char('G'), time1, mods1);
            &&& last.fx == Seq::<Effect>::empty() && last.outcome == Outcome::Repaint
            &&& last.state().cursor == s.rows().len() - 1
            &&& last.state().windows == s.windows && last.state().desktops == s.desktops
        }),
{
    reveal(StateView::on_char);
    let a = s.disarmed(Key::Char('g'), mods1);
    assert(a.rows() == s.rows());
    law_bound_keys_are_no_hints(a, 'g', mods1);
    let armed = s.on_key(Key::Char('g'), time1, mods1).state();
    assert(armed == (StateView { pending_gg: true, pending_dd: false, ..s }));
    assert(armed.rows() == s.rows());
    let b = armed.disarmed(Key::Char('g'), mods2);
    assert(b.rows() == s.rows());
    law_bound_keys_are_no_hints(b, 'g', mods2);
    lemma_with_cursor(StateView { pending_gg: false, ..b }, 0);
    let c = s.disarmed(Key::Char('G'), mods1);
    assert(c.rows() == s.rows());
    law_bound_keys_are_no_hints(c, 'G', mods1);
    lemma_with_cursor(c, usize::MAX as int);
}

/// With Shift, `j` and `k` on a header do nothing but drop a half-typed chord.
pub proof fn law_headers_do_not_move(s: StateView, c: char, time: u32, mods: Mods)
    requires
        s.wf(),
        s.rows().len() <= usize::MAX,
        !s.show_help,
        mods.shift,
        ascii_lower(c) == 'j' || ascii_lower(c) == 'k',
        s.cursor_window() is None,
    ensures
        s.on_key(Key::Char(c), time, mods).fx == Seq::<Effect>::empty(),
        s.on_key(Key::Char(c), time, mods).state() == (StateView {
            pending_dd: false,
            pending_gg: false,
            ..s
        }),
        s.on_key(Key::Char(c), time, mods).outcome != Outcome::Close,
{
    reveal(StateView::on_char);
    reveal(StateView::on_step);
    let d = s.disarmed(Key::Char(c), mods);
    assert(d.rows() == s.rows());
    assert(d.cursor_window() is None);
}

impl StateView {
    /// At most one chord is half typed, and none while the key bindings are
    /// shown.
    pub open spec fn one_chord(self) -> bool {
        !(self.pending_dd && self.pending_gg) && (self.show_help ==> !self.pending_dd
            && !self.pending_gg)
    }

    /// Whether the chords of `self` are those of `other`.
    pub open spec fn same_chords(self, other: StateView) -> bool {
        self.pending_dd == other.pending_dd && self.pending_gg == other.pending_gg
            && self.show_help == other.show_help
    }
}

/// Making the change of a step leaves the chords alone.
pub proof fn law_changes_keep_the_chords(s: StateView, commit: Commit, report: Report)
    ensures
        s.committed(commit, report).same_chords(s),
{
    reveal(StateView::visible);
}

/// What a printable key does to the chords.
proof fn lemma_char_chords(s: StateView, c: char, time: u32, mods: Mods, idle: Outcome)
    requires
        !s.show_help,
        s.pending_dd ==> plain_d(Key::Char(c), mods),
        s.pending_gg ==> c == 'g',
    ensures
        ({
            let t = s.on_char(c, time, mods, idle).held;
            &&& !t.show_help
            &&& t.pending_dd ==> plain_d(Key::Char(c), mods)
            &&& t.pending_gg ==> c == 'g'
        }),
{
    reveal(StateView::on_char);
    reveal(StateView::on_step);
    reveal(StateView::on_d);
    lemma_with_cursor(StateView { pending_gg: false, ..s }, 0);
    lemma_with_cursor(s, usize::MAX as int);
    lemma_with_cursor(s, s.cursor + 1);
    lemma_with_cursor(s, s.cursor - 1);
}

/// At most one chord is half typed at any time. After a key that leaves the
/// popup open, `dd` is half typed only if that key was a plain `d`, and `gg`
/// only if it was a `g`.
pub proof fn law_one_chord_at_a_time(
    s: StateView,
    key: Key,
    time: u32,
    mods: Mods,
    report: Report,
)
    requires
        s.wf(),
        s.one_chord(),
    ensures
        ({
            let step = s.on_key(key, time, mods);
            let t = step.finished(report);
            &&& step.held.one_chord() && t.one_chord()
            &&& step.outcome != Outcome::Close ==> {
                &&& t.pending_dd ==> plain_d(key, mods)
                &&& t.pending_gg ==> key == Key::Char('g')
            }
        }),
{
    let step = s.on_key(key, time, mods);
    law_changes_keep_the_chords(step.held, step.commit, report);
    let d = s.disarmed(key, mods);
    lemma_with_cursor(d, d.cursor + 1);
    lemma_with_cursor(d, d.cursor - 1);
    if let Key::Char(c) = key {
        if !s.show_help {
            lemma_char_chords(d, c, time, mods, s.idle(key, mods));
        }
    }
}

/// A `d`, another key that leaves the popup open, and a `d` close nothing.
pub proof fn law_interrupted_dd_closes_nothing(
    s: StateView,
    key: Key,
    time: u32,
    mods: Mods,
    report: Report,
    time2: u32,
    mods2: Mods,
    k: int,
)
    requires
        s.wf(),
        s.one_chord(),
        !plain_d(key, mods),
        s.on_key(key, time, mods).outcome != Outcome::Close,
        s.on_key(key, time, mods).finished(report).wf(),
        0 <= k < s.on_key(key, time, mods).finished(report).on_key(
            Key::Char('d'),
            time2,
            mods2,
        ).fx.len(),
    ensures
        !closes_a_window(
            s.on_key(key, time, mods).finished(report).on_key(Key::Char('d'), time2, mods2).fx[k],
        ),
{
    law_one_chord_at_a_time(s, key, time, mods, report);
    let t = s.on_key(key, time, mods).finished(report);
    if closes_a_window(t.on_key(Key::Char('d'), time2, mods2).fx[k]) {
        law_only_dd_closes(t, Key::Char('d'), time2, mods2, k);
    }
}

impl StateView {
    /// The state without half-typed chords.
    pub open spec fn unarmed(self) -> StateView {
        StateView { pending_dd: false, pending_gg: false, ..self }
    }
}

/// Enter chooses the row at the cursor and closes the popup, whatever modifiers
/// are down.
pub proof fn law_enter_chooses_the_row(s: StateView, time: u32, mods: Mods, report: Report)
    requires
        !s.show_help,
    ensures
        ({
            let step = s.on_key(Key::Return, time, mods);
            &&& step.fx == s.choosing(time)
            &&& step.outcome == Outcome::Close
            &&& step.finished(report) == s.unarmed().committed(s.choice(), report)
        }),
{
    let d = s.disarmed(Key::Return, mods);
    assert(d == s.unarmed());
    assert(d.rows() == s.rows());
}

/// With Shift, `j` moves the app at the cursor one desktop down and `k` one up;
/// with Ctrl as well, the user goes along. The popup stays open.
pub proof fn law_shift_j_and_k_move_the_app(
    s: StateView,
    c: char,
    wi: usize,
    time: u32,
    mods: Mods,
    report: Report,
)
    requires
        s.wf(),
        s.rows().len() <= usize::MAX,
        !s.show_help,
        mods.shift,
        c == 'j' || c == 'J' || c == 'k' || c == 'K',
        0 <= s.cursor < s.rows().len(),
        s.rows()[s.cursor] matches Row::App { window_idx, .. } && window_idx == wi,
    ensures
        ({
            let delta: int = if c == 'j' || c == 'J' {
                1
            } else {
                -1
            };
            let step = s.on_key(Key::Char(c), time, mods);
            &&& step.fx == s.moving_app(wi as int, delta, mods.ctrl, time)
            &&& step.finished(report) == s.unarmed().committed(
                s.move_commit(wi, delta, mods.ctrl),
                report,
            )
            &&& step.held == s.unarmed()
            &&& step.outcome == Outcome::Repaint
        }),
{
    reveal(StateView::on_char);
    reveal(StateView::on_step);
    let d = s.disarmed(Key::Char(c), mods);
    assert(d == s.unarmed());
    assert(d.rows() == s.rows());
}

/// Down goes one row down and Up one row up, and so do `j` and `k` without
/// Shift. They stop at the first and the last row, ask for nothing, and change
/// nothing but the cursor and the scroll position.
pub proof fn law_down_goes_one_row_down(s: StateView, key: Key, time: u32, mods: Mods)
    requires
        s.wf(),
        s.rows().len() <= usize::MAX,
        !s.show_help,
        0 <= s.cursor < s.rows().len(),
        key == Key::Down || key == Key::Up || (!mods.shift && (key == Key::Char('j') || key
            == Key::Char('J') || key == Key::Char('k') || key == Key::Char('K'))),
    ensures
        ({
            let down = key == Key::Down || key == Key::Char('j') || key == Key::Char('J');
            let step = s.on_key(key, time, mods);
            let t = step.state();
            &&& step.fx.len() == 0
            &&& step.outcome == Outcome::Repaint
            &&& t.cursor == if down {
                if s.cursor + 1 < s.rows().len() {
                    s.cursor + 1
                } else {
                    s.cursor
                }
            } else {
                if s.cursor > 0 {
                    s.cursor - 1
                } else {
                    0
                }
            }
            &&& t == (StateView { cursor: t.cursor, scroll: t.scroll, ..s.unarmed() })
            &&& t == (StateView { cursor: t.cursor, ..s.unarmed() }).visible(s.layout())
        }),
{
    reveal(StateView::on_char);
    reveal(StateView::on_step);
    reveal(StateView::with_cursor);
    reveal(StateView::visible);
    let d = s.disarmed(key, mods);
    assert(d == s.unarmed());
    assert(d.rows() == s.rows());
    assert(d.layout() == s.layout());
    if let Key::Char(c) = key {
        law_bound_keys_are_no_hints(d, c, mods);
    }
}

/// A key that is neither bound nor the hint of a row asks for nothing. It drops
/// a half-typed chord, which shows, and changes nothing else.
pub proof fn law_other_keys_do_nothing(s: StateView, key: Key, time: u32, mods: Mods)
    requires
        s.wf(),
        s.rows().len() <= usize::MAX,
        !s.show_help,
        key matches Key::Char(c) ==> {
            &&& !('0' <= c <= '9')
            &&& c != 'j' && c != 'J' && c != 'k' && c != 'K' && c != 'g' && c != 'G'
            &&& c != 'd' && c != 'D' && c != 'q' && c != 'Q'
            &&& mods.shift || mods.ctrl || mods.super_ || forall|i: int|
                0 <= i < s.rows().len() ==> !((#[trigger] s.rows()[i]) matches Row::App {
                    hint: Some(h),
                    ..
                } && h == ascii_lower(c))
        },
        key is Char || key is Other,
    ensures
        ({
            let step = s.on_key(key, time, mods);
            &&& step.fx.len() == 0
            &&& step.state() == s.unarmed()
            &&& step.outcome == if s.pending_dd || s.pending_gg {
                Outcome::Repaint
            } else {
                Outcome::Nothing
            }
        }),
{
    reveal(StateView::on_char);
    let d = s.disarmed(key, mods);
    assert(d.rows() == s.rows());
    assert(d.layout() == s.layout());
    assert(d == s.unarmed());
    if let Key::Char(c) = key {
        lemma_hint_from_sound(s.layout(), ascii_lower(c), 0);
        if let Some(i) = d.hinted(c, mods) {
            assert(s.rows()[i as int] is App);
        }
    }
}

/// A letter, small or capital, that a row shows as its hint chooses that row
/// when no modifier is down: the cursor goes there and everything else is as
/// with Enter.
pub proof fn law_hints_choose_their_row(
    s: StateView,
    i: int,
    c: char,
    h: char,
    time: u32,
    report: Report,
)
    requires
        s.wf(),
        s.rows().len() <= usize::MAX,
        !s.show_help,
        0 <= i < s.rows().len(),
        s.rows()[i] matches Row::App { hint, .. } && hint == Some(h),
        c == h || c as int == h as int - 32,
    ensures
        ({
            let step = s.on_key(Key::Char(c), time, no_mods());
            let there = StateView { cursor: i, ..s };
            &&& step.fx == there.choosing(time)
            &&& step.outcome == Outcome::Close
            &&& step.finished(report) == (StateView { cursor: i, ..s.unarmed() }).committed(
                there.choice(),
                report,
            )
        }),
{
    law_hint_pool();
    law_hints_go_in_order(s.desktops, s.windows, s.current_desktop, s.focused_window, i);
    assert('a' <= h <= 'z');
    assert(ascii_lower(c) == h);
    assert(s.layout().has_hint(h, i));
    law_hint_is_enter(s, i, c, time);
    let there = StateView { cursor: i, ..s };
    law_enter_chooses_the_row(there, time, no_mods(), report);
    assert(there.unarmed() == (StateView { cursor: i, ..s.unarmed() }));
}

/// Two presses of `d`, small or capital, without Super, close the app at the
/// cursor: the first asks for nothing and only arms the chord, the second asks
/// that app to close. On a header the second only drops the chord.
pub proof fn law_two_ds_close_the_app(
    s: StateView,
    c1: char,
    c2: char,
    time1: u32,
    time2: u32,
    mods1: Mods,
    mods2: Mods,
    report: Report,
)
    requires
        s.wf(),
        0 < s.rows().len() <= usize::MAX,
        0 <= s.cursor < s.rows().len(),
        !s.show_help,
        !s.pending_dd,
        c1 == 'd' || c1 == 'D',
        c2 == 'd' || c2 == 'D',
        !mods1.super_,
        !mods2.super_,
    ensures
        ({
            let first = s.on_key(Key::Char(c1), time1, mods1);
            let armed = StateView { pending_dd: true, pending_gg: false, ..s };
            let second = armed.on_key(Key::Char(c2), time2, mods2);
            &&& first.fx.len() == 0 && first.outcome == Outcome::Repaint
            &&& first.finished(report) == armed
            &&& second.outcome == Outcome::Repaint
            &&& match s.rows()[s.cursor] {
                Row::App { window_idx, .. } => second.fx == seq![
                    Effect::Require(
                        WmOp::Close { window: s.windows[window_idx as int].id, time: time2 },
                    ),
                ] && second.finished(report) == s.unarmed().committed(
                    Commit::Close { window_idx },
                    report,
                ),
                Row::Header { .. } => second.fx.len() == 0 && second.finished(report)
                    == s.unarmed(),
            }
        }),
{
    reveal(StateView::on_char);
    reveal(StateView::on_d);
    let d1 = s.disarmed(Key::Char(c1), mods1);
    assert(d1.rows() == s.rows());
    law_bound_keys_are_no_hints(d1, c1, mods1);
    let armed = StateView { pending_dd: true, pending_gg: false, ..s };
    let d2 = armed.disarmed(Key::Char(c2), mods2);
    assert(d2.rows() == s.rows());
    law_bound_keys_are_no_hints(d2, c2, mods2);
}

/// A key press closes a window only as a `d` without Super right after another
/// one, and then only the app at the cursor.
pub proof fn law_keys_close_only_by_dd(s: StateView, key: Key, time: u32, mods: Mods, k: int)
    requires
        s.wf(),
        s.rows().len() <= usize::MAX,
        0 <= k < s.on_key(key, time, mods).fx.len(),
        closes_a_window(s.on_key(key, time, mods).fx[k]),
    ensures
        s.pending_dd && !s.show_help,
        key == Key::Char('d') || key == Key::Char('D'),
        !mods.super_,
        0 <= s.cursor < s.rows().len(),
        s.rows()[s.cursor] matches Row::App { window_idx, .. } && s.on_key(key, time, mods).fx[k]
            == Effect::Require(WmOp::Close { window: s.windows[window_idx as int].id, time }),
{
    reveal(StateView::on_char);
    reveal(StateView::on_d);
    law_only_dd_closes(s, key, time, mods, k);
    let d = s.disarmed(key, mods);
    assert(d.rows() == s.rows());
    if let Key::Char(c) = key {
        law_bound_keys_are_no_hints(d, c, mods);
    }
}

/// Which keys close the popup: Escape, `q`, Super with `d`, Enter, a digit with
/// a desktop, and the hint of a row. No other key does.
pub proof fn law_what_closes_the_popup(s: StateView, key: Key, time: u32, mods: Mods)
    requires
        s.wf(),
        s.rows().len() <= usize::MAX,
        !s.show_help,
    ensures
        s.on_key(key, time, mods).outcome == Outcome::Close <==> {
            ||| key == Key::Escape
            ||| key == Key::Return
            ||| key == Key::Char('q')
            ||| key == Key::Char('Q')
            ||| (key == Key::Char('d') || key == Key::Char('D')) && mods.super_
            ||| key matches Key::Char(c) && '1' <= c <= '9' && (c as int - '0' as int)
                <= s.desktops.len()
            ||| key == Key::Char('0') && s.desktops.len() >= 10
            ||| key matches Key::Char(c) && mods == no_mods() && exists|i: int|
                0 <= i < s.rows().len() && ((#[trigger] s.rows()[i]) matches Row::App {
                    hint: Some(h),
                    ..
                } && h == ascii_lower(c))
        },
{
    reveal(StateView::on_char);
    reveal(StateView::on_step);
    reveal(StateView::on_d);
    let d = s.disarmed(key, mods);
    assert(d.rows() == s.rows());
    assert(d.layout() == s.layout());
    if let Key::Char(c) = key {
        lemma_hint_from_sound(s.layout(), ascii_lower(c), 0);
        if is_bound(ascii_lower(c)) {
            law_bound_keys_are_no_hints(d, c, mods);
        }
        if let Some(i) = d.hinted(c, mods) {
            assert(s.rows()[i as int] is App);
        } else if mods == no_mods() {
            assert forall|i: int| 0 <= i < s.rows().len() implies !((
            #[trigger] s.rows()[i]) matches Row::App { hint: Some(h), .. } && h == ascii_lower(
                c,
            )) by {
                assert(!s.layout().has_hint(ascii_lower(c), i));
            }
        }
    }
}

/// While the key bindings are shown, F1 and Escape take them away, `q` and
/// Super with `d` close the popup, and every other key does nothing.
pub proof fn law_keys_while_help_is_shown(s: StateView, key: Key, time: u32, mods: Mods)
    requires
        s.show_help,
    ensures
        ({
            let step = s.on_key(key, time, mods);
            let closes = key == Key::Char('q') || key == Key::Char('Q') || ((key == Key::Char('d')
                || key == Key::Char('D')) && mods.super_);
            let hides = key == Key::F1 || key == Key::Escape;
            &&& step.fx.len() == 0
            &&& step.outcome == if closes {
                Outcome::Close
            } else if hides {
                Outcome::Repaint
            } else {
                Outcome::Nothing
            }
            &&& step.state() == (StateView { show_help: !hides, ..s })
        }),
{
}

/// F1 shows the key bindings, and `gg` and `G` go to the ends of the list, with
/// the row there scrolled into view. None of them asks for anything.
pub proof fn law_jumps_and_help(s: StateView, time: u32, mods: Mods)
    requires
        s.wf(),
        0 < s.rows().len() <= usize::MAX,
        !s.show_help,
    ensures
        ({
            let f1 = s.on_key(Key::F1, time, mods);
            let g = s.on_key(Key::Char('g'), time, mods);
            let last = s.on_key(Key::Char('G'), time, mods);
            &&& f1.fx.len() == 0 && g.fx.len() == 0 && last.fx.len() == 0
            &&& f1.outcome == Outcome::Repaint && g.outcome == Outcome::Repaint && last.outcome
                == Outcome::Repaint
            &&& f1.state() == (StateView { show_help: true, ..s.unarmed() })
            &&& !s.pending_gg ==> g.state() == (StateView { pending_gg: true, ..s.unarmed() })
            &&& s.pending_gg ==> g.state() == (StateView { cursor: 0, ..s.unarmed() }).visible(
                s.layout(),
            )
            &&& last.state() == (StateView {
                cursor: s.rows().len() - 1,
                ..s.unarmed()
            }).visible(s.layout())
        }),
{
    reveal(StateView::on_char);
    reveal(StateView::with_cursor);
    let a = s.disarmed(Key::Char('g'), mods);
    assert(a.rows() == s.rows());
    law_bound_keys_are_no_hints(a, 'g', mods);
    let b = StateView { pending_gg: false, ..a };
    assert(b == s.unarmed());
    assert(b.rows() == s.rows() && b.layout() == s.layout());
    let c = s.disarmed(Key::Char('G'), mods);
    assert(c == s.unarmed());
    law_bound_keys_are_no_hints(c, 'G', mods);
}

/// Where there are no rows, moving the cursor moves nothing, and Enter and a
/// second `d` ask for nothing.
pub proof fn law_keys_without_rows(s: StateView, key: Key, time: u32, mods: Mods)
    requires
        s.wf(),
        !s.show_help,
        s.rows().len() == 0,
        key == Key::Down || key == Key::Up || key == Key::Return || key == Key::Char('G') || ((key
            == Key::Char('d') || key == Key::Char('D')) && !mods.super_ && s.pending_dd),
    ensures
        s.on_key(key, time, mods).fx.len() == 0,
        s.on_key(key, time, mods).state() == s.unarmed(),
{
    reveal(StateView::on_char);
    reveal(StateView::on_d);
    reveal(StateView::with_cursor);
    let d = s.disarmed(key, mods);
    assert(d.rows() == s.rows());
    assert(d.layout() == s.layout());
    if let Key::Char(c) = key {
        lemma_hint_from_sound(s.layout(), ascii_lower(c), 0);
    }
}

} // verus!
