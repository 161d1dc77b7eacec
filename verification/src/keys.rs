//! What a key press does.

use crate::keymap::Key;
use crate::state::{State, StateView};
use crate::text::{ascii_lower, to_ascii_lower};
#[allow(unused_imports)]
use crate::wm::{all_done, Commit, Effect, Report, WmOp};
use vstd::prelude::*;

verus! {

/// The modifier keys that were down.
#[derive(Debug, Clone, Copy, PartialEq, Eq, Structural)]
pub struct Mods {
    pub shift: bool,
    pub ctrl: bool,
    pub super_: bool,
}

/// What becomes of the popup after an event.
#[derive(Debug, Clone, Copy, PartialEq, Eq, Structural)]
pub enum Outcome {
    Nothing,
    Repaint,
    Close,
}

/// What an event leads to, beside the work to do: what becomes of the popup,
/// and the change to make once the work is done.
#[derive(Debug, Clone, Copy, PartialEq, Eq, Structural)]
pub struct Reply {
    pub outcome: Outcome,
    pub commit: Commit,
}

fn plain(outcome: Outcome) -> (r: Reply)
    ensures
        r == (Reply { outcome, commit: Commit::Nothing }),
{
    Reply { outcome, commit: Commit::Nothing }
}

/// What an event leads to: the state while the work is being done, the work,
/// the change to make once it is done, and what becomes of the popup.
#[verifier::ext_equal]
pub struct Step {
    pub held: StateView,
    pub fx: Seq<Effect>,
    pub commit: Commit,
    pub outcome: Outcome,
}

impl Step {
    /// The state after the work went as reported.
    pub open spec fn finished(self, report: Report) -> StateView {
        self.held.committed(self.commit, report)
    }

    /// The state after all requests succeeded.
    pub open spec fn state(self) -> StateView {
        self.finished(all_done())
    }

    /// What the handler of the event returns.
    pub open spec fn reply(self) -> Reply {
        Reply { outcome: self.outcome, commit: self.commit }
    }
}

/// A step without any work.
pub open spec fn quiet(held: StateView, outcome: Outcome) -> Step {
    Step { held, fx: Seq::empty(), commit: Commit::Nothing, outcome }
}

/// `d`, in either case, without Super.
pub open spec fn plain_d(key: Key, mods: Mods) -> bool {
    key matches Key::Char(c) && ascii_lower(c) == 'd' && !mods.super_
}

/// Super and `d`, which toggles the popup.
pub open spec fn super_d(key: Key, mods: Mods) -> bool {
    key matches Key::Char(c) && ascii_lower(c) == 'd' && mods.super_
}

/// `q`, in either case.
pub open spec fn quit_key(key: Key) -> bool {
    key matches Key::Char(c) && ascii_lower(c) == 'q'
}

/// The desktop position that a digit stands for: 1 to 9 for the first nine, 0
/// for the tenth.
pub open spec fn digit_slot(c: char) -> Option<int> {
    if '1' <= c <= '9' {
        Some(c as int - '1' as int)
    } else if c == '0' {
        Some(9)
    } else {
        None
    }
}

impl StateView {
    /// A key press while the key bindings are shown: they only go away, or the
    /// whole popup does.
    pub open spec fn on_help_key(self, key: Key, mods: Mods) -> Step {
        if super_d(key, mods) || quit_key(key) {
            quiet(self, Outcome::Close)
        } else if key == Key::F1 || key == Key::Escape {
            quiet(StateView { show_help: false, ..self }, Outcome::Repaint)
        } else {
            quiet(self, Outcome::Nothing)
        }
    }

    /// The state with a half-typed `dd` or `gg` dropped, unless `key` goes on
    /// with it.
    pub open spec fn disarmed(self, key: Key, mods: Mods) -> StateView {
        StateView {
            pending_dd: self.pending_dd && plain_d(key, mods),
            pending_gg: self.pending_gg && key == Key::Char('g'),
            ..self
        }
    }

    /// What a key without a meaning leads to: a repaint if it dropped a
    /// half-typed `dd` or `gg`.
    pub open spec fn idle(self, key: Key, mods: Mods) -> Outcome {
        if (self.pending_dd && !plain_d(key, mods)) || (self.pending_gg && key != Key::Char('g')) {
            Outcome::Repaint
        } else {
            Outcome::Nothing
        }
    }

    /// The row that a key jumps to as a hint. Hints are pressed without
    /// modifiers; caps lock makes no difference.
    pub open spec fn hinted(self, c: char, mods: Mods) -> Option<usize> {
        if !mods.shift && !mods.ctrl && !mods.super_ {
            self.layout().hint_row(ascii_lower(c))
        } else {
            None
        }
    }

    /// Choosing the row at the cursor, which closes the popup.
    pub open spec fn on_choose(self, time: u32) -> Step {
        Step {
            held: self,
            fx: self.choosing(time),
            commit: self.choice(),
            outcome: Outcome::Close,
        }
    }

    /// The first `g` arms the chord, the second jumps to the top.
    pub open spec fn on_g(self) -> Step {
        if self.pending_gg {
            quiet(StateView { pending_gg: false, ..self }.with_cursor(0), Outcome::Repaint)
        } else {
            quiet(StateView { pending_gg: true, ..self }, Outcome::Repaint)
        }
    }

    /// The first `d` arms the chord, the second closes the app at the cursor.
    #[verifier::opaque]
    pub open spec fn on_d(self, time: u32) -> Step {
        let done = StateView { pending_dd: false, ..self };
        if !self.pending_dd {
            quiet(StateView { pending_dd: true, ..self }, Outcome::Repaint)
        } else {
            match self.cursor_window() {
                Some(wi) => Step {
                    held: done,
                    fx: seq![
                        Effect::Require(WmOp::Close { window: self.windows[wi as int].id, time }),
                    ],
                    commit: Commit::Close { window_idx: wi },
                    outcome: Outcome::Repaint,
                },
                None => quiet(done, Outcome::Repaint),
            }
        }
    }

    /// `j` and `k`: by themselves they move the cursor; with Shift they move
    /// the app at the cursor, and with Ctrl as well the user goes along.
    #[verifier::opaque]
    pub open spec fn on_step(self, delta: int, time: u32, mods: Mods, idle: Outcome) -> Step {
        if mods.shift {
            match self.cursor_window() {
                Some(wi) => Step {
                    held: self,
                    fx: self.moving_app(wi as int, delta, mods.ctrl, time),
                    commit: self.move_commit(wi, delta, mods.ctrl),
                    outcome: Outcome::Repaint,
                },
                None => quiet(self, idle),
            }
        } else {
            quiet(self.with_cursor(self.cursor + delta), Outcome::Repaint)
        }
    }

    /// A digit shows the desktop at that position and closes the popup; one
    /// without a desktop is ignored.
    pub open spec fn on_digit(self, slot: int, time: u32, idle: Outcome) -> Step {
        if slot < self.desktops.len() {
            Step {
                held: self,
                fx: seq![
                    Effect::Require(
                        WmOp::SwitchDesktop { desktop: self.desktops[slot].index, time },
                    ),
                ],
                commit: Commit::Nothing,
                outcome: Outcome::Close,
            }
        } else {
            quiet(self, idle)
        }
    }

    /// A printable key, after `disarmed`.
    #[verifier::opaque]
    pub open spec fn on_char(self, c: char, time: u32, mods: Mods, idle: Outcome) -> Step {
        let lc = ascii_lower(c);
        match self.hinted(c, mods) {
            Some(row) => StateView { cursor: row as int, ..self }.on_choose(time),
            None => if c == 'g' {
                self.on_g()
            } else if c == 'G' {
                quiet(self.with_cursor(usize::MAX as int), Outcome::Repaint)
            } else if lc == 'd' {
                if mods.super_ {
                    quiet(self, Outcome::Close)
                } else {
                    self.on_d(time)
                }
            } else if lc == 'q' {
                quiet(self, Outcome::Close)
            } else if digit_slot(c) is Some {
                self.on_digit(digit_slot(c)->0, time, idle)
            } else if lc == 'j' {
                self.on_step(1, time, mods, idle)
            } else if lc == 'k' {
                self.on_step(-1, time, mods, idle)
            } else {
                quiet(self, idle)
            },
        }
    }

    /// What a key press does.
    pub open spec fn on_key(self, key: Key, time: u32, mods: Mods) -> Step {
        if self.show_help {
            self.on_help_key(key, mods)
        } else {
            let s = self.disarmed(key, mods);
            let idle = self.idle(key, mods);
            match key {
                Key::F1 => quiet(
                    StateView { show_help: true, pending_dd: false, pending_gg: false, ..self },
                    Outcome::Repaint,
                ),
                Key::Escape => quiet(self, Outcome::Close),
                Key::Char(c) => s.on_char(c, time, mods, idle),
                Key::Down => quiet(s.with_cursor(s.cursor + 1), Outcome::Repaint),
                Key::Up => quiet(s.with_cursor(s.cursor - 1), Outcome::Repaint),
                Key::Return => s.on_choose(time),
                Key::Other => quiet(s, idle),
            }
        }
    }
}

fn is_letter_d(key: Key) -> (r: bool)
    ensures
        r == (key matches Key::Char(c) && ascii_lower(c) == 'd'),
{
    match key {
        Key::Char(c) => to_ascii_lower(c) == 'd',
        _ => false,
    }
}

fn slot_of(c: char) -> (r: Option<usize>)
    ensures
        match (r, digit_slot(c)) {
            (Some(a), Some(b)) => a == b,
            (None, None) => true,
            _ => false,
        },
{
    if '1' <= c && c <= '9' {
        Some((c as u8 - 49) as usize)
    } else if c == '0' {
        Some(9)
    } else {
        None
    }
}

/// Handles a key press: changes the state, appends the work to do to `fx`, and
/// says what becomes of the popup and what change is to be made once the work
/// is done.
pub fn handle_keypress(
    state: &mut State,
    key: Key,
    time: u32,
    mods: Mods,
    fx: &mut Vec<Effect>,
) -> (r: Reply)
    requires
        old(state)@.wf(),
    ensures
        final(state)@ == old(state)@.on_key(key, time, mods).held,
        final(state)@.wf(),
        final(state)@.has_window_of(r.commit),
        final(fx)@ == old(fx)@ + old(state)@.on_key(key, time, mods).fx,
        r == old(state)@.on_key(key, time, mods).reply(),
{
    let ghost start = state@;
    let ghost fx0 = fx@;
    assert(fx@ =~= fx0 + Seq::<Effect>::empty());
    let d = is_letter_d(key);
    if state.show_help {
        let quit = match key {
            Key::Char(c) => c == 'q' || c == 'Q',
            _ => false,
        };
        if (d && mods.super_) || quit {
            return plain(Outcome::Close);
        }
        return match key {
            Key::F1 | Key::Escape => {
                state.show_help = false;
                plain(Outcome::Repaint)
            },
            _ => plain(Outcome::Nothing),
        };
    }
    if let Key::F1 = key {
        state.show_help = true;
        state.pending_dd = false;
        state.pending_gg = false;
        return plain(Outcome::Repaint);
    }
    if let Key::Escape = key {
        return plain(Outcome::Close);
    }
    let g = match key {
        Key::Char(c) => c == 'g',
        _ => false,
    };
    let mut idle = Outcome::Nothing;
    if state.pending_dd && !(d && !mods.super_) {
        state.pending_dd = false;
        idle = Outcome::Repaint;
    }
    if state.pending_gg && !g {
        state.pending_gg = false;
        idle = Outcome::Repaint;
    }
    assert(state@ =~= start.disarmed(key, mods));
    assert(idle == start.idle(key, mods));
    match key {
        Key::Char(c) => handle_char(state, c, time, mods, idle, fx),
        Key::Down => {
            state.move_cursor(1);
            plain(Outcome::Repaint)
        },
        Key::Up => {
            state.move_cursor(-1);
            plain(Outcome::Repaint)
        },
        Key::Return => {
            let commit = state.activate_cursor(time, fx);
            Reply { outcome: Outcome::Close, commit }
        },
        _ => plain(idle),
    }
}

fn handle_char(
    state: &mut State,
    c: char,
    time: u32,
    mods: Mods,
    idle: Outcome,
    fx: &mut Vec<Effect>,
) -> (r: Reply)
    requires
        old(state)@.wf(),
    ensures
        final(state)@ == old(state)@.on_char(c, time, mods, idle).held,
        final(state)@.wf(),
        final(state)@.has_window_of(r.commit),
        final(fx)@ == old(fx)@ + old(state)@.on_char(c, time, mods, idle).fx,
        r == old(state)@.on_char(c, time, mods, idle).reply(),
{
    proof {
        reveal(StateView::on_char);
    }
    let ghost start = state@;
    let ghost fx0 = fx@;
    assert(fx@ =~= fx0 + Seq::<Effect>::empty());
    let lc = to_ascii_lower(c);
    if !mods.shift && !mods.ctrl && !mods.super_ {
        let layout = state.layout();
        if let Some(row) = layout.row_idx_for_hint(lc) {
            state.cursor = row;
            let commit = state.activate_cursor(time, fx);
            return Reply { outcome: Outcome::Close, commit };
        }
    }
    assert(start.hinted(c, mods) is None);
    if c == 'g' {
        if state.pending_gg {
            state.pending_gg = false;
            state.jump_to(0);
        } else {
            state.pending_gg = true;
        }
        return plain(Outcome::Repaint);
    }
    if c == 'G' {
        state.jump_to(usize::MAX);
        return plain(Outcome::Repaint);
    }
    if lc == 'd' {
        if mods.super_ {
            return plain(Outcome::Close);
        }
        return handle_d(state, time, fx);
    }
    handle_rest(state, c, time, mods, idle, fx)
}

/// Handles a printable key that is no hint and no part of a chord.
fn handle_rest(
    state: &mut State,
    c: char,
    time: u32,
    mods: Mods,
    idle: Outcome,
    fx: &mut Vec<Effect>,
) -> (r: Reply)
    requires
        old(state)@.wf(),
        old(state)@.hinted(c, mods) is None,
        c != 'g' && c != 'G' && ascii_lower(c) != 'd',
    ensures
        final(state)@ == old(state)@.on_char(c, time, mods, idle).held,
        final(state)@.wf(),
        final(state)@.has_window_of(r.commit),
        final(fx)@ == old(fx)@ + old(state)@.on_char(c, time, mods, idle).fx,
        r == old(state)@.on_char(c, time, mods, idle).reply(),
{
    proof {
        reveal(StateView::on_char);
    }
    let ghost start = state@;
    let ghost fx0 = fx@;
    assert(fx@ =~= fx0 + Seq::<Effect>::empty());
    let lc = to_ascii_lower(c);
    if lc == 'q' {
        return plain(Outcome::Close);
    }
    if let Some(slot) = slot_of(c) {
        if slot < state.desktops.len() {
            let desktop = state.desktops[slot].index;
            fx.push(Effect::Require(WmOp::SwitchDesktop { desktop, time }));
            assert(fx@ =~= fx0 + start.on_digit(slot as int, time, idle).fx);
            return plain(Outcome::Close);
        }
        return plain(idle);
    }
    if lc == 'j' {
        return handle_step(state, 1, time, mods, idle, fx);
    }
    if lc == 'k' {
        return handle_step(state, -1, time, mods, idle, fx);
    }
    plain(idle)
}

fn handle_d(state: &mut State, time: u32, fx: &mut Vec<Effect>) -> (r: Reply)
    requires
        old(state)@.wf(),
    ensures
        final(state)@ == old(state)@.on_d(time).held,
        final(state)@.wf(),
        final(state)@.has_window_of(r.commit),
        final(fx)@ == old(fx)@ + old(state)@.on_d(time).fx,
        r == old(state)@.on_d(time).reply(),
{
    proof {
        reveal(StateView::on_d);
    }
    let ghost start = state@;
    let ghost fx0 = fx@;
    assert(fx@ =~= fx0 + Seq::<Effect>::empty());
    if !state.pending_dd {
        state.pending_dd = true;
        return plain(Outcome::Repaint);
    }
    let at_cursor = state.cursor_window_idx();
    state.pending_dd = false;
    match at_cursor {
        Some(wi) => {
            let commit = state.close_app(wi, time, fx);
            assert(fx@ =~= fx0 + start.on_d(time).fx);
            Reply { outcome: Outcome::Repaint, commit }
        },
        None => plain(Outcome::Repaint),
    }
}

fn handle_step(
    state: &mut State,
    delta: i32,
    time: u32,
    mods: Mods,
    idle: Outcome,
    fx: &mut Vec<Effect>,
) -> (r: Reply)
    requires
        old(state)@.wf(),
    ensures
        final(state)@ == old(state)@.on_step(delta as int, time, mods, idle).held,
        final(state)@.wf(),
        final(state)@.has_window_of(r.commit),
        final(fx)@ == old(fx)@ + old(state)@.on_step(delta as int, time, mods, idle).fx,
        r == old(state)@.on_step(delta as int, time, mods, idle).reply(),
{
    proof {
        reveal(StateView::on_step);
    }
    assert(fx@ =~= fx@ + Seq::<Effect>::empty());
    if mods.shift {
        if let Some(wi) = state.cursor_window_idx() {
            let commit = state.move_app(wi, delta, mods.ctrl, time, fx);
            return Reply { outcome: Outcome::Repaint, commit };
        }
        return plain(idle);
    }
    state.move_cursor(delta);
    plain(Outcome::Repaint)
}

} // verus!
