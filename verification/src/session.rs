//! The open popup: its size, and what each event does.

use crate::ewmh::WindowInfo;
use crate::keymap::Keymap;
use crate::keys::{handle_keypress, quiet, Mods, Outcome, Reply, Step};
#[allow(unused_imports)]
use crate::layout::{LayoutView, Row};
use crate::state::{drag_label, label_of, Drag, DragView, State, StateView};
use crate::wm::{Commit, Effect, Report, RequestFailed, WmOp};
use crate::x11::{control_mask, normal_mode, shift_mask, super_mask};
use vstd::prelude::*;

verus! {

/// Lengths in a pixel.
pub const PX: i128 = 1000;

/// What the server tells the open popup. Coordinates are in pixels from the
/// popup's top left corner.
#[derive(Debug, Clone, Copy, PartialEq, Eq, Structural)]
pub enum PopupEvent {
    Expose,
    KeyPress { keycode: u8, state: u16, time: u32 },
    KeyRelease { keycode: u8 },
    ButtonPress { button: u8, x: i16, y: i16, state: u16, time: u32 },
    ButtonRelease { button: u8, y: i16, time: u32 },
    Motion { x: i16, y: i16 },
    FocusOut { mode: u8 },
    Other,
}

/// The nearest number of pixels that a window can have.
pub open spec fn saturated_u16(v: int) -> u16 {
    if v < 0 {
        0
    } else if v > u16::MAX {
        u16::MAX
    } else {
        v as u16
    }
}

impl StateView {
    /// The height of the popup in pixels: as high as its content, at least
    /// one header with the frame, and at most the configured height.
    pub open spec fn popup_height(self) -> u16 {
        let content = saturated_u16((self.layout().content_h + PX - 1) / PX as int);
        let least = saturated_u16(
            (self.cfg.header_height + self.cfg.border_thickness * 2) / PX as int,
        );
        let wanted = if content > least {
            content
        } else {
            least
        };
        if wanted < self.cfg.max_height {
            wanted
        } else {
            self.cfg.max_height
        }
    }

    /// The state when the popup opens.
    pub open spec fn opened(self) -> StateView {
        StateView {
            cursor: self.first_cursor(),
            viewport_h: self.popup_height() * PX,
            ..self
        }.visible(self.layout())
    }
}

fn whole_pixels(length: i128) -> (r: u16)
    ensures
        r == saturated_u16(length as int / PX as int),
{
    if length <= 0 {
        return 0;
    }
    let px: u128 = length as u128 / 1000;
    if px > 65535 {
        65535
    } else {
        px as u16
    }
}

impl State {
    /// Gets the state ready for the popup to open, and says how high the popup
    /// is, in pixels.
    pub fn open(&mut self) -> (height: u16)
        requires
            old(self)@.wf(),
        ensures
            height == old(self)@.popup_height(),
            final(self)@ == old(self)@.opened(),
            final(self)@.wf(),
    {
        let layout = self.layout();
        let content = whole_pixels(layout.content_h + 999);
        let least = whole_pixels(
            self.cfg.header_height as i128 + self.cfg.border_thickness as i128 * 2,
        );
        let wanted = if content > least {
            content
        } else {
            least
        };
        let height = if wanted < self.cfg.max_height {
            wanted
        } else {
            self.cfg.max_height
        };
        self.cursor = self.initial_cursor();
        self.viewport_h = height as i128 * 1000;
        self.ensure_cursor_visible(&layout);
        height
    }
}

/// The key codes that are set in the first `n` bits of a bitmap, in order.
pub open spec fn set_bits(keys: Seq<u8>, n: int) -> Seq<u8>
    decreases n,
{
    if n <= 0 {
        Seq::empty()
    } else {
        let code = n - 1;
        let below = set_bits(keys, n - 1);
        if (keys[code / 8] >> (code % 8) as u8) & 1 == 1 {
            below.push(code as u8)
        } else {
            below
        }
    }
}

/// The keys that are down, given the server's bitmap of them.
pub fn held_keycodes(keys: &[u8]) -> (r: Vec<u8>)
    requires
        keys@.len() <= 32,
    ensures
        r@ == set_bits(keys@, keys@.len() as int * 8),
{
    let mut held: Vec<u8> = Vec::new();
    let n: usize = keys.len() * 8;
    let mut code: usize = 0;
    while code < n
        invariant
            code <= n,
            n == keys@.len() * 8,
            keys@.len() <= 32,
            held@ == set_bits(keys@, code as int),
        decreases n - code,
    {
        if (keys[code / 8] >> (code % 8) as u8) & 1 == 1 {
            held.push(code as u8);
        }
        code += 1;
    }
    held
}

/// `codes` without any `keycode`.
pub open spec fn without(codes: Seq<u8>, keycode: u8) -> Seq<u8>
    decreases codes.len(),
{
    if codes.len() == 0 {
        codes
    } else if codes.last() == keycode {
        without(codes.drop_last(), keycode)
    } else {
        without(codes.drop_last(), keycode).push(codes.last())
    }
}

fn remove_code(codes: &Vec<u8>, keycode: u8) -> (r: Vec<u8>)
    ensures
        r@ == without(codes@, keycode),
{
    let mut out: Vec<u8> = Vec::new();
    let mut i: usize = 0;
    assert(codes@.take(0) =~= Seq::<u8>::empty());
    while i < codes.len()
        invariant
            i <= codes@.len(),
            out@ == without(codes@.take(i as int), keycode),
        decreases codes@.len() - i,
    {
        assert(codes@.take(i + 1).drop_last() =~= codes@.take(i as int));
        if codes[i] != keycode {
            out.push(codes[i]);
        }
        i += 1;
    }
    assert(codes@.take(i as int) =~= codes@);
    out
}

/// The first place from `i` on where `codes` holds `keycode`.
pub open spec fn code_from(codes: Seq<u8>, keycode: u8, i: int) -> Option<int>
    decreases codes.len() - i,
{
    if i < 0 || i >= codes.len() {
        None
    } else if codes[i] == keycode {
        Some(i)
    } else {
        code_from(codes, keycode, i + 1)
    }
}

/// `codes` without the entry at `i`; the last entry takes its place.
pub open spec fn swap_removed(codes: Seq<u8>, i: int) -> Seq<u8> {
    codes.update(i, codes.last()).drop_last()
}

fn find_code(codes: &Vec<u8>, keycode: u8) -> (r: Option<usize>)
    ensures
        match (r, code_from(codes@, keycode, 0)) {
            (Some(a), Some(b)) => a == b && a < codes@.len(),
            (None, None) => true,
            _ => false,
        },
{
    let mut i: usize = 0;
    while i < codes.len()
        invariant
            i <= codes@.len(),
            code_from(codes@, keycode, i as int) == code_from(codes@, keycode, 0),
        decreases codes@.len() - i,
    {
        if codes[i] == keycode {
            return Some(i);
        }
        i += 1;
    }
    None
}

/// The modifiers in an event's state.
pub open spec fn mods_of(state: u16) -> Mods {
    Mods { shift: state & 1 != 0, ctrl: state & 4 != 0, super_: state & 64 != 0 }
}

fn read_mods(state: u16) -> (r: Mods)
    ensures
        r == mods_of(state),
{
    Mods {
        shift: state & shift_mask() != 0,
        ctrl: state & control_mask() != 0,
        super_: state & super_mask() != 0,
    }
}

/// Whether a point is outside a popup of the given size.
pub open spec fn outside(x: i16, y: i16, w: u16, h: u16) -> bool {
    x < 0 || y < 0 || x >= w || y >= h
}

/// The first window from `i` on with the given id.
pub open spec fn window_from(windows: Seq<WindowInfo>, id: u32, i: int) -> Option<int>
    decreases windows.len() - i,
{
    if i < 0 || i >= windows.len() {
        None
    } else if windows[i].id == id {
        Some(i)
    } else {
        window_from(windows, id, i + 1)
    }
}

fn find_window(windows: &Vec<WindowInfo>, id: u32) -> (r: Option<usize>)
    ensures
        match (r, window_from(windows@, id, 0)) {
            (Some(a), Some(b)) => a == b && a < windows@.len(),
            (None, None) => true,
            _ => false,
        },
{
    let mut i: usize = 0;
    while i < windows.len()
        invariant
            i <= windows@.len(),
            window_from(windows@, id, i as int) == window_from(windows@, id, 0),
        decreases windows@.len() - i,
    {
        if windows[i].id == id {
            return Some(i);
        }
        i += 1;
    }
    None
}

impl StateView {
    /// The row at height `y` of the popup, in pixels.
    pub open spec fn row_at(self, y: i16) -> Option<usize> {
        self.layout().row_at(y * PX, self.scroll)
    }

    /// The window shown at height `y` of the popup, in pixels.
    pub open spec fn window_at(self, y: i16) -> Option<int> {
        match self.row_at(y) {
            Some(i) => match self.rows()[i as int] {
                Row::App { window_idx, .. } => Some(window_idx as int),
                Row::Header { .. } => None,
            },
            None => None,
        }
    }

    /// The desktop to which something let go of at height `y` goes: that of
    /// the header there, or that of the app there.
    pub open spec fn desktop_at(self, y: i16) -> Option<u32> {
        match self.row_at(y) {
            Some(i) => match self.rows()[i as int] {
                Row::App { window_idx, .. } => Some(self.windows[window_idx as int].desktop),
                Row::Header { desktop_idx, .. } => Some(self.desktops[desktop_idx as int].index),
            },
            None => None,
        }
    }

    /// The left button goes down on row `i`: an app row becomes selected and
    /// can be dragged, a header shows its desktop and closes the popup.
    pub open spec fn on_left_press(self, i: int, x: i16, y: i16, state: u16, time: u32) -> Step {
        match self.rows()[i] {
            Row::App { window_idx, .. } => quiet(
                StateView {
                    cursor: i,
                    drag: Some(
                        DragView {
                            window_id: self.windows[window_idx as int].id,
                            label: label_of(self.windows[window_idx as int]),
                            cursor_x: x as i32,
                            cursor_y: y as i32,
                            target_desktop: None,
                            press_x: x as i32,
                            press_y: y as i32,
                            started: false,
                            follow: mods_of(state).shift,
                        },
                    ),
                    ..self
                },
                Outcome::Repaint,
            ),
            Row::Header { desktop_idx, .. } => Step {
                held: self,
                fx: seq![
                    Effect::Require(
                        WmOp::SwitchDesktop {
                            desktop: self.desktops[desktop_idx as int].index,
                            time,
                        },
                    ),
                ],
                commit: Commit::Nothing,
                outcome: Outcome::Close,
            },
        }
    }

    /// A button goes down. Outside the popup that closes it; while the key
    /// bindings are shown it does nothing else.
    pub open spec fn on_press(
        self,
        button: u8,
        x: i16,
        y: i16,
        state: u16,
        time: u32,
        w: u16,
        h: u16,
    ) -> Step {
        if outside(x, y, w, h) {
            quiet(self, Outcome::Close)
        } else if self.show_help || self.row_at(y) is None {
            quiet(self, Outcome::Nothing)
        } else if button == 2 {
            match self.window_at(y) {
                Some(wi) => quiet(
                    StateView { middle_press: Some(self.windows[wi].id), ..self },
                    Outcome::Nothing,
                ),
                None => quiet(self, Outcome::Nothing),
            }
        } else if button == 1 {
            self.on_left_press(self.row_at(y)->0 as int, x, y, state, time)
        } else {
            quiet(self, Outcome::Nothing)
        }
    }

    /// The pointer moves: a drag goes along, and starts once it is far enough
    /// from the press.
    pub open spec fn on_motion(self, x: i16, y: i16) -> Step {
        match self.drag {
            None => quiet(self, Outcome::Nothing),
            Some(d) => {
                let moved = DragView { cursor_x: x as i32, cursor_y: y as i32, ..d };
                quiet(
                    StateView {
                        drag: Some(
                            DragView {
                                started: d.started || moved.far(),
                                target_desktop: self.desktop_at(y),
                                ..moved
                            },
                        ),
                        ..self
                    },
                    Outcome::Repaint,
                )
            },
        }
    }

    /// The middle button comes up: the app there is closed if the button went
    /// down on it.
    pub open spec fn on_middle_release(self, y: i16, time: u32) -> Step {
        let s = StateView { middle_press: None, ..self };
        match self.window_at(y) {
            Some(wi) => if self.middle_press == Some(self.windows[wi].id) {
                Step {
                    held: s,
                    fx: seq![Effect::Require(WmOp::Close { window: self.windows[wi].id, time })],
                    commit: Commit::Close { window_idx: wi as usize },
                    outcome: Outcome::Repaint,
                }
            } else {
                quiet(s, Outcome::Nothing)
            },
            None => quiet(s, Outcome::Nothing),
        }
    }

    /// The left button comes up. A drag that started ends as a drop, which
    /// closes the popup, or as nothing if there is no desktop there; a drag
    /// that did not start was a click on the selected row.
    pub open spec fn on_left_release(self, time: u32) -> Step {
        match self.drag {
            None => quiet(self, Outcome::Nothing),
            Some(d) => {
                let s = StateView { drag: None, ..self };
                if !d.started {
                    s.on_choose(time)
                } else {
                    match (d.target_desktop, window_from(self.windows, d.window_id, 0)) {
                        (Some(target), Some(wi)) => Step {
                            held: s,
                            fx: s.dropping_app(wi, target, d.follow, time),
                            commit: s.drop_commit(wi as usize, target, d.follow),
                            outcome: Outcome::Close,
                        },
                        _ => quiet(s, Outcome::Repaint),
                    }
                }
            },
        }
    }

    /// A button comes up.
    pub open spec fn on_release(self, button: u8, y: i16, time: u32) -> Step {
        if button == 2 {
            self.on_middle_release(y, time)
        } else if button == 1 {
            self.on_left_release(time)
        } else {
            quiet(self, Outcome::Nothing)
        }
    }
}

impl State {
    /// Handles a button press.
    pub fn button_press(
        &mut self,
        button: u8,
        x: i16,
        y: i16,
        state: u16,
        time: u32,
        w: u16,
        h: u16,
        fx: &mut Vec<Effect>,
    ) -> (r: Outcome)
        requires
            old(self)@.wf(),
        ensures
            final(self)@ == old(self)@.on_press(button, x, y, state, time, w, h).held,
            final(self)@.wf(),
            final(fx)@ == old(fx)@ + old(self)@.on_press(button, x, y, state, time, w, h).fx,
            r == old(self)@.on_press(button, x, y, state, time, w, h).outcome,
    {
        let ghost start = self@;
        let ghost fx0 = fx@;
        assert(fx@ =~= fx0 + Seq::<Effect>::empty());
        if x < 0 || y < 0 || x as i32 >= w as i32 || y as i32 >= h as i32 {
            return Outcome::Close;
        }
        if self.show_help {
            return Outcome::Nothing;
        }
        let layout = self.layout();
        let idx = match layout.row_at_y(y as i128 * 1000, self.scroll) {
            Some(idx) => idx,
            None => return Outcome::Nothing,
        };
        proof {
            lemma_row_from_in_range(layout@, y * PX + self.scroll, 0);
        }
        assert(layout.rows@ == start.rows());
        let row = layout.rows[idx];
        if button == 2 {
            if let Row::App { window_idx, .. } = row {
                self.middle_press = Some(self.windows[window_idx].id);
            }
            return Outcome::Nothing;
        }
        if button != 1 {
            return Outcome::Nothing;
        }
        match row {
            Row::App { window_idx, .. } => {
                let label = drag_label(&self.windows[window_idx]);
                let window_id = self.windows[window_idx].id;
                self.cursor = idx;
                self.drag = Some(
                    Drag {
                        window_id,
                        label,
                        cursor_x: x as i32,
                        cursor_y: y as i32,
                        target_desktop: None,
                        press_x: x as i32,
                        press_y: y as i32,
                        started: false,
                        follow: read_mods(state).shift,
                    },
                );
                Outcome::Repaint
            },
            Row::Header { desktop_idx, .. } => {
                let desktop = self.desktops[desktop_idx].index;
                fx.push(Effect::Require(WmOp::SwitchDesktop { desktop, time }));
                assert(fx@ =~= fx0 + start.on_press(button, x, y, state, time, w, h).fx);
                Outcome::Close
            },
        }
    }

    fn desktop_under(&self, y: i16) -> (r: Option<u32>)
        requires
            self@.wf(),
        ensures
            r == self@.desktop_at(y),
    {
        let layout = self.layout();
        match layout.row_at_y(y as i128 * 1000, self.scroll) {
            None => None,
            Some(i) => {
                proof {
                    lemma_row_from_in_range(layout@, y * PX + self.scroll, 0);
                }
                match layout.rows[i] {
                    Row::Header { desktop_idx, .. } => Some(self.desktops[desktop_idx].index),
                    Row::App { window_idx, .. } => Some(self.windows[window_idx].desktop),
                }
            },
        }
    }

    /// Handles a motion of the pointer.
    pub fn pointer_motion(&mut self, x: i16, y: i16) -> (r: Outcome)
        requires
            old(self)@.wf(),
        ensures
            final(self)@ == old(self)@.on_motion(x, y).held,
            final(self)@.wf(),
            r == old(self)@.on_motion(x, y).outcome,
    {
        let ghost start = self@;
        if self.drag.is_none() {
            return Outcome::Nothing;
        }
        let target = self.desktop_under(y);
        if let Some(mut d) = self.drag.take() {
            d.cursor_x = x as i32;
            d.cursor_y = y as i32;
            if !d.started && d.moved_enough() {
                d.started = true;
            }
            d.target_desktop = target;
            self.drag = Some(d);
        }
        Outcome::Repaint
    }

    fn window_under(&self, y: i16) -> (r: Option<usize>)
        requires
            self@.wf(),
        ensures
            match (r, self@.window_at(y)) {
                (Some(a), Some(b)) => a == b && a < self@.windows.len(),
                (None, None) => true,
                _ => false,
            },
    {
        let layout = self.layout();
        match layout.row_at_y(y as i128 * 1000, self.scroll) {
            None => None,
            Some(i) => {
                proof {
                    lemma_row_from_in_range(layout@, y * PX + self.scroll, 0);
                }
                match layout.rows[i] {
                    Row::Header { .. } => None,
                    Row::App { window_idx, .. } => Some(window_idx),
                }
            },
        }
    }

    /// Handles a button release.
    pub fn button_release(&mut self, button: u8, y: i16, time: u32, fx: &mut Vec<Effect>) -> (r:
        Reply)
        requires
            old(self)@.wf(),
        ensures
            final(self)@ == old(self)@.on_release(button, y, time).held,
            final(self)@.wf(),
            final(self)@.has_window_of(r.commit),
            final(fx)@ == old(fx)@ + old(self)@.on_release(button, y, time).fx,
            r == old(self)@.on_release(button, y, time).reply(),
    {
        let ghost start = self@;
        let ghost fx0 = fx@;
        assert(fx@ =~= fx0 + Seq::<Effect>::empty());
        if button == 2 {
            let under = self.window_under(y);
            let pressed = self.middle_press.take();
            if let Some(id) = pressed {
                if let Some(wi) = under {
                    if self.windows[wi].id == id {
                        let commit = self.close_app(wi, time, fx);
                        assert(fx@ =~= fx0 + start.on_release(button, y, time).fx);
                        return Reply { outcome: Outcome::Repaint, commit };
                    }
                }
            }
            return Reply { outcome: Outcome::Nothing, commit: Commit::Nothing };
        }
        if button != 1 {
            return Reply { outcome: Outcome::Nothing, commit: Commit::Nothing };
        }
        match self.drag.take() {
            None => Reply { outcome: Outcome::Nothing, commit: Commit::Nothing },
            Some(d) => {
                if !d.started {
                    let commit = self.activate_cursor(time, fx);
                    return Reply { outcome: Outcome::Close, commit };
                }
                if let Some(target) = d.target_desktop {
                    if let Some(wi) = find_window(&self.windows, d.window_id) {
                        let commit = self.drop_app(wi, target, d.follow, time, fx);
                        return Reply { outcome: Outcome::Close, commit };
                    }
                }
                Reply { outcome: Outcome::Repaint, commit: Commit::Nothing }
            },
        }
    }
}

pub(crate) proof fn lemma_row_from_in_range(l: LayoutView, target: int, i: int)
    requires
        0 <= i <= l.rows.len() <= usize::MAX,
    ensures
        l.row_from(target, i) matches Some(k) ==> i <= k < l.rows.len() && l.hits(
            target,
            k as int,
        ),
    decreases l.rows.len() - i,
{
    if i < l.rows.len() && !l.hits(target, i) {
        lemma_row_from_in_range(l, target, i + 1);
    }
}

/// An open popup.
#[derive(Debug)]
pub struct Session {
    pub state: State,
    pub keymap: Keymap,
    /// Keys that were down when the popup opened. One press of each is
    /// swallowed: it is the key that opened the popup, repeating.
    pub swallow: Vec<u8>,
    /// The size of the popup in pixels.
    pub width: u16,
    pub height: u16,
}

/// An open popup as values.
#[verifier::ext_equal]
pub struct SessionView {
    pub state: StateView,
    pub keymap: Keymap,
    pub swallow: Seq<u8>,
    pub width: u16,
    pub height: u16,
}

impl View for Session {
    type V = SessionView;

    open spec fn view(&self) -> SessionView {
        SessionView {
            state: self.state@,
            keymap: self.keymap,
            swallow: self.swallow@,
            width: self.width,
            height: self.height,
        }
    }
}

impl SessionView {
    /// The keys whose next press is swallowed, after an event.
    pub open spec fn swallow_after(self, event: PopupEvent) -> Seq<u8> {
        match event {
            PopupEvent::KeyRelease { keycode } => without(self.swallow, keycode),
            PopupEvent::KeyPress { keycode, .. } => match code_from(self.swallow, keycode, 0) {
                Some(i) => swap_removed(self.swallow, i),
                None => self.swallow,
            },
            _ => self.swallow,
        }
    }

    /// Whether an event has a meaning: a key press that is not swallowed needs
    /// a symbol in the keyboard mapping.
    pub open spec fn is_answerable(self, event: PopupEvent) -> bool {
        event matches PopupEvent::KeyPress { keycode, state, .. } ==> code_from(
            self.swallow,
            keycode,
            0,
        ) is Some || self.keymap.complete_at(keycode, state)
    }

    /// What an event does to the state, what work it gives, and what becomes
    /// of the popup.
    pub open spec fn on_event(self, event: PopupEvent) -> Step {
        match event {
            PopupEvent::Expose => quiet(self.state, Outcome::Repaint),
            PopupEvent::KeyRelease { .. } => quiet(self.state, Outcome::Nothing),
            PopupEvent::KeyPress { keycode, state, time } => match code_from(
                self.swallow,
                keycode,
                0,
            ) {
                Some(_) => quiet(self.state, Outcome::Nothing),
                None => self.state.on_key(
                    self.keymap.meaning(keycode, state),
                    time,
                    mods_of(state),
                ),
            },
            PopupEvent::ButtonPress { button, x, y, state, time } => self.state.on_press(
                button,
                x,
                y,
                state,
                time,
                self.width,
                self.height,
            ),
            PopupEvent::ButtonRelease { button, y, time } => self.state.on_release(
                button,
                y,
                time,
            ),
            PopupEvent::Motion { x, y } => self.state.on_motion(x, y),
            PopupEvent::FocusOut { mode } => quiet(
                self.state,
                if mode == 0 {
                    Outcome::Close
                } else {
                    Outcome::Nothing
                },
            ),
            PopupEvent::Other => quiet(self.state, Outcome::Nothing),
        }
    }
}

impl Session {
    /// A popup that has just opened.
    pub fn new(state: State, keymap: Keymap, held: Vec<u8>, width: u16, height: u16) -> (s: Self)
        ensures
            s@ == (SessionView { state: state@, keymap, swallow: held@, width, height }),
    {
        Session { state, keymap, swallow: held, width, height }
    }

    /// Whether a key press can be handled: it is swallowed, or the keyboard
    /// mapping holds its symbol. Other events always can.
    pub fn can_handle(&self, event: PopupEvent) -> (r: bool)
        ensures
            r == self@.is_answerable(event),
    {
        match event {
            PopupEvent::KeyPress { keycode, state, .. } => find_code(
                &self.swallow,
                keycode,
            ).is_some() || self.keymap.can_lookup(keycode, state),
            _ => true,
        }
    }

    /// Handles one event: changes the session, appends the work to do to `fx`,
    /// and says what becomes of the popup and what change `finish` is to make
    /// once the work is done.
    pub fn handle(&mut self, event: PopupEvent, fx: &mut Vec<Effect>) -> (r: Reply)
        requires
            old(self)@.state.wf(),
            old(self)@.is_answerable(event),
        ensures
            final(self)@ == (SessionView {
                state: old(self)@.on_event(event).held,
                swallow: old(self)@.swallow_after(event),
                ..old(self)@
            }),
            final(self)@.state.wf(),
            final(self)@.state.has_window_of(r.commit),
            final(fx)@ == old(fx)@ + old(self)@.on_event(event).fx,
            r == old(self)@.on_event(event).reply(),
    {
        let ghost fx0 = fx@;
        assert(fx@ =~= fx0 + Seq::<Effect>::empty());
        let outcome = match event {
            PopupEvent::Expose => Outcome::Repaint,
            PopupEvent::KeyRelease { keycode } => {
                self.swallow = remove_code(&self.swallow, keycode);
                Outcome::Nothing
            },
            PopupEvent::KeyPress { keycode, state, time } => {
                if let Some(pos) = find_code(&self.swallow, keycode) {
                    self.swallow.swap_remove(pos);
                    Outcome::Nothing
                } else {
                    let key = self.keymap.lookup(keycode, state);
                    return handle_keypress(&mut self.state, key, time, read_mods(state), fx);
                }
            },
            PopupEvent::ButtonPress { button, x, y, state, time } => self.state.button_press(
                button,
                x,
                y,
                state,
                time,
                self.width,
                self.height,
                fx,
            ),
            PopupEvent::ButtonRelease { button, y, time } => {
                return self.state.button_release(button, y, time, fx);
            },
            PopupEvent::Motion { x, y } => self.state.pointer_motion(x, y),
            PopupEvent::FocusOut { mode } => if mode == normal_mode() {
                Outcome::Close
            } else {
                Outcome::Nothing
            },
            PopupEvent::Other => Outcome::Nothing,
        };
        Reply { outcome, commit: Commit::Nothing }
    }

    /// Makes the change of an event, given how its work went.
    pub fn finish(&mut self, commit: Commit, report: Report) -> (r: Result<(), RequestFailed>)
        requires
            old(self)@.state.wf(),
            old(self)@.state.has_window_of(commit),
        ensures
            final(self)@ == (SessionView {
                state: old(self)@.state.committed(commit, report),
                ..old(self)@
            }),
            final(self)@.state.wf(),
            r == match report.failed {
                None => Ok::<(), RequestFailed>(()),
                Some(at) => Err(RequestFailed { at }),
            },
    {
        self.state.commit(commit, report)
    }
}

} // verus!
