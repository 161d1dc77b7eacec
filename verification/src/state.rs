//! What the popup knows while it is open, and how the cursor, the scroll
//! position and the listed windows change.
//!
//! Lengths are in thousandths of a pixel.

use crate::config::{Config, ConfigView};
use crate::ewmh::{DesktopInfo, WindowInfo, ALL_DESKTOPS};
#[allow(unused_imports)]
use crate::layout::{
    bounded, placed, reachable, row_in_range, rows_of, Layout, LayoutView, Row, LIMIT,
};
use crate::render::{capitalize, capitalized};
#[allow(unused_imports)]
use crate::wm::{
    all_done, step_desktop, stepped, Commit, Effect, Report, RequestFailed, WmOp,
};
use vstd::prelude::*;

verus! {

/// A button press on an app row that has not been released yet.
#[derive(Debug)]
pub struct Drag {
    pub window_id: u32,
    pub label: String,
    pub cursor_x: i32,
    pub cursor_y: i32,
    pub target_desktop: Option<u32>,
    pub press_x: i32,
    pub press_y: i32,
    /// Set once the pointer has moved past a small threshold, and then kept;
    /// below that the gesture is a click.
    pub started: bool,
    /// Shift was held at the press: on the drop, go along with the app.
    pub follow: bool,
}

/// A drag with its label as characters.
pub struct DragView {
    pub window_id: u32,
    pub label: Seq<char>,
    pub cursor_x: i32,
    pub cursor_y: i32,
    pub target_desktop: Option<u32>,
    pub press_x: i32,
    pub press_y: i32,
    pub started: bool,
    pub follow: bool,
}

impl View for Drag {
    type V = DragView;

    open spec fn view(&self) -> DragView {
        DragView {
            window_id: self.window_id,
            label: self.label@,
            cursor_x: self.cursor_x,
            cursor_y: self.cursor_y,
            target_desktop: self.target_desktop,
            press_x: self.press_x,
            press_y: self.press_y,
            started: self.started,
            follow: self.follow,
        }
    }
}

impl DragView {
    /// Whether the pointer is more than four pixels away from the press.
    pub open spec fn far(self) -> bool {
        let dx = self.cursor_x - self.press_x;
        let dy = self.cursor_y - self.press_y;
        dx * dx + dy * dy > 16
    }
}

impl Drag {
    /// Whether the pointer is more than four pixels away from the press.
    pub fn moved_enough(&self) -> (r: bool)
        ensures
            r == self@.far(),
    {
        let dx: i128 = self.cursor_x as i128 - self.press_x as i128;
        let dy: i128 = self.cursor_y as i128 - self.press_y as i128;
        assert(0 <= dx * dx <= 0x1_0000_0000 * 0x1_0000_0000) by (nonlinear_arith)
            requires
                -0x1_0000_0000 <= dx <= 0x1_0000_0000,
        ;
        assert(0 <= dy * dy <= 0x1_0000_0000 * 0x1_0000_0000) by (nonlinear_arith)
            requires
                -0x1_0000_0000 <= dy <= 0x1_0000_0000,
        ;
        dx * dx + dy * dy > 16
    }
}

/// The text of a window that is being dragged: its program's name, or else its
/// title.
pub open spec fn label_of(w: WindowInfo) -> Seq<char> {
    if w.class@.len() == 0 {
        w.title@
    } else {
        capitalized(w.class@)
    }
}

/// The text of a window that is being dragged.
pub fn drag_label(w: &WindowInfo) -> (r: String)
    ensures
        r@ == label_of(*w),
{
    if w.class.as_str().is_empty() {
        w.title.clone()
    } else {
        capitalize(w.class.as_str())
    }
}

/// Everything the popup knows.
#[derive(Debug)]
pub struct State {
    pub cfg: Config,
    pub desktops: Vec<DesktopInfo>,
    pub windows: Vec<WindowInfo>,
    pub current_desktop: u32,
    pub focused_window: Option<u32>,
    /// The selected row.
    pub cursor: usize,
    /// How far the content is scrolled up.
    pub scroll: i128,
    pub viewport_h: i128,
    pub drag: Option<Drag>,
    /// Set after the first `d` of `dd`, which closes the app at the cursor.
    pub pending_dd: bool,
    /// Set after the first `g` of `gg`, which jumps to the top.
    pub pending_gg: bool,
    /// Set while the list of key bindings is shown.
    pub show_help: bool,
    /// The window under the pointer when the middle button went down.
    pub middle_press: Option<u32>,
}

/// The popup's state as values.
#[verifier::ext_equal]
pub struct StateView {
    pub cfg: ConfigView,
    pub desktops: Seq<DesktopInfo>,
    pub windows: Seq<WindowInfo>,
    pub current_desktop: u32,
    pub focused_window: Option<u32>,
    pub cursor: int,
    pub scroll: int,
    pub viewport_h: int,
    pub drag: Option<DragView>,
    pub pending_dd: bool,
    pub pending_gg: bool,
    pub show_help: bool,
    pub middle_press: Option<u32>,
}

/// The drag, if there is one.
pub open spec fn drag_view(d: Option<Drag>) -> Option<DragView> {
    match d {
        Some(d) => Some(d@),
        None => None,
    }
}

impl View for State {
    type V = StateView;

    open spec fn view(&self) -> StateView {
        StateView {
            cfg: self.cfg@,
            desktops: self.desktops@,
            windows: self.windows@,
            current_desktop: self.current_desktop,
            focused_window: self.focused_window,
            cursor: self.cursor as int,
            scroll: self.scroll as int,
            viewport_h: self.viewport_h as int,
            drag: drag_view(self.drag),
            pending_dd: self.pending_dd,
            pending_gg: self.pending_gg,
            show_help: self.show_help,
            middle_press: self.middle_press,
        }
    }
}

/// `x` cut to the range from `lo` to `hi`.
pub open spec fn clamped(x: int, lo: int, hi: int) -> int {
    if x < lo {
        lo
    } else if x > hi {
        hi
    } else {
        x
    }
}

/// The first row from `i` on that shows window `window_idx`.
pub open spec fn row_showing(rows: Seq<Row>, window_idx: int, i: int) -> Option<int>
    decreases rows.len() - i,
{
    if i < 0 || i >= rows.len() {
        None
    } else if rows[i] matches Row::App { window_idx: wi, .. } && wi == window_idx {
        Some(i)
    } else {
        row_showing(rows, window_idx, i + 1)
    }
}

impl StateView {
    /// The numbers are in bounds and the lists fit in memory.
    pub open spec fn wf(self) -> bool {
        &&& self.desktops.len() <= usize::MAX
        &&& self.windows.len() <= usize::MAX
        &&& 0 <= self.cursor <= usize::MAX
        &&& bounded(self.scroll)
        &&& 0 <= self.viewport_h <= LIMIT
    }

    pub open spec fn rows(self) -> Seq<Row> {
        rows_of(self.desktops, self.windows, self.current_desktop, self.focused_window)
    }

    /// The rows and where they are.
    pub open spec fn layout(self) -> LayoutView {
        placed(
            self.rows(),
            self.cfg.border_thickness as int,
            self.cfg.header_height as int,
            self.cfg.app_height as int,
        )
    }

    /// The scroll position that is nearest to the present one and shows as
    /// much as possible of a row at `y` of height `h`.
    pub open spec fn scroll_for(self, y: int, h: int, content_h: int) -> int {
        let s = if y < self.scroll {
            y
        } else if y + h > self.scroll + self.viewport_h {
            y + h - self.viewport_h
        } else {
            self.scroll
        };
        let max_scroll = if content_h > self.viewport_h {
            content_h - self.viewport_h
        } else {
            0
        };
        clamped(s, 0, max_scroll)
    }

    /// The state with the cursor on a row of `l`, and that row scrolled into
    /// view.
    #[verifier::opaque]
    pub open spec fn visible(self, l: LayoutView) -> StateView {
        if l.rows.len() == 0 {
            StateView { cursor: 0, scroll: 0, ..self }
        } else {
            let cursor = if self.cursor >= l.rows.len() {
                l.rows.len() - 1
            } else {
                self.cursor
            };
            StateView {
                cursor,
                scroll: self.scroll_for(l.row_y[cursor], l.row_h[cursor], l.content_h),
                ..self
            }
        }
    }

    /// The state with the cursor on row `row`, or on the nearest row there is.
    #[verifier::opaque]
    pub open spec fn with_cursor(self, row: int) -> StateView {
        let n = self.rows().len() as int;
        if n == 0 {
            self
        } else {
            StateView { cursor: clamped(row, 0, n - 1), ..self }.visible(self.layout())
        }
    }

    /// The window at the cursor; none on a header.
    pub open spec fn cursor_window(self) -> Option<usize> {
        if 0 <= self.cursor < self.rows().len() {
            match self.rows()[self.cursor] {
                Row::App { window_idx, .. } => Some(window_idx),
                Row::Header { .. } => None,
            }
        } else {
            None
        }
    }

    /// The state with the cursor on the first row of a window, and that row
    /// scrolled into view; the same state if the window has no row.
    pub open spec fn snapped(self, window_idx: int) -> StateView {
        match row_showing(self.rows(), window_idx, 0) {
            Some(i) => StateView { cursor: i, ..self }.visible(self.layout()),
            None => self,
        }
    }

    /// The row of the focused window, or else the header of the current
    /// desktop, or else the top.
    pub open spec fn first_cursor(self) -> int {
        match focused_row(self.rows(), self.windows, self.focused_window, 0) {
            Some(i) => i,
            None => match header_row(self.rows(), self.desktops, self.current_desktop, 0) {
                Some(i) => i,
                None => 0,
            },
        }
    }
}

/// The first row from `i` on that shows the window `focused`.
pub open spec fn focused_row(
    rows: Seq<Row>,
    windows: Seq<WindowInfo>,
    focused: Option<u32>,
    i: int,
) -> Option<int>
    decreases rows.len() - i,
{
    if i < 0 || i >= rows.len() {
        None
    } else if rows[i] matches Row::App { window_idx, .. } && focused == Some(
        windows[window_idx as int].id,
    ) {
        Some(i)
    } else {
        focused_row(rows, windows, focused, i + 1)
    }
}

/// The first row from `i` on that is the header of the desktop numbered
/// `current`.
pub open spec fn header_row(
    rows: Seq<Row>,
    desktops: Seq<DesktopInfo>,
    current: u32,
    i: int,
) -> Option<int>
    decreases rows.len() - i,
{
    if i < 0 || i >= rows.len() {
        None
    } else if rows[i] matches Row::Header { desktop_idx, .. } && desktops[desktop_idx as int].index
        == current {
        Some(i)
    } else {
        header_row(rows, desktops, current, i + 1)
    }
}

impl State {
    /// The state of a popup that is about to open, with the windows and
    /// desktops as they were found.
    pub fn snapshot(
        cfg: Config,
        desktops: Vec<DesktopInfo>,
        windows: Vec<WindowInfo>,
        current_desktop: u32,
        focused_window: Option<u32>,
    ) -> (s: Self)
        ensures
            s@ == (StateView {
                cfg: cfg@,
                desktops: desktops@,
                windows: windows@,
                current_desktop,
                focused_window,
                cursor: 0,
                scroll: 0,
                viewport_h: 0,
                drag: None,
                pending_dd: false,
                pending_gg: false,
                show_help: false,
                middle_press: None,
            }),
            s@.wf(),
    {
        assert(desktops.len() == desktops@.len());
        assert(windows.len() == windows@.len());
        State {
            cfg,
            desktops,
            windows,
            current_desktop,
            focused_window,
            cursor: 0,
            scroll: 0,
            viewport_h: 0,
            drag: None,
            pending_dd: false,
            pending_gg: false,
            show_help: false,
            middle_press: None,
        }
    }

    /// The rows and where they are.
    pub fn layout(&self) -> (l: Layout)
        ensures
            l.wf(),
            l@ == self@.layout(),
            forall|i: int|
                0 <= i < l.rows@.len() ==> row_in_range(
                    #[trigger] l.rows@[i],
                    self@.desktops.len(),
                    self@.windows.len(),
                ),
    {
        Layout::build(
            self.desktops.as_slice(),
            self.windows.as_slice(),
            self.current_desktop,
            self.focused_window,
            self.cfg.border_thickness,
            self.cfg.header_height,
            self.cfg.app_height,
        )
    }

    /// Where the cursor starts: on the row of the window that had the focus,
    /// or else on the header of the current desktop, or else at the top.
    pub fn initial_cursor(&self) -> (r: usize)
        ensures
            r == self@.first_cursor(),
    {
        let layout = self.layout();
        if let Some(f) = self.focused_window {
            let mut i: usize = 0;
            while i < layout.rows.len()
                invariant
                    i <= layout.rows@.len(),
                    layout@ == self@.layout(),
                    self.focused_window == Some(f),
                    forall|i: int|
                        0 <= i < layout.rows@.len() ==> row_in_range(
                            #[trigger] layout.rows@[i],
                            self@.desktops.len(),
                            self@.windows.len(),
                        ),
                    focused_row(self@.rows(), self@.windows, self@.focused_window, i as int)
                        == focused_row(self@.rows(), self@.windows, self@.focused_window, 0),
                decreases layout.rows@.len() - i,
            {
                assert(layout.rows@ == self@.rows());
                if let Row::App { window_idx, .. } = layout.rows[i] {
                    if self.windows[window_idx].id == f {
                        return i;
                    }
                }
                i += 1;
            }
        }
        proof {
            if self.focused_window is None {
                lemma_no_focused_row(self@.rows(), self@.windows, 0);
            }
        }
        let mut i: usize = 0;
        while i < layout.rows.len()
            invariant
                i <= layout.rows@.len(),
                layout@ == self@.layout(),
                forall|i: int|
                    0 <= i < layout.rows@.len() ==> row_in_range(
                        #[trigger] layout.rows@[i],
                        self@.desktops.len(),
                        self@.windows.len(),
                    ),
                focused_row(self@.rows(), self@.windows, self@.focused_window, 0) is None,
                header_row(self@.rows(), self@.desktops, self.current_desktop, i as int)
                    == header_row(self@.rows(), self@.desktops, self.current_desktop, 0),
            decreases layout.rows@.len() - i,
        {
            assert(layout.rows@ == self@.rows());
            if let Row::Header { desktop_idx, .. } = layout.rows[i] {
                if self.desktops[desktop_idx].index == self.current_desktop {
                    return i;
                }
            }
            i += 1;
        }
        0
    }

    /// Puts the cursor on a row if it is past the last one, and scrolls as
    /// little as needed to show that row.
    pub fn ensure_cursor_visible(&mut self, layout: &Layout)
        requires
            layout.wf(),
            old(self)@.wf(),
        ensures
            final(self)@ == old(self)@.visible(layout@),
            final(self)@.wf(),
    {
        proof {
            reveal(StateView::visible);
        }
        if layout.rows.len() == 0 {
            self.cursor = 0;
            self.scroll = 0;
            return;
        }
        if self.cursor >= layout.rows.len() {
            self.cursor = layout.rows.len() - 1;
        }
        let y = layout.row_y[self.cursor];
        let h = layout.row_h[self.cursor];
        assert(reachable(y as int) && reachable(h as int));
        if y < self.scroll {
            self.scroll = y;
        } else if y + h > self.scroll + self.viewport_h {
            self.scroll = y + h - self.viewport_h;
        }
        let max_scroll: i128 = if layout.content_h > self.viewport_h {
            layout.content_h - self.viewport_h
        } else {
            0
        };
        if self.scroll < 0 {
            self.scroll = 0;
        } else if self.scroll > max_scroll {
            self.scroll = max_scroll;
        }
    }

    /// Moves the cursor by `delta` rows, stopping at the ends.
    pub fn move_cursor(&mut self, delta: i32)
        requires
            old(self)@.wf(),
        ensures
            final(self)@ == old(self)@.with_cursor(old(self)@.cursor + delta),
            final(self)@.wf(),
    {
        proof {
            reveal(StateView::with_cursor);
        }
        let layout = self.layout();
        let n: i128 = layout.rows.len() as i128;
        if n == 0 {
            return;
        }
        let to: i128 = self.cursor as i128 + delta as i128;
        self.cursor = if to < 0 {
            0
        } else if to > n - 1 {
            layout.rows.len() - 1
        } else {
            to as usize
        };
        self.ensure_cursor_visible(&layout);
    }

    /// Moves the cursor to row `idx`, or to the last row if there are fewer.
    pub fn jump_to(&mut self, idx: usize)
        requires
            old(self)@.wf(),
        ensures
            final(self)@ == old(self)@.with_cursor(idx as int),
            final(self)@.wf(),
    {
        proof {
            reveal(StateView::with_cursor);
        }
        let layout = self.layout();
        let n = layout.rows.len();
        if n == 0 {
            return;
        }
        self.cursor = if idx > n - 1 {
            n - 1
        } else {
            idx
        };
        self.ensure_cursor_visible(&layout);
    }

    /// The window at the cursor; none if the cursor is on a header.
    pub fn cursor_window_idx(&self) -> (r: Option<usize>)
        ensures
            r == self@.cursor_window(),
            r matches Some(wi) ==> wi < self@.windows.len(),
    {
        let layout = self.layout();
        assert(layout.rows@ == self@.rows());
        if self.cursor >= layout.rows.len() {
            return None;
        }
        match layout.rows[self.cursor] {
            Row::App { window_idx, .. } => Some(window_idx),
            Row::Header { .. } => None,
        }
    }

    /// Puts the cursor on the row of a window and scrolls it into view.
    /// Nothing changes if the window has no row.
    pub fn snap_cursor_to_window(&mut self, window_idx: usize)
        requires
            old(self)@.wf(),
        ensures
            final(self)@ == old(self)@.snapped(window_idx as int),
            final(self)@.wf(),
    {
        let layout = self.layout();
        let ghost start = self@;
        let mut i: usize = 0;
        assert(layout.rows@ == self@.rows());
        while i < layout.rows.len()
            invariant
                i <= layout.rows@.len(),
                layout.wf(),
                layout@ == start.layout(),
                self@ == start,
                start == old(self)@,
                start.wf(),
                layout.rows@ == start.rows(),
                row_showing(start.rows(), window_idx as int, i as int) == row_showing(
                    start.rows(),
                    window_idx as int,
                    0,
                ),
            decreases layout.rows@.len() - i,
        {
            if let Row::App { window_idx: wi, .. } = layout.rows[i] {
                if wi == window_idx {
                    self.cursor = i;
                    self.ensure_cursor_visible(&layout);
                    return;
                }
            }
            i += 1;
        }
    }
}

proof fn lemma_no_focused_row(rows: Seq<Row>, windows: Seq<WindowInfo>, i: int)
    requires
        0 <= i <= rows.len(),
    ensures
        focused_row(rows, windows, None, i) is None,
    decreases rows.len() - i,
{
    if i < rows.len() {
        lemma_no_focused_row(rows, windows, i + 1);
    }
}

impl StateView {
    /// The requests that focus window `win`, which is on desktop `target`. The
    /// desktop is shown first, so that the window is already in front of the
    /// user when the focus request arrives and is not pulled elsewhere.
    pub open spec fn activation(self, win: u32, target: u32, time: u32) -> Seq<Effect> {
        seq![Effect::Attempt(WmOp::BumpUserTime { window: win, time })] + (if target
            != self.current_desktop {
            seq![Effect::Require(WmOp::SwitchDesktop { desktop: target, time })]
        } else {
            Seq::empty()
        }) + seq![
            Effect::Require(WmOp::Activate { window: win, time }),
            Effect::Attempt(WmOp::Raise { window: win }),
        ]
    }

    /// The state once window `win` has the focus on desktop `target`.
    pub open spec fn activated(self, win: u32, target: u32) -> StateView {
        StateView { current_desktop: target, focused_window: Some(win), ..self }
    }

    /// The state with a window on another desktop.
    pub open spec fn with_desktop(self, window_idx: int, desktop: u32) -> StateView {
        StateView {
            windows: self.windows.update(
                window_idx,
                WindowInfo { desktop, ..self.windows[window_idx] },
            ),
            ..self
        }
    }

    /// Whether a window is on all desktops.
    pub open spec fn sticky(self, window_idx: int) -> bool {
        self.windows[window_idx].desktop == ALL_DESKTOPS
    }

    /// Whether moving a window by some desktops does nothing: there are no
    /// desktops, or the window is on all of them and nobody goes along.
    pub open spec fn stays(self, window_idx: int, follow: bool) -> bool {
        self.desktops.len() == 0 || (!follow && self.sticky(window_idx))
    }

    /// Where moving a window by `delta` desktops leads. A window that is on
    /// all desktops starts from the current one.
    pub open spec fn move_target(self, window_idx: int, delta: int) -> u32 {
        let base = if self.sticky(window_idx) {
            self.current_desktop
        } else {
            self.windows[window_idx].desktop
        };
        stepped(base, delta, self.desktops.len() as int)
    }

    /// The state once the focus has been read again; `None` stands for a
    /// reading that failed or was not made.
    pub open spec fn focus_read(self, focus: Option<Option<u32>>) -> StateView {
        StateView {
            focused_window: match focus {
                Some(w) => w,
                None => self.focused_window,
            },
            ..self
        }
    }

    /// The state once a window has been asked to go to desktop `target`, with
    /// `in_front` if the user is there too. `moves` says whether the window
    /// changes desktops at all; that request comes first. If a later one fails,
    /// the window has still changed desktops.
    pub open spec fn placed_after(
        self,
        window_idx: int,
        target: u32,
        moves: bool,
        in_front: bool,
        report: Report,
    ) -> StateView {
        let s = if moves && report.failed != Some(0usize) {
            self.with_desktop(window_idx, target)
        } else {
            self
        };
        if report.failed is Some {
            s
        } else if in_front {
            s.activated(self.windows[window_idx].id, target).snapped(window_idx)
        } else {
            s.focus_read(report.focus).snapped(window_idx)
        }
    }

    /// The state once the requests of a step have been carried out as
    /// reported. Where one failed, the change is not made.
    pub open spec fn committed(self, commit: Commit, report: Report) -> StateView {
        match commit {
            Commit::Nothing => self,
            Commit::Activate { window, target } => if report.failed is None {
                self.activated(window, target)
            } else {
                self
            },
            Commit::Close { window_idx } => if report.failed is None {
                self.app_closed(window_idx as int)
            } else {
                self
            },
            Commit::Place { window_idx, target, moves, in_front } => self.placed_after(
                window_idx as int,
                target,
                moves,
                in_front,
                report,
            ),
        }
    }

    /// Whether a change is about a window that is there.
    pub open spec fn has_window_of(self, commit: Commit) -> bool {
        match commit {
            Commit::Close { window_idx } => window_idx < self.windows.len(),
            Commit::Place { window_idx, .. } => window_idx < self.windows.len(),
            _ => true,
        }
    }

    /// The requests that go with `placed_after`. Without the user in front of the
    /// window, the focus may have gone anywhere and is read again.
    pub open spec fn placing(
        self,
        window_idx: int,
        target: u32,
        moves: bool,
        in_front: bool,
        time: u32,
    ) -> Seq<Effect> {
        let win = self.windows[window_idx].id;
        (if moves {
            seq![Effect::Require(WmOp::MoveToDesktop { window: win, desktop: target })]
        } else {
            Seq::empty()
        }) + if in_front {
            self.activation(win, target, time)
        } else {
            seq![Effect::RefreshFocus]
        }
    }

    /// The state once a window has been moved by `delta` desktops.
    pub open spec fn app_moved(self, window_idx: int, delta: int, follow: bool) -> StateView {
        self.committed(self.move_commit(window_idx as usize, delta, follow), all_done())
    }

    /// The change that moving a window by `delta` desktops makes.
    pub open spec fn move_commit(self, window_idx: usize, delta: int, follow: bool) -> Commit {
        let target = self.move_target(window_idx as int, delta);
        if self.stays(window_idx as int, follow) {
            Commit::Nothing
        } else {
            Commit::Place {
                window_idx,
                target,
                moves: !self.sticky(window_idx as int) && target
                    != self.windows[window_idx as int].desktop,
                in_front: follow,
            }
        }
    }

    /// The requests that move a window by `delta` desktops.
    pub open spec fn moving_app(
        self,
        window_idx: int,
        delta: int,
        follow: bool,
        time: u32,
    ) -> Seq<Effect> {
        let target = self.move_target(window_idx, delta);
        if self.stays(window_idx, follow) {
            Seq::empty()
        } else {
            self.placing(
                window_idx,
                target,
                !self.sticky(window_idx) && target != self.windows[window_idx].desktop,
                follow,
                time,
            )
        }
    }

    /// The state once a window has been dropped on desktop `target`.
    pub open spec fn app_dropped(self, window_idx: int, target: u32, follow: bool) -> StateView {
        self.committed(self.drop_commit(window_idx as usize, target, follow), all_done())
    }

    /// The change that dropping a window on desktop `target` makes.
    pub open spec fn drop_commit(self, window_idx: usize, target: u32, follow: bool) -> Commit {
        Commit::Place {
            window_idx,
            target,
            moves: self.sticky(window_idx as int) || self.windows[window_idx as int].desktop
                != target,
            in_front: follow || target == self.current_desktop,
        }
    }

    /// The requests that drop a window on desktop `target`.
    pub open spec fn dropping_app(
        self,
        window_idx: int,
        target: u32,
        follow: bool,
        time: u32,
    ) -> Seq<Effect> {
        self.placing(
            window_idx,
            target,
            self.sticky(window_idx) || self.windows[window_idx].desktop != target,
            follow || target == self.current_desktop,
            time,
        )
    }

    /// The state once a window has been closed: it is gone from the list, and
    /// the cursor stays where it is if there is still a row.
    pub open spec fn app_closed(self, window_idx: int) -> StateView {
        let s = StateView {
            windows: self.windows.remove(window_idx),
            focused_window: if self.focused_window == Some(self.windows[window_idx].id) {
                None
            } else {
                self.focused_window
            },
            ..self
        };
        s.visible(s.layout())
    }

    /// The desktop to go to for a window.
    pub open spec fn home_of(self, window_idx: int) -> u32 {
        if self.sticky(window_idx) {
            self.current_desktop
        } else {
            self.windows[window_idx].desktop
        }
    }

    /// The state once the row at the cursor has been chosen.
    pub open spec fn chosen(self) -> StateView {
        self.committed(self.choice(), all_done())
    }

    /// The change that choosing the row at the cursor makes.
    pub open spec fn choice(self) -> Commit {
        match self.cursor_window() {
            Some(wi) => Commit::Activate {
                window: self.windows[wi as int].id,
                target: self.home_of(wi as int),
            },
            None => Commit::Nothing,
        }
    }

    /// The requests that choose the row at the cursor: show the desktop of a
    /// header, or focus the app of an app row.
    pub open spec fn choosing(self, time: u32) -> Seq<Effect> {
        if 0 <= self.cursor < self.rows().len() {
            match self.rows()[self.cursor] {
                Row::Header { desktop_idx, .. } => seq![
                    Effect::Require(
                        WmOp::SwitchDesktop {
                            desktop: self.desktops[desktop_idx as int].index,
                            time,
                        },
                    ),
                ],
                Row::App { window_idx, .. } => self.activation(
                    self.windows[window_idx as int].id,
                    self.home_of(window_idx as int),
                    time,
                ),
            }
        } else {
            Seq::empty()
        }
    }
}

impl State {
    /// Moves the app at `window_idx` by `delta` desktops. With `follow`, also
    /// shows that desktop and focuses the app. An app that is on all desktops
    /// is left alone without `follow`; with it, the app is not moved, and only
    /// the current desktop changes.
    ///
    /// Like every operation on windows, this appends the requests to `fx` and
    /// returns the change that `commit` makes once they have been sent.
    pub fn move_app(
        &self,
        window_idx: usize,
        delta: i32,
        follow: bool,
        time: u32,
        fx: &mut Vec<Effect>,
    ) -> (c: Commit)
        requires
            window_idx < self@.windows.len(),
        ensures
            c == self@.move_commit(window_idx, delta as int, follow),
            final(fx)@ == old(fx)@ + self@.moving_app(
                window_idx as int,
                delta as int,
                follow,
                time,
            ),
    {
        let ghost fx0 = fx@;
        let n: u64 = self.desktops.len() as u64;
        if n == 0 {
            assert(fx@ =~= fx0 + self@.moving_app(window_idx as int, delta as int, follow, time));
            return Commit::Nothing;
        }
        let desktop = self.windows[window_idx].desktop;
        let sticky = desktop == ALL_DESKTOPS;
        if !follow && sticky {
            assert(fx@ =~= fx0 + self@.moving_app(window_idx as int, delta as int, follow, time));
            return Commit::Nothing;
        }
        let base = if sticky {
            self.current_desktop
        } else {
            desktop
        };
        let target = step_desktop(base, delta, n);
        self.place_app(window_idx, target, !sticky && target != desktop, follow, time, fx)
    }

    fn place_app(
        &self,
        window_idx: usize,
        target: u32,
        moves: bool,
        in_front: bool,
        time: u32,
        fx: &mut Vec<Effect>,
    ) -> (c: Commit)
        requires
            window_idx < self@.windows.len(),
        ensures
            c == (Commit::Place { window_idx, target, moves, in_front }),
            final(fx)@ == old(fx)@ + self@.placing(
                window_idx as int,
                target,
                moves,
                in_front,
                time,
            ),
    {
        let ghost fx0 = fx@;
        let win = self.windows[window_idx].id;
        if moves {
            fx.push(Effect::Require(WmOp::MoveToDesktop { window: win, desktop: target }));
        }
        if in_front {
            self.activate_app(win, target, time, fx);
        } else {
            fx.push(Effect::RefreshFocus);
        }
        assert(fx@ =~= fx0 + self@.placing(window_idx as int, target, moves, in_front, time));
        Commit::Place { window_idx, target, moves, in_front }
    }

    /// Drops the app at `window_idx` on desktop `target`. The app gets the
    /// focus if it ends up in front of the user, because of `follow` or
    /// because the drop was on the current desktop; otherwise the focus is left
    /// alone.
    pub fn drop_app(
        &self,
        window_idx: usize,
        target: u32,
        follow: bool,
        time: u32,
        fx: &mut Vec<Effect>,
    ) -> (c: Commit)
        requires
            window_idx < self@.windows.len(),
        ensures
            c == self@.drop_commit(window_idx, target, follow),
            final(fx)@ == old(fx)@ + self@.dropping_app(window_idx as int, target, follow, time),
    {
        let desktop = self.windows[window_idx].desktop;
        let moves = desktop == ALL_DESKTOPS || desktop != target;
        let in_front = follow || target == self.current_desktop;
        self.place_app(window_idx, target, moves, in_front, time, fx)
    }

    /// Focuses a window that is on desktop `target`.
    pub fn activate_app(&self, win_id: u32, target: u32, time: u32, fx: &mut Vec<Effect>) -> (c:
        Commit)
        ensures
            c == (Commit::Activate { window: win_id, target }),
            final(fx)@ == old(fx)@ + self@.activation(win_id, target, time),
    {
        let ghost fx0 = fx@;
        fx.push(Effect::Attempt(WmOp::BumpUserTime { window: win_id, time }));
        if target != self.current_desktop {
            fx.push(Effect::Require(WmOp::SwitchDesktop { desktop: target, time }));
        }
        fx.push(Effect::Require(WmOp::Activate { window: win_id, time }));
        fx.push(Effect::Attempt(WmOp::Raise { window: win_id }));
        assert(fx@ =~= fx0 + self@.activation(win_id, target, time));
        Commit::Activate { window: win_id, target }
    }

    /// Takes in the active window as it was read again. `None` means that the
    /// reading failed: then the old value is kept.
    pub fn refresh_focus(&mut self, active: Option<Option<u32>>)
        ensures
            final(self)@ == old(self)@.focus_read(active),
    {
        if let Some(w) = active {
            self.focused_window = w;
        }
    }

    /// Asks the app at `window_idx` to close; once that has been sent, its row
    /// goes away.
    pub fn close_app(&self, window_idx: usize, time: u32, fx: &mut Vec<Effect>) -> (c: Commit)
        requires
            window_idx < self@.windows.len(),
        ensures
            c == (Commit::Close { window_idx }),
            final(fx)@ == old(fx)@.push(
                Effect::Require(WmOp::Close { window: self@.windows[window_idx as int].id, time }),
            ),
    {
        fx.push(Effect::Require(WmOp::Close { window: self.windows[window_idx].id, time }));
        Commit::Close { window_idx }
    }

    /// Chooses the row at the cursor: shows the desktop of a header, or goes
    /// to the app of an app row.
    pub fn activate_cursor(&self, time: u32, fx: &mut Vec<Effect>) -> (c: Commit)
        ensures
            c == self@.choice(),
            final(fx)@ == old(fx)@ + self@.choosing(time),
    {
        let ghost fx0 = fx@;
        let layout = self.layout();
        assert(layout.rows@ == self@.rows());
        let mut c = Commit::Nothing;
        if self.cursor < layout.rows.len() {
            match layout.rows[self.cursor] {
                Row::Header { desktop_idx, .. } => {
                    let desktop = self.desktops[desktop_idx].index;
                    fx.push(Effect::Require(WmOp::SwitchDesktop { desktop, time }));
                },
                Row::App { window_idx, .. } => {
                    let desktop = self.windows[window_idx].desktop;
                    let target = if desktop == ALL_DESKTOPS {
                        self.current_desktop
                    } else {
                        desktop
                    };
                    let win = self.windows[window_idx].id;
                    c = self.activate_app(win, target, time, fx);
                },
            }
        }
        assert(fx@ =~= fx0 + self@.choosing(time));
        c
    }

    /// Makes the change of a step, given how its requests went. If one failed
    /// that has to succeed, the change is not made; only a window that had
    /// already been moved is known to be on its new desktop.
    pub fn commit(&mut self, commit: Commit, report: Report) -> (r: Result<(), RequestFailed>)
        requires
            old(self)@.wf(),
            old(self)@.has_window_of(commit),
        ensures
            final(self)@ == old(self)@.committed(commit, report),
            final(self)@.wf(),
            r == match report.failed {
                None => Ok::<(), RequestFailed>(()),
                Some(at) => Err(RequestFailed { at }),
            },
    {
        let ghost start = self@;
        if let Commit::Place { window_idx, target, moves, .. } = commit {
            let carried_out = match report.failed {
                Some(at) => at != 0,
                None => true,
            };
            if moves && carried_out {
                self.windows[window_idx].desktop = target;
                assert(self@ =~= start.with_desktop(window_idx as int, target));
            }
        }
        if let Some(at) = report.failed {
            return Err(RequestFailed { at });
        }
        match commit {
            Commit::Nothing => {},
            Commit::Activate { window, target } => self.set_active(window, target),
            Commit::Place { window_idx, target, in_front, .. } => {
                if in_front {
                    let win = self.windows[window_idx].id;
                    self.set_active(win, target);
                } else {
                    self.refresh_focus(report.focus);
                }
                self.snap_cursor_to_window(window_idx);
            },
            Commit::Close { window_idx } => self.remove_window(window_idx),
        }
        Ok(())
    }

    fn set_active(&mut self, window: u32, target: u32)
        ensures
            final(self)@ == old(self)@.activated(window, target),
    {
        self.current_desktop = target;
        self.focused_window = Some(window);
    }

    fn remove_window(&mut self, window_idx: usize)
        requires
            old(self)@.wf(),
            window_idx < old(self)@.windows.len(),
        ensures
            final(self)@ == old(self)@.app_closed(window_idx as int),
            final(self)@.wf(),
    {
        let win = self.windows[window_idx].id;
        self.windows.remove(window_idx);
        if let Some(f) = self.focused_window {
            if f == win {
                self.focused_window = None;
            }
        }
        let layout = self.layout();
        self.ensure_cursor_visible(&layout);
    }
}

/// A focus or close request that fails leaves the state as it was.
pub proof fn law_failed_requests_change_nothing(s: StateView, commit: Commit, report: Report)
    requires
        report.failed is Some,
        !(commit is Place),
    ensures
        s.committed(commit, report) == s,
{
}

/// If moving an app fails at its first request, the state stays as it was; if
/// it fails later, only the desktop of that app has changed.
pub proof fn law_failed_moves_change_at_most_the_desktop(
    s: StateView,
    wi: usize,
    target: u32,
    moves: bool,
    in_front: bool,
    report: Report,
)
    requires
        report.failed is Some,
    ensures
        ({
            let t = s.committed(
                Commit::Place { window_idx: wi, target, moves, in_front },
                report,
            );
            &&& !moves || report.failed == Some(0usize) ==> t == s
            &&& moves && report.failed != Some(0usize) ==> t == s.with_desktop(wi as int, target)
        }),
{
}

} // verus!
