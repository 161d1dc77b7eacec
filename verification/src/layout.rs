//! The rows of the popup, from top to bottom: one header per desktop with the
//! apps of that desktop below it.
//!
//! Lengths are in thousandths of a pixel.

use crate::ewmh::{DesktopInfo, WindowInfo, ALL_DESKTOPS};
use vstd::prelude::*;

verus! {

/// Bound on every coordinate.
pub const LIMIT: i128 = 0x10_0000_0000_0000_0000_0000_0000;

/// Bound on where rows can be; far beyond what any number of rows reaches.
pub const REACH: i128 = 0x1_0000_0000_0000_0000_0000_0000;

/// Whether `x` is within the bound on coordinates.
pub open spec fn bounded(x: int) -> bool {
    -LIMIT <= x <= LIMIT
}

/// Whether `x` is within the bound on rows.
pub open spec fn reachable(x: int) -> bool {
    -REACH <= x <= REACH
}

/// The letters that hints are taken from, in the order in which app rows get
/// them: left-hand keys first, then the right-hand ones.
pub open spec fn hint_pool() -> Seq<char> {
    seq![
        'f', 's', 'a', 'r', 'e', 'w', 't', 'v', 'c', 'x', 'b', 'z', 'h', 'l', 'n', 'm', 'u', 'i',
        'o', 'p', 'y',
    ]
}

/// The hint of the app row with `n` app rows above it. Rows past the end of
/// the pool have none.
pub open spec fn hint_at(n: int) -> Option<char> {
    if 0 <= n < hint_pool().len() {
        Some(hint_pool()[n])
    } else {
        None
    }
}

fn hint_for(n: usize) -> (r: Option<char>)
    ensures
        r == hint_at(n as int),
{
    let pool: [char; 21] = [
        'f', 's', 'a', 'r', 'e', 'w', 't', 'v', 'c', 'x', 'b', 'z', 'h', 'l', 'n', 'm', 'u', 'i',
        'o', 'p', 'y',
    ];
    assert(pool@ =~= hint_pool());
    if n < 21 {
        Some(pool[n])
    } else {
        None
    }
}

/// What one row shows.
#[derive(Clone, Copy, Debug, PartialEq, Eq, Structural)]
pub enum Row {
    Header { desktop_idx: usize, current: bool, empty: bool },
    App { window_idx: usize, focused: bool, hint: Option<char> },
}

/// Whether a row refers to one of `desktops` desktops or `windows` windows.
pub open spec fn row_in_range(row: Row, desktops: nat, windows: nat) -> bool {
    match row {
        Row::Header { desktop_idx, .. } => desktop_idx < desktops,
        Row::App { window_idx, .. } => window_idx < windows,
    }
}

/// Whether a window is listed below the desktop with number `desktop`.
pub open spec fn listed_on(w: WindowInfo, desktop: u32) -> bool {
    w.desktop == desktop || w.desktop == ALL_DESKTOPS
}

/// The indices below `n` of the windows listed on a desktop, highest first.
pub open spec fn apps_below(windows: Seq<WindowInfo>, desktop: u32, n: int) -> Seq<usize>
    decreases n,
{
    if n <= 0 {
        Seq::empty()
    } else if listed_on(windows[n - 1], desktop) {
        seq![(n - 1) as usize] + apps_below(windows, desktop, n - 1)
    } else {
        apps_below(windows, desktop, n - 1)
    }
}

/// The indices of the windows listed on a desktop. The window list goes from
/// the bottom of the stack to the top; here the topmost window comes first.
pub open spec fn apps_on(windows: Seq<WindowInfo>, desktop: u32) -> Seq<usize> {
    apps_below(windows, desktop, windows.len() as int)
}

/// The number of app rows.
pub open spec fn app_count(rows: Seq<Row>) -> nat
    decreases rows.len(),
{
    if rows.len() == 0 {
        0
    } else {
        app_count(rows.drop_last()) + if rows.last() is App {
            1nat
        } else {
            0nat
        }
    }
}

/// The app rows for the windows `apps`, below `above` other app rows.
pub open spec fn app_rows(
    windows: Seq<WindowInfo>,
    focused_window: Option<u32>,
    apps: Seq<usize>,
    above: nat,
) -> Seq<Row> {
    Seq::new(
        apps.len(),
        |k: int|
            Row::App {
                window_idx: apps[k],
                focused: focused_window == Some(windows[apps[k] as int].id),
                hint: hint_at(above + k),
            },
    )
}

/// The rows of the first `n` desktops.
pub open spec fn rows_upto(
    desktops: Seq<DesktopInfo>,
    windows: Seq<WindowInfo>,
    current_desktop: u32,
    focused_window: Option<u32>,
    n: int,
) -> Seq<Row>
    decreases n,
{
    if n <= 0 {
        Seq::empty()
    } else {
        let above = rows_upto(desktops, windows, current_desktop, focused_window, n - 1);
        let d = desktops[n - 1];
        let apps = apps_on(windows, d.index);
        above + seq![
            Row::Header {
                desktop_idx: (n - 1) as usize,
                current: d.index == current_desktop,
                empty: apps.len() == 0,
            },
        ] + app_rows(windows, focused_window, apps, app_count(above))
    }
}

/// All rows.
#[verifier::opaque]
pub open spec fn rows_of(
    desktops: Seq<DesktopInfo>,
    windows: Seq<WindowInfo>,
    current_desktop: u32,
    focused_window: Option<u32>,
) -> Seq<Row> {
    rows_upto(desktops, windows, current_desktop, focused_window, desktops.len() as int)
}

/// The height of a row.
pub open spec fn height_of(row: Row, header_h: int, app_h: int) -> int {
    match row {
        Row::Header { .. } => header_h,
        Row::App { .. } => app_h,
    }
}

/// Where row `i` starts: below the padding and the rows above it.
pub open spec fn top_of(rows: Seq<Row>, pad_y: int, header_h: int, app_h: int, i: int) -> int
    decreases i,
{
    if i <= 0 {
        pad_y
    } else {
        top_of(rows, pad_y, header_h, app_h, i - 1) + height_of(rows[i - 1], header_h, app_h)
    }
}

/// Rows with their positions.
#[verifier::ext_equal]
pub struct LayoutView {
    pub rows: Seq<Row>,
    pub row_y: Seq<int>,
    pub row_h: Seq<int>,
    pub content_h: int,
}

/// The layout of the given rows.
pub open spec fn placed(rows: Seq<Row>, pad_y: int, header_h: int, app_h: int) -> LayoutView {
    LayoutView {
        rows,
        row_y: Seq::new(rows.len(), |i: int| top_of(rows, pad_y, header_h, app_h, i)),
        row_h: Seq::new(rows.len(), |i: int| height_of(rows[i], header_h, app_h)),
        content_h: top_of(rows, pad_y, header_h, app_h, rows.len() as int) + pad_y,
    }
}

impl LayoutView {
    /// Whether the point `target`, measured from the top of the content, is in
    /// row `i`.
    pub open spec fn hits(self, target: int, i: int) -> bool {
        self.row_y[i] <= target < self.row_y[i] + self.row_h[i]
    }

    /// The first row from `i` on that `target` is in.
    pub open spec fn row_from(self, target: int, i: int) -> Option<usize>
        decreases self.rows.len() - i,
    {
        if i < 0 || i >= self.rows.len() {
            None
        } else if self.hits(target, i) {
            Some(i as usize)
        } else {
            self.row_from(target, i + 1)
        }
    }

    /// The row at height `y_in_window` of the popup, with the content scrolled
    /// up by `scroll`.
    pub open spec fn row_at(self, y_in_window: int, scroll: int) -> Option<usize> {
        self.row_from(y_in_window + scroll, 0)
    }

    /// Whether row `i` carries the hint `c`.
    pub open spec fn has_hint(self, c: char, i: int) -> bool {
        self.rows[i] matches Row::App { hint, .. } && hint == Some(c)
    }

    /// The first row from `i` on with the hint `c`.
    pub open spec fn hint_from(self, c: char, i: int) -> Option<usize>
        decreases self.rows.len() - i,
    {
        if i < 0 || i >= self.rows.len() {
            None
        } else if self.has_hint(c, i) {
            Some(i as usize)
        } else {
            self.hint_from(c, i + 1)
        }
    }

    /// The row with the hint `c`.
    pub open spec fn hint_row(self, c: char) -> Option<usize> {
        self.hint_from(c, 0)
    }
}

/// The rows, where each starts, and how high everything is together.
#[derive(Debug)]
pub struct Layout {
    pub rows: Vec<Row>,
    pub row_y: Vec<i128>,
    pub row_h: Vec<i128>,
    pub content_h: i128,
}

impl View for Layout {
    type V = LayoutView;

    open spec fn view(&self) -> LayoutView {
        LayoutView {
            rows: self.rows@,
            row_y: Seq::new(self.row_y@.len(), |i: int| self.row_y@[i] as int),
            row_h: Seq::new(self.row_h@.len(), |i: int| self.row_h@[i] as int),
            content_h: self.content_h as int,
        }
    }
}

/// Lists the windows of one desktop, topmost first.
fn list_apps(windows: &[WindowInfo], desktop: u32) -> (r: Vec<usize>)
    ensures
        r@ == apps_on(windows@, desktop),
{
    let mut out: Vec<usize> = Vec::new();
    let mut i: usize = windows.len();
    assert(out@ + apps_below(windows@, desktop, i as int) =~= apps_on(windows@, desktop));
    while i > 0
        invariant
            i <= windows@.len(),
            out@ + apps_below(windows@, desktop, i as int) == apps_on(windows@, desktop),
        decreases i,
    {
        let ghost before = out@;
        let w = &windows[i - 1];
        if w.desktop == desktop || w.desktop == ALL_DESKTOPS {
            out.push(i - 1);
        }
        i -= 1;
        assert(out@ + apps_below(windows@, desktop, i as int) =~= before + apps_below(
            windows@,
            desktop,
            i + 1,
        ));
    }
    assert(out@ =~= apps_on(windows@, desktop));
    out
}

proof fn lemma_app_count_bound(rows: Seq<Row>)
    ensures
        app_count(rows) <= rows.len(),
    decreases rows.len(),
{
    if rows.len() > 0 {
        lemma_app_count_bound(rows.drop_last());
    }
}

proof fn lemma_top_prefix(a: Seq<Row>, b: Seq<Row>, pad_y: int, header_h: int, app_h: int, i: int)
    requires
        0 <= i <= a.len(),
        i <= b.len(),
        forall|k: int| 0 <= k < i ==> a[k] == b[k],
    ensures
        top_of(a, pad_y, header_h, app_h, i) == top_of(b, pad_y, header_h, app_h, i),
    decreases i,
{
    if i > 0 {
        lemma_top_prefix(a, b, pad_y, header_h, app_h, i - 1);
    }
}

proof fn lemma_apps_in_range(windows: Seq<WindowInfo>, desktop: u32, n: int)
    requires
        0 <= n <= windows.len() <= usize::MAX,
    ensures
        forall|k: int|
            0 <= k < apps_below(windows, desktop, n).len() ==> (#[trigger] apps_below(
                windows,
                desktop,
                n,
            )[k]) < n,
    decreases n,
{
    if n > 0 {
        lemma_apps_in_range(windows, desktop, n - 1);
        let rest = apps_below(windows, desktop, n - 1);
        let all = apps_below(windows, desktop, n);
        assert forall|k: int| 0 <= k < all.len() implies (#[trigger] all[k]) < n by {
            if listed_on(windows[n - 1], desktop) && k > 0 {
                assert(all[k] == rest[k - 1]);
            }
        }
    }
}

/// Every row refers to a desktop or a window that is there.
pub proof fn lemma_rows_in_range(
    desktops: Seq<DesktopInfo>,
    windows: Seq<WindowInfo>,
    current_desktop: u32,
    focused_window: Option<u32>,
    n: int,
)
    requires
        0 <= n <= desktops.len() <= usize::MAX,
        windows.len() <= usize::MAX,
    ensures
        ({
            let rows = rows_upto(desktops, windows, current_desktop, focused_window, n);
            forall|i: int|
                0 <= i < rows.len() ==> row_in_range(
                    #[trigger] rows[i],
                    desktops.len(),
                    windows.len(),
                )
        }),
    decreases n,
{
    if n > 0 {
        lemma_rows_in_range(desktops, windows, current_desktop, focused_window, n - 1);
        lemma_apps_in_range(windows, desktops[n - 1].index, windows.len() as int);
        let above = rows_upto(desktops, windows, current_desktop, focused_window, n - 1);
        let rows = rows_upto(desktops, windows, current_desktop, focused_window, n);
        let apps = apps_on(windows, desktops[n - 1].index);
        assert forall|i: int| 0 <= i < rows.len() implies row_in_range(
            #[trigger] rows[i],
            desktops.len(),
            windows.len(),
        ) by {
            if i < above.len() {
                assert(rows[i] == above[i]);
            } else if i > above.len() {
                assert(apps[i - above.len() - 1] < windows.len());
            }
        }
    }
}

/// How far down the rows can reach.
spec fn within(y: int, rows: int) -> bool {
    -0x8000_0000 * (rows + 1) <= y <= 0x8000_0000 * (rows + 1)
}

impl Layout {
    /// The rows have one position and one height each, and all are in bounds.
    pub open spec fn wf(&self) -> bool {
        &&& self.row_y@.len() == self.rows@.len()
        &&& self.row_h@.len() == self.rows@.len()
        &&& forall|i: int|
            0 <= i < self.rows@.len() ==> reachable(#[trigger] self.row_y@[i] as int)
        &&& forall|i: int|
            0 <= i < self.rows@.len() ==> reachable(#[trigger] self.row_h@[i] as int)
        &&& reachable(self.content_h as int)
    }

    /// Appends a row at `y`; the next one starts at the result.
    fn add_row(&mut self, row: Row, y: i128, pad_y: i32, header_h: i32, app_h: i32) -> (next: i128)
        requires
            old(self).placed_upto(pad_y as int, header_h as int, app_h as int, y as int),
        ensures
            final(self).rows@ == old(self).rows@.push(row),
            final(self).placed_upto(pad_y as int, header_h as int, app_h as int, next as int),
    {
        let ghost (p, hh, ah) = (pad_y as int, header_h as int, app_h as int);
        let ghost before = self.rows@;
        let h: i128 = match row {
            Row::Header { .. } => header_h as i128,
            Row::App { .. } => app_h as i128,
        };
        assert(before.len() <= usize::MAX) by {
            assert(self.rows.len() == before.len());
        }
        self.rows.push(row);
        self.row_y.push(y);
        self.row_h.push(h);
        proof {
            assert forall|i: int| 0 <= i <= before.len() implies #[trigger] top_of(
                self.rows@,
                p,
                hh,
                ah,
                i,
            ) == top_of(before, p, hh, ah, i) by {
                lemma_top_prefix(self.rows@, before, p, hh, ah, i);
            }
        }
        assert(top_of(self.rows@, p, hh, ah, before.len() as int) == y);
        assert(self.rows@[before.len() as int] == row);
        assert(h == height_of(row, hh, ah));
        assert(top_of(self.rows@, p, hh, ah, before.len() as int + 1) == y + h);
        assert(-0x8000_0000 <= h <= 0x8000_0000);
        assert(forall|i: int| 0 <= i < before.len() ==> self.rows@[i] == before[i]);
        y + h
    }

    /// Lays the rows out from top to bottom, with `pad_y` above and below.
    pub fn build(
        desktops: &[DesktopInfo],
        windows: &[WindowInfo],
        current_desktop: u32,
        focused_window: Option<u32>,
        pad_y: i32,
        header_h: i32,
        app_h: i32,
    ) -> (r: Self)
        ensures
            r.wf(),
            r@ == placed(
                rows_of(desktops@, windows@, current_desktop, focused_window),
                pad_y as int,
                header_h as int,
                app_h as int,
            ),
            forall|i: int|
                0 <= i < r.rows@.len() ==> row_in_range(
                    #[trigger] r.rows@[i],
                    desktops@.len(),
                    windows@.len(),
                ),
    {
        let ghost (p, hh, ah) = (pad_y as int, header_h as int, app_h as int);
        let mut out = Layout {
            rows: Vec::new(),
            row_y: Vec::new(),
            row_h: Vec::new(),
            content_h: 0,
        };
        let mut y: i128 = pad_y as i128;
        let mut apps_above: usize = 0;
        let mut di: usize = 0;
        while di < desktops.len()
            invariant
                di <= desktops@.len(),
                p == pad_y && hh == header_h && ah == app_h,
                out.rows@ == rows_upto(
                    desktops@,
                    windows@,
                    current_desktop,
                    focused_window,
                    di as int,
                ),
                apps_above == app_count(out.rows@),
                out.placed_upto(p, hh, ah, y as int),
            decreases desktops@.len() - di,
        {
            let d = &desktops[di];
            let apps = list_apps(windows, d.index);
            let ghost above = out.rows@;
            let ghost start = apps_above as nat;
            let header = Row::Header {
                desktop_idx: di,
                current: d.index == current_desktop,
                empty: apps.len() == 0,
            };
            proof {
                assert(windows.len() == windows@.len());
                lemma_apps_in_range(windows@, d.index, windows@.len() as int);
            }
            y = out.add_row(header, y, pad_y, header_h, app_h);
            assert(out.rows@.drop_last() =~= above);
            let mut k: usize = 0;
            while k < apps.len()
                invariant
                    k <= apps@.len(),
                    p == pad_y && hh == header_h && ah == app_h,
                    apps@ == apps_on(windows@, d.index),
                    forall|j: int| 0 <= j < apps@.len() ==> (#[trigger] apps@[j]) < windows@.len(),
                    out.rows@ == above + seq![header] + app_rows(
                        windows@,
                        focused_window,
                        apps@,
                        start,
                    ).take(k as int),
                    apps_above == start + k,
                    apps_above == app_count(out.rows@),
                    out.placed_upto(p, hh, ah, y as int),
                decreases apps@.len() - k,
            {
                let wi = apps[k];
                let row = Row::App {
                    window_idx: wi,
                    focused: match focused_window {
                        Some(f) => f == windows[wi].id,
                        None => false,
                    },
                    hint: hint_for(apps_above),
                };
                let ghost before = out.rows@;
                proof {
                    lemma_app_count_bound(before);
                }
                y = out.add_row(row, y, pad_y, header_h, app_h);
                assert(out.rows@.drop_last() =~= before);
                assert(out.rows@.len() <= usize::MAX) by {
                    assert(out.rows.len() == out.rows@.len());
                }
                apps_above += 1;
                k += 1;
                assert(out.rows@ =~= above + seq![header] + app_rows(
                    windows@,
                    focused_window,
                    apps@,
                    start,
                ).take(k as int));
            }
            assert(app_rows(windows@, focused_window, apps@, start).take(k as int) =~= app_rows(
                windows@,
                focused_window,
                apps@,
                start,
            ));
            di += 1;
        }
        proof {
            reveal(rows_of);
        }
        let ghost rows = out.rows@;
        assert(rows.len() <= usize::MAX) by {
            assert(out.rows.len() == rows.len());
        }
        out.content_h = y + pad_y as i128;
        assert(out@ =~= placed(rows, p, hh, ah));
        proof {
            assert(desktops.len() == desktops@.len());
            assert(windows.len() == windows@.len());
            lemma_rows_in_range(
                desktops@,
                windows@,
                current_desktop,
                focused_window,
                desktops@.len() as int,
            );
        }
        out
    }

    /// The row at height `y_in_window` of the popup, with the content scrolled
    /// up by `scroll`.
    pub fn row_at_y(&self, y_in_window: i128, scroll: i128) -> (r: Option<usize>)
        requires
            self.wf(),
            bounded(y_in_window as int),
            bounded(scroll as int),
        ensures
            r == self@.row_at(y_in_window as int, scroll as int),
    {
        let target: i128 = y_in_window + scroll;
        let mut i: usize = 0;
        while i < self.rows.len()
            invariant
                i <= self.rows@.len(),
                self.wf(),
                target == y_in_window + scroll,
                bounded(y_in_window as int),
                bounded(scroll as int),
                self@.row_from(target as int, i as int) == self@.row_from(target as int, 0),
            decreases self.rows@.len() - i,
        {
            let ry = self.row_y[i];
            let rh = self.row_h[i];
            assert(reachable(ry as int) && reachable(rh as int));
            if target >= ry && target < ry + rh {
                return Some(i);
            }
            i += 1;
        }
        None
    }

    /// The row whose hint is `c`.
    pub fn row_idx_for_hint(&self, c: char) -> (r: Option<usize>)
        ensures
            r == self@.hint_row(c),
    {
        let mut i: usize = 0;
        while i < self.rows.len()
            invariant
                i <= self.rows@.len(),
                self@.hint_from(c, i as int) == self@.hint_from(c, 0),
            decreases self.rows@.len() - i,
        {
            if let Row::App { hint, .. } = self.rows[i] {
                if let Some(h) = hint {
                    if h == c {
                        return Some(i);
                    }
                }
            }
            i += 1;
        }
        None
    }

    /// The rows so far are where they belong, and the next one starts at `y`.
    spec fn placed_upto(&self, pad_y: int, header_h: int, app_h: int, y: int) -> bool {
        let rows = self.rows@;
        &&& self.row_y@.len() == rows.len()
        &&& self.row_h@.len() == rows.len()
        &&& y == top_of(rows, pad_y, header_h, app_h, rows.len() as int)
        &&& within(y, rows.len() as int)
        &&& forall|i: int|
            0 <= i < rows.len() ==> (#[trigger] self.row_y@[i]) == top_of(
                rows,
                pad_y,
                header_h,
                app_h,
                i,
            ) && within(self.row_y@[i] as int, rows.len() as int)
        &&& forall|i: int|
            0 <= i < rows.len() ==> (#[trigger] self.row_h@[i]) == height_of(
                rows[i],
                header_h,
                app_h,
            ) && -0x8000_0000 <= self.row_h@[i] <= 0x8000_0000
    }
}

} // verus!
