//! What holds of the rows of the popup: which rows there are, where they are,
//! and which hint finds which.

use crate::ewmh::{DesktopInfo, WindowInfo};
#[allow(unused_imports)]
use crate::layout::{
    app_count, apps_below, apps_on, height_of, hint_at, hint_pool, listed_on, placed, rows_of,
    rows_upto, top_of, LayoutView, Row,
};
#[allow(unused_imports)]
use crate::session::lemma_row_from_in_range;
use vstd::prelude::*;

verus! {

/// Whether a letter has a meaning of its own, so that it cannot be a hint.
pub open spec fn is_bound(c: char) -> bool {
    c == 'j' || c == 'k' || c == 'g' || c == 'd' || c == 'q' || '0' <= c <= '9'
}

/// Hints are small letters, each of them is used once, and none of them means
/// anything else.
pub proof fn law_hint_pool()
    ensures
        hint_pool().len() == 21,
        hint_pool().no_duplicates(),
        forall|n: int|
            0 <= n < 21 ==> 'a' <= #[trigger] hint_pool()[n] <= 'z' && !is_bound(hint_pool()[n]),
{
    let pool = hint_pool();
    assert forall|n: int| 0 <= n < 21 implies 'a' <= #[trigger] pool[n] <= 'z' && !is_bound(
        pool[n],
    ) by {
    }
}

/// The rows of the first `n` desktops are the first of all rows.
proof fn lemma_rows_prefix(
    desktops: Seq<DesktopInfo>,
    windows: Seq<WindowInfo>,
    current: u32,
    focused: Option<u32>,
    n: int,
    m: int,
)
    requires
        0 <= n <= m,
    ensures
        ({
            let a = rows_upto(desktops, windows, current, focused, n);
            let b = rows_upto(desktops, windows, current, focused, m);
            a.len() <= b.len() && b.take(a.len() as int) == a
        }),
    decreases m - n,
{
    let a = rows_upto(desktops, windows, current, focused, n);
    let b = rows_upto(desktops, windows, current, focused, m);
    if n < m {
        lemma_rows_prefix(desktops, windows, current, focused, n, m - 1);
        let c = rows_upto(desktops, windows, current, focused, m - 1);
        assert(c.take(a.len() as int) == a);
        assert(b.take(a.len() as int) =~= c.take(a.len() as int));
    } else {
        assert(b.take(a.len() as int) =~= a);
    }
}

proof fn lemma_app_count_tail(rows: Seq<Row>, n: int)
    requires
        0 <= n < rows.len(),
        forall|k: int| n < k < rows.len() ==> rows[k] is App,
        rows[n] is Header,
    ensures
        app_count(rows) == app_count(rows.take(n)) + (rows.len() - n - 1),
    decreases rows.len(),
{
    if rows.len() == n + 1 {
        assert(rows.drop_last() =~= rows.take(n));
    } else {
        lemma_app_count_tail(rows.drop_last(), n);
        assert(rows.drop_last().take(n) =~= rows.take(n));
    }
}

/// The number of an app row counts the app rows above it.
proof fn lemma_hint_of_row(
    desktops: Seq<DesktopInfo>,
    windows: Seq<WindowInfo>,
    current: u32,
    focused: Option<u32>,
    n: int,
    i: int,
)
    requires
        0 <= i < rows_upto(desktops, windows, current, focused, n).len(),
    ensures
        ({
            let rows = rows_upto(desktops, windows, current, focused, n);
            rows[i] matches Row::App { hint, .. } ==> hint == hint_at(
                app_count(rows.take(i)) as int,
            )
        }),
    decreases n,
{
    if n > 0 {
        let above = rows_upto(desktops, windows, current, focused, n - 1);
        let rows = rows_upto(desktops, windows, current, focused, n);
        if i < above.len() {
            lemma_hint_of_row(desktops, windows, current, focused, n - 1, i);
            assert(rows.take(i) =~= above.take(i));
            assert(rows[i] == above[i]);
        } else if i > above.len() {
            let part = rows.take(i);
            assert(part[above.len() as int] is Header);
            assert forall|k: int| above.len() < k < part.len() implies part[k] is App by {}
            lemma_app_count_tail(part, above.len() as int);
            assert(part.take(above.len() as int) =~= above);
        }
    }
}

/// The app row with `n` app rows above it gets hint number `n` of the pool,
/// and no hint once the pool is used up.
pub proof fn law_hints_go_in_order(
    desktops: Seq<DesktopInfo>,
    windows: Seq<WindowInfo>,
    current: u32,
    focused: Option<u32>,
    i: int,
)
    requires
        0 <= i < rows_of(desktops, windows, current, focused).len(),
        rows_of(desktops, windows, current, focused)[i] is App,
    ensures
        ({
            let rows = rows_of(desktops, windows, current, focused);
            let above = app_count(rows.take(i));
            rows[i]->hint == if above < 21 {
                Some(hint_pool()[above as int])
            } else {
                None
            }
        }),
{
    reveal(rows_of);
    lemma_hint_of_row(desktops, windows, current, focused, desktops.len() as int, i);
}

proof fn lemma_app_count_grows(rows: Seq<Row>, i: int, k: int)
    requires
        0 <= i <= k <= rows.len(),
    ensures
        app_count(rows.take(i)) <= app_count(rows.take(k)),
        i < k && rows[i] is App ==> app_count(rows.take(i)) < app_count(rows.take(k)),
    decreases k - i,
{
    if i < k {
        lemma_app_count_grows(rows, i, k - 1);
        assert(rows.take(k).drop_last() =~= rows.take(k - 1));
        assert(rows.take(k).last() == rows[k - 1]);
    }
}

proof fn lemma_hint_from(l: LayoutView, c: char, i: int, from: int)
    requires
        0 <= from <= i < l.rows.len() <= usize::MAX,
        l.has_hint(c, i),
        forall|k: int| from <= k < i ==> !l.has_hint(c, k),
    ensures
        l.hint_from(c, from) == Some(i as usize),
    decreases i - from,
{
    if from < i {
        lemma_hint_from(l, c, i, from + 1);
    }
}

/// A hint leads to the row that shows it, and to no other.
pub proof fn law_hint_finds_its_row(
    desktops: Seq<DesktopInfo>,
    windows: Seq<WindowInfo>,
    current: u32,
    focused: Option<u32>,
    pad_y: int,
    header_h: int,
    app_h: int,
    c: char,
    i: int,
)
    requires
        0 <= i < rows_of(desktops, windows, current, focused).len() <= usize::MAX,
        placed(rows_of(desktops, windows, current, focused), pad_y, header_h, app_h).has_hint(c, i),
    ensures
        placed(rows_of(desktops, windows, current, focused), pad_y, header_h, app_h).hint_row(c)
            == Some(i as usize),
{
    let rows = rows_of(desktops, windows, current, focused);
    let l = placed(rows, pad_y, header_h, app_h);
    law_hint_pool();
    law_hints_go_in_order(desktops, windows, current, focused, i);
    assert forall|k: int| 0 <= k < i implies !l.has_hint(c, k) by {
        if l.has_hint(c, k) {
            law_hints_go_in_order(desktops, windows, current, focused, k);
            lemma_app_count_grows(rows, k, i);
        }
    }
    lemma_hint_from(l, c, i, 0);
}

pub(crate) proof fn lemma_hint_from_sound(l: LayoutView, c: char, from: int)
    requires
        0 <= from <= l.rows.len() <= usize::MAX,
    ensures
        match l.hint_from(c, from) {
            Some(i) => from <= i < l.rows.len() && l.has_hint(c, i as int),
            None => forall|k: int| from <= k < l.rows.len() ==> !l.has_hint(c, k),
        },
    decreases l.rows.len() - from,
{
    if from < l.rows.len() && !l.has_hint(c, from) {
        lemma_hint_from_sound(l, c, from + 1);
        assert forall|k: int|
            l.hint_from(c, from) is None && from <= k < l.rows.len() implies !l.has_hint(c, k) by {}
    }
}

/// A letter leads to a row only if that row shows it as its hint; so a letter
/// with a meaning of its own leads to none.
pub proof fn law_only_hints_lead_to_rows(
    desktops: Seq<DesktopInfo>,
    windows: Seq<WindowInfo>,
    current: u32,
    focused: Option<u32>,
    pad_y: int,
    header_h: int,
    app_h: int,
    c: char,
)
    requires
        rows_of(desktops, windows, current, focused).len() <= usize::MAX,
    ensures
        ({
            let l = placed(rows_of(desktops, windows, current, focused), pad_y, header_h, app_h);
            &&& l.hint_row(c) matches Some(i) ==> i < l.rows.len() && l.has_hint(c, i as int)
            &&& is_bound(c) ==> l.hint_row(c) is None
            &&& !('a' <= c <= 'z') ==> l.hint_row(c) is None
        }),
{
    let l = placed(rows_of(desktops, windows, current, focused), pad_y, header_h, app_h);
    lemma_hint_from_sound(l, c, 0);
    law_hint_pool();
    if let Some(i) = l.hint_row(c) {
        law_hints_go_in_order(desktops, windows, current, focused, i as int);
    }
}

/// The desktop below whose header row `i` is: that of the nearest header at or
/// above it.
pub open spec fn desktop_above(rows: Seq<Row>, i: int) -> Option<usize>
    decreases i + 1,
{
    if i < 0 || i >= rows.len() {
        None
    } else {
        match rows[i] {
            Row::Header { desktop_idx, .. } => Some(desktop_idx),
            Row::App { .. } => desktop_above(rows, i - 1),
        }
    }
}

proof fn lemma_desktop_above_prefix(a: Seq<Row>, b: Seq<Row>, i: int)
    requires
        i < a.len() <= b.len(),
        forall|k: int| 0 <= k < a.len() ==> a[k] == b[k],
    ensures
        desktop_above(a, i) == desktop_above(b, i),
    decreases i + 1,
{
    if 0 <= i {
        lemma_desktop_above_prefix(a, b, i - 1);
    }
}

proof fn lemma_desktop_above_apps(rows: Seq<Row>, header: int, i: int)
    requires
        0 <= header <= i < rows.len(),
        rows[header] is Header,
        forall|k: int| header < k <= i ==> rows[k] is App,
    ensures
        desktop_above(rows, i) == Some(rows[header]->desktop_idx),
    decreases i,
{
    if header < i {
        lemma_desktop_above_apps(rows, header, i - 1);
    }
}

proof fn lemma_apps_below(windows: Seq<WindowInfo>, desktop: u32, n: int)
    requires
        0 <= n <= windows.len() <= usize::MAX,
    ensures
        ({
            let apps = apps_below(windows, desktop, n);
            &&& forall|k: int|
                0 <= k < apps.len() ==> (#[trigger] apps[k]) < n && listed_on(
                    windows[apps[k] as int],
                    desktop,
                )
            &&& forall|k: int, m: int| 0 <= k < m < apps.len() ==> apps[k] > apps[m]
            &&& forall|w: int|
                0 <= w < n && listed_on(#[trigger] windows[w], desktop) ==> apps.contains(
                    w as usize,
                )
        }),
    decreases n,
{
    if n > 0 {
        lemma_apps_below(windows, desktop, n - 1);
        let rest = apps_below(windows, desktop, n - 1);
        let apps = apps_below(windows, desktop, n);
        if listed_on(windows[n - 1], desktop) {
            assert(apps[0] == n - 1);
            assert forall|k: int| 0 <= k < apps.len() implies (#[trigger] apps[k]) < n && listed_on(
                windows[apps[k] as int],
                desktop,
            ) by {
                if k > 0 {
                    assert(apps[k] == rest[k - 1]);
                }
            }
            assert forall|k: int, m: int| 0 <= k < m < apps.len() implies apps[k] > apps[m] by {
                assert(apps[m] == rest[m - 1]);
                if k > 0 {
                    assert(apps[k] == rest[k - 1]);
                }
            }
            assert forall|w: int|
                0 <= w < n && listed_on(#[trigger] windows[w], desktop) implies apps.contains(
                w as usize,
            ) by {
                if w < n - 1 {
                    let k = choose|k: int| 0 <= k < rest.len() && rest[k] == w as usize;
                    assert(apps[k + 1] == w as usize);
                }
            }
        }
    }
}

/// Whether row `i` says what it should: a header shows a desktop, whether it
/// is the current one and whether it is empty; an app row shows a window that
/// is listed on the desktop above, and whether it has the focus.
pub open spec fn row_is_right(
    desktops: Seq<DesktopInfo>,
    windows: Seq<WindowInfo>,
    current_desktop: u32,
    focused_window: Option<u32>,
    rows: Seq<Row>,
    i: int,
) -> bool {
    match rows[i] {
        Row::Header { desktop_idx, current, empty } => {
            &&& desktop_idx < desktops.len()
            &&& current == (desktops[desktop_idx as int].index == current_desktop)
            &&& empty == forall|w: int|
                0 <= w < windows.len() ==> !listed_on(
                    #[trigger] windows[w],
                    desktops[desktop_idx as int].index,
                )
        },
        Row::App { window_idx, focused, .. } => {
            &&& window_idx < windows.len()
            &&& focused == (focused_window == Some(windows[window_idx as int].id))
            &&& desktop_above(rows, i) matches Some(di) && di < desktops.len() && listed_on(
                windows[window_idx as int],
                desktops[di as int].index,
            )
        },
    }
}

proof fn lemma_rows_are_right(
    desktops: Seq<DesktopInfo>,
    windows: Seq<WindowInfo>,
    current: u32,
    focused: Option<u32>,
    n: int,
    i: int,
)
    requires
        0 <= n <= desktops.len() <= usize::MAX,
        windows.len() <= usize::MAX,
        0 <= i < rows_upto(desktops, windows, current, focused, n).len(),
    ensures
        ({
            let rows = rows_upto(desktops, windows, current, focused, n);
            &&& row_is_right(desktops, windows, current, focused, rows, i)
            &&& desktop_above(rows, i) matches Some(di) && di < n
        }),
    decreases n,
{
    if n > 0 {
        let above = rows_upto(desktops, windows, current, focused, n - 1);
        let rows = rows_upto(desktops, windows, current, focused, n);
        let apps = apps_on(windows, desktops[n - 1].index);
        lemma_apps_below(windows, desktops[n - 1].index, windows.len() as int);
        if i < above.len() {
            lemma_rows_are_right(desktops, windows, current, focused, n - 1, i);
            lemma_desktop_above_prefix(above, rows, i);
            assert(rows[i] == above[i]);
        } else {
            lemma_desktop_above_apps(rows, above.len() as int, i);
            if i == above.len() {
                if apps.len() > 0 {
                    assert(listed_on(windows[apps[0] as int], desktops[n - 1].index));
                }
            } else {
                assert(rows[i]->window_idx == apps[i - above.len() - 1]);
            }
        }
    }
}

/// Every row says what it should.
pub proof fn law_rows_are_right(
    desktops: Seq<DesktopInfo>,
    windows: Seq<WindowInfo>,
    current: u32,
    focused: Option<u32>,
)
    requires
        desktops.len() <= usize::MAX,
        windows.len() <= usize::MAX,
    ensures
        ({
            let rows = rows_of(desktops, windows, current, focused);
            forall|i: int|
                0 <= i < rows.len() ==> #[trigger] row_is_right(
                    desktops,
                    windows,
                    current,
                    focused,
                    rows,
                    i,
                )
        }),
{
    reveal(rows_of);
    let rows = rows_of(desktops, windows, current, focused);
    assert forall|i: int| 0 <= i < rows.len() implies #[trigger] row_is_right(
        desktops,
        windows,
        current,
        focused,
        rows,
        i,
    ) by {
        lemma_rows_are_right(desktops, windows, current, focused, desktops.len() as int, i);
    }
}

/// Whether row `i` is the header of desktop `di`.
pub open spec fn is_header_of(rows: Seq<Row>, i: int, di: int) -> bool {
    0 <= i < rows.len() && (rows[i] matches Row::Header { desktop_idx, .. } && desktop_idx == di)
}

/// Whether row `i` shows window `wi` below the header of desktop `di`.
pub open spec fn shows_below(rows: Seq<Row>, i: int, wi: int, di: int) -> bool {
    0 <= i < rows.len() && (rows[i] matches Row::App { window_idx, .. } && window_idx == wi)
        && desktop_above(rows, i) == Some(di as usize)
}

/// Every desktop has a header, and every window is shown below each desktop
/// that it is listed on; a window on all desktops is shown below each of them.
pub proof fn law_everything_is_listed(
    desktops: Seq<DesktopInfo>,
    windows: Seq<WindowInfo>,
    current: u32,
    focused: Option<u32>,
    di: int,
)
    requires
        desktops.len() <= usize::MAX,
        windows.len() <= usize::MAX,
        0 <= di < desktops.len(),
    ensures
        ({
            let rows = rows_of(desktops, windows, current, focused);
            &&& exists|i: int| is_header_of(rows, i, di)
            &&& forall|wi: int|
                0 <= wi < windows.len() && listed_on(#[trigger] windows[wi], desktops[di].index)
                    ==> exists|i: int| shows_below(rows, i, wi, di)
        }),
{
    reveal(rows_of);
    let rows = rows_of(desktops, windows, current, focused);
    let above = rows_upto(desktops, windows, current, focused, di);
    let part = rows_upto(desktops, windows, current, focused, di + 1);
    let h = above.len() as int;
    let apps = apps_on(windows, desktops[di].index);
    lemma_rows_prefix(desktops, windows, current, focused, di + 1, desktops.len() as int);
    assert(part == rows.take(part.len() as int));
    assert(rows[h] == part[h]);
    assert(is_header_of(rows, h, di));
    lemma_apps_below(windows, desktops[di].index, windows.len() as int);
    assert forall|wi: int|
        0 <= wi < windows.len() && listed_on(
            #[trigger] windows[wi],
            desktops[di].index,
        ) implies exists|i: int| shows_below(rows, i, wi, di) by {
        let k = choose|k: int| 0 <= k < apps.len() && apps[k] == wi as usize;
        let i = h + 1 + k;
        assert(part[i]->window_idx == apps[k]);
        assert forall|j: int| h < j <= i implies rows[j] is App by {
            assert(rows[j] == part[j]);
        }
        assert(rows[i] == part[i]);
        lemma_desktop_above_apps(rows, h, i);
        assert(shows_below(rows, i, wi, di));
    }
}

/// The desktops come in their own order, and below each of them the topmost
/// window comes first. So no desktop has two headers, and no window is shown
/// twice below one desktop.
pub proof fn law_rows_are_in_order(
    desktops: Seq<DesktopInfo>,
    windows: Seq<WindowInfo>,
    current: u32,
    focused: Option<u32>,
    i: int,
    k: int,
)
    requires
        desktops.len() <= usize::MAX,
        windows.len() <= usize::MAX,
        0 <= i < k < rows_of(desktops, windows, current, focused).len(),
    ensures
        ({
            let rows = rows_of(desktops, windows, current, focused);
            &&& rows[i] is Header && rows[k] is Header ==> rows[i]->desktop_idx
                < rows[k]->desktop_idx
            &&& rows[i] is App && rows[k] is App && desktop_above(rows, i) == desktop_above(rows, k)
                ==> rows[i]->window_idx > rows[k]->window_idx
        }),
{
    reveal(rows_of);
    lemma_rows_in_order(desktops, windows, current, focused, desktops.len() as int, i, k);
}

proof fn lemma_rows_in_order(
    desktops: Seq<DesktopInfo>,
    windows: Seq<WindowInfo>,
    current: u32,
    focused: Option<u32>,
    n: int,
    i: int,
    k: int,
)
    requires
        0 <= n <= desktops.len() <= usize::MAX,
        windows.len() <= usize::MAX,
        0 <= i < k < rows_upto(desktops, windows, current, focused, n).len(),
    ensures
        ({
            let rows = rows_upto(desktops, windows, current, focused, n);
            &&& rows[i] is Header && rows[k] is Header ==> rows[i]->desktop_idx
                < rows[k]->desktop_idx
            &&& rows[i] is App && rows[k] is App && desktop_above(rows, i) == desktop_above(rows, k)
                ==> rows[i]->window_idx > rows[k]->window_idx
        }),
    decreases n,
{
    if n > 0 {
        let above = rows_upto(desktops, windows, current, focused, n - 1);
        let rows = rows_upto(desktops, windows, current, focused, n);
        let apps = apps_on(windows, desktops[n - 1].index);
        if i < above.len() {
            lemma_desktop_above_prefix(above, rows, i);
            lemma_rows_are_right(desktops, windows, current, focused, n - 1, i);
            assert(rows[i] == above[i]);
            if k < above.len() {
                lemma_rows_in_order(desktops, windows, current, focused, n - 1, i, k);
                lemma_desktop_above_prefix(above, rows, k);
                assert(rows[k] == above[k]);
            } else {
                lemma_desktop_above_apps(rows, above.len() as int, k);
            }
        } else {
            lemma_apps_below(windows, desktops[n - 1].index, windows.len() as int);
            assert(rows[k]->window_idx == apps[k - above.len() - 1]);
            if i > above.len() {
                assert(rows[i]->window_idx == apps[i - above.len() - 1]);
            }
        }
    }
}

/// The rows follow each other without gaps, between two strips of padding.
pub proof fn law_rows_are_stacked(rows: Seq<Row>, pad_y: int, header_h: int, app_h: int)
    requires
        rows.len() > 0,
    ensures
        ({
            let l = placed(rows, pad_y, header_h, app_h);
            &&& l.row_y[0] == pad_y
            &&& forall|i: int|
                0 < i < rows.len() ==> (#[trigger] l.row_y[i]) == l.row_y[i - 1] + l.row_h[i - 1]
            &&& l.content_h == l.row_y[rows.len() - 1] + l.row_h[rows.len() - 1] + pad_y
        }),
{
}

/// Rows further down are further down.
pub(crate) proof fn lemma_top_grows(
    rows: Seq<Row>,
    pad_y: int,
    header_h: int,
    app_h: int,
    i: int,
    k: int,
)
    requires
        0 <= header_h,
        0 <= app_h,
        0 <= i <= k <= rows.len(),
    ensures
        top_of(rows, pad_y, header_h, app_h, i) <= top_of(rows, pad_y, header_h, app_h, k),
        i < k ==> top_of(rows, pad_y, header_h, app_h, i) + height_of(rows[i], header_h, app_h)
            <= top_of(rows, pad_y, header_h, app_h, k),
    decreases k - i,
{
    if i < k {
        lemma_top_grows(rows, pad_y, header_h, app_h, i, k - 1);
    }
}

proof fn lemma_row_from(l: LayoutView, target: int, i: int, from: int)
    requires
        0 <= from <= i < l.rows.len() <= usize::MAX,
        l.hits(target, i),
        forall|k: int| from <= k < i ==> !l.hits(target, k),
    ensures
        l.row_from(target, from) == Some(i as usize),
    decreases i - from,
{
    if from < i {
        lemma_row_from(l, target, i, from + 1);
    }
}

/// A point on a row finds that row and no other.
pub proof fn law_point_finds_its_row(
    rows: Seq<Row>,
    pad_y: int,
    header_h: int,
    app_h: int,
    y_in_window: int,
    scroll: int,
    i: int,
)
    requires
        0 <= header_h,
        0 <= app_h,
        0 <= i < rows.len() <= usize::MAX,
        placed(rows, pad_y, header_h, app_h).hits(y_in_window + scroll, i),
    ensures
        placed(rows, pad_y, header_h, app_h).row_at(y_in_window, scroll) == Some(i as usize),
{
    let l = placed(rows, pad_y, header_h, app_h);
    let target = y_in_window + scroll;
    assert forall|k: int| 0 <= k < i implies !l.hits(target, k) by {
        lemma_top_grows(rows, pad_y, header_h, app_h, k, i);
    }
    lemma_row_from(l, target, i, 0);
}

/// The letters that hints are taken from, in order.
pub proof fn law_hints_in_order()
    ensures
        hint_pool() == "fsarewtvcxbzhlnmuiopy"@,
{
    reveal_strlit("fsarewtvcxbzhlnmuiopy");
    assert(hint_pool() =~= "fsarewtvcxbzhlnmuiopy"@);
}

/// Below the header of a desktop come exactly the windows that are on that
/// desktop or on all of them, and a header is marked as empty just if there are
/// none.
pub proof fn law_windows_are_below_their_desktop(
    desktops: Seq<DesktopInfo>,
    windows: Seq<WindowInfo>,
    current: u32,
    focused: Option<u32>,
    di: int,
    wi: int,
)
    requires
        desktops.len() <= usize::MAX,
        windows.len() <= usize::MAX,
        0 <= di < desktops.len(),
        0 <= wi < windows.len(),
    ensures
        ({
            let rows = rows_of(desktops, windows, current, focused);
            let belongs = windows[wi].desktop == desktops[di].index || windows[wi].desktop
                == u32::MAX;
            &&& belongs <==> exists|i: int| shows_below(rows, i, wi, di)
            &&& forall|i: int|
                #[trigger] is_header_of(rows, i, di) ==> (rows[i]->current <==> desktops[di].index
                    == current) && (belongs ==> !rows[i]->empty) && (!rows[i]->empty ==> exists|
                    k: int,
                |
                    0 <= k < windows.len() && ((#[trigger] windows[k]).desktop == desktops[di].index
                        || windows[k].desktop == u32::MAX))
        }),
{
    let rows = rows_of(desktops, windows, current, focused);
    law_everything_is_listed(desktops, windows, current, focused, di);
    law_rows_are_right(desktops, windows, current, focused);
    assert forall|i: int| shows_below(rows, i, wi, di) implies windows[wi].desktop
        == desktops[di].index || windows[wi].desktop == u32::MAX by {
        assert(row_is_right(desktops, windows, current, focused, rows, i));
    }
    assert forall|i: int| #[trigger] is_header_of(rows, i, di) implies (rows[i]->current
        <==> desktops[di].index == current) && ((windows[wi].desktop == desktops[di].index
        || windows[wi].desktop == u32::MAX) ==> !rows[i]->empty) && (!rows[i]->empty ==> exists|
        k: int,
    |
        0 <= k < windows.len() && ((#[trigger] windows[k]).desktop == desktops[di].index
            || windows[k].desktop == u32::MAX)) by {
        assert(row_is_right(desktops, windows, current, focused, rows, i));
        assert(listed_on(windows[wi], desktops[di].index) <==> (windows[wi].desktop
            == desktops[di].index || windows[wi].desktop == u32::MAX));
        if !rows[i]->empty {
            let k = choose|k: int|
                0 <= k < windows.len() && listed_on(#[trigger] windows[k], desktops[di].index);
            assert(windows[k].desktop == desktops[di].index || windows[k].desktop == u32::MAX);
        }
    }
}

/// An app row is marked just if its window has the focus.
pub proof fn law_focus_is_marked(
    desktops: Seq<DesktopInfo>,
    windows: Seq<WindowInfo>,
    current: u32,
    focused: Option<u32>,
    i: int,
)
    requires
        desktops.len() <= usize::MAX,
        windows.len() <= usize::MAX,
        0 <= i < rows_of(desktops, windows, current, focused).len(),
    ensures
        rows_of(desktops, windows, current, focused)[i] matches Row::App {
            window_idx,
            focused: marked,
            ..
        } ==> window_idx < windows.len() && (marked <==> focused == Some(
            windows[window_idx as int].id,
        )),
{
    law_rows_are_right(desktops, windows, current, focused);
    assert(row_is_right(
        desktops,
        windows,
        current,
        focused,
        rows_of(desktops, windows, current, focused),
        i,
    ));
}

/// Headers are as high as configured for headers, and app rows as configured
/// for apps. The first row starts below the padding, every other one where the
/// row above it ends, and below the last one there is the padding again.
pub proof fn law_rows_have_their_heights(
    rows: Seq<Row>,
    pad_y: int,
    header_h: int,
    app_h: int,
    i: int,
)
    requires
        0 <= i < rows.len(),
    ensures
        ({
            let l = placed(rows, pad_y, header_h, app_h);
            &&& l.rows == rows && l.row_y.len() == rows.len() && l.row_h.len() == rows.len()
            &&& rows[i] is Header ==> l.row_h[i] == header_h
            &&& rows[i] is App ==> l.row_h[i] == app_h
            &&& i == 0 ==> l.row_y[i] == pad_y
            &&& i > 0 ==> l.row_y[i] == l.row_y[i - 1] + l.row_h[i - 1]
            &&& i == rows.len() - 1 ==> l.content_h == l.row_y[i] + l.row_h[i] + pad_y
        }),
{
}

/// Without rows there are only the two strips of padding.
pub proof fn law_no_rows_no_height(pad_y: int, header_h: int, app_h: int)
    ensures
        placed(Seq::<Row>::empty(), pad_y, header_h, app_h).content_h == 2 * pad_y,
{
}

/// A height in the popup finds the row whose upper edge is at or above it and
/// whose lower edge is below it, counting what is scrolled away; where there is
/// no such row it finds none.
pub proof fn law_heights_find_rows(
    rows: Seq<Row>,
    pad_y: int,
    header_h: int,
    app_h: int,
    y: int,
    scroll: int,
    i: int,
)
    requires
        0 <= header_h,
        0 <= app_h,
        0 <= i < rows.len() <= usize::MAX,
    ensures
        ({
            let l = placed(rows, pad_y, header_h, app_h);
            &&& l.row_y[i] <= y + scroll && y + scroll < l.row_y[i] + l.row_h[i] <==> l.row_at(
                y,
                scroll,
            ) == Some(i as usize)
            &&& y + scroll < pad_y || y + scroll >= l.content_h - pad_y ==> l.row_at(y, scroll)
                is None
        }),
{
    let l = placed(rows, pad_y, header_h, app_h);
    if l.row_y[i] <= y + scroll < l.row_y[i] + l.row_h[i] {
        law_point_finds_its_row(rows, pad_y, header_h, app_h, y, scroll, i);
    }
    lemma_row_from_in_range(l, y + scroll, 0);
    if let Some(k) = l.row_at(y, scroll) {
        lemma_top_grows(rows, pad_y, header_h, app_h, 0, k as int);
        lemma_top_grows(rows, pad_y, header_h, app_h, k as int, rows.len() as int);
    }
}

/// The first app row has the first hint, and each app row the hint after that of
/// the app row before it, also where headers are in between. Once the last hint
/// is used, there are none.
pub proof fn law_hints_follow_each_other(
    desktops: Seq<DesktopInfo>,
    windows: Seq<WindowInfo>,
    current: u32,
    focused: Option<u32>,
    i: int,
    k: int,
    n: int,
)
    requires
        0 <= k < rows_of(desktops, windows, current, focused).len(),
        rows_of(desktops, windows, current, focused)[k] is App,
        -1 <= i < k,
        forall|m: int|
            i < m < k ==> (#[trigger] rows_of(desktops, windows, current, focused)[m]) is Header,
        i >= 0 ==> rows_of(desktops, windows, current, focused)[i] is App,
        0 <= n < 21,
    ensures
        ({
            let rows = rows_of(desktops, windows, current, focused);
            let pool = "fsarewtvcxbzhlnmuiopy"@;
            &&& i < 0 ==> rows[k]->hint == Some('f')
            &&& i >= 0 && rows[i]->hint == Some(pool[n]) ==> rows[k]->hint == if n < 20 {
                Some(pool[n + 1])
            } else {
                None
            }
            &&& i >= 0 && rows[i]->hint is None ==> rows[k]->hint is None
        }),
{
    reveal_strlit("fsarewtvcxbzhlnmuiopy");
    law_hints_in_order();
    law_hint_pool();
    let rows = rows_of(desktops, windows, current, focused);
    law_hints_go_in_order(desktops, windows, current, focused, k);
    if i >= 0 {
        law_hints_go_in_order(desktops, windows, current, focused, i);
        lemma_headers_between(rows, i + 1, k);
        assert(rows.take(i + 1).drop_last() =~= rows.take(i));
        assert(rows.take(i + 1).last() == rows[i]);
    } else {
        lemma_headers_between(rows, 0, k);
        assert(rows.take(0).len() == 0);
    }
}

proof fn lemma_headers_between(rows: Seq<Row>, i: int, k: int)
    requires
        0 <= i <= k <= rows.len(),
        forall|m: int| i <= m < k ==> (#[trigger] rows[m]) is Header,
    ensures
        app_count(rows.take(i)) == app_count(rows.take(k)),
    decreases k - i,
{
    if i < k {
        lemma_headers_between(rows, i, k - 1);
        assert(rows.take(k).drop_last() =~= rows.take(k - 1));
        assert(rows.take(k).last() == rows[k - 1]);
    }
}

} // verus!
