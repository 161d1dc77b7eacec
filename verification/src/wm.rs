//! What the popup asks of the window manager, and which desktop comes next.

use vstd::prelude::*;

verus! {

/// One request to the window manager.
#[derive(Debug, Clone, Copy, PartialEq, Eq, Structural)]
pub enum WmOp {
    /// Put a window on a desktop.
    MoveToDesktop { window: u32, desktop: u32 },
    /// Show a desktop.
    SwitchDesktop { desktop: u32, time: u32 },
    /// Focus a window.
    Activate { window: u32, time: u32 },
    /// Bring a window to the top of its stack.
    Raise { window: u32 },
    /// Record that the user touched a window, so that focusing it is honoured.
    BumpUserTime { window: u32, time: u32 },
    /// Ask a window to close; it gets a chance to save.
    Close { window: u32, time: u32 },
}

/// Work to be done after a step, in order.
#[derive(Debug, Clone, Copy, PartialEq, Eq, Structural)]
pub enum Effect {
    /// A request that has to succeed; when it fails, the rest of the work is
    /// dropped and the popup ends with the error.
    Require(WmOp),
    /// A request whose failure is ignored.
    Attempt(WmOp),
    /// Read the active window again. When that succeeds, the answer becomes
    /// the focused window.
    RefreshFocus,
}

/// How the work of a step went.
#[derive(Debug, Clone, Copy, PartialEq, Eq, Structural)]
pub struct Report {
    /// Which effect of the step failed, counted from zero, of those that have
    /// to succeed. The effects behind it were not carried out.
    pub failed: Option<usize>,
    /// The active window, if it was read again.
    pub focus: Option<Option<u32>>,
}

/// All requests succeeded, and the focus was not read again.
pub open spec fn all_done() -> Report {
    Report { failed: None, focus: None }
}

/// A request failed that has to succeed.
#[derive(Debug, Clone, Copy, PartialEq, Eq, Structural)]
pub struct RequestFailed {
    pub at: usize,
}

/// Whether the work of a step stops at an effect, given whether that effect
/// succeeded.
pub fn stops_at(effect: Effect, succeeded: bool) -> (r: bool)
    ensures
        r == (effect is Require && !succeeded),
{
    match effect {
        Effect::Require(_) => !succeeded,
        Effect::Attempt(_) | Effect::RefreshFocus => false,
    }
}

/// The change that a step makes once its requests have succeeded.
#[derive(Debug, Clone, Copy, PartialEq, Eq, Structural)]
pub enum Commit {
    Nothing,
    /// The focus is on `window`, on desktop `target`.
    Activate { window: u32, target: u32 },
    /// The window at `window_idx` is on desktop `target`; `moves` says whether
    /// it was asked to go there, and `in_front` whether it gets the focus.
    Place { window_idx: usize, target: u32, moves: bool, in_front: bool },
    /// The window at `window_idx` is gone.
    Close { window_idx: usize },
}

/// `x` as a 32-bit signed number, wrapping around.
pub open spec fn wrap_i32(x: int) -> int {
    let m = x % 0x1_0000_0000;
    if m < 0x8000_0000 {
        m
    } else {
        m - 0x1_0000_0000
    }
}

/// Where a step from desktop `base` among `n` desktops starts. A desktop that
/// is there counts as itself. Any other number counts as a signed one, so that
/// the number that stands for all desktops comes right before the first.
pub open spec fn start_of(base: u32, n: int) -> int {
    if base < n {
        base as int
    } else {
        wrap_i32(base as int)
    }
}

/// The desktop `delta` steps from `base` among `n` desktops, going round at
/// the ends.
pub open spec fn stepped(base: u32, delta: int, n: int) -> u32 {
    ((start_of(base, n) + delta) % n) as u32
}

/// The desktop `delta` steps from `base` among `n` desktops, going round at
/// the ends.
pub fn step_desktop(base: u32, delta: i32, n: u64) -> (r: u32)
    requires
        n > 0,
    ensures
        r == stepped(base, delta as int, n as int),
        n <= u32::MAX ==> r < n,
        base < n <= u32::MAX ==> r == (base + delta) % (n as int),
        n <= u32::MAX && (base >= n || base <= 0x7fff_ffff) ==> r == (wrap_i32(base as int) + delta)
            % (n as int),
{
    let b: i128 = if (base as u64) < n || base <= 0x7fff_ffff {
        base as i128
    } else {
        base as i128 - 0x1_0000_0000
    };
    proof {
        lemma_rem_range(b + delta, n as int);
    }
    match (b + delta as i128).checked_rem_euclid(n as i128) {
        Some(v) => v as u32,
        None => 0,
    }
}

pub(crate) proof fn lemma_rem_range(a: int, b: int)
    requires
        b != 0,
    ensures
        0 <= a % b,
        b > 0 ==> a % b < b,
        b < 0 ==> a % b < -b,
{
    assert(0 <= a % b && (b > 0 ==> a % b < b) && (b < 0 ==> a % b < -b)) by (nonlinear_arith)
        requires
            b != 0,
    ;
}

/// Going on by one desktop leads to the next one, and from the last to the
/// first; going back leads the other way round.
pub proof fn law_steps_go_round(base: u32, n: int)
    requires
        base < n <= u32::MAX,
    ensures
        stepped(base, 1, n) == if base + 1 < n {
            (base + 1) as u32
        } else {
            0
        },
        stepped(base, -1, n) == if base > 0 {
            (base - 1) as u32
        } else {
            (n - 1) as u32
        },
{
    assert(start_of(base, n) == base);
    vstd::arithmetic::div_mod::lemma_small_mod(base as nat, n as nat);
    if base + 1 < n {
        vstd::arithmetic::div_mod::lemma_small_mod((base + 1) as nat, n as nat);
    } else {
        vstd::arithmetic::div_mod::lemma_mod_self_0(n);
    }
    if base > 0 {
        vstd::arithmetic::div_mod::lemma_small_mod((base - 1) as nat, n as nat);
    } else {
        vstd::arithmetic::div_mod::lemma_mod_add_multiples_vanish(-1, n);
        vstd::arithmetic::div_mod::lemma_small_mod((n - 1) as nat, n as nat);
    }
}

/// Going on by some desktops and back by as many ends where it started.
pub proof fn law_steps_can_be_taken_back(base: u32, delta: int, n: int)
    requires
        base < n <= u32::MAX,
    ensures
        stepped(base, delta, n) < n,
        stepped(stepped(base, delta, n), -delta, n) == base,
{
    assert(start_of(base, n) == base);
    let there = (base + delta) % n;
    lemma_rem_range(base + delta, n);
    assert(stepped(base, delta, n) == there);
    assert(start_of(there as u32, n) == there);
    vstd::arithmetic::div_mod::lemma_add_mod_noop(base + delta, -delta, n);
    vstd::arithmetic::div_mod::lemma_add_mod_noop(there, -delta, n);
    vstd::arithmetic::div_mod::lemma_mod_twice(base + delta, n);
    vstd::arithmetic::div_mod::lemma_small_mod(base as nat, n as nat);
    assert((there - delta) % n == (base + delta - delta) % n);
}

/// A step of `delta` ends on one of the `n` desktops, and `delta` desktops on
/// from where it started, around the ends. A number that stands for no desktop
/// is taken as a signed one.
pub proof fn law_steps_count(base: u32, delta: int, n: int)
    requires
        0 < n <= u32::MAX,
    ensures
        stepped(base, delta, n) < n,
        base < n || base < 0x8000_0000 ==> (stepped(base, delta, n) - base - delta) % n == 0,
        base >= n && base >= 0x8000_0000 ==> (stepped(base, delta, n) - (base - 0x1_0000_0000)
            - delta) % n == 0,
{
    let b = start_of(base, n);
    let a = b + delta;
    lemma_rem_range(a, n);
    vstd::arithmetic::div_mod::lemma_fundamental_div_mod(a, n);
    let r = a % n;
    assert(r - a == n * (-(a / n))) by (nonlinear_arith)
        requires
            a == n * (a / n) + r,
    ;
    vstd::arithmetic::div_mod::lemma_mod_multiples_basic(-(a / n), n);
    assert((r - a) % n == 0) by {
        vstd::arithmetic::mul::lemma_mul_is_commutative(n, -(a / n));
    }
    assert(r - a == r - b - delta);
}

/// Two steps in a row are one step of their sum.
pub proof fn law_steps_add_up(base: u32, a: int, b: int, n: int)
    requires
        base < n <= u32::MAX,
    ensures
        stepped(base, 0, n) == base,
        stepped(stepped(base, a, n), b, n) == stepped(base, a + b, n),
{
    vstd::arithmetic::div_mod::lemma_small_mod(base as nat, n as nat);
    let there = (base + a) % n;
    lemma_rem_range(base + a, n);
    assert(stepped(base, a, n) == there);
    vstd::arithmetic::div_mod::lemma_add_mod_noop(base + a, b, n);
    vstd::arithmetic::div_mod::lemma_add_mod_noop(there, b, n);
    vstd::arithmetic::div_mod::lemma_mod_twice(base + a, n);
    assert((there + b) % n == (base + a + b) % n);
}

/// The work of a step stops only at a request that has to succeed and did not;
/// a failed attempt and a failed reading of the focus stop nothing.
pub proof fn law_only_required_requests_stop(op: WmOp, succeeded: bool, a: bool, b: bool, c: bool)
    requires
        call_ensures(stops_at, (Effect::Require(op), succeeded), a),
        call_ensures(stops_at, (Effect::Attempt(op), succeeded), b),
        call_ensures(stops_at, (Effect::RefreshFocus, succeeded), c),
    ensures
        a == !succeeded,
        !b && !c,
{
}

} // verus!
