//! Where the popup opens, how it looks to the server, and how it gets hold of
//! the keyboard.

#[allow(unused_imports)]
use crate::ewmh::{
    class_bytes_in, law_class_is_found_again, law_pieces_are_found_again, pieces, terminated,
};
#[allow(unused_imports)]
use crate::property::PropertyReply;
use crate::x11::{grab_success, true_color};
use vstd::prelude::*;
#[allow(unused_imports)]
use vstd::utf8::encode_utf8;

verus! {

/// A rectangle on the screen, in pixels.
#[derive(Debug, Clone, Copy, PartialEq, Eq, Structural)]
pub struct Geometry {
    pub x: i16,
    pub y: i16,
    pub w: u16,
    pub h: u16,
}

/// A monitor and whether it is the primary one.
#[derive(Debug, Clone, Copy, PartialEq, Eq, Structural)]
pub struct Monitor {
    pub area: Geometry,
    pub primary: bool,
}

/// `a / 2`, rounded towards zero.
pub open spec fn half(a: int) -> int {
    if a >= 0 {
        a / 2
    } else {
        -((-a) / 2)
    }
}

/// Where something of size `inner` starts so that it is in the middle of
/// something of size `outer` that starts at `start`.
pub open spec fn centered(start: int, outer: int, inner: int) -> int {
    start + half(outer - inner)
}

fn center_on(start: i16, outer: u16, inner: u16) -> (r: i32)
    ensures
        r == centered(start as int, outer as int, inner as int),
{
    if outer >= inner {
        start as i32 + ((outer - inner) / 2) as i32
    } else {
        start as i32 - ((inner - outer) / 2) as i32
    }
}

impl Geometry {
    /// Whether a point is on the rectangle.
    pub open spec fn holds(self, x: int, y: int) -> bool {
        self.x <= x < self.x + self.w && self.y <= y < self.y + self.h
    }

    /// The top left corner of a popup in the middle of the rectangle.
    pub open spec fn middle_for(self, width: u16, height: u16) -> (int, int) {
        (
            centered(self.x as int, self.w as int, width as int),
            centered(self.y as int, self.h as int, height as int),
        )
    }

    fn contains(&self, x: i16, y: i16) -> (r: bool)
        ensures
            r == self.holds(x as int, y as int),
    {
        let (x, y): (i32, i32) = (x as i32, y as i32);
        let (left, top): (i32, i32) = (self.x as i32, self.y as i32);
        x >= left && x < left + self.w as i32 && y >= top && y < top + self.h as i32
    }

    /// The top left corner of a popup in the middle of the rectangle. `None`
    /// if it is beyond what the server can address.
    pub fn center(&self, width: u16, height: u16) -> (r: Option<(i16, i16)>)
        ensures
            ({
                let (x, y) = self.middle_for(width, height);
                if i16::MIN <= x <= i16::MAX && i16::MIN <= y <= i16::MAX {
                    r matches Some(p) && p.0 == x && p.1 == y
                } else {
                    r is None
                }
            }),
    {
        let x = center_on(self.x, self.w, width);
        let y = center_on(self.y, self.h, height);
        if -0x8000 <= x && x <= 0x7fff && -0x8000 <= y && y <= 0x7fff {
            Some((x as i16, y as i16))
        } else {
            None
        }
    }
}

/// The first monitor from `i` on that holds a point.
pub open spec fn monitor_from(monitors: Seq<Monitor>, x: int, y: int, i: int) -> Option<int>
    decreases monitors.len() - i,
{
    if i < 0 || i >= monitors.len() {
        None
    } else if monitors[i].area.holds(x, y) {
        Some(i)
    } else {
        monitor_from(monitors, x, y, i + 1)
    }
}

/// The first primary monitor from `i` on.
pub open spec fn primary_from(monitors: Seq<Monitor>, i: int) -> Option<int>
    decreases monitors.len() - i,
{
    if i < 0 || i >= monitors.len() {
        None
    } else if monitors[i].primary {
        Some(i)
    } else {
        primary_from(monitors, i + 1)
    }
}

/// The monitor to open on: the one under the pointer, or else the primary one,
/// or else the first.
pub open spec fn chosen_monitor(monitors: Seq<Monitor>, x: int, y: int) -> Option<Geometry> {
    if monitors.len() == 0 {
        None
    } else {
        let i = match monitor_from(monitors, x, y, 0) {
            Some(i) => i,
            None => match primary_from(monitors, 0) {
                Some(i) => i,
                None => 0,
            },
        };
        Some(monitors[i].area)
    }
}

/// The monitor to open on, given where the pointer is. `None` if no monitors
/// are known.
pub fn monitor_under_pointer(monitors: &[Monitor], x: i16, y: i16) -> (r: Option<Geometry>)
    ensures
        r == chosen_monitor(monitors@, x as int, y as int),
{
    if monitors.len() == 0 {
        return None;
    }
    let mut i: usize = 0;
    while i < monitors.len()
        invariant
            i <= monitors@.len(),
            monitor_from(monitors@, x as int, y as int, i as int) == monitor_from(
                monitors@,
                x as int,
                y as int,
                0,
            ),
        decreases monitors@.len() - i,
    {
        if monitors[i].area.contains(x, y) {
            return Some(monitors[i].area);
        }
        i += 1;
    }
    let mut i: usize = 0;
    while i < monitors.len()
        invariant
            i <= monitors@.len(),
            monitor_from(monitors@, x as int, y as int, 0) is None,
            primary_from(monitors@, i as int) == primary_from(monitors@, 0),
        decreases monitors@.len() - i,
    {
        if monitors[i].primary {
            return Some(monitors[i].area);
        }
        i += 1;
    }
    Some(monitors[0].area)
}

/// A way to show pixels: its number and its class.
#[derive(Debug, Clone, Copy, PartialEq, Eq, Structural)]
pub struct Visual {
    pub visual_id: u32,
    pub class: u8,
}

/// The visuals for one depth.
#[derive(Debug)]
pub struct Depth {
    pub depth: u8,
    pub visuals: Vec<Visual>,
}

/// The first visual from `i` on with fixed colour channels.
pub open spec fn true_color_from(visuals: Seq<Visual>, i: int) -> Option<u32>
    decreases visuals.len() - i,
{
    if i < 0 || i >= visuals.len() {
        None
    } else if visuals[i].class == 4 {
        Some(visuals[i].visual_id)
    } else {
        true_color_from(visuals, i + 1)
    }
}

/// The first visual from depth `i` on that has an alpha channel: 32 bits deep,
/// with fixed colour channels.
pub open spec fn argb_from(depths: Seq<Depth>, i: int) -> Option<u32>
    decreases depths.len() - i,
{
    if i < 0 || i >= depths.len() {
        None
    } else if depths[i].depth == 32 && true_color_from(depths[i].visuals@, 0) is Some {
        true_color_from(depths[i].visuals@, 0)
    } else {
        argb_from(depths, i + 1)
    }
}

fn find_true_color(visuals: &Vec<Visual>) -> (r: Option<u32>)
    ensures
        r == true_color_from(visuals@, 0),
{
    let mut i: usize = 0;
    while i < visuals.len()
        invariant
            i <= visuals@.len(),
            true_color_from(visuals@, i as int) == true_color_from(visuals@, 0),
        decreases visuals@.len() - i,
    {
        if visuals[i].class == true_color() {
            return Some(visuals[i].visual_id);
        }
        i += 1;
    }
    None
}

/// The depth and visual of the popup, and whether it needs a colour map of its
/// own. That is so for a visual with an alpha channel, which is taken if there
/// is one; the alternative is the screen's own visual.
#[derive(Debug, Clone, Copy, PartialEq, Eq, Structural)]
pub struct Look {
    pub depth: u8,
    pub visual_id: u32,
    pub own_colormap: bool,
}

/// The visual with an alpha channel, if there is one.
pub fn find_argb_visual(depths: &[Depth]) -> (r: Option<Look>)
    ensures
        r == match argb_from(depths@, 0) {
            Some(visual_id) => Some(Look { depth: 32, visual_id, own_colormap: true }),
            None => None,
        },
{
    let mut i: usize = 0;
    while i < depths.len()
        invariant
            i <= depths@.len(),
            argb_from(depths@, i as int) == argb_from(depths@, 0),
        decreases depths@.len() - i,
    {
        if depths[i].depth == 32 {
            if let Some(visual_id) = find_true_color(&depths[i].visuals) {
                return Some(Look { depth: 32, visual_id, own_colormap: true });
            }
        }
        i += 1;
    }
    None
}

/// The screen, as far as opening the popup depends on it.
#[derive(Debug)]
pub struct Screen {
    pub width: u16,
    pub height: u16,
    pub root_depth: u8,
    pub root_visual: u32,
    pub depths: Vec<Depth>,
}

impl Screen {
    /// Where the popup is centered: on a monitor, or else on the screen.
    pub open spec fn area(self, monitor: Option<Geometry>) -> Geometry {
        match monitor {
            Some(m) => m,
            None => Geometry { x: 0, y: 0, w: self.width, h: self.height },
        }
    }

    /// How the popup looks to the server.
    pub open spec fn look(self) -> Look {
        match argb_from(self.depths@, 0) {
            Some(visual_id) => Look { depth: 32, visual_id, own_colormap: true },
            None => Look {
                depth: self.root_depth,
                visual_id: self.root_visual,
                own_colormap: false,
            },
        }
    }
}

/// The popup window to be made.
#[derive(Debug, Clone, Copy, PartialEq, Eq, Structural)]
pub struct Popup {
    pub x: i16,
    pub y: i16,
    pub w: u16,
    pub h: u16,
    pub look: Look,
}

impl Popup {
    /// The window to make for a popup of the given size: in the middle of the
    /// monitor, with an alpha channel if the screen has one. `None` if the
    /// middle is beyond what the server can address.
    pub fn open(screen: &Screen, monitor: Option<Geometry>, width: u16, height: u16) -> (r: Option<
        Popup,
    >)
        ensures
            ({
                let (x, y) = screen.area(monitor).middle_for(width, height);
                if i16::MIN <= x <= i16::MAX && i16::MIN <= y <= i16::MAX {
                    r == Some(
                        Popup {
                            x: x as i16,
                            y: y as i16,
                            w: width,
                            h: height,
                            look: screen.look(),
                        },
                    )
                } else {
                    r is None
                }
            }),
    {
        let area = match monitor {
            Some(m) => m,
            None => Geometry { x: 0, y: 0, w: screen.width, h: screen.height },
        };
        let look = match find_argb_visual(screen.depths.as_slice()) {
            Some(look) => look,
            None => Look {
                depth: screen.root_depth,
                visual_id: screen.root_visual,
                own_colormap: false,
            },
        };
        match area.center(width, height) {
            Some((x, y)) => Some(Popup { x, y, w: width, h: height, look }),
            None => None,
        }
    }
}

/// How often the keyboard is asked for.
pub const GRAB_ATTEMPTS: u32 = 50;

/// How long to wait between two attempts, in milliseconds.
pub const GRAB_PAUSE_MS: u64 = 20;

/// What to do after an attempt to get hold of the keyboard.
#[derive(Debug, Clone, Copy, PartialEq, Eq, Structural)]
pub enum GrabStep {
    Grabbed,
    /// Wait, and try again.
    Retry,
    GiveUp,
}

/// Decides what to do after the attempt numbered `attempt`, counted from one,
/// had the given status. Something else may hold the keyboard for a moment,
/// such as the hotkey that is still being released.
pub fn after_grab(attempt: u32, status: u8) -> (r: GrabStep)
    ensures
        r == if status == 0 {
            GrabStep::Grabbed
        } else if attempt < GRAB_ATTEMPTS {
            GrabStep::Retry
        } else {
            GrabStep::GiveUp
        },
{
    if status == grab_success() {
        GrabStep::Grabbed
    } else if attempt < GRAB_ATTEMPTS {
        GrabStep::Retry
    } else {
        GrabStep::GiveUp
    }
}

/// The value of `WM_CLASS`: the instance name and the class, each with a zero
/// byte behind it.
pub open spec fn class_property(instance: Seq<char>, class: Seq<char>) -> Seq<u8> {
    encode_utf8(instance).push(0) + encode_utf8(class).push(0)
}

/// The value of `WM_CLASS` for the given names.
pub fn wm_class(instance: &str, class: &str) -> (r: Vec<u8>)
    ensures
        r@ == class_property(instance@, class@),
{
    let mut data: Vec<u8> = vstd::slice::slice_to_vec(instance.as_bytes());
    data.push(0);
    let mut tail: Vec<u8> = vstd::slice::slice_to_vec(class.as_bytes());
    data.append(&mut tail);
    data.push(0);
    assert(data@ =~= class_property(instance@, class@));
    data
}

/// A popup that fits on an area is on it, with the same room on both sides, up
/// to one pixel.
pub proof fn law_popup_is_in_the_middle(area: Geometry, width: u16, height: u16)
    requires
        width <= area.w,
        height <= area.h,
    ensures
        ({
            let (x, y) = area.middle_for(width, height);
            let (left, right) = (x - area.x, area.x + area.w - (x + width));
            let (above, below) = (y - area.y, area.y + area.h - (y + height));
            &&& 0 <= left <= right <= left + 1
            &&& 0 <= above <= below <= above + 1
        }),
{
}

proof fn lemma_monitor_from(monitors: Seq<Monitor>, x: int, y: int, from: int)
    requires
        0 <= from,
    ensures
        match monitor_from(monitors, x, y, from) {
            Some(i) => from <= i < monitors.len() && monitors[i].area.holds(x, y),
            None => forall|i: int|
                from <= i < monitors.len() ==> !(#[trigger] monitors[i]).area.holds(x, y),
        },
    decreases monitors.len() - from,
{
    if from < monitors.len() {
        lemma_monitor_from(monitors, x, y, from + 1);
    }
}

/// If the pointer is on any monitor, the popup opens on one that it is on.
pub proof fn law_opens_under_the_pointer(monitors: Seq<Monitor>, x: int, y: int, i: int)
    requires
        0 <= i < monitors.len(),
        monitors[i].area.holds(x, y),
    ensures
        chosen_monitor(monitors, x, y) matches Some(area) && area.holds(x, y),
{
    lemma_monitor_from(monitors, x, y, 0);
}

/// Whether the pointer is on a monitor, in coordinates.
pub open spec fn is_under(m: Monitor, px: int, py: int) -> bool {
    m.area.x <= px && px < m.area.x + m.area.w && m.area.y <= py && py < m.area.y + m.area.h
}

/// The popup opens on a monitor whose left and right edges are around the
/// pointer's x and whose top and bottom edges are around its y, if there is any
/// such monitor, and then on the first of them. Otherwise it opens on the first
/// primary monitor, and without one on the first monitor. Only without monitors
/// is there none to open on.
pub proof fn law_opens_on_the_right_monitor(monitors: Seq<Monitor>, px: int, py: int, i: int)
    requires
        0 <= i < monitors.len(),
    ensures
        ({
            let chosen = chosen_monitor(monitors, px, py);
            let under = is_under(monitors[i], px, py) && forall|k: int|
                0 <= k < i ==> !#[trigger] is_under(monitors[k], px, py);
            let none_under = forall|k: int|
                0 <= k < monitors.len() ==> !#[trigger] is_under(monitors[k], px, py);
            let primary = monitors[i].primary && forall|k: int|
                0 <= k < i ==> !(#[trigger] monitors[k]).primary;
            let no_primary = forall|k: int|
                0 <= k < monitors.len() ==> !(#[trigger] monitors[k]).primary;
            &&& under ==> chosen == Some(monitors[i].area)
            &&& none_under && primary ==> chosen == Some(monitors[i].area)
            &&& none_under && no_primary ==> chosen == Some(monitors[0].area)
            &&& is_under(monitors[i], px, py) ==> (chosen matches Some(a) && a.x <= px && px < a.x
                + a.w && a.y <= py && py < a.y + a.h)
        }),
{
    lemma_first_under(monitors, px, py, 0);
    lemma_first_primary(monitors, 0);
}

/// Without monitors there is none to open on.
pub proof fn law_no_monitor_no_area(px: int, py: int)
    ensures
        chosen_monitor(Seq::<Monitor>::empty(), px, py) is None,
{
}

proof fn lemma_first_under(monitors: Seq<Monitor>, px: int, py: int, from: int)
    requires
        0 <= from,
    ensures
        match monitor_from(monitors, px, py, from) {
            Some(i) => from <= i < monitors.len() && is_under(monitors[i], px, py) && forall|k: int|
                from <= k < i ==> !#[trigger] is_under(monitors[k], px, py),
            None => forall|k: int|
                from <= k < monitors.len() ==> !#[trigger] is_under(monitors[k], px, py),
        },
    decreases monitors.len() - from,
{
    if from < monitors.len() && !is_under(monitors[from], px, py) {
        lemma_first_under(monitors, px, py, from + 1);
    }
}

proof fn lemma_first_primary(monitors: Seq<Monitor>, from: int)
    requires
        0 <= from,
    ensures
        match primary_from(monitors, from) {
            Some(i) => from <= i < monitors.len() && monitors[i].primary && forall|k: int|
                from <= k < i ==> !(#[trigger] monitors[k]).primary,
            None => forall|k: int|
                from <= k < monitors.len() ==> !(#[trigger] monitors[k]).primary,
        },
    decreases monitors.len() - from,
{
    if from < monitors.len() && !monitors[from].primary {
        lemma_first_primary(monitors, from + 1);
    }
}

/// Whether `b` are the monitors `a`, all shifted by the same vector.
pub open spec fn shifted(a: Seq<Monitor>, b: Seq<Monitor>, dx: int, dy: int) -> bool {
    a.len() == b.len() && forall|i: int|
        0 <= i < a.len() ==> {
            &&& (#[trigger] b[i]).area.x == a[i].area.x + dx
            &&& b[i].area.y == a[i].area.y + dy
            &&& b[i].area.w == a[i].area.w && b[i].area.h == a[i].area.h
            &&& b[i].primary == a[i].primary
        }
}

/// Only where the monitors and the pointer are relative to each other matters:
/// shifting all of them shifts the chosen area by the same vector.
pub proof fn law_monitors_can_be_shifted(
    a: Seq<Monitor>,
    b: Seq<Monitor>,
    px: int,
    py: int,
    dx: int,
    dy: int,
)
    requires
        shifted(a, b, dx, dy),
    ensures
        match (chosen_monitor(a, px, py), chosen_monitor(b, px + dx, py + dy)) {
            (Some(p), Some(q)) => q.x == p.x + dx && q.y == p.y + dy && q.w == p.w && q.h == p.h,
            (None, None) => true,
            _ => false,
        },
{
    lemma_shifted_from(a, b, px, py, dx, dy, 0);
    lemma_first_under(a, px, py, 0);
    lemma_first_primary(a, 0);
    if a.len() > 0 {
        assert(b[0].area.x == a[0].area.x + dx);
    }
}

proof fn lemma_shifted_from(
    a: Seq<Monitor>,
    b: Seq<Monitor>,
    px: int,
    py: int,
    dx: int,
    dy: int,
    from: int,
)
    requires
        shifted(a, b, dx, dy),
        0 <= from,
    ensures
        monitor_from(a, px, py, from) == monitor_from(b, px + dx, py + dy, from),
        primary_from(a, from) == primary_from(b, from),
    decreases a.len() - from,
{
    if from < a.len() {
        assert(b[from].area.x == a[from].area.x + dx);
        lemma_shifted_from(a, b, px, py, dx, dy, from + 1);
    }
}

/// The popup is in the middle of its area also where it is larger: it sticks
/// out by the same amount on both sides, up to one pixel, and in both
/// directions alike; an odd pixel is to the right and below. Without a monitor the area is the whole screen.
pub proof fn law_large_popups_are_in_the_middle(
    screen: Screen,
    monitor: Option<Geometry>,
    width: u16,
    height: u16,
)
    ensures
        ({
            let (left, top, w, h) = match monitor {
                Some(m) => (m.x as int, m.y as int, m.w as int, m.h as int),
                None => (0int, 0int, screen.width as int, screen.height as int),
            };
            let (x, y) = screen.area(monitor).middle_for(width, height);
            &&& -1 <= (x - left) - (left + w - (x + width)) <= 1
            &&& -1 <= (y - top) - (top + h - (y + height)) <= 1
            &&& width >= w ==> 0 <= left - x <= (x + width) - (left + w)
            &&& height >= h ==> 0 <= top - y <= (y + height) - (top + h)
            &&& width <= w ==> 0 <= x - left <= (left + w) - (x + width)
            &&& height <= h ==> 0 <= y - top <= (top + h) - (y + height)
        }),
{
}

/// A popup that can be addressed is made with the wanted size, as the screen
/// allows it to look, and where the middle of the area is; one that cannot is
/// not made.
pub proof fn law_popup_is_made_as_wanted(
    screen: &Screen,
    monitor: Option<Geometry>,
    width: u16,
    height: u16,
    r: Option<Popup>,
)
    requires
        call_ensures(Popup::open, (screen, monitor, width, height), r),
    ensures
        ({
            let (left, top, w, h) = match monitor {
                Some(m) => (m.x as int, m.y as int, m.w as int, m.h as int),
                None => (0int, 0int, screen.width as int, screen.height as int),
            };
            &&& r matches Some(p) ==> {
                &&& p.w == width && p.h == height && p.look == screen.look()
                &&& -1 <= (p.x - left) - (left + w - (p.x + width)) <= 1
                &&& -1 <= (p.y - top) - (top + h - (p.y + height)) <= 1
            }
            &&& r is None ==> left + w > 0x7fff || left < -0x4000 || w < width || top + h > 0x7fff
                || top < -0x4000 || h < height
        }),
{
}

/// Whether a visual has an alpha channel: it is 32 bits deep and has fixed
/// colour channels.
pub open spec fn has_alpha(depths: Seq<Depth>, i: int, k: int) -> bool {
    depths[i].depth == 32 && 0 <= k < depths[i].visuals@.len() && depths[i].visuals@[k].class == 4
}

/// The popup gets a visual with an alpha channel, and a colour map of its own
/// with it, just if the screen has such a visual, and then the first of them.
/// Otherwise it looks like the screen.
pub proof fn law_popup_has_an_alpha_channel(screen: Screen, i: int, k: int)
    ensures
        ({
            let depths = screen.depths@;
            let look = screen.look();
            &&& 0 <= i < depths.len() && has_alpha(depths, i, k) ==> look.own_colormap
            &&& 0 <= i < depths.len() && has_alpha(depths, i, k) && (forall|a: int, b: int|
                0 <= a < i || (a == i && b < k) ==> !#[trigger] has_alpha(depths, a, b))
                ==> look.visual_id == depths[i].visuals@[k].visual_id
            &&& look.own_colormap ==> look.depth == 32 && exists|a: int, b: int|
                0 <= a < depths.len() && #[trigger] has_alpha(depths, a, b)
                    && depths[a].visuals@[b].visual_id == look.visual_id
            &&& !look.own_colormap ==> look.depth == screen.root_depth && look.visual_id
                == screen.root_visual
        }),
{
    lemma_argb_from(screen.depths@, 0);
}

proof fn lemma_true_color_from(visuals: Seq<Visual>, from: int)
    requires
        0 <= from,
    ensures
        match true_color_from(visuals, from) {
            Some(id) => exists|k: int|
                from <= k < visuals.len() && (#[trigger] visuals[k]).class == 4
                    && visuals[k].visual_id == id && forall|j: int|
                    from <= j < k ==> (#[trigger] visuals[j]).class != 4,
            None => forall|k: int| from <= k < visuals.len() ==> (#[trigger] visuals[k]).class != 4,
        },
    decreases visuals.len() - from,
{
    if from < visuals.len() {
        lemma_true_color_from(visuals, from + 1);
        if visuals[from].class == 4 {
            assert(visuals[from].visual_id == true_color_from(visuals, from)->0);
        } else if let Some(id) = true_color_from(visuals, from + 1) {
            let k = choose|k: int|
                from + 1 <= k < visuals.len() && (#[trigger] visuals[k]).class == 4
                    && visuals[k].visual_id == id && forall|j: int|
                    from + 1 <= j < k ==> (#[trigger] visuals[j]).class != 4;
            assert(visuals[k].class == 4);
        }
    }
}

proof fn lemma_argb_from(depths: Seq<Depth>, from: int)
    requires
        0 <= from,
    ensures
        match argb_from(depths, from) {
            Some(id) => exists|a: int, b: int|
                from <= a < depths.len() && #[trigger] has_alpha(depths, a, b)
                    && depths[a].visuals@[b].visual_id == id && forall|c: int, d: int|
                    from <= c < a || (c == a && d < b) ==> !#[trigger] has_alpha(depths, c, d),
            None => forall|a: int, b: int|
                from <= a < depths.len() ==> !#[trigger] has_alpha(depths, a, b),
        },
    decreases depths.len() - from,
{
    if from < depths.len() {
        lemma_argb_from(depths, from + 1);
        lemma_true_color_from(depths[from].visuals@, 0);
        if depths[from].depth == 32 {
            if let Some(id) = true_color_from(depths[from].visuals@, 0) {
                let visuals = depths[from].visuals@;
                let b = choose|b: int|
                    0 <= b < visuals.len() && (#[trigger] visuals[b]).class == 4
                        && visuals[b].visual_id == id && forall|j: int|
                        0 <= j < b ==> (#[trigger] visuals[j]).class != 4;
                assert(has_alpha(depths, from, b));
                assert forall|c: int, d: int|
                    from <= c < from || (c == from && d < b) implies !#[trigger] has_alpha(
                    depths,
                    c,
                    d,
                ) by {
                    if has_alpha(depths, c, d) {
                        assert(visuals[d].class == 4);
                    }
                }
            }
        }
        if !(depths[from].depth == 32 && true_color_from(depths[from].visuals@, 0) is Some) {
            assert forall|d: int| !#[trigger] has_alpha(depths, from, d) by {
                if has_alpha(depths, from, d) {
                    assert(depths[from].visuals@[d].class == 4);
                }
            }
            if let Some(id) = argb_from(depths, from + 1) {
                let (a, b) = choose|a: int, b: int|
                    from + 1 <= a < depths.len() && #[trigger] has_alpha(depths, a, b)
                        && depths[a].visuals@[b].visual_id == id && forall|c: int, d: int|
                        from + 1 <= c < a || (c == a && d < b) ==> !#[trigger] has_alpha(
                            depths,
                            c,
                            d,
                        );
                assert(has_alpha(depths, a, b));
            }
        }
    }
}

/// A successful attempt ends the attempts to get hold of the keyboard, whatever
/// its number. The first 49 that fail are repeated, and the fiftieth is the
/// last.
pub proof fn law_keyboard_is_asked_for_fifty_times(attempt: u32, status: u8, r: GrabStep)
    requires
        call_ensures(after_grab, (attempt, status), r),
    ensures
        r == GrabStep::Grabbed <==> status == 0,
        status != 0 && attempt <= 49 ==> r == GrabStep::Retry,
        status != 0 && attempt >= 50 ==> r == GrabStep::GiveUp,
{
}

/// The popup publishes its instance name and then its class, which is found
/// again as its program's name.
pub proof fn law_published_class_is_found_again(
    instance: Seq<char>,
    class: Seq<char>,
    reply: PropertyReply,
)
    requires
        !encode_utf8(instance).contains(0),
        !encode_utf8(class).contains(0),
        encode_utf8(instance).len() > 0,
        encode_utf8(class).len() > 0,
        reply.value_len > 0,
        reply.value@ == class_property(instance, class),
    ensures
        class_bytes_in(reply) == encode_utf8(class),
        pieces(class_property(instance, class)) == seq![
            encode_utf8(instance),
            encode_utf8(class),
            Seq::empty(),
        ],
{
    let (a, b) = (encode_utf8(instance), encode_utf8(class));
    law_class_is_found_again(a, b, reply);
    let list = seq![a, b];
    assert forall|i: int| 0 <= i < list.len() implies !(#[trigger] list[i]).contains(0) by {
        assert(i == 0 || i == 1);
    }
    law_pieces_are_found_again(list);
    assert(list.drop_last() =~= seq![a]);
    assert(seq![a].drop_last() =~= Seq::<Seq<u8>>::empty());
    assert(terminated(Seq::<Seq<u8>>::empty()) =~= Seq::<u8>::empty());
    assert(terminated(seq![a]) =~= a.push(0));
    assert(terminated(list) =~= class_property(instance, class));
    assert(list.push(Seq::empty()) =~= seq![a, b, Seq::empty()]);
}

} // verus!
