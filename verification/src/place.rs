//! Where texts, icons and lines go inside a row, once the height of a text is
//! known.
//!
//! Lengths are in millionths of a pixel, so that halves of a row's height are
//! whole numbers. Heights count from the top of the row.

use crate::config::{Config, ConfigView};
#[allow(unused_imports)]
use crate::render::{Rect, RectView, APP_INDENT, ICON_SIZE, ICON_TEXT_GAP, PAD_X};
use vstd::prelude::*;

verus! {

/// A pixel.
pub const FINE_PX: i128 = 1_000_000;

/// Where something `inner` pixels high starts in the middle of a row that is
/// `h` thousandths of a pixel high.
pub open spec fn middle_of(h: int, inner: int) -> int {
    h * 500 - inner * 500_000
}

/// Where a text `text_h` pixels high starts in the middle of a row that is `h`
/// thousandths of a pixel high.
pub fn text_top(h: i32, text_h: i32) -> (r: i128)
    ensures
        r == middle_of(h as int, text_h as int),
{
    h as i128 * 500 - text_h as i128 * 500_000
}

/// A header row: a circle, and the name behind it.
#[derive(Debug, Clone, Copy, PartialEq, Eq, Structural)]
pub struct HeaderPlan {
    pub radius: i128,
    /// The middle of the circle.
    pub cx: i128,
    pub cy: i128,
    /// The circle of the current desktop is filled, the others are drawn.
    pub filled: bool,
    pub text_x: i128,
    pub text_top: i128,
}

/// The radius of a header's circle: 24% of the font size, and at least three
/// pixels.
pub open spec fn radius_for(font_size: int) -> int {
    if font_size * 240 > 3 * FINE_PX {
        font_size * 240
    } else {
        3 * FINE_PX as int
    }
}

/// Places a header whose name is `text_h` pixels high. The circle is centred
/// on the text.
pub fn header_plan(cfg: &Config, current: bool, text_h: i32) -> (r: HeaderPlan)
    ensures
        r.radius == radius_for(cfg.font_size as int),
        r.cx == PAD_X * 1000 + r.radius,
        r.text_top == middle_of(cfg.header_height as int, text_h as int),
        r.cy == r.text_top + text_h * 500_000,
        r.filled == current,
        r.text_x == PAD_X * 1000 + 2 * r.radius + 8 * FINE_PX,
{
    let scaled: i128 = cfg.font_size as i128 * 240;
    let radius: i128 = if scaled > 3 * FINE_PX {
        scaled
    } else {
        3 * FINE_PX
    };
    let text_top: i128 = text_top(cfg.header_height, text_h);
    HeaderPlan {
        radius,
        cx: PAD_X * 1000 + radius,
        cy: text_top + text_h as i128 * 500_000,
        filled: current,
        text_x: PAD_X * 1000 + 2 * radius + 8 * FINE_PX,
        text_top,
    }
}

/// An app row: the hint, the icon, and the text behind it.
#[derive(Debug, Clone, Copy, PartialEq, Eq, Structural)]
pub struct AppPlan {
    pub hint_x: i128,
    pub icon: Rect,
    pub text_x: i128,
    /// How wide the text may be.
    pub text_w: i128,
}

/// Places an app row in a popup `w` pixels wide.
pub fn app_plan(cfg: &Config, w: i32) -> (r: AppPlan)
    ensures
        r.hint_x == PAD_X * 1000,
        r.icon@ == (RectView {
            x: (PAD_X + APP_INDENT) * 1000,
            y: cfg.app_height * 500 - ICON_SIZE * 500,
            w: ICON_SIZE * 1000,
            h: ICON_SIZE * 1000,
        }),
        r.text_x == (PAD_X + APP_INDENT + ICON_SIZE + ICON_TEXT_GAP) * 1000,
        r.text_w == w * FINE_PX - r.text_x - PAD_X * 1000,
{
    let text_x: i128 = (PAD_X + APP_INDENT + ICON_SIZE + ICON_TEXT_GAP) * 1000;
    AppPlan {
        hint_x: PAD_X * 1000,
        icon: Rect {
            x: (PAD_X + APP_INDENT) * 1000,
            y: cfg.app_height as i128 * 500 - ICON_SIZE * 500,
            w: ICON_SIZE * 1000,
            h: ICON_SIZE * 1000,
        },
        text_x,
        text_w: w as i128 * FINE_PX - text_x - PAD_X * 1000,
    }
}

/// The popup's frame: the middle of the line, and its width.
#[derive(Debug, Clone, Copy, PartialEq, Eq, Structural)]
pub struct FrameLine {
    pub line: Rect,
    pub width: i128,
}

/// The frame of a popup, if it has one: the line lies along the edge, inside.
pub open spec fn frame_in(cfg: ConfigView, w: i32, h: i32) -> Option<(RectView, int)> {
    let b = cfg.border_thickness;
    if b > 0 {
        Some(
            (
                RectView {
                    x: b * 500,
                    y: b * 500,
                    w: w * FINE_PX - b * 1000,
                    h: h * FINE_PX - b * 1000,
                },
                b * 1000,
            ),
        )
    } else {
        None
    }
}

/// The frame of a popup of `w` by `h` pixels, if it has one.
pub fn frame_line(cfg: &Config, w: i32, h: i32) -> (r: Option<FrameLine>)
    ensures
        match (r, frame_in(cfg@, w, h)) {
            (Some(f), Some((line, width))) => f.line@ == line && f.width == width,
            (None, None) => true,
            _ => false,
        },
{
    let b: i128 = cfg.border_thickness as i128;
    if b > 0 {
        Some(
            FrameLine {
                line: Rect {
                    x: b * 500,
                    y: b * 500,
                    w: w as i128 * FINE_PX - b * 1000,
                    h: h as i128 * FINE_PX - b * 1000,
                },
                width: b * 1000,
            },
        )
    } else {
        None
    }
}

/// There is as much room above a text as below it.
pub proof fn law_text_is_in_the_middle(h: int, text_h: int)
    ensures
        middle_of(h, text_h) == h * 1000 - (middle_of(h, text_h) + text_h * FINE_PX),
{
}

/// The frame's line touches the edges of the popup from inside.
pub proof fn law_frame_lies_along_the_edge(cfg: ConfigView, w: i32, h: i32)
    ensures
        frame_in(cfg, w, h) matches Some((line, width)) ==> {
            &&& 2 * line.x == width && 2 * line.y == width
            &&& 2 * (line.x + line.w) + width == 2 * w * FINE_PX
            &&& 2 * (line.y + line.h) + width == 2 * h * FINE_PX
        },
{
}

/// A header's circle touches the space at the side of the popup and is centred
/// on the text, which starts eight pixels behind it. It is filled just for the
/// current desktop. Its radius is 24% of the font size, or three pixels if that
/// is more.
pub proof fn law_header_is_laid_out(cfg: &Config, current: bool, text_h: i32, r: HeaderPlan)
    requires
        call_ensures(header_plan, (cfg, current, text_h), r),
    ensures
        r.cx - r.radius == 16_000_000,
        r.text_x - (r.cx + r.radius) == 8_000_000,
        2 * r.cy == r.text_top + (r.text_top + text_h * 1_000_000),
        r.text_top == cfg.header_height * 1000 - (r.text_top + text_h * 1_000_000),
        r.filled == current,
        r.radius >= 3_000_000 && r.radius * 100 >= cfg.font_size * 1000 * 24,
        r.radius == 3_000_000 || r.radius * 100 == cfg.font_size * 1000 * 24,
{
}

/// In an app row the hint comes first, at the side of the popup. The icon, 18
/// pixels large, is 22 pixels further in and in the middle of the row. The text
/// starts ten pixels behind it and ends as far from the other side as the hint
/// is from its own.
pub proof fn law_app_row_is_laid_out(cfg: &Config, w: i32, r: AppPlan)
    requires
        call_ensures(app_plan, (cfg, w), r),
    ensures
        r.hint_x == 16_000_000,
        r.icon@.x - r.hint_x == 22_000_000,
        r.icon@.w == 18_000_000 && r.icon@.h == 18_000_000,
        r.icon@.y == cfg.app_height * 1000 - (r.icon@.y + r.icon@.h),
        r.text_x - (r.icon@.x + r.icon@.w) == 10_000_000,
        w * 1_000_000 - (r.text_x + r.text_w) == r.hint_x,
{
}

/// A popup has a frame just if the frame has a width, and it is as wide as
/// configured.
pub proof fn law_frame_is_as_configured(cfg: &Config, w: i32, h: i32, r: Option<FrameLine>)
    requires
        call_ensures(frame_line, (cfg, w, h), r),
    ensures
        r is Some <==> cfg.border_thickness > 0,
        r matches Some(f) ==> {
            &&& f.width == cfg.border_thickness * 1000
            &&& 2 * f.line@.x == f.width && 2 * f.line@.y == f.width
            &&& 2 * (f.line@.x + f.line@.w) + f.width == 2 * w * 1_000_000
            &&& 2 * (f.line@.y + f.line@.h) + f.width == 2 * h * 1_000_000
        },
{
}

/// A text is in the middle of its row, with as much room above it as below.
pub proof fn law_texts_are_centred(h: i32, text_h: i32, r: i128)
    requires
        call_ensures(text_top, (h, text_h), r),
    ensures
        r == h * 1000 - (r + text_h * 1_000_000),
{
}

} // verus!
