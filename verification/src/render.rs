//! What is painted: the texts, and where everything goes.
//!
//! Lengths are in thousandths of a pixel.

use crate::config::{Config, ConfigView, Rgba, Theme};
use crate::ewmh::{number_name, numbered_name, DesktopInfo, WindowInfo};
#[allow(unused_imports)]
use crate::layout::{bounded, reachable, Layout, LayoutView, Row};
use crate::icon::{image_of, surface_from_icon, IconImage, ImageView};
#[allow(unused_imports)]
use crate::state::{State, StateView};
#[allow(unused_imports)]
use crate::text::{
    chars_of, decimal_text, push_all, string_of, to_uppercase, uppercase,
};
use std::collections::HashMap;
use vstd::prelude::*;

verus! {

/// `s` with its first character in upper case.
pub open spec fn capitalized(s: Seq<char>) -> Seq<char> {
    if s.len() == 0 {
        s
    } else {
        uppercase(s[0]) + s.skip(1)
    }
}

/// `s` with a small ASCII letter at its start turned into a capital.
pub open spec fn ascii_capitalized(s: Seq<char>) -> Seq<char> {
    if s.len() > 0 && 'a' <= s[0] <= 'z' {
        s.update(0, ((s[0] as u32) - 32) as char)
    } else {
        s
    }
}

/// Puts the first character of `s` in upper case.
pub fn capitalize(s: &str) -> (r: String)
    ensures
        r@ == capitalized(s@),
        s@.len() > 0 && (s@[0] as u32) < 128 ==> r@ == ascii_capitalized(s@),
{
    let chars = chars_of(s);
    if chars.len() == 0 {
        return String::new();
    }
    let mut out = to_uppercase(chars[0]);
    let rest = string_of(&chars, 1, chars.len());
    assert(rest@ =~= s@.skip(1));
    push_all(&mut out, rest.as_str());
    assert(s@.update(0, out@[0]) =~= seq![out@[0]] + s@.skip(1));
    out
}

/// The markup for one character.
pub open spec fn escaped_char(c: char) -> Seq<char> {
    if c == '&' {
        "&amp;"@
    } else if c == '<' {
        "&lt;"@
    } else if c == '>' {
        "&gt;"@
    } else {
        seq![c]
    }
}

/// The markup that shows `s`.
pub open spec fn escaped(s: Seq<char>) -> Seq<char>
    decreases s.len(),
{
    if s.len() == 0 {
        s
    } else {
        escaped(s.drop_last()) + escaped_char(s.last())
    }
}

/// Writes `s` as markup: the characters that markup gives a meaning to are
/// replaced by their entities.
pub fn escape_markup(s: &str) -> (r: String)
    ensures
        r@ == escaped(s@),
{
    let chars = chars_of(s);
    let mut out: String = String::new();
    let mut i: usize = 0;
    assert(chars@.take(0) =~= Seq::<char>::empty());
    assert(out@ =~= escaped(chars@.take(0)));
    while i < chars.len()
        invariant
            i <= chars@.len(),
            out@ == escaped(chars@.take(i as int)),
        decreases chars@.len() - i,
    {
        let c = chars[i];
        assert(chars@.take(i + 1).drop_last() =~= chars@.take(i as int));
        if c == '&' {
            push_all(&mut out, "&amp;");
        } else if c == '<' {
            push_all(&mut out, "&lt;");
        } else if c == '>' {
            push_all(&mut out, "&gt;");
        } else {
            let ghost before = out@;
            out.push(c);
            assert(out@ =~= before + seq![c]);
        }
        i += 1;
    }
    assert(chars@.take(i as int) =~= s@);
    out
}

/// The first `max_chars` characters of `s`, with an ellipsis where something
/// was cut off.
pub open spec fn truncated(s: Seq<char>, max_chars: nat) -> Seq<char> {
    if s.len() <= max_chars {
        s
    } else {
        s.take(max_chars as int).push('…')
    }
}

/// Cuts `s` after `max_chars` characters and marks the cut with an ellipsis.
pub fn truncate(s: &str, max_chars: usize) -> (r: String)
    ensures
        r@ == truncated(s@, max_chars as nat),
{
    let chars = chars_of(s);
    if chars.len() <= max_chars {
        return s.to_string();
    }
    let mut out = string_of(&chars, 0, max_chars);
    assert(out@ =~= s@.take(max_chars as int));
    out.push('…');
    out
}

/// Space at the sides of the popup.
pub const PAD_X: i128 = 16_000;

/// How much further in the icons of app rows are. A row's hint is painted in
/// that space.
pub const APP_INDENT: i128 = 22_000;

/// The size of an icon.
pub const ICON_SIZE: i128 = 18_000;

/// How many pixels an icon is made with, on its larger side: twice its size.
pub const ICON_PX: u32 = 36;

/// Space between the icon and the text of an app row.
pub const ICON_TEXT_GAP: i128 = 10_000;

/// The longest title that is shown whole, in characters.
pub const TITLE_MAX_CHARS: usize = 60;

/// How thick the line is that marks the target of a drag.
pub const DROP_UNDERLINE_H: i128 = 2_000;

/// The key bindings, in the order in which they are listed.
pub open spec fn binding_texts() -> Seq<(Seq<char>, Seq<char>)> {
    seq![
        ("j / k, ↓ / ↑"@, "move cursor"@),
        ("gg / G"@, "jump to first / last row"@),
        ("Enter"@, "switch to desktop / focus app"@),
        ("1–9, 0"@, "jump to desktop 1–10"@),
        ("Shift+J / Shift+K"@, "move app one desktop down / up"@),
        ("Shift+Ctrl+J / Shift+Ctrl+K"@, "move app and follow"@),
        ("Click"@, "switch to desktop / focus app"@),
        ("Drag app onto desktop"@, "move app"@),
        ("Shift+drag"@, "move app and follow"@),
        ("dd"@, "close window"@),
        ("F1"@, "toggle this help"@),
        ("Esc / q / Super+D"@, "close popup"@),
    ]
}

/// The key bindings: the keys and what they do.
pub fn bindings() -> (r: Vec<(&'static str, &'static str)>)
    ensures
        r@.map_values(|b: (&str, &str)| (b.0@, b.1@)) == binding_texts(),
{
    let r: Vec<(&'static str, &'static str)> = vec![
        ("j / k, ↓ / ↑", "move cursor"),
        ("gg / G", "jump to first / last row"),
        ("Enter", "switch to desktop / focus app"),
        ("1–9, 0", "jump to desktop 1–10"),
        ("Shift+J / Shift+K", "move app one desktop down / up"),
        ("Shift+Ctrl+J / Shift+Ctrl+K", "move app and follow"),
        ("Click", "switch to desktop / focus app"),
        ("Drag app onto desktop", "move app"),
        ("Shift+drag", "move app and follow"),
        ("dd", "close window"),
        ("F1", "toggle this help"),
        ("Esc / q / Super+D", "close popup"),
    ];
    assert(r@.map_values(|b: (&str, &str)| (b.0@, b.1@)) =~= binding_texts());
    r
}

/// The text of a desktop's header.
pub open spec fn header_text(d: DesktopInfo) -> Seq<char> {
    if d.name@.len() == 0 {
        numbered_name(d.index as int)
    } else {
        d.name@
    }
}

/// The text of a desktop's header: its name, or else its number.
pub fn header_label(d: &DesktopInfo) -> (r: String)
    requires
        d.index < u32::MAX,
    ensures
        r@ == header_text(*d),
{
    if d.name.as_str().is_empty() {
        number_name(d.index)
    } else {
        d.name.clone()
    }
}

/// The colour of a desktop's header.
pub fn header_color(theme: &Theme, current: bool, empty: bool) -> (r: Rgba)
    ensures
        r == if current {
            theme.header_current
        } else if empty {
            theme.header_empty
        } else {
            theme.header
        },
{
    if current {
        theme.header_current
    } else if empty {
        theme.header_empty
    } else {
        theme.header
    }
}

/// Markup that shows `text` in a colour.
pub open spec fn span(color: Rgba, text: Seq<char>) -> Seq<char> {
    "<span foreground=\""@ + color.hex_text() + "\">"@ + escaped(text) + "</span>"@
}

/// The name in an app row: the program's name, or else the title.
pub open spec fn app_name(w: WindowInfo) -> Seq<char> {
    capitalized(
        if w.class@.len() == 0 {
            w.title@
        } else {
            w.class@
        },
    )
}

/// The title behind the name in an app row, where it adds anything.
pub open spec fn app_title(w: WindowInfo) -> Option<Seq<char>> {
    if w.class@.len() != 0 && w.title@.len() != 0 && w.title@ != w.class@ {
        Some(truncated(w.title@, TITLE_MAX_CHARS as nat))
    } else {
        None
    }
}

/// The markup of an app row.
pub open spec fn app_text(cfg: ConfigView, w: WindowInfo, focused: bool) -> Seq<char> {
    let name = span(
        if focused {
            cfg.theme.app_focused
        } else {
            cfg.theme.app
        },
        app_name(w),
    );
    (if cfg.bold_apps {
        "<b>"@ + name + "</b>"@
    } else {
        name
    }) + match app_title(w) {
        Some(t) => "  "@ + span(cfg.theme.app_dim, t),
        None => Seq::empty(),
    }
}

fn push_span(s: &mut String, color: Rgba, text: &str)
    ensures
        final(s)@ == old(s)@ + span(color, text@),
{
    let ghost start = s@;
    push_all(s, "<span foreground=\"");
    push_all(s, color.hex().as_str());
    push_all(s, "\">");
    push_all(s, escape_markup(text).as_str());
    push_all(s, "</span>");
    assert(s@ =~= start + span(color, text@));
}

/// The markup of an app row: the name, in bold if so configured, and then the
/// dim title.
pub fn app_markup(cfg: &Config, w: &WindowInfo, focused: bool) -> (r: String)
    ensures
        r@ == app_text(cfg@, *w, focused),
{
    let name = if w.class.as_str().is_empty() {
        capitalize(w.title.as_str())
    } else {
        capitalize(w.class.as_str())
    };
    let color = if focused {
        cfg.theme.app_focused
    } else {
        cfg.theme.app
    };
    let mut s: String = String::new();
    if cfg.bold_apps {
        push_all(&mut s, "<b>");
        push_span(&mut s, color, name.as_str());
        push_all(&mut s, "</b>");
    } else {
        push_span(&mut s, color, name.as_str());
    }
    let ghost head = s@;
    if !w.class.as_str().is_empty() && !w.title.as_str().is_empty() && w.title != w.class {
        push_all(&mut s, "  ");
        push_span(&mut s, cfg.theme.app_dim, truncate(w.title.as_str(), TITLE_MAX_CHARS).as_str());
    }
    assert(s@ =~= app_text(cfg@, *w, focused));
    s
}

/// A rectangle of the popup.
#[derive(Debug, Clone, Copy, PartialEq, Eq, Structural)]
pub struct Rect {
    pub x: i128,
    pub y: i128,
    pub w: i128,
    pub h: i128,
}

/// A rectangle as values.
pub struct RectView {
    pub x: int,
    pub y: int,
    pub w: int,
    pub h: int,
}

impl View for Rect {
    type V = RectView;

    open spec fn view(&self) -> RectView {
        RectView { x: self.x as int, y: self.y as int, w: self.w as int, h: self.h as int }
    }
}

/// A rectangle, if there is one.
pub open spec fn opt_rect(r: Option<Rect>) -> Option<RectView> {
    match r {
        Some(r) => Some(r@),
        None => None,
    }
}

/// The box that follows the pointer during a drag.
#[derive(Debug, Clone, Copy, PartialEq, Eq, Structural)]
pub struct GhostBox {
    pub area: Rect,
    /// The line around it, one pixel wide and just inside.
    pub line: Rect,
    /// Where its text starts, and how wide the text may be.
    pub text_x: i128,
    pub text_w: i128,
}

/// The box that follows the pointer, as values.
pub struct GhostView {
    pub area: RectView,
    pub line: RectView,
    pub text_x: int,
    pub text_w: int,
}

impl View for GhostBox {
    type V = GhostView;

    open spec fn view(&self) -> GhostView {
        GhostView {
            area: self.area@,
            line: self.line@,
            text_x: self.text_x as int,
            text_w: self.text_w as int,
        }
    }
}

/// A box, if there is one.
pub open spec fn opt_ghost(b: Option<GhostBox>) -> Option<GhostView> {
    match b {
        Some(b) => Some(b@),
        None => None,
    }
}

/// A row that is in sight, with what is painted behind it.
#[derive(Debug, Clone, Copy, PartialEq, Eq, Structural)]
pub struct RowPaint {
    pub row: Row,
    /// Where it starts, measured from the top of the popup.
    pub y: i128,
    pub h: i128,
    /// The mark of the cursor.
    pub highlight: Option<Rect>,
    /// The mark of a drag's target.
    pub underline: Option<Rect>,
}

/// A row that is in sight, as values.
pub struct RowPaintView {
    pub row: Row,
    pub y: int,
    pub h: int,
    pub highlight: Option<RectView>,
    pub underline: Option<RectView>,
}

impl View for RowPaint {
    type V = RowPaintView;

    open spec fn view(&self) -> RowPaintView {
        RowPaintView {
            row: self.row,
            y: self.y as int,
            h: self.h as int,
            highlight: opt_rect(self.highlight),
            underline: opt_rect(self.underline),
        }
    }
}

/// Rows as values.
pub open spec fn row_paints(v: Seq<RowPaint>) -> Seq<RowPaintView> {
    v.map_values(|p: RowPaint| p@)
}

/// What follows the pointer during a drag.
#[derive(Debug, Clone)]
pub struct DragOverlay {
    pub cursor_x: i32,
    pub cursor_y: i32,
    pub label: String,
    pub target_desktop: Option<u32>,
}

/// A drag's overlay as values.
#[verifier::ext_equal]
pub struct OverlayView {
    pub cursor_x: i32,
    pub cursor_y: i32,
    pub label: Seq<char>,
    pub target_desktop: Option<u32>,
}

impl View for DragOverlay {
    type V = OverlayView;

    open spec fn view(&self) -> OverlayView {
        OverlayView {
            cursor_x: self.cursor_x,
            cursor_y: self.cursor_y,
            label: self.label@,
            target_desktop: self.target_desktop,
        }
    }
}

/// Decides what is painted in a popup of the given size, in pixels, and keeps
/// the icons that have been painted.
#[derive(Debug)]
pub struct Renderer {
    pub w: i32,
    pub h: i32,
    /// The icons, by window.
    pub icons: HashMap<u32, IconImage>,
}

/// Where the list of key bindings goes: a title, and below it two columns.
#[derive(Debug)]
pub struct HelpPlan {
    pub title_y: i128,
    pub key_x: i128,
    pub key_w: i128,
    pub desc_x: i128,
    pub desc_w: i128,
    /// Where each line starts.
    pub lines: Vec<i128>,
    pub line_h: i128,
}

/// Where the list of key bindings goes, as values.
#[verifier::ext_equal]
pub struct HelpView {
    pub title_y: int,
    pub key_x: int,
    pub key_w: int,
    pub desc_x: int,
    pub desc_w: int,
    pub lines: Seq<int>,
    pub line_h: int,
}

impl View for HelpPlan {
    type V = HelpView;

    open spec fn view(&self) -> HelpView {
        HelpView {
            title_y: self.title_y as int,
            key_x: self.key_x as int,
            key_w: self.key_w as int,
            desc_x: self.desc_x as int,
            desc_w: self.desc_w as int,
            lines: self.lines@.map_values(|y: i128| y as int),
            line_h: self.line_h as int,
        }
    }
}

impl Renderer {
    /// The icons that have been kept, by window.
    pub open spec fn kept(&self) -> Map<u32, ImageView> {
        self.icons@.map_values(|i: IconImage| i@)
    }

    pub fn new(w: i32, h: i32) -> (r: Self)
        ensures
            r.w == w,
            r.h == h,
            r.kept() == Map::<u32, ImageView>::empty(),
    {
        broadcast use vstd::std_specs::hash::group_hash_axioms;

        let r = Renderer { w, h, icons: HashMap::new() };
        assert(r.kept() =~= Map::<u32, ImageView>::empty());
        r
    }

    /// The icons that are kept once that of a window has been asked for.
    pub open spec fn kept_with(&self, win: WindowInfo) -> Map<u32, ImageView> {
        if self.kept().dom().contains(win.id) {
            self.kept()
        } else {
            match win.icon {
                Some(raw) => match image_of(raw@, ICON_PX) {
                    Some(image) => self.kept().insert(win.id, image),
                    None => self.kept(),
                },
                None => self.kept(),
            }
        }
    }

    /// The image to paint for a window. It is made once and then kept.
    pub fn icon_for(&mut self, win: &WindowInfo) -> (r: Option<&IconImage>)
        ensures
            final(self).w == old(self).w,
            final(self).h == old(self).h,
            final(self).kept() == old(self).kept_with(*win),
            match r {
                Some(image) => old(self).kept_with(*win).dom().contains(win.id) && image@
                    == old(self).kept_with(*win)[win.id],
                None => !old(self).kept_with(*win).dom().contains(win.id),
            },
    {
        broadcast use vstd::std_specs::hash::group_hash_axioms;

        let ghost before = self.kept();
        if !self.icons.contains_key(&win.id) {
            if let Some(raw) = &win.icon {
                if let Ok(image) = surface_from_icon(raw.as_slice(), ICON_PX) {
                    let ghost shown = image@;
                    self.icons.insert(win.id, image);
                    assert(self.kept() =~= before.insert(win.id, shown));
                }
            }
        }
        self.icons.get(&win.id)
    }

    /// Whether row `i` is in sight, at least with an edge.
    pub open spec fn in_sight(&self, l: LayoutView, scroll: int, i: int) -> bool {
        l.row_y[i] + l.row_h[i] >= scroll && l.row_y[i] <= scroll + self.h * 1000
    }

    /// Whether row `i` is the header of the desktop on which a drag would end.
    pub open spec fn is_target(
        &self,
        l: LayoutView,
        desktops: Seq<DesktopInfo>,
        target: Option<u32>,
        i: int,
    ) -> bool {
        l.rows[i] matches Row::Header { desktop_idx, .. } && target == Some(
            desktops[desktop_idx as int].index,
        )
    }

    /// How row `i` is painted.
    pub open spec fn paint_of(
        &self,
        inset: int,
        l: LayoutView,
        desktops: Seq<DesktopInfo>,
        cursor: int,
        scroll: int,
        target: Option<u32>,
        i: int,
    ) -> RowPaintView {
        let y = l.row_y[i] - scroll;
        let h = l.row_h[i];
        let w = self.w * 1000 - 2 * inset;
        RowPaintView {
            row: l.rows[i],
            y,
            h,
            highlight: if i == cursor {
                Some(RectView { x: inset, y, w, h })
            } else {
                None
            },
            underline: if self.is_target(l, desktops, target, i) {
                Some(
                    RectView {
                        x: inset,
                        y: y + h - DROP_UNDERLINE_H,
                        w,
                        h: DROP_UNDERLINE_H as int,
                    },
                )
            } else {
                None
            },
        }
    }

    /// How the first `n` rows are painted; those out of sight are left out.
    pub open spec fn paints(
        &self,
        inset: int,
        l: LayoutView,
        desktops: Seq<DesktopInfo>,
        cursor: int,
        scroll: int,
        target: Option<u32>,
        n: int,
    ) -> Seq<RowPaintView>
        decreases n,
    {
        if n <= 0 {
            Seq::empty()
        } else {
            let above = self.paints(inset, l, desktops, cursor, scroll, target, n - 1);
            if self.in_sight(l, scroll, n - 1) {
                above.push(self.paint_of(inset, l, desktops, cursor, scroll, target, n - 1))
            } else {
                above
            }
        }
    }

    /// The rows to paint, from top to bottom.
    pub fn draw(
        &self,
        cfg: &Config,
        layout: &Layout,
        desktops: &[DesktopInfo],
        cursor: usize,
        scroll: i128,
        drag: Option<&DragOverlay>,
    ) -> (r: Vec<RowPaint>)
        requires
            layout.wf(),
            bounded(scroll as int),
            forall|i: int|
                0 <= i < layout.rows@.len() ==> ((#[trigger] layout.rows@[i]) matches Row::Header {
                    desktop_idx,
                    ..
                } ==> desktop_idx < desktops@.len()),
        ensures
            row_paints(r@) == self.paints(
                cfg.border_thickness as int,
                layout@,
                desktops@,
                cursor as int,
                scroll as int,
                match drag {
                    Some(d) => d.target_desktop,
                    None => None,
                },
                layout.rows@.len() as int,
            ),
    {
        let target: Option<u32> = match drag {
            Some(d) => d.target_desktop,
            None => None,
        };
        let inset: i128 = cfg.border_thickness as i128;
        let w: i128 = self.w as i128 * 1000 - 2 * inset;
        let mut out: Vec<RowPaint> = Vec::new();
        let mut i: usize = 0;
        assert(row_paints(out@) =~= Seq::empty());
        while i < layout.rows.len()
            invariant
                i <= layout.rows@.len(),
                layout.wf(),
                bounded(scroll as int),
                inset == cfg.border_thickness,
                w == self.w * 1000 - 2 * inset,
                forall|i: int|
                    0 <= i < layout.rows@.len() ==> ((
                    #[trigger] layout.rows@[i]) matches Row::Header { desktop_idx, .. }
                        ==> desktop_idx < desktops@.len()),
                row_paints(out@) == self.paints(
                    inset as int,
                    layout@,
                    desktops@,
                    cursor as int,
                    scroll as int,
                    target,
                    i as int,
                ),
            decreases layout.rows@.len() - i,
        {
            let top = layout.row_y[i];
            let h = layout.row_h[i];
            assert(reachable(top as int) && reachable(h as int));
            let ghost before = row_paints(out@);
            if top + h >= scroll && top <= scroll + self.h as i128 * 1000 {
                let row = layout.rows[i];
                let y = top - scroll;
                let highlight = if i == cursor {
                    Some(Rect { x: inset, y, w, h })
                } else {
                    None
                };
                let is_target = match (row, target) {
                    (Row::Header { desktop_idx, .. }, Some(t)) => desktops[desktop_idx].index == t,
                    _ => false,
                };
                let underline = if is_target {
                    Some(Rect { x: inset, y: y + h - DROP_UNDERLINE_H, w, h: DROP_UNDERLINE_H })
                } else {
                    None
                };
                let paint = RowPaint { row, y, h, highlight, underline };
                out.push(paint);
                assert(row_paints(out@) =~= before.push(paint@));
            }
            i += 1;
        }
        out
    }

    /// Where the list of key bindings goes: the keys take up 45% of the width,
    /// but at least 180 pixels.
    pub open spec fn help_of(&self, cfg: ConfigView) -> HelpView {
        let key_w = if self.w * 450 > 180_000 {
            self.w * 450
        } else {
            180_000
        };
        HelpView {
            title_y: cfg.border_thickness as int,
            key_x: PAD_X as int,
            key_w,
            desc_x: PAD_X + key_w,
            desc_w: self.w * 1000 - (PAD_X + key_w) - PAD_X,
            lines: Seq::new(
                binding_texts().len(),
                |i: int| cfg.border_thickness + cfg.header_height + i * cfg.app_height,
            ),
            line_h: cfg.app_height as int,
        }
    }

    /// Where the list of key bindings goes.
    pub fn draw_help(&self, cfg: &Config) -> (r: HelpPlan)
        ensures
            r@ == self.help_of(cfg@),
    {
        let wide: i128 = self.w as i128 * 450;
        let key_w: i128 = if wide > 180_000 {
            wide
        } else {
            180_000
        };
        let desc_x: i128 = PAD_X + key_w;
        let first: i128 = cfg.border_thickness as i128 + cfg.header_height as i128;
        let line_h: i128 = cfg.app_height as i128;
        let n: usize = bindings().len();
        let mut lines: Vec<i128> = Vec::new();
        let mut y: i128 = first;
        let mut i: usize = 0;
        while i < n
            invariant
                i <= n == binding_texts().len(),
                first == cfg.border_thickness + cfg.header_height,
                line_h == cfg.app_height,
                y == first + i * line_h,
                lines@.len() == i,
                forall|k: int| 0 <= k < i ==> (#[trigger] lines@[k]) == first + k * line_h,
            decreases n - i,
        {
            assert(-0x8000_0000 * 12 <= i * line_h <= 0x8000_0000 * 12) by (nonlinear_arith)
                requires
                    0 <= i <= 12,
                    -0x8000_0000 <= line_h <= 0x8000_0000,
            ;
            lines.push(y);
            assert((i + 1) * line_h == i * line_h + line_h) by (nonlinear_arith);
            y = y + line_h;
            i += 1;
        }
        let plan = HelpPlan {
            title_y: cfg.border_thickness as i128,
            key_x: PAD_X,
            key_w,
            desc_x,
            desc_w: self.w as i128 * 1000 - desc_x - PAD_X,
            lines,
            line_h,
        };
        assert(plan@ =~= self.help_of(cfg@));
        plan
    }

    /// The box that follows the pointer during a drag: to its lower right, and
    /// as wide as there is room for. It is not painted where that is too
    /// little.
    pub open spec fn ghost_of(&self, cfg: ConfigView, cursor_x: i32, cursor_y: i32) -> Option<
        GhostView,
    > {
        let x = (cursor_x + 8) * 1000;
        let room = self.w * 1000 - x - 8_000;
        let w = if room < 220_000 {
            room
        } else {
            220_000
        };
        if w < 60_000 {
            None
        } else {
            let y = (cursor_y + 4) * 1000;
            let h = cfg.app_height as int;
            Some(
                GhostView {
                    area: RectView { x, y, w, h },
                    line: RectView { x: x + 500, y: y + 500, w: w - 1_000, h: h - 1_000 },
                    text_x: x + 8_000,
                    text_w: w - 12_000,
                },
            )
        }
    }

    /// The box that follows the pointer during a drag.
    pub fn drag_ghost(&self, cfg: &Config, d: &DragOverlay) -> (r: Option<GhostBox>)
        ensures
            opt_ghost(r) == self.ghost_of(cfg@, d.cursor_x, d.cursor_y),
    {
        let x: i128 = (d.cursor_x as i128 + 8) * 1000;
        let room: i128 = self.w as i128 * 1000 - x - 8_000;
        let w: i128 = if room < 220_000 {
            room
        } else {
            220_000
        };
        if w < 60_000 {
            return None;
        }
        let y: i128 = (d.cursor_y as i128 + 4) * 1000;
        let h: i128 = cfg.app_height as i128;
        Some(
            GhostBox {
                area: Rect { x, y, w, h },
                line: Rect { x: x + 500, y: y + 500, w: w - 1_000, h: h - 1_000 },
                text_x: x + 8_000,
                text_w: w - 12_000,
            },
        )
    }
}

/// Everything that one repaint shows.
#[derive(Debug)]
pub enum Frame {
    /// The list of key bindings.
    Help(HelpPlan),
    /// The rows, and the box of a drag with its text.
    List { rows: Vec<RowPaint>, ghost_box: Option<(GhostBox, String)> },
}

/// Everything that one repaint shows, as values.
#[verifier::ext_equal]
pub enum FrameView {
    Help(HelpView),
    List { rows: Seq<RowPaintView>, ghost_box: Option<(GhostView, Seq<char>)> },
}

impl View for Frame {
    type V = FrameView;

    open spec fn view(&self) -> FrameView {
        match self {
            Frame::Help(plan) => FrameView::Help(plan@),
            Frame::List { rows, ghost_box } => FrameView::List {
                rows: row_paints(rows@),
                ghost_box: match ghost_box {
                    Some(b) => Some((b.0@, b.1@)),
                    None => None,
                },
            },
        }
    }
}

impl StateView {
    /// What follows the pointer: only a drag that has started shows.
    pub open spec fn overlay(self) -> Option<OverlayView> {
        match self.drag {
            Some(d) => if d.started {
                Some(
                    OverlayView {
                        cursor_x: d.cursor_x,
                        cursor_y: d.cursor_y,
                        label: d.label,
                        target_desktop: d.target_desktop,
                    },
                )
            } else {
                None
            },
            None => None,
        }
    }
}

impl Renderer {
    /// What a repaint shows: the key bindings while they are asked for, or
    /// else the rows.
    pub open spec fn frame_of(&self, s: StateView) -> FrameView {
        if s.show_help {
            FrameView::Help(self.help_of(s.cfg))
        } else {
            FrameView::List {
                rows: self.paints(
                    s.cfg.border_thickness as int,
                    s.layout(),
                    s.desktops,
                    s.cursor,
                    s.scroll,
                    match s.overlay() {
                        Some(d) => d.target_desktop,
                        None => None,
                    },
                    s.rows().len() as int,
                ),
                ghost_box: match s.overlay() {
                    Some(d) => match self.ghost_of(s.cfg, d.cursor_x, d.cursor_y) {
                        Some(area) => Some((area, d.label)),
                        None => None,
                    },
                    None => None,
                },
            }
        }
    }

    /// Decides what a repaint shows.
    pub fn repaint(&self, state: &State) -> (r: Frame)
        requires
            state@.wf(),
        ensures
            r@ == self.frame_of(state@),
    {
        if state.show_help {
            return Frame::Help(self.draw_help(&state.cfg));
        }
        let layout = state.layout();
        let overlay: Option<DragOverlay> = match &state.drag {
            Some(d) => if d.started {
                Some(
                    DragOverlay {
                        cursor_x: d.cursor_x,
                        cursor_y: d.cursor_y,
                        label: d.label.clone(),
                        target_desktop: d.target_desktop,
                    },
                )
            } else {
                None
            },
            None => None,
        };
        let rows = self.draw(
            &state.cfg,
            &layout,
            state.desktops.as_slice(),
            state.cursor,
            state.scroll,
            overlay.as_ref(),
        );
        let ghost_box: Option<(GhostBox, String)> = match overlay {
            Some(d) => match self.drag_ghost(&state.cfg, &d) {
                Some(area) => Some((area, d.label)),
                None => None,
            },
            None => None,
        };
        Frame::List { rows, ghost_box }
    }
}

/// The first `row_bytes` bytes of each of the first `n` rows of an image whose
/// rows start every `stride` bytes.
pub open spec fn packed(data: Seq<u8>, stride: int, row_bytes: int, n: int) -> Seq<u8>
    decreases n,
{
    if n <= 0 {
        Seq::empty()
    } else {
        packed(data, stride, row_bytes, n - 1) + data.subrange(
            (n - 1) * stride,
            (n - 1) * stride + row_bytes,
        )
    }
}

/// The pixels of an image without the gaps between its rows: `h` rows of `w`
/// pixels of 4 bytes, which start every `stride` bytes.
pub fn finish(data: &[u8], stride: usize, w: usize, h: usize) -> (r: Vec<u8>)
    requires
        w * 4 <= stride,
        h * stride == data@.len(),
    ensures
        r@ == packed(data@, stride as int, w * 4, h as int),
        w * 4 == stride ==> r@ == data@,
{
    let row_bytes: usize = w * 4;
    let mut out: Vec<u8> = Vec::new();
    let mut row: usize = 0;
    while row < h
        invariant
            row <= h,
            row_bytes == w * 4 <= stride,
            h * stride == data@.len(),
            out@ == packed(data@, stride as int, row_bytes as int, row as int),
            row_bytes == stride ==> out@ =~= data@.take(row * stride),
            0 <= row * stride <= data@.len(),
        decreases h - row,
    {
        assert(data.len() == data@.len());
        assert(row * stride + stride <= h * stride) by (nonlinear_arith)
            requires
                row < h,
                0 <= stride,
        ;
        assert((row + 1) * stride == row * stride + stride) by (nonlinear_arith);
        let start: usize = row * stride;
        let ghost before = out@;
        let mut k: usize = 0;
        while k < row_bytes
            invariant
                k <= row_bytes <= stride,
                start + stride <= data@.len() <= usize::MAX,
                out@ =~= before + data@.subrange(start as int, start + k),
            decreases row_bytes - k,
        {
            out.push(data[start + k]);
            k += 1;
        }
        row += 1;
    }
    out
}

/// Text that has been written as markup holds no tags.
pub proof fn law_markup_text_has_no_tags(s: Seq<char>)
    ensures
        !escaped(s).contains('<'),
        !escaped(s).contains('>'),
    decreases s.len(),
{
    if s.len() > 0 {
        law_markup_text_has_no_tags(s.drop_last());
        reveal_strlit("&amp;");
        reveal_strlit("&lt;");
        reveal_strlit("&gt;");
        let before = escaped(s.drop_last());
        let last = escaped_char(s.last());
        assert forall|i: int| 0 <= i < escaped(s).len() implies escaped(s)[i] != '<' && escaped(
            s,
        )[i] != '>' by {
            if i < before.len() {
                assert(escaped(s)[i] == before[i]);
                assert(before.contains(before[i]));
            } else {
                assert(escaped(s)[i] == last[i - before.len()]);
            }
        }
    }
}

/// Text without special characters is its own markup.
pub proof fn law_plain_text_is_its_own_markup(s: Seq<char>)
    requires
        !s.contains('&'),
        !s.contains('<'),
        !s.contains('>'),
    ensures
        escaped(s) == s,
    decreases s.len(),
{
    if s.len() > 0 {
        let rest = s.drop_last();
        assert(s.contains(s.last()));
        assert forall|c: char| rest.contains(c) implies s.contains(c) by {
            let i = choose|i: int| 0 <= i < rest.len() && rest[i] == c;
            assert(s[i] == c);
        }
        law_plain_text_is_its_own_markup(rest);
        assert(escaped(s) =~= s);
    }
}

/// A text that is cut is at most one character longer than allowed, for the
/// ellipsis, and a text that is short enough is kept.
pub proof fn law_cut_text_is_short(s: Seq<char>, max_chars: nat)
    ensures
        truncated(s, max_chars).len() <= max_chars + 1,
        s.len() <= max_chars ==> truncated(s, max_chars) == s,
        s.len() > max_chars ==> truncated(s, max_chars).drop_last() == s.take(max_chars as int)
            && truncated(s, max_chars).last() == '…',
{
    if s.len() > max_chars {
        assert(truncated(s, max_chars).drop_last() =~= s.take(max_chars as int));
    }
}

proof fn lemma_paints(
    r: &Renderer,
    inset: int,
    l: LayoutView,
    desktops: Seq<DesktopInfo>,
    cursor: int,
    scroll: int,
    target: Option<u32>,
    n: int,
)
    ensures
        forall|i: int|
            0 <= i < n && #[trigger] r.in_sight(l, scroll, i) ==> r.paints(
                inset,
                l,
                desktops,
                cursor,
                scroll,
                target,
                n,
            ).contains(r.paint_of(inset, l, desktops, cursor, scroll, target, i)),
    decreases n,
{
    if n > 0 {
        lemma_paints(r, inset, l, desktops, cursor, scroll, target, n - 1);
        let above = r.paints(inset, l, desktops, cursor, scroll, target, n - 1);
        let all = r.paints(inset, l, desktops, cursor, scroll, target, n);
        assert forall|i: int|
            0 <= i < n && #[trigger] r.in_sight(l, scroll, i) implies all.contains(
            r.paint_of(inset, l, desktops, cursor, scroll, target, i),
        ) by {
            let p = r.paint_of(inset, l, desktops, cursor, scroll, target, i);
            if i < n - 1 {
                let k = choose|k: int| 0 <= k < above.len() && above[k] == p;
                assert(all[k] == p);
            } else {
                assert(all.last() == p);
            }
        }
    }
}

/// Every row that is in sight is painted, and the selected one is marked.
pub proof fn law_rows_in_sight_are_painted(r: &Renderer, s: StateView, i: int)
    requires
        s.wf(),
        !s.show_help,
        0 <= i < s.rows().len(),
        r.in_sight(s.layout(), s.scroll, i),
    ensures
        r.frame_of(s) matches FrameView::List { rows, .. } && exists|k: int|
            0 <= k < rows.len() && (#[trigger] rows[k]).row == s.rows()[i] && rows[k].y
                == s.layout().row_y[i] - s.scroll && (i == s.cursor ==> rows[k].highlight is Some),
{
    let inset = s.cfg.border_thickness as int;
    let target = match s.overlay() {
        Some(d) => d.target_desktop,
        None => None,
    };
    let n = s.rows().len() as int;
    lemma_paints(r, inset, s.layout(), s.desktops, s.cursor, s.scroll, target, n);
    let p = r.paint_of(inset, s.layout(), s.desktops, s.cursor, s.scroll, target, i);
    let rows = r.paints(inset, s.layout(), s.desktops, s.cursor, s.scroll, target, n);
    assert(r.frame_of(s) matches FrameView::List { rows: shown, .. } && shown == rows);
    assert(rows.contains(p));
    let k = choose|k: int| 0 <= k < rows.len() && rows[k] == p;
    assert(rows[k].row == s.rows()[i]);
}

/// Capitalizing a text that starts in ASCII a second time changes nothing more.
pub proof fn law_ascii_is_capitalized_once(s: Seq<char>)
    ensures
        ascii_capitalized(ascii_capitalized(s)) == ascii_capitalized(s),
        s.len() > 0 && (s[0] as u32) < 128 ==> (ascii_capitalized(s)[0] as u32) < 128,
{
}

/// Capitalizing a second time changes nothing more exactly where the upper
/// case of the first character starts with a character that is its own upper
/// case.
pub proof fn law_capitalized_once(s: Seq<char>)
    ensures
        s.len() == 0 ==> capitalized(capitalized(s)) == capitalized(s),
        s.len() > 0 && uppercase(s[0]).len() > 0 ==> (capitalized(capitalized(s)) == capitalized(s)
            <==> uppercase(uppercase(s[0])[0]) == seq![uppercase(s[0])[0]]),
{
    if s.len() > 0 && uppercase(s[0]).len() > 0 {
        let once = capitalized(s);
        let twice = capitalized(once);
        let c = once[0];
        assert(once =~= seq![c] + once.skip(1));
        if twice == once {
            assert(twice.len() == uppercase(c).len() + once.len() - 1);
            assert(uppercase(c)[0] == twice[0]);
            assert(uppercase(c) =~= seq![c]);
        }
    }
}

/// Escaping goes piece by piece.
pub proof fn law_escaping_goes_by_pieces(a: Seq<char>, b: Seq<char>)
    ensures
        escaped(a + b) == escaped(a) + escaped(b),
    decreases b.len(),
{
    if b.len() == 0 {
        assert(a + b =~= a);
        assert(escaped(a) + escaped(b) =~= escaped(a));
    } else {
        assert((a + b).drop_last() =~= a + b.drop_last());
        law_escaping_goes_by_pieces(a, b.drop_last());
        assert(escaped(a) + escaped(b.drop_last()) + escaped_char(b.last()) =~= escaped(a)
            + escaped(b));
    }
}

proof fn lemma_escaped_front(s: Seq<char>)
    requires
        s.len() > 0,
    ensures
        escaped(s) == escaped_char(s[0]) + escaped(s.skip(1)),
{
    let head = seq![s[0]];
    assert(s =~= head + s.skip(1));
    law_escaping_goes_by_pieces(head, s.skip(1));
    assert(head.drop_last() =~= Seq::<char>::empty());
    assert(escaped(Seq::<char>::empty()) =~= Seq::<char>::empty());
    assert(escaped(head) =~= escaped_char(s[0]));
}

/// Different texts have different markup: escaping loses nothing.
pub proof fn law_escaping_loses_nothing(a: Seq<char>, b: Seq<char>)
    requires
        escaped(a) == escaped(b),
    ensures
        a == b,
    decreases a.len(),
{
    reveal_strlit("&amp;");
    reveal_strlit("&lt;");
    reveal_strlit("&gt;");
    if a.len() > 0 {
        lemma_escaped_front(a);
    }
    if b.len() > 0 {
        lemma_escaped_front(b);
    }
    if a.len() > 0 && b.len() > 0 {
        let x = escaped(a.skip(1));
        let y = escaped(b.skip(1));
        let all = escaped(a);
        assert(all[0] == escaped_char(a[0])[0] && all[0] == escaped_char(b[0])[0]);
        if all[0] == '&' {
            assert(all[1] == escaped_char(a[0])[1] && all[1] == escaped_char(b[0])[1]);
        }
        assert(a[0] == b[0]);
        assert(x =~= all.skip(escaped_char(a[0]).len() as int));
        assert(y =~= all.skip(escaped_char(a[0]).len() as int));
        law_escaping_loses_nothing(a.skip(1), b.skip(1));
        assert(a =~= seq![a[0]] + a.skip(1));
        assert(b =~= seq![b[0]] + b.skip(1));
    } else {
        assert(a.len() == 0 && b.len() == 0);
        assert(a =~= b);
    }
}

/// Capitalizing touches the first character only: its upper case, which may be
/// several characters, stands in front of all the others, which are kept.
pub proof fn law_capitalizing_keeps_the_rest(c: char, rest: Seq<char>)
    ensures
        capitalized(seq![c] + rest) == uppercase(c) + rest,
        capitalized(Seq::<char>::empty()) == Seq::<char>::empty(),
{
    assert((seq![c] + rest).skip(1) =~= rest);
}

/// A character that markup gives a meaning to is replaced by its entity
/// wherever it stands, and every other character is kept.
pub proof fn law_entities(a: Seq<char>, c: char, b: Seq<char>)
    ensures
        ({
            let shown = escaped(a + seq![c] + b);
            &&& c == '&' ==> shown == escaped(a) + seq!['&', 'a', 'm', 'p', ';'] + escaped(b)
            &&& c == '<' ==> shown == escaped(a) + seq!['&', 'l', 't', ';'] + escaped(b)
            &&& c == '>' ==> shown == escaped(a) + seq!['&', 'g', 't', ';'] + escaped(b)
            &&& c != '&' && c != '<' && c != '>' ==> shown == escaped(a) + seq![c] + escaped(b)
        }),
{
    reveal_strlit("&amp;");
    reveal_strlit("&lt;");
    reveal_strlit("&gt;");
    law_escaping_goes_by_pieces(a + seq![c], b);
    law_escaping_goes_by_pieces(a, seq![c]);
    let one = seq![c];
    lemma_escaped_front(one);
    assert(one.skip(1) =~= Seq::<char>::empty());
    assert(escaped(one) =~= escaped_char(c));
    assert("&amp;"@ =~= seq!['&', 'a', 'm', 'p', ';']);
    assert("&lt;"@ =~= seq!['&', 'l', 't', ';']);
    assert("&gt;"@ =~= seq!['&', 'g', 't', ';']);
}

/// The name in an app row is painted in the colour for the focused app if the
/// app has the focus, and in the colour for apps otherwise, in bold or not. Bold
/// puts tags around that name and changes nothing else.
pub proof fn law_names_are_in_their_colour(cfg: ConfigView, w: WindowInfo, focused: bool)
    ensures
        ({
            let color = if focused {
                cfg.theme.app_focused
            } else {
                cfg.theme.app
            };
            let text = capitalized(
                if w.class@.len() == 0 {
                    w.title@
                } else {
                    w.class@
                },
            );
            let name = "<span foreground=\""@ + color.hex_text() + "\">"@ + escaped(text)
                + "</span>"@;
            let bold = app_text(ConfigView { bold_apps: true, ..cfg }, w, focused);
            let plain = app_text(ConfigView { bold_apps: false, ..cfg }, w, focused);
            &&& name.is_prefix_of(plain)
            &&& bold == "<b>"@ + name + "</b>"@ + plain.skip(name.len() as int)
            &&& app_text(cfg, w, focused) == if cfg.bold_apps {
                bold
            } else {
                plain
            }
        }),
{
    let color = if focused {
        cfg.theme.app_focused
    } else {
        cfg.theme.app
    };
    let text = capitalized(
        if w.class@.len() == 0 {
            w.title@
        } else {
            w.class@
        },
    );
    let name = "<span foreground=\""@ + color.hex_text() + "\">"@ + escaped(text) + "</span>"@;
    let bold = app_text(ConfigView { bold_apps: true, ..cfg }, w, focused);
    let plain = app_text(ConfigView { bold_apps: false, ..cfg }, w, focused);
    let title = plain.skip(name.len() as int);
    assert(plain =~= name + title);
    assert(name =~= plain.subrange(0, name.len() as int));
    assert(bold =~= "<b>"@ + name + "</b>"@ + title);
}

/// Behind the name comes the title, after two spaces and in the dim colour, if
/// the window has a class and a title and they differ; otherwise nothing. A
/// title of more than sixty characters is cut there and marked.
pub proof fn law_titles_are_dim(cfg: ConfigView, w: WindowInfo, focused: bool)
    requires
        !cfg.bold_apps,
    ensures
        ({
            let color = if focused {
                cfg.theme.app_focused
            } else {
                cfg.theme.app
            };
            let text = capitalized(
                if w.class@.len() == 0 {
                    w.title@
                } else {
                    w.class@
                },
            );
            let name = "<span foreground=\""@ + color.hex_text() + "\">"@ + escaped(text)
                + "</span>"@;
            let title = if w.title@.len() > 60 {
                w.title@.take(60) + seq!['…']
            } else {
                w.title@
            };
            let shown = w.class@.len() > 0 && w.title@.len() > 0 && w.title@ != w.class@;
            app_text(cfg, w, focused) == if shown {
                name + "  "@ + ("<span foreground=\""@ + cfg.theme.app_dim.hex_text() + "\">"@
                    + escaped(title) + "</span>"@)
            } else {
                name
            }
        }),
{
    let long = w.title@.take(60);
    assert(long.push('…') =~= long + seq!['…']);
    let color = if focused {
        cfg.theme.app_focused
    } else {
        cfg.theme.app
    };
    let text = capitalized(
        if w.class@.len() == 0 {
            w.title@
        } else {
            w.class@
        },
    );
    let name = "<span foreground=\""@ + color.hex_text() + "\">"@ + escaped(text) + "</span>"@;
    match app_title(w) {
        Some(title) => {
            assert(app_text(cfg, w, focused) =~= name + "  "@ + span(cfg.theme.app_dim, title));
        },
        None => {
            assert(app_text(cfg, w, focused) =~= name);
        },
    }
}

/// A header shows the name of its desktop, and for a desktop without one its
/// number, counted from one. It is in the colour for the current desktop if it
/// is that, in the colour for empty desktops if it is empty, and in the colour
/// for headers otherwise.
pub proof fn law_headers_show_their_desktop(
    d: DesktopInfo,
    theme: &Theme,
    current: bool,
    empty: bool,
    color: Rgba,
)
    requires
        call_ensures(header_color, (theme, current, empty), color),
    ensures
        d.name@.len() > 0 ==> header_text(d) == d.name@,
        d.name@.len() == 0 ==> header_text(d) == "Desktop "@ + decimal_text(
            (d.index + 1) as nat,
        ),
        current ==> color == theme.header_current,
        !current && empty ==> color == theme.header_empty,
        !current && !empty ==> color == theme.header,
{
}

/// Which rows of `n` are painted, from top to bottom: each row is at least
/// partly between the top and the bottom edge of the popup.
pub open spec fn are_in_sight(
    shown: Seq<int>,
    l: LayoutView,
    scroll: int,
    height: int,
    n: int,
) -> bool {
    &&& forall|k: int|
        0 <= k < shown.len() ==> 0 <= #[trigger] shown[k] < n && l.row_y[shown[k]]
            + l.row_h[shown[k]] >= scroll && l.row_y[shown[k]] <= scroll + height * 1000
    &&& forall|k: int, m: int| 0 <= k < m < shown.len() ==> shown[k] < shown[m]
    &&& forall|i: int|
        0 <= i < n && l.row_y[i] + l.row_h[i] >= scroll && l.row_y[i] <= scroll + height * 1000
            ==> #[trigger] shown.contains(i)
}

/// What a repaint shows of row `i`: the row itself, moved up by the scroll
/// position; the mark of the cursor behind the whole row just if the cursor is
/// on it; and a line along its lower edge, two pixels high, just if it is the
/// header of the desktop that a drag in progress points at.
pub open spec fn is_painted_as(p: RowPaintView, r: &Renderer, s: StateView, i: int) -> bool {
    let l = s.layout();
    let edge = s.cfg.border_thickness as int;
    let y = l.row_y[i] - s.scroll;
    let width = r.w * 1000 - 2 * edge;
    let pointed_at = l.rows[i] matches Row::Header { desktop_idx, .. } && (s.drag matches Some(d)
        && d.started && d.target_desktop == Some(s.desktops[desktop_idx as int].index));
    &&& p.row == l.rows[i]
    &&& p.y == y && p.h == l.row_h[i]
    &&& i == s.cursor ==> p.highlight == Some(
        RectView { x: edge, y, w: width, h: l.row_h[i] },
    )
    &&& i != s.cursor ==> p.highlight is None
    &&& pointed_at ==> p.underline == Some(
        RectView { x: edge, y: y + l.row_h[i] - 2_000, w: width, h: 2_000 },
    )
    &&& !pointed_at ==> p.underline is None
}

/// Unless the key bindings are shown, a repaint shows exactly the rows that are
/// in sight, in order, each with its marks.
pub proof fn law_repaint_shows_the_rows(r: &Renderer, s: StateView)
    requires
        !s.show_help,
    ensures
        r.frame_of(s) matches FrameView::List { rows, .. } && exists|shown: Seq<int>|
            #[trigger] are_in_sight(
                shown,
                s.layout(),
                s.scroll,
                r.h as int,
                s.rows().len() as int,
            ) && shown.len() == rows.len() && forall|k: int|
                0 <= k < rows.len() ==> is_painted_as(#[trigger] rows[k], r, s, shown[k]),
{
    let n = s.rows().len() as int;
    let shown = lemma_shown_rows(r, s, n);
    let rows = painted_rows(r, s, pointed_at(s), n);
    assert(r.frame_of(s)->rows == rows);
    assert(are_in_sight(shown, s.layout(), s.scroll, r.h as int, n));
    assert forall|k: int| 0 <= k < rows.len() implies is_painted_as(
        #[trigger] rows[k],
        r,
        s,
        shown[k],
    ) by {}
}

/// How the first `n` rows of a state are painted.
spec fn painted_rows(r: &Renderer, s: StateView, target: Option<u32>, n: int) -> Seq<RowPaintView> {
    r.paints(
        s.cfg.border_thickness as int,
        s.layout(),
        s.desktops,
        s.cursor,
        s.scroll,
        target,
        n,
    )
}

/// The desktop that a drag in progress points at.
spec fn pointed_at(s: StateView) -> Option<u32> {
    match s.overlay() {
        Some(d) => d.target_desktop,
        None => None,
    }
}

proof fn lemma_shown_rows(r: &Renderer, s: StateView, n: int) -> (shown: Seq<int>)
    requires
        0 <= n <= s.rows().len(),
        !s.show_help,
    ensures
        are_in_sight(shown, s.layout(), s.scroll, r.h as int, n),
        shown.len() == painted_rows(r, s, pointed_at(s), n).len(),
        forall|k: int|
            0 <= k < shown.len() ==> is_painted_as(
                #[trigger] painted_rows(r, s, pointed_at(s), n)[k],
                r,
                s,
                shown[k],
            ),
    decreases n,
{
    let l = s.layout();
    if n == 0 {
        Seq::empty()
    } else {
        let above = lemma_shown_rows(r, s, n - 1);
        let before = painted_rows(r, s, pointed_at(s), n - 1);
        let rows = painted_rows(r, s, pointed_at(s), n);
        let i = n - 1;
        if l.row_y[i] + l.row_h[i] >= s.scroll && l.row_y[i] <= s.scroll + r.h * 1000 {
            let shown = above.push(i);
            assert forall|k: int| 0 <= k < rows.len() implies is_painted_as(
                #[trigger] rows[k],
                r,
                s,
                shown[k],
            ) by {
                if k < before.len() {
                    assert(rows[k] == before[k]);
                    assert(is_painted_as(before[k], r, s, above[k]));
                }
            }
            assert forall|j: int|
                0 <= j < n && l.row_y[j] + l.row_h[j] >= s.scroll && l.row_y[j] <= s.scroll + r.h
                    * 1000 implies #[trigger] shown.contains(j) by {
                if j < i {
                    assert(above.contains(j));
                    let k = choose|k: int| 0 <= k < above.len() && above[k] == j;
                    assert(shown[k] == j);
                } else {
                    assert(shown[above.len() as int] == j);
                }
            }
            shown
        } else {
            above
        }
    }
}

/// What follows the pointer: nothing before a drag has started. Then the text
/// of the dragged window in a box to the lower right of the pointer, as high as
/// an app row, at most 220 pixels wide, and inside the popup with eight pixels
/// to spare; nothing where less than 60 pixels are left for it.
pub proof fn law_drag_box(r: &Renderer, s: StateView)
    requires
        !s.show_help,
    ensures
        r.frame_of(s) matches FrameView::List { ghost_box, .. } && match s.drag {
            None => ghost_box is None,
            Some(d) => {
                let left = (d.cursor_x + 8) * 1000;
                let room = r.w * 1000 - 8_000 - left;
                &&& !d.started || room < 60_000 ==> ghost_box is None
                &&& d.started && room >= 60_000 ==> (ghost_box matches Some((b, text)) && {
                    &&& text == d.label
                    &&& b.area.x == left && b.area.y == (d.cursor_y + 4) * 1000
                    &&& b.area.h == s.cfg.app_height
                    &&& b.area.w <= 220_000 && b.area.w <= room
                    &&& b.area.w == 220_000 || b.area.w == room
                    &&& b.line.x - b.area.x == 500 && b.line.y - b.area.y == 500
                    &&& b.area.w - b.line.w == 1_000 && b.area.h - b.line.h == 1_000
                    &&& b.text_x == b.area.x + 8_000
                    &&& b.text_x + b.text_w == b.area.x + b.area.w - 4_000
                })
            },
        },
{
}

/// The key bindings are painted just while they are asked for: a title below
/// the frame, and below that one line for each of them, in two columns. The
/// keys take up 45% of the width, but at least 180 pixels, and what they do the
/// rest, with the same space at both sides.
pub proof fn law_help_is_painted(r: &Renderer, s: StateView)
    ensures
        r.frame_of(s) is Help <==> s.show_help,
        r.frame_of(s) matches FrameView::Help(p) ==> {
            &&& p.title_y == s.cfg.border_thickness
            &&& p.lines.len() == 12
            &&& p.lines[0] == p.title_y + s.cfg.header_height
            &&& p.line_h == s.cfg.app_height
            &&& forall|k: int, m: int|
                0 <= k < 12 && m == k + 1 && m < 12 ==> #[trigger] p.lines[m] - #[trigger] p.lines[k]
                    == s.cfg.app_height
            &&& p.key_w >= 180_000 && p.key_w * 20 >= r.w * 1000 * 9
            &&& p.key_w == 180_000 || p.key_w * 20 == r.w * 1000 * 9
            &&& p.key_x == 16_000 && p.desc_x == p.key_x + p.key_w
            &&& p.desc_x + p.desc_w == r.w * 1000 - 16_000
        },
{
    if s.show_help {
        let p = r.help_of(s.cfg);
        let h = s.cfg.app_height as int;
        let first = s.cfg.border_thickness + s.cfg.header_height;
        assert forall|k: int, m: int|
            0 <= k < 12 && m == k + 1 && m < 12 implies #[trigger] p.lines[m]
            - #[trigger] p.lines[k] == h by {
            assert(p.lines[k] == first + k * h);
            assert(p.lines[m] == first + m * h);
            assert(m * h == k * h + h) by (nonlinear_arith)
                requires
                    m == k + 1,
            ;
        }
        assert(p.lines[0] == first + 0 * h);
    }
}

/// The image for a window is made from its icon at 36 pixels the first time it
/// is asked for, and stays the same from then on, whatever the window's icon is
/// then. Asking for one window changes nothing for another.
pub proof fn law_icons_are_kept(
    r: &Renderer,
    w: WindowInfo,
    later: &Renderer,
    again: WindowInfo,
    other: u32,
)
    requires
        later.kept() == r.kept_with(w),
        again.id == w.id,
        other != w.id,
    ensures
        r.kept_with(w).dom().contains(w.id) ==> later.kept_with(again) == r.kept_with(w),
        ({
            let before = r.kept();
            let after = r.kept_with(w);
            let made = match w.icon {
                Some(raw) => image_of(raw@, 36),
                None => None,
            };
            &&& before.dom().contains(w.id) ==> after == before
            &&& !before.dom().contains(w.id) ==> {
                &&& after.dom().contains(w.id) <==> made is Some
                &&& made matches Some(image) ==> after[w.id] == image
            }
            &&& after.dom().contains(other) <==> before.dom().contains(other)
            &&& before.dom().contains(other) ==> after[other] == before[other]
        }),
{
}

proof fn lemma_packed_len(data: Seq<u8>, stride: int, row_bytes: int, n: int)
    requires
        0 <= row_bytes <= stride,
        0 <= n,
        n * stride <= data.len(),
    ensures
        packed(data, stride, row_bytes, n).len() == n * row_bytes,
    decreases n,
{
    if n > 0 {
        assert((n - 1) * stride + stride == n * stride) by (nonlinear_arith);
        assert((n - 1) * row_bytes + row_bytes == n * row_bytes) by (nonlinear_arith);
        assert(0 <= (n - 1) * stride) by (nonlinear_arith)
            requires
                n >= 1,
                stride >= 0,
        ;
        lemma_packed_len(data, stride, row_bytes, n - 1);
    } else {
        assert(0 * row_bytes == 0) by (nonlinear_arith);
    }
}

/// Byte `k` of row `row` of an image without gaps is byte `k` of that row of the
/// image with gaps.
pub proof fn law_rows_are_packed(
    data: Seq<u8>,
    stride: int,
    row_bytes: int,
    n: int,
    row: int,
    k: int,
)
    requires
        0 <= k < row_bytes <= stride,
        0 <= row < n,
        n * stride <= data.len(),
    ensures
        packed(data, stride, row_bytes, n).len() == n * row_bytes,
        packed(data, stride, row_bytes, n)[row * row_bytes + k] == data[row * stride + k],
    decreases n,
{
    assert((n - 1) * stride + stride == n * stride) by (nonlinear_arith);
    assert(0 <= (n - 1) * stride) by (nonlinear_arith)
        requires
            n >= 1,
            stride >= 0,
    ;
    lemma_packed_len(data, stride, row_bytes, n);
    lemma_packed_len(data, stride, row_bytes, n - 1);
    let before = packed(data, stride, row_bytes, n - 1);
    if row < n - 1 {
        law_rows_are_packed(data, stride, row_bytes, n - 1, row, k);
        assert(row * row_bytes + k < (n - 1) * row_bytes) by (nonlinear_arith)
            requires
                row + 1 <= n - 1,
                0 <= k < row_bytes,
        ;
        assert(0 <= row * row_bytes) by (nonlinear_arith)
            requires
                0 <= row,
                0 <= row_bytes,
        ;
        assert(packed(data, stride, row_bytes, n)[row * row_bytes + k] == before[row * row_bytes
            + k]);
    }
}

/// The help names each key binding with what it does, one line for each.
pub proof fn law_help_names_the_keys(list: Vec<(&'static str, &'static str)>)
    requires
        call_ensures(bindings, (), list),
    ensures
        list@.len() == 12,
        ({
            let text = |k: int| (list@[k].0@, list@[k].1@);
            &&& text(0) == ("j / k, ↓ / ↑"@, "move cursor"@)
            &&& text(1) == ("gg / G"@, "jump to first / last row"@)
            &&& text(2) == ("Enter"@, "switch to desktop / focus app"@)
            &&& text(3) == ("1–9, 0"@, "jump to desktop 1–10"@)
            &&& text(4) == ("Shift+J / Shift+K"@, "move app one desktop down / up"@)
            &&& text(5) == ("Shift+Ctrl+J / Shift+Ctrl+K"@, "move app and follow"@)
            &&& text(6) == ("Click"@, "switch to desktop / focus app"@)
            &&& text(7) == ("Drag app onto desktop"@, "move app"@)
            &&& text(8) == ("Shift+drag"@, "move app and follow"@)
            &&& text(9) == ("dd"@, "close window"@)
            &&& text(10) == ("F1"@, "toggle this help"@)
            &&& text(11) == ("Esc / q / Super+D"@, "close popup"@)
        }),
{
    let shown = list@.map_values(|b: (&str, &str)| (b.0@, b.1@));
    assert(shown == binding_texts());
    assert forall|k: int| 0 <= k < 12 implies #[trigger] shown[k] == (list@[k].0@, list@[k].1@) by {}
    let text = |k: int| (list@[k].0@, list@[k].1@);
    assert forall|k: int| 0 <= k < 12 implies #[trigger] text(k) == binding_texts()[k] by {
        assert(shown[k] == (list@[k].0@, list@[k].1@));
    }
}

} // verus!
