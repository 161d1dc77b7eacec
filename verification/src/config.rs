//! The popup's configuration: colours, fonts and sizes, where the file lives,
//! and how the keys found in it override the defaults.
//!
//! Numbers are fixed-point. Lengths are in thousandths of a pixel, the opacity
//! is in millionths, and a colour channel is in 255-millionths, so that both
//! an 8-bit channel and an opacity are whole numbers of channel units.

#[allow(unused_imports)]
use crate::text::{hex_pair, push_hex, trim, trimmed};
use vstd::prelude::*;
#[allow(unused_imports)]
use vstd::utf8::encode_utf8;

verus! {

/// Commented TOML with every key at its default, for the user to edit.
pub const DEFAULT_CONFIG: &'static str = r##"# scatto — popup config. All keys are optional. Save this at
# ~/.config/scatto/config.toml (or pipe `scatto print-config` into it),
# then reopen the popup; the file is read once per launch.

[window]
# Popup width in px.
width = 520
# Max popup height in px. Content scrolls if taller.
max_height = 640
# Background transparency. 0.0 = fully transparent, 1.0 = opaque.
# Visible transparency requires a compositor (e.g. picom).
opacity = 0.94

[font]
# Any Pango font family.
family = "Sans"
# Absolute font size in px.
size = 13.0
# Bold weight on desktop headers.
bold_headers = true
# Bold weight on app names (the dim title stays regular).
bold_apps = true

[colors]
# Hex strings: #RGB, #RGBA, #RRGGBB, or #RRGGBBAA. Alpha is honored
# everywhere except `background`, whose alpha comes from `window.opacity`
# (the dedicated transparency knob).
background     = "#1a1c24"
border         = "#ffffff14"
cursor         = "#4d8ce547"
drop_target    = "#4dd98cd9"
header_current = "#f2f2ff"
header_empty   = "#a6a6b38c"
header         = "#d9d9e6d9"
app            = "#e8e8ee"
app_focused    = "#ffd166"
app_dim        = "#9c9ca8"
"##;

/// Channel units in one step of an 8-bit channel.
pub const CHANNEL_STEP: u32 = 1_000_000;

/// Channel units in one millionth of full intensity.
pub const CHANNEL_PER_MILLIONTH: u32 = 255;

/// The opacity of an opaque background, in millionths.
pub const OPAQUE: u32 = 1_000_000;

/// A colour. A channel at full intensity is `255 * CHANNEL_STEP`.
#[derive(Debug, Clone, Copy, PartialEq, Eq, Structural)]
pub struct Rgba {
    pub r: u32,
    pub g: u32,
    pub b: u32,
    pub a: u32,
}

/// The 8-bit value nearest to a channel, halves rounded up, at most 255.
pub open spec fn nearest_byte(channel: u32) -> u8 {
    let q = (channel + CHANNEL_STEP / 2) / CHANNEL_STEP as int;
    if q > 255 {
        255
    } else {
        q as u8
    }
}

fn to_nearest_byte(channel: u32) -> (r: u8)
    ensures
        r == nearest_byte(channel),
{
    let q: u64 = (channel as u64 + (CHANNEL_STEP / 2) as u64) / CHANNEL_STEP as u64;
    if q > 255 {
        255
    } else {
        q as u8
    }
}

/// The colour with the given 8-bit channels.
pub open spec fn rgba_of(r: u8, g: u8, b: u8, a: u8) -> Rgba {
    Rgba {
        r: (r * CHANNEL_STEP) as u32,
        g: (g * CHANNEL_STEP) as u32,
        b: (b * CHANNEL_STEP) as u32,
        a: (a * CHANNEL_STEP) as u32,
    }
}

/// Builds a colour from 8-bit channels.
pub fn rgba(r: u8, g: u8, b: u8, a: u8) -> (c: Rgba)
    ensures
        c == rgba_of(r, g, b, a),
{
    Rgba {
        r: r as u32 * CHANNEL_STEP,
        g: g as u32 * CHANNEL_STEP,
        b: b as u32 * CHANNEL_STEP,
        a: a as u32 * CHANNEL_STEP,
    }
}

impl Rgba {
    /// The `#rrggbb` text of the colour; alpha plays no part.
    pub open spec fn hex_text(&self) -> Seq<char> {
        seq!['#'] + hex_pair(nearest_byte(self.r)) + hex_pair(nearest_byte(self.g)) + hex_pair(
            nearest_byte(self.b),
        )
    }

    /// `#rrggbb` form for markup, which takes solid colours only: alpha is
    /// ignored.
    pub fn hex(&self) -> (s: String)
        ensures
            s@ == self.hex_text(),
    {
        let mut s: String = String::new();
        s.push('#');
        assert(s@ =~= seq!['#']);
        push_hex(&mut s, to_nearest_byte(self.r));
        push_hex(&mut s, to_nearest_byte(self.g));
        push_hex(&mut s, to_nearest_byte(self.b));
        s
    }
}

/// Why a colour text is not a colour. `at` is the offset, after the `#`, of
/// the digits that are not hexadecimal.
#[derive(Debug, Clone, Copy, PartialEq, Eq, Structural)]
pub enum ColorError {
    MissingHash,
    BadLength,
    BadNibble { at: usize },
    BadByte { at: usize },
}

/// The value of one hexadecimal digit.
pub open spec fn digit_value(b: u8) -> Option<u8> {
    if 48 <= b <= 57 {
        Some((b - 48) as u8)
    } else if 97 <= b <= 102 {
        Some((b - 87) as u8)
    } else if 65 <= b <= 70 {
        Some((b - 55) as u8)
    } else {
        None
    }
}

fn digit(b: u8) -> (r: Option<u8>)
    ensures
        r == digit_value(b),
{
    if 48 <= b && b <= 57 {
        Some(b - 48)
    } else if 97 <= b && b <= 102 {
        Some(b - 87)
    } else if 65 <= b && b <= 70 {
        Some(b - 55)
    } else {
        None
    }
}

/// The channel that a single digit stands for: `#abc` is `#aabbcc`.
pub open spec fn nibble_value(b: u8) -> Option<u8> {
    match digit_value(b) {
        Some(v) => Some((v * 17) as u8),
        None => None,
    }
}

/// The channel that two digits stand for.
pub open spec fn byte_value(hi: u8, lo: u8) -> Option<u8> {
    match (digit_value(hi), digit_value(lo)) {
        (Some(h), Some(l)) => Some((h * 16 + l) as u8),
        _ => None,
    }
}

/// Reads one digit as a channel, expanding `a` to `aa`.
pub fn h1(b: u8) -> (r: Option<u8>)
    ensures
        r == nibble_value(b),
{
    match digit(b) {
        Some(v) => Some(v * 17),
        None => None,
    }
}

/// Reads two digits as a channel.
pub fn h2(hi: u8, lo: u8) -> (r: Option<u8>)
    ensures
        r == byte_value(hi, lo),
{
    match (digit(hi), digit(lo)) {
        (Some(h), Some(l)) => Some(h * 16 + l),
        _ => None,
    }
}

/// Whether the digits after the `#` are single digits per channel.
pub open spec fn is_short(d: Seq<u8>) -> bool {
    d.len() == 3 || d.len() == 4
}

/// Whether the digits after the `#` come in pairs per channel.
pub open spec fn is_long(d: Seq<u8>) -> bool {
    d.len() == 6 || d.len() == 8
}

/// Channel `k` of the digits after the `#`; an absent alpha is 255.
pub open spec fn channel_of(d: Seq<u8>, k: int) -> Result<u8, ColorError> {
    if is_short(d) {
        if k >= d.len() {
            Ok(255)
        } else {
            match nibble_value(d[k]) {
                Some(v) => Ok(v),
                None => Err(ColorError::BadNibble { at: k as usize }),
            }
        }
    } else {
        if 2 * k >= d.len() {
            Ok(255)
        } else {
            match byte_value(d[2 * k], d[2 * k + 1]) {
                Some(v) => Ok(v),
                None => Err(ColorError::BadByte { at: (2 * k) as usize }),
            }
        }
    }
}

/// The colour that the digits after the `#` stand for, or the first thing that
/// is wrong with them.
pub open spec fn digits_color(d: Seq<u8>) -> Result<Rgba, ColorError> {
    if !is_short(d) && !is_long(d) {
        Err(ColorError::BadLength)
    } else {
        match (channel_of(d, 0), channel_of(d, 1), channel_of(d, 2), channel_of(d, 3)) {
            (Err(e), _, _, _) => Err(e),
            (_, Err(e), _, _) => Err(e),
            (_, _, Err(e), _) => Err(e),
            (_, _, _, Err(e)) => Err(e),
            (Ok(r), Ok(g), Ok(b), Ok(a)) => Ok(rgba_of(r, g, b, a)),
        }
    }
}

/// The colour that a text stands for.
pub open spec fn color_of(s: Seq<char>) -> Result<Rgba, ColorError> {
    let t = trimmed(s);
    if t.len() == 0 || t[0] != '#' {
        Err(ColorError::MissingHash)
    } else {
        digits_color(encode_utf8(t.skip(1)))
    }
}

fn channel(d: &[u8], k: usize) -> (r: Result<u8, ColorError>)
    requires
        is_short(d@) || is_long(d@),
        k < 4,
    ensures
        r == channel_of(d@, k as int),
{
    if d.len() < 6 {
        if k >= d.len() {
            Ok(255)
        } else {
            match h1(d[k]) {
                Some(v) => Ok(v),
                None => Err(ColorError::BadNibble { at: k }),
            }
        }
    } else {
        if 2 * k >= d.len() {
            Ok(255)
        } else {
            match h2(d[2 * k], d[2 * k + 1]) {
                Some(v) => Ok(v),
                None => Err(ColorError::BadByte { at: 2 * k }),
            }
        }
    }
}

/// Accepts `#RGB`, `#RGBA`, `#RRGGBB`, or `#RRGGBBAA`, with white space around
/// it.
pub fn parse_color(s: &str) -> (r: Result<Rgba, ColorError>)
    ensures
        r == color_of(s@),
{
    let t = trim(s);
    let chars = crate::text::chars_of(&t);
    if chars.len() == 0 || chars[0] != '#' {
        return Err(ColorError::MissingHash);
    }
    let rest = crate::text::string_of(&chars, 1, chars.len());
    assert(rest@ =~= trimmed(s@).skip(1));
    let d = rest.as_str().as_bytes();
    if d.len() != 3 && d.len() != 4 && d.len() != 6 && d.len() != 8 {
        return Err(ColorError::BadLength);
    }
    match channel(d, 0) {
        Err(e) => Err(e),
        Ok(r) => match channel(d, 1) {
            Err(e) => Err(e),
            Ok(g) => match channel(d, 2) {
                Err(e) => Err(e),
                Ok(b) => match channel(d, 3) {
                    Err(e) => Err(e),
                    Ok(a) => Ok(rgba(r, g, b, a)),
                },
            },
        },
    }
}

/// The colours of everything that is painted.
#[derive(Debug, Clone, Copy, PartialEq, Eq, Structural)]
pub struct Theme {
    pub background: Rgba,
    pub border: Rgba,
    pub cursor: Rgba,
    pub drop_target: Rgba,
    pub header_current: Rgba,
    pub header_empty: Rgba,
    pub header: Rgba,
    pub app: Rgba,
    pub app_focused: Rgba,
    pub app_dim: Rgba,
}

/// The theme used where the configuration names no other colour.
pub open spec fn default_theme() -> Theme {
    Theme {
        background: rgba_of(0x1a, 0x1c, 0x24, 0xff),
        border: rgba_of(0xff, 0xff, 0xff, 0x14),
        cursor: rgba_of(0x4d, 0x8c, 0xe5, 0x47),
        drop_target: rgba_of(0x4d, 0xd9, 0x8c, 0xd9),
        header_current: rgba_of(0xf2, 0xf2, 0xff, 0xff),
        header_empty: rgba_of(0xa6, 0xa6, 0xb3, 0x8c),
        header: rgba_of(0xd9, 0xd9, 0xe6, 0xd9),
        app: rgba_of(0xe8, 0xe8, 0xee, 0xff),
        app_focused: rgba_of(0xff, 0xd1, 0x66, 0xff),
        app_dim: rgba_of(0x9c, 0x9c, 0xa8, 0xff),
    }
}

/// Everything the user can set, and the row metrics.
#[derive(Debug)]
pub struct Config {
    /// Popup width in pixels.
    pub width: u16,
    /// Largest popup height in pixels.
    pub max_height: u16,
    /// Background opacity in millionths, at most `OPAQUE`. It replaces the
    /// alpha of `theme.background`.
    pub opacity: u32,
    pub font_family: String,
    /// Font size in thousandths of a pixel.
    pub font_size: i32,
    pub bold_headers: bool,
    pub bold_apps: bool,
    /// Width of the frame, in thousandths of a pixel.
    pub border_thickness: i32,
    /// Height of a desktop header row, in thousandths of a pixel.
    pub header_height: i32,
    /// Height of an app row, in thousandths of a pixel.
    pub app_height: i32,
    pub theme: Theme,
}

/// A configuration with its text as characters.
pub struct ConfigView {
    pub width: u16,
    pub max_height: u16,
    pub opacity: u32,
    pub font_family: Seq<char>,
    pub font_size: i32,
    pub bold_headers: bool,
    pub bold_apps: bool,
    pub border_thickness: i32,
    pub header_height: i32,
    pub app_height: i32,
    pub theme: Theme,
}

impl View for Config {
    type V = ConfigView;

    open spec fn view(&self) -> ConfigView {
        ConfigView {
            width: self.width,
            max_height: self.max_height,
            opacity: self.opacity,
            font_family: self.font_family@,
            font_size: self.font_size,
            bold_headers: self.bold_headers,
            bold_apps: self.bold_apps,
            border_thickness: self.border_thickness,
            header_height: self.header_height,
            app_height: self.app_height,
            theme: self.theme,
        }
    }
}

/// The configuration used where the user sets nothing.
pub open spec fn default_config() -> ConfigView {
    ConfigView {
        width: 520,
        max_height: 640,
        opacity: 940_000,
        font_family: "Sans"@,
        font_size: 13_000,
        bold_headers: true,
        bold_apps: true,
        border_thickness: 1_000,
        header_height: 30_000,
        app_height: 26_000,
        theme: default_theme(),
    }
}

impl Config {
    /// Holds of every configuration that is loaded: the opacity is in range.
    pub open spec fn wf(&self) -> bool {
        self.opacity <= OPAQUE
    }
}

impl Default for Config {
    fn default() -> (c: Self)
        ensures
            c.wf(),
            c@ == default_config(),
    {
        Config {
            width: 520,
            max_height: 640,
            opacity: 940_000,
            font_family: "Sans".to_string(),
            font_size: 13_000,
            bold_headers: true,
            bold_apps: true,
            border_thickness: 1_000,
            header_height: 30_000,
            app_height: 26_000,
            theme: Theme {
                background: rgba(0x1a, 0x1c, 0x24, 0xff),
                border: rgba(0xff, 0xff, 0xff, 0x14),
                cursor: rgba(0x4d, 0x8c, 0xe5, 0x47),
                drop_target: rgba(0x4d, 0xd9, 0x8c, 0xd9),
                header_current: rgba(0xf2, 0xf2, 0xff, 0xff),
                header_empty: rgba(0xa6, 0xa6, 0xb3, 0x8c),
                header: rgba(0xd9, 0xd9, 0xe6, 0xd9),
                app: rgba(0xe8, 0xe8, 0xee, 0xff),
                app_focused: rgba(0xff, 0xd1, 0x66, 0xff),
                app_dim: rgba(0x9c, 0x9c, 0xa8, 0xff),
            },
        }
    }
}

/// The `[window]` keys found in a file. The opacity is in millionths.
#[derive(Debug)]
pub struct RawWindow {
    pub width: Option<u16>,
    pub max_height: Option<u16>,
    pub opacity: Option<i64>,
}

/// The `[font]` keys found in a file. The size is in thousandths of a pixel.
#[derive(Debug)]
pub struct RawFont {
    pub family: Option<String>,
    pub size: Option<i32>,
    pub bold_headers: Option<bool>,
    pub bold_apps: Option<bool>,
}

/// The `[colors]` keys found in a file.
#[derive(Debug)]
pub struct RawColors {
    pub background: Option<String>,
    pub border: Option<String>,
    pub cursor: Option<String>,
    pub drop_target: Option<String>,
    pub header_current: Option<String>,
    pub header_empty: Option<String>,
    pub header: Option<String>,
    pub app: Option<String>,
    pub app_focused: Option<String>,
    pub app_dim: Option<String>,
}

/// The tables found in a file. Every table and every key is optional.
#[derive(Debug)]
pub struct RawConfig {
    pub window: Option<RawWindow>,
    pub font: Option<RawFont>,
    pub colors: Option<RawColors>,
}

/// The keys of `[colors]`.
#[derive(Debug, Clone, Copy, PartialEq, Eq, Structural)]
pub enum ColorKey {
    Background,
    Border,
    Cursor,
    DropTarget,
    HeaderCurrent,
    HeaderEmpty,
    Header,
    App,
    AppFocused,
    AppDim,
}

/// Why a configuration is refused.
#[derive(Debug, Clone, Copy, PartialEq, Eq, Structural)]
pub enum ConfigError {
    Color { key: ColorKey, error: ColorError },
}

/// `value` cut to the range of an opacity.
pub open spec fn clamp_opacity(value: i64) -> u32 {
    if value < 0 {
        0
    } else if value > OPAQUE {
        OPAQUE
    } else {
        value as u32
    }
}

/// The value of a key: what the file says, or else what was there before.
pub open spec fn key_or<T>(key: Option<T>, before: T) -> T {
    match key {
        Some(v) => v,
        None => before,
    }
}

impl ConfigView {
    /// The configuration with the `[window]` keys of a file in force.
    pub open spec fn with_window(self, raw: RawWindow) -> ConfigView {
        ConfigView {
            width: key_or(raw.width, self.width),
            max_height: key_or(raw.max_height, self.max_height),
            opacity: match raw.opacity {
                Some(v) => clamp_opacity(v),
                None => self.opacity,
            },
            ..self
        }
    }

    /// The configuration with the `[font]` keys of a file in force. A size
    /// that is not positive is ignored.
    pub open spec fn with_font(self, raw: RawFont) -> ConfigView {
        ConfigView {
            font_family: match raw.family {
                Some(v) => v@,
                None => self.font_family,
            },
            font_size: match raw.size {
                Some(v) if v > 0 => v,
                _ => self.font_size,
            },
            bold_headers: key_or(raw.bold_headers, self.bold_headers),
            bold_apps: key_or(raw.bold_apps, self.bold_apps),
            ..self
        }
    }
}

/// What one key of `[colors]` sets its colour to.
pub open spec fn color_key(text: Option<String>, before: Rgba, key: ColorKey) -> Result<
    Rgba,
    ConfigError,
> {
    match text {
        None => Ok(before),
        Some(s) => match color_of(s@) {
            Ok(c) => Ok(c),
            Err(error) => Err(ConfigError::Color { key, error }),
        },
    }
}

impl Theme {
    /// The theme with the `[colors]` keys of a file in force, or the first key
    /// that is no colour.
    pub open spec fn with_colors(self, raw: RawColors) -> Result<Theme, ConfigError> {
        let background = color_key(raw.background, self.background, ColorKey::Background);
        let border = color_key(raw.border, self.border, ColorKey::Border);
        let cursor = color_key(raw.cursor, self.cursor, ColorKey::Cursor);
        let drop_target = color_key(raw.drop_target, self.drop_target, ColorKey::DropTarget);
        let header_current = color_key(
            raw.header_current,
            self.header_current,
            ColorKey::HeaderCurrent,
        );
        let header_empty = color_key(raw.header_empty, self.header_empty, ColorKey::HeaderEmpty);
        let header = color_key(raw.header, self.header, ColorKey::Header);
        let app = color_key(raw.app, self.app, ColorKey::App);
        let app_focused = color_key(raw.app_focused, self.app_focused, ColorKey::AppFocused);
        let app_dim = color_key(raw.app_dim, self.app_dim, ColorKey::AppDim);
        if background is Err {
            Err(background->Err_0)
        } else if border is Err {
            Err(border->Err_0)
        } else if cursor is Err {
            Err(cursor->Err_0)
        } else if drop_target is Err {
            Err(drop_target->Err_0)
        } else if header_current is Err {
            Err(header_current->Err_0)
        } else if header_empty is Err {
            Err(header_empty->Err_0)
        } else if header is Err {
            Err(header->Err_0)
        } else if app is Err {
            Err(app->Err_0)
        } else if app_focused is Err {
            Err(app_focused->Err_0)
        } else if app_dim is Err {
            Err(app_dim->Err_0)
        } else {
            Ok(
                Theme {
                    background: background->Ok_0,
                    border: border->Ok_0,
                    cursor: cursor->Ok_0,
                    drop_target: drop_target->Ok_0,
                    header_current: header_current->Ok_0,
                    header_empty: header_empty->Ok_0,
                    header: header->Ok_0,
                    app: app->Ok_0,
                    app_focused: app_focused->Ok_0,
                    app_dim: app_dim->Ok_0,
                },
            )
        }
    }
}

/// The configuration that a file stands for.
pub open spec fn loaded(raw: RawConfig) -> Result<ConfigView, ConfigError> {
    let c = default_config();
    let c = match raw.window {
        Some(window) => c.with_window(window),
        None => c,
    };
    let c = match raw.font {
        Some(font) => c.with_font(font),
        None => c,
    };
    match raw.colors {
        Some(colors) => match c.theme.with_colors(colors) {
            Ok(theme) => Ok(ConfigView { theme, ..c }),
            Err(e) => Err(e),
        },
        None => Ok(c),
    }
}

fn read_color(text: &Option<String>, before: Rgba, key: ColorKey) -> (r: Result<Rgba, ConfigError>)
    ensures
        r == color_key(*text, before, key),
{
    match text {
        None => Ok(before),
        Some(s) => match parse_color(s.as_str()) {
            Ok(c) => Ok(c),
            Err(error) => Err(ConfigError::Color { key, error }),
        },
    }
}

fn read_colors(before: Theme, raw: &RawColors) -> (r: Result<Theme, ConfigError>)
    ensures
        r == before.with_colors(*raw),
{
    let background = match read_color(&raw.background, before.background, ColorKey::Background) {
        Ok(c) => c,
        Err(e) => return Err(e),
    };
    let border = match read_color(&raw.border, before.border, ColorKey::Border) {
        Ok(c) => c,
        Err(e) => return Err(e),
    };
    let cursor = match read_color(&raw.cursor, before.cursor, ColorKey::Cursor) {
        Ok(c) => c,
        Err(e) => return Err(e),
    };
    let drop_target = match read_color(
        &raw.drop_target,
        before.drop_target,
        ColorKey::DropTarget,
    ) {
        Ok(c) => c,
        Err(e) => return Err(e),
    };
    let header_current = match read_color(
        &raw.header_current,
        before.header_current,
        ColorKey::HeaderCurrent,
    ) {
        Ok(c) => c,
        Err(e) => return Err(e),
    };
    let header_empty = match read_color(
        &raw.header_empty,
        before.header_empty,
        ColorKey::HeaderEmpty,
    ) {
        Ok(c) => c,
        Err(e) => return Err(e),
    };
    let header = match read_color(&raw.header, before.header, ColorKey::Header) {
        Ok(c) => c,
        Err(e) => return Err(e),
    };
    let app = match read_color(&raw.app, before.app, ColorKey::App) {
        Ok(c) => c,
        Err(e) => return Err(e),
    };
    let app_focused = match read_color(
        &raw.app_focused,
        before.app_focused,
        ColorKey::AppFocused,
    ) {
        Ok(c) => c,
        Err(e) => return Err(e),
    };
    let app_dim = match read_color(&raw.app_dim, before.app_dim, ColorKey::AppDim) {
        Ok(c) => c,
        Err(e) => return Err(e),
    };
    Ok(
        Theme {
            background,
            border,
            cursor,
            drop_target,
            header_current,
            header_empty,
            header,
            app,
            app_focused,
            app_dim,
        },
    )
}

impl Config {
    /// The configuration for what was read from the file: the defaults where
    /// there is no file, and otherwise the defaults overridden by the keys
    /// that the file sets. Fails on the first colour that does not parse.
    pub fn load(raw: Option<RawConfig>) -> (r: Result<Self, ConfigError>)
        ensures
            raw matches None ==> r matches Ok(c) && c@ == default_config(),
            raw matches Some(f) ==> match (r, loaded(f)) {
                (Ok(c), Ok(v)) => c@ == v,
                (Err(e), Err(x)) => e == x,
                _ => false,
            },
            r matches Ok(c) ==> c.wf(),
    {
        let mut cfg = Config::default();
        let raw = match raw {
            None => return Ok(cfg),
            Some(raw) => raw,
        };
        if let Some(w) = raw.window {
            if let Some(v) = w.width {
                cfg.width = v;
            }
            if let Some(v) = w.max_height {
                cfg.max_height = v;
            }
            if let Some(v) = w.opacity {
                cfg.opacity = if v < 0 {
                    0
                } else if v > OPAQUE as i64 {
                    OPAQUE
                } else {
                    v as u32
                };
            }
        }
        if let Some(f) = raw.font {
            if let Some(v) = f.family {
                cfg.font_family = v;
            }
            if let Some(v) = f.size {
                if v > 0 {
                    cfg.font_size = v;
                }
            }
            if let Some(v) = f.bold_headers {
                cfg.bold_headers = v;
            }
            if let Some(v) = f.bold_apps {
                cfg.bold_apps = v;
            }
        }
        if let Some(c) = &raw.colors {
            match read_colors(cfg.theme, c) {
                Ok(theme) => cfg.theme = theme,
                Err(e) => return Err(e),
            }
        }
        Ok(cfg)
    }

    /// The background as it is painted: its alpha is the opacity, whatever
    /// alpha the colour itself had.
    pub fn background_with_opacity(&self) -> (c: Rgba)
        requires
            self.wf(),
        ensures
            c == (Rgba {
                a: (self.opacity * CHANNEL_PER_MILLIONTH) as u32,
                ..self.theme.background
            }),
    {
        Rgba { a: self.opacity * CHANNEL_PER_MILLIONTH, ..self.theme.background }
    }
}

/// `part` below the directory `base`, as paths are joined: with a slash in
/// between, unless `base` is empty or ends in one.
pub open spec fn joined(base: Seq<u8>, part: Seq<u8>) -> Seq<u8> {
    if base.len() == 0 || base.last() == 47 {
        base + part
    } else {
        base + seq![47u8] + part
    }
}

/// The directory that holds the file, given the values of `XDG_CONFIG_HOME`
/// and `HOME`.
pub open spec fn config_dir_of(xdg: Option<Seq<u8>>, home: Option<Seq<u8>>) -> Option<Seq<u8>> {
    match (xdg, home) {
        (Some(x), _) => Some(joined(x, encode_utf8("scatto"@))),
        (None, Some(h)) => Some(
            joined(joined(h, encode_utf8(".config"@)), encode_utf8("scatto"@)),
        ),
        (None, None) => None,
    }
}

/// The path of the file, given the values of `XDG_CONFIG_HOME` and `HOME`.
pub open spec fn config_path_of(xdg: Option<Seq<u8>>, home: Option<Seq<u8>>) -> Option<Seq<u8>> {
    match config_dir_of(xdg, home) {
        Some(dir) => Some(joined(dir, encode_utf8("config.toml"@))),
        None => None,
    }
}

/// The bytes of an environment variable, if it is set.
pub open spec fn opt_bytes(v: Option<&[u8]>) -> Option<Seq<u8>> {
    match v {
        Some(b) => Some(b@),
        None => None,
    }
}

/// The bytes of a path, if there is one.
pub open spec fn opt_path(v: Option<Vec<u8>>) -> Option<Seq<u8>> {
    match v {
        Some(b) => Some(b@),
        None => None,
    }
}

fn join(base: &[u8], part: &str) -> (r: Vec<u8>)
    ensures
        r@ == joined(base@, encode_utf8(part@)),
{
    let mut out: Vec<u8> = vstd::slice::slice_to_vec(base);
    if base.len() != 0 && base[base.len() - 1] != 47 {
        out.push(47);
    }
    let mut tail: Vec<u8> = vstd::slice::slice_to_vec(part.as_bytes());
    out.append(&mut tail);
    assert(out@ =~= joined(base@, encode_utf8(part@)));
    out
}

fn config_dir(xdg: Option<&[u8]>, home: Option<&[u8]>) -> (r: Option<Vec<u8>>)
    ensures
        opt_path(r) == config_dir_of(opt_bytes(xdg), opt_bytes(home)),
{
    match xdg {
        Some(x) => Some(join(x, "scatto")),
        None => match home {
            Some(h) => {
                let base = join(h, ".config");
                Some(join(base.as_slice(), "scatto"))
            },
            None => None,
        },
    }
}

/// Where the file lives: `$XDG_CONFIG_HOME/scatto/config.toml`, or below
/// `$HOME/.config` where that variable is not set. `None` without either.
pub fn config_path(xdg: Option<&[u8]>, home: Option<&[u8]>) -> (r: Option<Vec<u8>>)
    ensures
        opt_path(r) == config_path_of(opt_bytes(xdg), opt_bytes(home)),
{
    match config_dir(xdg, home) {
        Some(dir) => Some(join(dir.as_slice(), "config.toml")),
        None => None,
    }
}

/// What writing the default configuration takes: make the directory, then
/// write the text to the file.
#[derive(Debug)]
pub struct InitPlan {
    pub dir: Vec<u8>,
    pub file: Vec<u8>,
    pub text: &'static str,
}

/// Why the default configuration is not written.
#[derive(Debug)]
pub enum InitError {
    /// There is no home directory to write below.
    NoPath,
    /// There is a file at this path already.
    Exists { file: Vec<u8> },
}

/// Decides how to write the default configuration. An existing file is never
/// overwritten; `exists` says whether there is one at the path.
pub fn write_default_config(xdg: Option<&[u8]>, home: Option<&[u8]>, exists: bool) -> (r: Result<
    InitPlan,
    InitError,
>)
    ensures
        match config_path_of(opt_bytes(xdg), opt_bytes(home)) {
            None => r matches Err(InitError::NoPath),
            Some(path) => if exists {
                r matches Err(InitError::Exists { file }) && file@ == path
            } else {
                r matches Ok(plan) && plan.file@ == path && Some(plan.dir@) == config_dir_of(
                    opt_bytes(xdg),
                    opt_bytes(home),
                ) && plan.text@ == DEFAULT_CONFIG@
            },
        },
{
    let dir = match config_dir(xdg, home) {
        Some(dir) => dir,
        None => return Err(InitError::NoPath),
    };
    let file = join(dir.as_slice(), "config.toml");
    if exists {
        return Err(InitError::Exists { file });
    }
    Ok(InitPlan { dir, file, text: DEFAULT_CONFIG })
}

} // verus!
