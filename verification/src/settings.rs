//! What holds of the configuration: what a file changes, what the default file
//! loads as, and which texts are the same colour.

#[allow(unused_imports)]
use crate::config::{
    byte_value, channel_of, color_of, config_dir_of, config_path_of, default_config, default_theme,
    digit_value, digits_color, is_long, is_short, joined, loaded, nearest_byte, opt_bytes, rgba_of,
    write_default_config, ColorError, ColorKey, Config, ConfigError, ConfigView, InitError,
    InitPlan, RawColors, RawConfig, Rgba, Theme, DEFAULT_CONFIG, OPAQUE,
};
#[allow(unused_imports)]
use crate::text::{
    ascii_lower, hex_digit, is_blank, is_white_space, law_white_space_is_trimmed,
    lemma_trimmed_of_lowered, lowered, trim_front, trimmed,
};
use vstd::prelude::*;
#[allow(unused_imports)]
use vstd::utf8::{
    encode_scalar, encode_utf8, is_ascii_chars, is_ascii_chars_encode_utf8, leading_byte_width_1,
};

verus! {

/// A file without keys changes nothing.
pub proof fn law_empty_file_is_default(raw: RawConfig)
    requires
        raw.window is None,
        raw.font is None,
        raw.colors is None,
    ensures
        loaded(raw) == Ok::<ConfigView, ConfigError>(default_config()),
{
}

/// Whether a key is set to a text.
pub open spec fn says(key: Option<String>, text: Seq<char>) -> bool {
    key matches Some(s) && s@ == text
}

/// Whether a file sets every key to what `DEFAULT_CONFIG` lists for it.
pub open spec fn is_default_file(raw: RawConfig) -> bool {
    &&& raw.window matches Some(w) && {
        &&& w.width == Some(520u16)
        &&& w.max_height == Some(640u16)
        &&& w.opacity == Some(940_000i64)
    }
    &&& raw.font matches Some(f) && {
        &&& says(f.family, "Sans"@)
        &&& f.size == Some(13_000i32)
        &&& f.bold_headers == Some(true)
        &&& f.bold_apps == Some(true)
    }
    &&& raw.colors matches Some(c) && {
        &&& says(c.background, "#1a1c24"@)
        &&& says(c.border, "#ffffff14"@)
        &&& says(c.cursor, "#4d8ce547"@)
        &&& says(c.drop_target, "#4dd98cd9"@)
        &&& says(c.header_current, "#f2f2ff"@)
        &&& says(c.header_empty, "#a6a6b38c"@)
        &&& says(c.header, "#d9d9e6d9"@)
        &&& says(c.app, "#e8e8ee"@)
        &&& says(c.app_focused, "#ffd166"@)
        &&& says(c.app_dim, "#9c9ca8"@)
    }
}

/// The default file loads as the defaults.
pub proof fn law_default_file_is_default(raw: RawConfig)
    requires
        is_default_file(raw),
    ensures
        loaded(raw) == Ok::<ConfigView, ConfigError>(default_config()),
{
    lemma_default_background();
    lemma_default_border();
    lemma_default_cursor();
    lemma_default_drop_target();
    lemma_default_header_current();
    lemma_default_header_empty();
    lemma_default_header();
    lemma_default_app();
    lemma_default_app_focused();
    lemma_default_app_dim();
}

proof fn lemma_default_background()
    ensures
        color_of("#1a1c24"@) == Ok::<Rgba, ColorError>(default_theme().background),
{
    reveal_strlit("#1a1c24");
    lemma_long_text("#1a1c24"@, 0x1a, 0x1c, 0x24, 0xff);
}

proof fn lemma_default_border()
    ensures
        color_of("#ffffff14"@) == Ok::<Rgba, ColorError>(default_theme().border),
{
    reveal_strlit("#ffffff14");
    lemma_long_text("#ffffff14"@, 0xff, 0xff, 0xff, 0x14);
}

proof fn lemma_default_cursor()
    ensures
        color_of("#4d8ce547"@) == Ok::<Rgba, ColorError>(default_theme().cursor),
{
    reveal_strlit("#4d8ce547");
    lemma_long_text("#4d8ce547"@, 0x4d, 0x8c, 0xe5, 0x47);
}

proof fn lemma_default_drop_target()
    ensures
        color_of("#4dd98cd9"@) == Ok::<Rgba, ColorError>(default_theme().drop_target),
{
    reveal_strlit("#4dd98cd9");
    lemma_long_text("#4dd98cd9"@, 0x4d, 0xd9, 0x8c, 0xd9);
}

proof fn lemma_default_header_current()
    ensures
        color_of("#f2f2ff"@) == Ok::<Rgba, ColorError>(default_theme().header_current),
{
    reveal_strlit("#f2f2ff");
    lemma_long_text("#f2f2ff"@, 0xf2, 0xf2, 0xff, 0xff);
}

proof fn lemma_default_header_empty()
    ensures
        color_of("#a6a6b38c"@) == Ok::<Rgba, ColorError>(default_theme().header_empty),
{
    reveal_strlit("#a6a6b38c");
    lemma_long_text("#a6a6b38c"@, 0xa6, 0xa6, 0xb3, 0x8c);
}

proof fn lemma_default_header()
    ensures
        color_of("#d9d9e6d9"@) == Ok::<Rgba, ColorError>(default_theme().header),
{
    reveal_strlit("#d9d9e6d9");
    lemma_long_text("#d9d9e6d9"@, 0xd9, 0xd9, 0xe6, 0xd9);
}

proof fn lemma_default_app()
    ensures
        color_of("#e8e8ee"@) == Ok::<Rgba, ColorError>(default_theme().app),
{
    reveal_strlit("#e8e8ee");
    lemma_long_text("#e8e8ee"@, 0xe8, 0xe8, 0xee, 0xff);
}

proof fn lemma_default_app_focused()
    ensures
        color_of("#ffd166"@) == Ok::<Rgba, ColorError>(default_theme().app_focused),
{
    reveal_strlit("#ffd166");
    lemma_long_text("#ffd166"@, 0xff, 0xd1, 0x66, 0xff);
}

proof fn lemma_default_app_dim()
    ensures
        color_of("#9c9ca8"@) == Ok::<Rgba, ColorError>(default_theme().app_dim),
{
    reveal_strlit("#9c9ca8");
    lemma_long_text("#9c9ca8"@, 0x9c, 0x9c, 0xa8, 0xff);
}

/// Whether a character is a hexadecimal digit.
pub open spec fn is_hexadecimal(c: char) -> bool {
    '0' <= c <= '9' || 'a' <= c <= 'f' || 'A' <= c <= 'F'
}

/// The digits of a text, as bytes.
spec fn digits_of(t: Seq<char>) -> Seq<u8> {
    t.map_values(|c: char| c as u8)
}

/// A `#` with digits behind it is the colour that the digits stand for.
proof fn lemma_hexadecimal_text(t: Seq<char>)
    requires
        t.len() > 1,
        t[0] == '#',
        forall|i: int| 1 <= i < t.len() ==> is_hexadecimal(#[trigger] t[i]),
    ensures
        color_of(t) == digits_color(digits_of(t.skip(1))),
{
    let d = t.skip(1);
    assert(is_hexadecimal(t[t.len() - 1]));
    assert(!is_white_space(t.last()));
    assert(trim_front(t) == t);
    assert(trimmed(t) == t);
    assert forall|i: int| 0 <= i < d.len() implies is_hexadecimal(#[trigger] d[i]) by {
        assert(d[i] == t[i + 1]);
    }
    assert(is_ascii_chars(d));
    is_ascii_chars_encode_utf8(d);
    assert(encode_utf8(d) =~= digits_of(d));
}

proof fn lemma_long_text(t: Seq<char>, r: u8, g: u8, b: u8, a: u8)
    requires
        t.len() == 9 || (t.len() == 7 && a == 255),
        t[0] == '#',
        forall|i: int| 1 <= i < t.len() ==> is_hexadecimal(#[trigger] t[i]),
        byte_value(t[1] as u8, t[2] as u8) == Some(r),
        byte_value(t[3] as u8, t[4] as u8) == Some(g),
        byte_value(t[5] as u8, t[6] as u8) == Some(b),
        t.len() == 9 ==> byte_value(t[7] as u8, t[8] as u8) == Some(a),
    ensures
        color_of(t) == Ok::<Rgba, ColorError>(rgba_of(r, g, b, a)),
{
    lemma_hexadecimal_text(t);
    let d = digits_of(t.skip(1));
    assert(channel_of(d, 0) == Ok::<u8, ColorError>(r));
    assert(channel_of(d, 1) == Ok::<u8, ColorError>(g));
    assert(channel_of(d, 2) == Ok::<u8, ColorError>(b));
    assert(channel_of(d, 3) == Ok::<u8, ColorError>(a));
}

/// Every key is optional: what the file does not set keeps its default, whatever
/// else it sets. The opacity is always in range and the font size positive.
pub proof fn law_absent_keys_keep_their_defaults(raw: RawConfig)
    ensures
        loaded(raw) matches Ok(c) ==> {
            let d = default_config();
            &&& raw.window is None || raw.window->0.width is None ==> c.width == d.width
            &&& raw.window is None || raw.window->0.max_height is None ==> c.max_height
                == d.max_height
            &&& raw.window is None || raw.window->0.opacity is None ==> c.opacity == d.opacity
            &&& raw.font is None || raw.font->0.family is None ==> c.font_family == d.font_family
            &&& raw.font is None || raw.font->0.size is None ==> c.font_size == d.font_size
            &&& raw.font is None || raw.font->0.bold_headers is None ==> c.bold_headers
                == d.bold_headers
            &&& raw.font is None || raw.font->0.bold_apps is None ==> c.bold_apps == d.bold_apps
            &&& raw.colors is None ==> c.theme == d.theme
            &&& raw.colors matches Some(k) ==> {
                &&& k.background is None ==> c.theme.background == d.theme.background
                &&& k.border is None ==> c.theme.border == d.theme.border
                &&& k.cursor is None ==> c.theme.cursor == d.theme.cursor
                &&& k.drop_target is None ==> c.theme.drop_target == d.theme.drop_target
                &&& k.header_current is None ==> c.theme.header_current == d.theme.header_current
                &&& k.header_empty is None ==> c.theme.header_empty == d.theme.header_empty
                &&& k.header is None ==> c.theme.header == d.theme.header
                &&& k.app is None ==> c.theme.app == d.theme.app
                &&& k.app_focused is None ==> c.theme.app_focused == d.theme.app_focused
                &&& k.app_dim is None ==> c.theme.app_dim == d.theme.app_dim
            }
            &&& c.border_thickness == d.border_thickness
            &&& c.header_height == d.header_height
            &&& c.app_height == d.app_height
            &&& c.opacity <= OPAQUE
            &&& c.font_size > 0
        },
{
}

/// A file is refused only for a colour that it sets.
pub proof fn law_only_colours_are_refused(raw: RawConfig)
    requires
        raw.colors is None,
    ensures
        loaded(raw) is Ok,
{
}

/// One digit per channel means the same as that digit twice.
pub proof fn law_short_colours(d: Seq<u8>)
    requires
        d.len() == 3 || d.len() == 4,
        forall|k: int| 0 <= k < d.len() ==> digit_value(#[trigger] d[k]) is Some,
    ensures
        digits_color(d) is Ok,
        digits_color(d) == digits_color(Seq::new(2 * d.len(), |i: int| d[i / 2])),
{
    let e = Seq::new(2 * d.len(), |i: int| d[i / 2]);
    assert forall|k: int| 0 <= k < 4 implies channel_of(d, k) == channel_of(e, k) && channel_of(
        d,
        k,
    ) is Ok by {
        if k < d.len() {
            assert(digit_value(d[k]) is Some);
            assert(e[2 * k] == d[k] && e[2 * k + 1] == d[k]);
        }
    }
}

proof fn lemma_hex_digit(v: int)
    requires
        0 <= v < 16,
    ensures
        (hex_digit(v) as u32) < 128,
        !is_white_space(hex_digit(v)),
        digit_value(hex_digit(v) as u8) == Some(v as u8),
{
}

/// The text of a colour stands for that colour, without its alpha.
pub proof fn law_colours_are_read_back(r: u8, g: u8, b: u8, a: u8)
    ensures
        color_of(rgba_of(r, g, b, a).hex_text()) == Ok::<Rgba, ColorError>(rgba_of(r, g, b, 255)),
{
    let t = rgba_of(r, g, b, a).hex_text();
    assert(nearest_byte(rgba_of(r, g, b, a).r) == r);
    assert(nearest_byte(rgba_of(r, g, b, a).g) == g);
    assert(nearest_byte(rgba_of(r, g, b, a).b) == b);
    lemma_hex_digit(r as int / 16);
    lemma_hex_digit(r as int % 16);
    lemma_hex_digit(g as int / 16);
    lemma_hex_digit(g as int % 16);
    lemma_hex_digit(b as int / 16);
    lemma_hex_digit(b as int % 16);
    assert(t.len() == 7);
    assert(t[0] == '#');
    assert(trim_front(t) == t);
    assert(t.last() == hex_digit(b as int % 16));
    assert(trimmed(t) == t);
    let d = t.skip(1);
    assert(d =~= seq![
        hex_digit(r as int / 16),
        hex_digit(r as int % 16),
        hex_digit(g as int / 16),
        hex_digit(g as int % 16),
        hex_digit(b as int / 16),
        hex_digit(b as int % 16),
    ]);
    assert(is_ascii_chars(d));
    is_ascii_chars_encode_utf8(d);
    let e = encode_utf8(d);
    assert(e.len() == 6);
    assert(channel_of(e, 0) == Ok::<u8, ColorError>(r));
    assert(channel_of(e, 1) == Ok::<u8, ColorError>(g));
    assert(channel_of(e, 2) == Ok::<u8, ColorError>(b));
}

/// Only hexadecimal digits make a colour.
pub proof fn law_colours_are_hexadecimal(d: Seq<u8>)
    requires
        digits_color(d) is Ok,
    ensures
        d.len() == 3 || d.len() == 4 || d.len() == 6 || d.len() == 8,
        forall|i: int| 0 <= i < d.len() ==> digit_value(#[trigger] d[i]) is Some,
{
    assert(channel_of(d, 0) is Ok && channel_of(d, 1) is Ok && channel_of(d, 2) is Ok
        && channel_of(d, 3) is Ok);
}

/// A short colour means the same as the long one with every digit twice.
pub proof fn law_short_colour_texts(d: Seq<char>)
    requires
        d.len() == 3 || d.len() == 4,
        forall|i: int| 0 <= i < d.len() ==> is_hexadecimal(#[trigger] d[i]),
    ensures
        color_of(seq!['#'] + d) is Ok,
        color_of(seq!['#'] + d) == color_of(
            seq!['#'] + Seq::new(2 * d.len(), |i: int| d[i / 2]),
        ),
{
    let e = Seq::new(2 * d.len(), |i: int| d[i / 2]);
    let short = seq!['#'] + d;
    let long = seq!['#'] + e;
    assert forall|i: int| 1 <= i < short.len() implies is_hexadecimal(#[trigger] short[i]) by {
        assert(short[i] == d[i - 1]);
    }
    assert forall|i: int| 1 <= i < long.len() implies is_hexadecimal(#[trigger] long[i]) by {
        assert(long[i] == d[(i - 1) / 2]);
    }
    lemma_hexadecimal_text(short);
    lemma_hexadecimal_text(long);
    assert(short.skip(1) =~= d);
    assert(long.skip(1) =~= e);
    let b = digits_of(d);
    assert forall|k: int| 0 <= k < b.len() implies digit_value(#[trigger] b[k]) is Some by {
        assert(is_hexadecimal(d[k]));
    }
    law_short_colours(b);
    assert(digits_of(e) =~= Seq::new(2 * b.len(), |i: int| b[i / 2]));
}

/// White space around a colour makes no difference.
pub proof fn law_white_space_around_colours(before: Seq<char>, s: Seq<char>, after: Seq<char>)
    requires
        is_blank(before),
        is_blank(after),
    ensures
        color_of(before + s + after) == color_of(s),
{
    law_white_space_is_trimmed(before, s, after);
}

proof fn lemma_same_digits(d: Seq<u8>, e: Seq<u8>)
    requires
        d.len() == e.len(),
        forall|i: int| 0 <= i < d.len() ==> digit_value(#[trigger] d[i]) == digit_value(e[i]),
    ensures
        digits_color(d) == digits_color(e),
{
    if is_short(d) || is_long(d) {
        assert forall|k: int| 0 <= k < 4 implies channel_of(d, k) == channel_of(e, k) by {
            if is_short(d) {
                if k < d.len() {
                    assert(digit_value(d[k]) == digit_value(e[k]));
                }
            } else if 2 * k < d.len() {
                assert(digit_value(d[2 * k]) == digit_value(e[2 * k]));
                assert(digit_value(d[2 * k + 1]) == digit_value(e[2 * k + 1]));
            }
        }
    }
}

proof fn lemma_lowered_digits(t: Seq<char>)
    ensures
        encode_utf8(lowered(t)).len() == encode_utf8(t).len(),
        forall|i: int|
            0 <= i < encode_utf8(t).len() ==> digit_value(#[trigger] encode_utf8(t)[i])
                == digit_value(encode_utf8(lowered(t))[i]),
    decreases t.len(),
{
    if t.len() > 0 {
        let rest = t.drop_first();
        lemma_lowered_digits(rest);
        assert(lowered(t).drop_first() =~= lowered(rest));
        let c = t[0];
        let small = ascii_lower(c);
        if 'A' <= c <= 'Z' {
            let x = c as u32;
            let y = small as u32;
            assert(leading_byte_width_1(x) == x as u8) by (bit_vector)
                requires
                    x < 128,
            ;
            assert(leading_byte_width_1(y) == y as u8) by (bit_vector)
                requires
                    y < 128,
            ;
        }
        let a = encode_scalar(c as u32);
        let b = encode_scalar(small as u32);
        assert(a.len() == b.len());
        assert(encode_utf8(t) =~= a + encode_utf8(rest));
        assert(encode_utf8(lowered(t)) =~= b + encode_utf8(lowered(rest)));
        assert forall|i: int| 0 <= i < encode_utf8(t).len() implies digit_value(
            #[trigger] encode_utf8(t)[i],
        ) == digit_value(encode_utf8(lowered(t))[i]) by {
            if i < a.len() {
                assert(digit_value(a[i]) == digit_value(b[i]));
            } else {
                let k = i - a.len();
                assert(digit_value(encode_utf8(rest)[k]) == digit_value(
                    encode_utf8(lowered(rest))[k],
                ));
            }
        }
    }
}

/// Capitals and small letters make no difference in a colour.
pub proof fn law_letter_case_of_colours(s: Seq<char>)
    ensures
        color_of(lowered(s)) == color_of(s),
{
    lemma_trimmed_of_lowered(s);
    let t = trimmed(s);
    if t.len() > 0 {
        assert(lowered(t).skip(1) =~= lowered(t.skip(1)));
        lemma_lowered_digits(t.skip(1));
        lemma_same_digits(encode_utf8(t.skip(1)), encode_utf8(lowered(t.skip(1))));
    }
}

/// What a file sets is in force: sizes, fonts and weights as they are, an
/// opacity that is out of range as the nearest that is not, and a font size that
/// is not positive as if it were not set.
pub proof fn law_set_keys_are_in_force(raw: RawConfig)
    ensures
        loaded(raw) matches Ok(c) ==> {
            &&& raw.window matches Some(w) ==> {
                &&& w.width matches Some(v) ==> c.width == v
                &&& w.max_height matches Some(v) ==> c.max_height == v
                &&& w.opacity matches Some(v) ==> {
                    &&& 0 <= v <= 1_000_000 ==> c.opacity == v
                    &&& v < 0 ==> c.opacity == 0
                    &&& v > 1_000_000 ==> c.opacity == 1_000_000
                }
            }
            &&& raw.font matches Some(f) ==> {
                &&& f.family matches Some(v) ==> c.font_family == v@
                &&& f.size matches Some(v) ==> {
                    &&& v > 0 ==> c.font_size == v
                    &&& v <= 0 ==> c.font_size == 13_000
                }
                &&& f.bold_headers matches Some(v) ==> c.bold_headers == v
                &&& f.bold_apps matches Some(v) ==> c.bold_apps == v
            }
        },
{
}

/// The text of the colour key number `k`, in the order of the file.
pub open spec fn colour_text(raw: RawColors, k: int) -> Option<String> {
    if k == 0 {
        raw.background
    } else if k == 1 {
        raw.border
    } else if k == 2 {
        raw.cursor
    } else if k == 3 {
        raw.drop_target
    } else if k == 4 {
        raw.header_current
    } else if k == 5 {
        raw.header_empty
    } else if k == 6 {
        raw.header
    } else if k == 7 {
        raw.app
    } else if k == 8 {
        raw.app_focused
    } else {
        raw.app_dim
    }
}

/// The colour number `k` of a theme, in the order of the file.
pub open spec fn colour_in(theme: Theme, k: int) -> Rgba {
    if k == 0 {
        theme.background
    } else if k == 1 {
        theme.border
    } else if k == 2 {
        theme.cursor
    } else if k == 3 {
        theme.drop_target
    } else if k == 4 {
        theme.header_current
    } else if k == 5 {
        theme.header_empty
    } else if k == 6 {
        theme.header
    } else if k == 7 {
        theme.app
    } else if k == 8 {
        theme.app_focused
    } else {
        theme.app_dim
    }
}

/// The colour key number `k`, in the order of the file.
pub open spec fn colour_key(k: int) -> ColorKey {
    if k == 0 {
        ColorKey::Background
    } else if k == 1 {
        ColorKey::Border
    } else if k == 2 {
        ColorKey::Cursor
    } else if k == 3 {
        ColorKey::DropTarget
    } else if k == 4 {
        ColorKey::HeaderCurrent
    } else if k == 5 {
        ColorKey::HeaderEmpty
    } else if k == 6 {
        ColorKey::Header
    } else if k == 7 {
        ColorKey::App
    } else if k == 8 {
        ColorKey::AppFocused
    } else {
        ColorKey::AppDim
    }
}

/// Whether a colour key is not set, or set to a colour.
pub open spec fn is_fine(raw: RawColors, k: int) -> bool {
    colour_text(raw, k) matches Some(s) ==> color_of(s@) is Ok
}

/// Every colour that a file sets is the one that its text stands for, each for
/// its own key.
pub proof fn law_colours_are_in_force(raw: RawConfig, colors: RawColors, k: int)
    requires
        raw.colors == Some(colors),
        0 <= k < 10,
    ensures
        loaded(raw) matches Ok(c) ==> (colour_text(colors, k) matches Some(s) ==> color_of(s@)
            == Ok::<Rgba, ColorError>(colour_in(c.theme, k))),
{
}

/// A file is accepted just if every colour key that it sets is set to a colour.
pub proof fn law_files_with_colours_are_accepted(raw: RawConfig, colors: RawColors)
    requires
        raw.colors == Some(colors),
    ensures
        (forall|j: int| 0 <= j < 10 ==> #[trigger] is_fine(colors, j)) <==> loaded(raw) is Ok,
{
    lemma_accepted(raw, colors);
    if loaded(raw) is Ok {
        assert forall|j: int| 0 <= j < 10 implies #[trigger] is_fine(colors, j) by {}
    }
}

proof fn lemma_accepted(raw: RawConfig, colors: RawColors)
    requires
        raw.colors == Some(colors),
    ensures
        is_fine(colors, 0) && is_fine(colors, 1) && is_fine(colors, 2) && is_fine(colors, 3) && is_fine(colors, 4) && is_fine(colors, 5) && is_fine(colors, 6) && is_fine(colors, 7) && is_fine(colors, 8) && is_fine(colors, 9) <==> loaded(raw) is Ok,
{
}

/// A file is refused for the first colour key that is set to no colour, and for
/// what is wrong with its text.
pub proof fn law_first_bad_colour_is_named(raw: RawConfig, colors: RawColors, k: int)
    requires
        raw.colors == Some(colors),
        0 <= k < 10,
        !is_fine(colors, k),
        forall|j: int| 0 <= j < k ==> #[trigger] is_fine(colors, j),
    ensures
        loaded(raw) == Err::<ConfigView, ConfigError>(
            ConfigError::Color {
                key: colour_key(k),
                error: color_of(colour_text(colors, k)->0@)->Err_0,
            },
        ),
{
    assert(k > 0 ==> is_fine(colors, 0));
    assert(k > 1 ==> is_fine(colors, 1));
    assert(k > 2 ==> is_fine(colors, 2));
    assert(k > 3 ==> is_fine(colors, 3));
    assert(k > 4 ==> is_fine(colors, 4));
    assert(k > 5 ==> is_fine(colors, 5));
    assert(k > 6 ==> is_fine(colors, 6));
    assert(k > 7 ==> is_fine(colors, 7));
    assert(k > 8 ==> is_fine(colors, 8));
}

/// What a hexadecimal digit counts.
pub open spec fn digit_counts(c: char) -> int {
    if '0' <= c <= '9' {
        c as int - '0' as int
    } else if 'a' <= c <= 'f' {
        c as int - 'a' as int + 10
    } else {
        c as int - 'A' as int + 10
    }
}

/// Six hexadecimal digits behind a `#` are red, green and blue, two each, and
/// two more are the alpha, which is full without them. The first of two digits
/// counts sixteen times.
pub proof fn law_long_colours_are_read(d: Seq<char>, color: Rgba)
    requires
        d.len() == 6 || d.len() == 8,
        forall|i: int| 0 <= i < d.len() ==> is_hexadecimal(#[trigger] d[i]),
        color_of(seq!['#'] + d) == Ok::<Rgba, ColorError>(color),
    ensures
        color.r == (16 * digit_counts(d[0]) + digit_counts(d[1])) * 1_000_000,
        color.g == (16 * digit_counts(d[2]) + digit_counts(d[3])) * 1_000_000,
        color.b == (16 * digit_counts(d[4]) + digit_counts(d[5])) * 1_000_000,
        d.len() == 6 ==> color.a == 255_000_000,
        d.len() == 8 ==> color.a == (16 * digit_counts(d[6]) + digit_counts(d[7])) * 1_000_000,
{
    let t = seq!['#'] + d;
    assert forall|i: int| 1 <= i < t.len() implies is_hexadecimal(#[trigger] t[i]) by {
        assert(t[i] == d[i - 1]);
    }
    lemma_hexadecimal_text(t);
    assert(t.skip(1) =~= d);
    let b = digits_of(d);
    assert forall|i: int| 0 <= i < b.len() implies #[trigger] digit_value(b[i]) == Some(
        digit_counts(d[i]) as u8,
    ) by {
        assert(is_hexadecimal(d[i]));
    }
    assert(digit_value(b[0]) is Some && digit_value(b[1]) is Some);
    assert(digit_value(b[2]) is Some && digit_value(b[3]) is Some);
    assert(digit_value(b[4]) is Some && digit_value(b[5]) is Some);
    if d.len() == 8 {
        assert(digit_value(b[6]) is Some && digit_value(b[7]) is Some);
    }
    assert(is_hexadecimal(d[0]) && is_hexadecimal(d[1]) && is_hexadecimal(d[2]) && is_hexadecimal(
        d[3],
    ) && is_hexadecimal(d[4]) && is_hexadecimal(d[5]));
}

/// Every text of six or eight hexadecimal digits behind a `#` is a colour.
pub proof fn law_long_colours_are_accepted(d: Seq<char>)
    requires
        d.len() == 6 || d.len() == 8,
        forall|i: int| 0 <= i < d.len() ==> is_hexadecimal(#[trigger] d[i]),
    ensures
        color_of(seq!['#'] + d) is Ok,
{
    let t = seq!['#'] + d;
    assert forall|i: int| 1 <= i < t.len() implies is_hexadecimal(#[trigger] t[i]) by {
        assert(t[i] == d[i - 1]);
    }
    lemma_hexadecimal_text(t);
    assert(t.skip(1) =~= d);
    let b = digits_of(d);
    assert forall|i: int| 0 <= i < b.len() implies (#[trigger] digit_value(b[i])) is Some by {
        assert(is_hexadecimal(d[i]));
    }
    assert(digit_value(b[0]) is Some && digit_value(b[1]) is Some);
    assert(digit_value(b[2]) is Some && digit_value(b[3]) is Some);
    assert(digit_value(b[4]) is Some && digit_value(b[5]) is Some);
    if d.len() == 8 {
        assert(digit_value(b[6]) is Some && digit_value(b[7]) is Some);
    }
}

/// A text that does not start with a `#` is refused for that. Behind one, a
/// wrong number of digits is refused first, and otherwise the first thing that
/// is no digit: by its position, or where two digits make a channel by the
/// position of the pair.
pub proof fn law_texts_that_are_no_colours(c: char, d: Seq<char>, k: int)
    requires
        !is_white_space(c),
        is_ascii_chars(d),
        forall|i: int| 0 <= i < d.len() ==> !is_white_space(#[trigger] d[i]),
    ensures
        ({
            let n = d.len();
            let r = color_of(seq![c] + d);
            let hexadecimal = |i: int| is_hexadecimal(d[i]);
            &&& c != '#' ==> r == Err::<Rgba, ColorError>(ColorError::MissingHash)
            &&& c == '#' && n != 3 && n != 4 && n != 6 && n != 8 ==> r == Err::<Rgba, ColorError>(
                ColorError::BadLength,
            )
            &&& c == '#' && (n == 3 || n == 4) && 0 <= k < n && !hexadecimal(k) && (forall|i: int|
                0 <= i < k ==> #[trigger] hexadecimal(i)) ==> r == Err::<Rgba, ColorError>(
                ColorError::BadNibble { at: k as usize },
            )
            &&& c == '#' && (n == 6 || n == 8) && 0 <= 2 * k < n && !(hexadecimal(2 * k)
                && hexadecimal(2 * k + 1)) && (forall|i: int|
                0 <= i < 2 * k ==> #[trigger] hexadecimal(i)) ==> r == Err::<Rgba, ColorError>(
                ColorError::BadByte { at: (2 * k) as usize },
            )
        }),
{
    let t = seq![c] + d;
    let hexadecimal = |i: int| is_hexadecimal(d[i]);
    assert(t[0] == c);
    assert(trim_front(t) == t);
    if d.len() > 0 {
        assert(t.last() == d[d.len() - 1]);
    }
    assert(trimmed(t) == t);
    assert(t.skip(1) =~= d);
    is_ascii_chars_encode_utf8(d);
    let b = encode_utf8(d);
    assert forall|i: int| 0 <= i < d.len() implies ((#[trigger] digit_value(b[i])) is Some
        <==> hexadecimal(i)) by {
        assert(d[i] as u8 == b[i]);
    }
    if c == '#' && (d.len() == 3 || d.len() == 4) && 0 <= k < d.len() && !hexadecimal(k) && (
    forall|i: int| 0 <= i < k ==> #[trigger] hexadecimal(i)) {
        assert(digit_value(b[k]) is None);
        assert(k > 0 ==> hexadecimal(0) && digit_value(b[0]) is Some);
        assert(k > 1 ==> hexadecimal(1) && digit_value(b[1]) is Some);
        assert(k > 2 ==> hexadecimal(2) && digit_value(b[2]) is Some);
        assert(k == 0 || k == 1 || k == 2 || k == 3);
    }
    if c == '#' && (d.len() == 6 || d.len() == 8) && 0 <= 2 * k < d.len() && !(hexadecimal(2 * k)
        && hexadecimal(2 * k + 1)) && (forall|i: int|
        0 <= i < 2 * k ==> #[trigger] hexadecimal(i)) {
        assert(digit_value(b[2 * k]) is None || digit_value(b[2 * k + 1]) is None);
        assert(k > 0 ==> hexadecimal(0) && hexadecimal(1) && digit_value(b[0]) is Some
            && digit_value(b[1]) is Some);
        assert(k > 1 ==> hexadecimal(2) && hexadecimal(3) && digit_value(b[2]) is Some
            && digit_value(b[3]) is Some);
        assert(k > 2 ==> hexadecimal(4) && hexadecimal(5) && digit_value(b[4]) is Some
            && digit_value(b[5]) is Some);
        assert(k == 0 || k == 1 || k == 2 || k == 3);
    }
}

/// The text of a colour is a `#` and two small hexadecimal digits for each of
/// red, green and blue, in this order. Their value is the nearest one to the
/// channel, and full for anything brighter.
pub proof fn law_colour_texts_are_nearest(color: Rgba)
    ensures
        ({
            let t = color.hex_text();
            let r = 16 * digit_counts(t[1]) + digit_counts(t[2]);
            let g = 16 * digit_counts(t[3]) + digit_counts(t[4]);
            let b = 16 * digit_counts(t[5]) + digit_counts(t[6]);
            &&& t.len() == 7 && t[0] == '#'
            &&& forall|i: int|
                1 <= i < 7 ==> '0' <= #[trigger] t[i] <= '9' || 'a' <= t[i] <= 'f'
            &&& color.r <= 255_000_000 ==> -500_000 <= r * 1_000_000 - color.r <= 500_000
            &&& color.g <= 255_000_000 ==> -500_000 <= g * 1_000_000 - color.g <= 500_000
            &&& color.b <= 255_000_000 ==> -500_000 <= b * 1_000_000 - color.b <= 500_000
            &&& color.r >= 255_000_000 ==> r == 255
            &&& color.g >= 255_000_000 ==> g == 255
            &&& color.b >= 255_000_000 ==> b == 255
        }),
{
    let t = color.hex_text();
    let (r, g, b) = (nearest_byte(color.r), nearest_byte(color.g), nearest_byte(color.b));
    lemma_digit_counts(r as int / 16);
    lemma_digit_counts(r as int % 16);
    lemma_digit_counts(g as int / 16);
    lemma_digit_counts(g as int % 16);
    lemma_digit_counts(b as int / 16);
    lemma_digit_counts(b as int % 16);
    assert(t =~= seq![
        '#',
        hex_digit(r as int / 16),
        hex_digit(r as int % 16),
        hex_digit(g as int / 16),
        hex_digit(g as int % 16),
        hex_digit(b as int / 16),
        hex_digit(b as int % 16),
    ]);
    assert(t[1] == hex_digit(r as int / 16) && t[2] == hex_digit(r as int % 16));
    assert(t[3] == hex_digit(g as int / 16) && t[4] == hex_digit(g as int % 16));
    assert(t[5] == hex_digit(b as int / 16) && t[6] == hex_digit(b as int % 16));
    lemma_nearest(color.r);
    lemma_nearest(color.g);
    lemma_nearest(color.b);
}

proof fn lemma_digit_counts(v: int)
    requires
        0 <= v < 16,
    ensures
        digit_counts(hex_digit(v)) == v,
        '0' <= hex_digit(v) <= '9' || 'a' <= hex_digit(v) <= 'f',
{
}

proof fn lemma_nearest(channel: u32)
    ensures
        channel <= 255_000_000 ==> -500_000 <= nearest_byte(channel) * 1_000_000 - channel
            <= 500_000,
        channel >= 255_000_000 ==> nearest_byte(channel) == 255,
{
}

/// The background is painted in its own colour and with the opacity as its
/// alpha, whatever alpha the colour has.
pub proof fn law_background_alpha_is_the_opacity(cfg: &Config, c: Rgba)
    requires
        cfg.opacity <= 1_000_000,
        call_ensures(Config::background_with_opacity, (cfg,), c),
    ensures
        c.r == cfg.theme.background.r && c.g == cfg.theme.background.g && c.b
            == cfg.theme.background.b,
        c.a == cfg.opacity * 255,
{
}

proof fn lemma_path_names()
    ensures
        encode_utf8("scatto"@) == seq![115u8, 99, 97, 116, 116, 111],
        encode_utf8(".config"@) == seq![46u8, 99, 111, 110, 102, 105, 103],
        encode_utf8("config.toml"@) == seq![
            99u8,
            111,
            110,
            102,
            105,
            103,
            46,
            116,
            111,
            109,
            108,
        ],
{
    reveal_strlit("scatto");
    reveal_strlit(".config");
    reveal_strlit("config.toml");
    assert(is_ascii_chars("scatto"@));
    assert(is_ascii_chars(".config"@));
    assert(is_ascii_chars("config.toml"@));
    is_ascii_chars_encode_utf8("scatto"@);
    is_ascii_chars_encode_utf8(".config"@);
    is_ascii_chars_encode_utf8("config.toml"@);
    assert(encode_utf8("scatto"@) =~= seq![115u8, 99, 97, 116, 116, 111]);
    assert(encode_utf8(".config"@) =~= seq![46u8, 99, 111, 110, 102, 105, 103]);
    assert(encode_utf8("config.toml"@) =~= seq![
        99u8,
        111,
        110,
        102,
        105,
        103,
        46,
        116,
        111,
        109,
        108,
    ]);
}

/// The file is `scatto/config.toml` below the directory for configurations if
/// that is set, whatever the home directory is, and otherwise below `.config`
/// in the home directory. A slash at the end of either makes no difference.
pub proof fn law_file_is_below_the_config_home(dir: Seq<u8>, home: Option<Seq<u8>>)
    requires
        dir.len() > 0,
        dir.last() != 47,
    ensures
        ({
            let below = seq![47u8] + encode_utf8("scatto"@) + seq![47u8] + encode_utf8(
                "config.toml"@,
            );
            let hidden = seq![47u8] + encode_utf8(".config"@);
            &&& config_path_of(Some(dir), home) == Some(dir + below)
            &&& config_path_of(Some(dir.push(47)), home) == Some(dir + below)
            &&& config_path_of(None, Some(dir)) == Some(dir + hidden + below)
            &&& config_path_of(None, Some(dir.push(47))) == Some(dir + hidden + below)
            &&& config_path_of(None, None) is None
            &&& config_dir_of(Some(dir), home) == Some(dir + seq![47u8] + encode_utf8("scatto"@))
            &&& config_dir_of(None, Some(dir)) == Some(
                dir + hidden + seq![47u8] + encode_utf8("scatto"@),
            )
        }),
{
    lemma_path_names();
    let a = encode_utf8("scatto"@);
    let b = encode_utf8("config.toml"@);
    let c = encode_utf8(".config"@);
    let below = seq![47u8] + a + seq![47u8] + b;
    let hidden = seq![47u8] + c;
    let s = dir.push(47);
    assert(joined(s, a) =~= dir + seq![47u8] + a);
    assert(joined(s, c) =~= dir + hidden);
    assert(joined(dir, a) =~= dir + seq![47u8] + a);
    assert(joined(dir, c) =~= dir + hidden);
    assert(joined(dir + seq![47u8] + a, b) =~= dir + below);
    assert(joined(dir + hidden, a) =~= dir + hidden + seq![47u8] + a);
    assert(joined(dir + hidden + seq![47u8] + a, b) =~= dir + hidden + below);
}

/// The default configuration is written, with the directory made for it, just
/// if there is a place for it and no file there yet.
pub proof fn law_existing_files_are_kept(
    xdg: Option<&[u8]>,
    home: Option<&[u8]>,
    exists: bool,
    r: Result<InitPlan, InitError>,
)
    requires
        call_ensures(write_default_config, (xdg, home, exists), r),
    ensures
        r is Ok <==> !exists && (xdg is Some || home is Some),
        r matches Ok(plan) ==> plan.text@ == DEFAULT_CONFIG@ && Some(plan.file@) == config_path_of(
            opt_bytes(xdg),
            opt_bytes(home),
        ) && Some(plan.dir@) == config_dir_of(opt_bytes(xdg), opt_bytes(home)),
        xdg is None && home is None ==> r matches Err(InitError::NoPath),
        exists && (xdg is Some || home is Some) ==> (r matches Err(InitError::Exists { file })
            && Some(file@) == config_path_of(opt_bytes(xdg), opt_bytes(home))),
{
}

/// Below a directory that is empty or ends in a slash, the file stands without
/// another slash.
pub proof fn law_file_below_a_slash(dir: Seq<u8>, home: Option<Seq<u8>>)
    requires
        dir.len() == 0 || dir.last() == 47,
    ensures
        ({
            let file = encode_utf8("scatto"@) + seq![47u8] + encode_utf8("config.toml"@);
            let hidden = encode_utf8(".config"@) + seq![47u8];
            &&& config_path_of(Some(dir), home) == Some(dir + file)
            &&& config_path_of(None, Some(dir)) == Some(dir + hidden + file)
        }),
{
    lemma_path_names();
    let a = encode_utf8("scatto"@);
    let b = encode_utf8("config.toml"@);
    let c = encode_utf8(".config"@);
    assert((dir + a).last() == 111);
    assert((dir + c).last() == 103);
    assert(joined(dir + a, b) =~= dir + (a + seq![47u8] + b));
    assert(joined(dir + c, a) =~= dir + (c + seq![47u8]) + a);
    assert((dir + (c + seq![47u8]) + a).last() == 111);
    assert(joined(dir + (c + seq![47u8]) + a, b) =~= dir + (c + seq![47u8]) + (a + seq![47u8] + b));
}

/// Without a file the defaults are loaded, just as with a file that sets no key.
pub proof fn law_no_file_is_an_empty_file(raw: RawConfig, r: Result<Config, ConfigError>, e: Result<
    Config,
    ConfigError,
>)
    requires
        raw.window is None && raw.font is None && raw.colors is None,
        call_ensures(Config::load, (None::<RawConfig>,), r),
        call_ensures(Config::load, (Some(raw),), e),
    ensures
        r matches Ok(a) && (e matches Ok(b) && a@ == b@ && a@ == default_config()),
{
}

} // verus!
