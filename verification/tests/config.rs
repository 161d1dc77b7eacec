use scatto::config::{
    config_path, h1, h2, parse_color, rgba, write_default_config, ColorError, ColorKey, Config,
    ConfigError, InitError, RawColors, RawConfig, RawFont, RawWindow, Rgba, CHANNEL_STEP,
    DEFAULT_CONFIG, OPAQUE,
};

fn no_window() -> RawWindow {
    RawWindow { width: None, max_height: None, opacity: None }
}

fn no_font() -> RawFont {
    RawFont { family: None, size: None, bold_headers: None, bold_apps: None }
}

fn no_colors() -> RawColors {
    RawColors {
        background: None,
        border: None,
        cursor: None,
        drop_target: None,
        header_current: None,
        header_empty: None,
        header: None,
        app: None,
        app_focused: None,
        app_dim: None,
    }
}

fn raw() -> RawConfig {
    RawConfig { window: None, font: None, colors: None }
}

fn assert_same(a: &Config, b: &Config) {
    assert_eq!(a.width, b.width);
    assert_eq!(a.max_height, b.max_height);
    assert_eq!(a.opacity, b.opacity);
    assert_eq!(a.font_family, b.font_family);
    assert_eq!(a.font_size, b.font_size);
    assert_eq!(a.bold_headers, b.bold_headers);
    assert_eq!(a.bold_apps, b.bold_apps);
    assert_eq!(a.border_thickness, b.border_thickness);
    assert_eq!(a.header_height, b.header_height);
    assert_eq!(a.app_height, b.app_height);
    assert_eq!(a.theme, b.theme);
}

#[test]
fn defaults_are_as_documented() {
    let c = Config::default();
    assert_eq!(c.width, 520);
    assert_eq!(c.max_height, 640);
    assert_eq!(c.opacity, 940_000);
    assert_eq!(c.font_family, "Sans");
    assert_eq!(c.font_size, 13_000);
    assert!(c.bold_headers);
    assert!(c.bold_apps);
    assert_eq!(c.theme.background, rgba(0x1a, 0x1c, 0x24, 0xff));
    assert_eq!(c.theme.border, rgba(0xff, 0xff, 0xff, 0x14));
    assert_eq!(c.theme.cursor, rgba(0x4d, 0x8c, 0xe5, 0x47));
    assert_eq!(c.theme.drop_target, rgba(0x4d, 0xd9, 0x8c, 0xd9));
    assert_eq!(c.theme.header_current, rgba(0xf2, 0xf2, 0xff, 0xff));
    assert_eq!(c.theme.header_empty, rgba(0xa6, 0xa6, 0xb3, 0x8c));
    assert_eq!(c.theme.header, rgba(0xd9, 0xd9, 0xe6, 0xd9));
    assert_eq!(c.theme.app, rgba(0xe8, 0xe8, 0xee, 0xff));
    assert_eq!(c.theme.app_focused, rgba(0xff, 0xd1, 0x66, 0xff));
    assert_eq!(c.theme.app_dim, rgba(0x9c, 0x9c, 0xa8, 0xff));
}

#[test]
fn colours_in_all_four_forms() {
    assert_eq!(parse_color("#1af"), Ok(rgba(0x11, 0xaa, 0xff, 0xff)));
    assert_eq!(parse_color("#1af8"), Ok(rgba(0x11, 0xaa, 0xff, 0x88)));
    assert_eq!(parse_color("#4d8ce5"), Ok(rgba(0x4d, 0x8c, 0xe5, 0xff)));
    assert_eq!(parse_color("#4D8CE547"), Ok(rgba(0x4d, 0x8c, 0xe5, 0x47)));
    assert_eq!(parse_color(" \t#fff\u{a0}\n"), Ok(rgba(0xff, 0xff, 0xff, 0xff)));
}

#[test]
fn colours_that_are_none() {
    assert_eq!(parse_color(""), Err(ColorError::MissingHash));
    assert_eq!(parse_color("fff"), Err(ColorError::MissingHash));
    assert_eq!(parse_color("#"), Err(ColorError::BadLength));
    assert_eq!(parse_color("#ab"), Err(ColorError::BadLength));
    assert_eq!(parse_color("#abcde"), Err(ColorError::BadLength));
    assert_eq!(parse_color("#aabbccdd0"), Err(ColorError::BadLength));
    assert_eq!(parse_color("#axx"), Err(ColorError::BadNibble { at: 1 }));
    assert_eq!(parse_color("#ab+"), Err(ColorError::BadNibble { at: 2 }));
    assert_eq!(parse_color("#abcz"), Err(ColorError::BadNibble { at: 3 }));
    assert_eq!(parse_color("#xabbcc"), Err(ColorError::BadByte { at: 0 }));
    assert_eq!(parse_color("#aabbccd-"), Err(ColorError::BadByte { at: 6 }));
    assert_eq!(parse_color("#++bbcc"), Err(ColorError::BadByte { at: 0 }));
    // A sign is no digit.
    assert_eq!(parse_color("#+1+a+f"), Err(ColorError::BadByte { at: 0 }));
    assert_eq!(parse_color("#+f+f+f"), Err(ColorError::BadByte { at: 0 }));
    assert_eq!(parse_color("#ff+fff"), Err(ColorError::BadByte { at: 2 }));
    // Three bytes, but not three digits.
    assert_eq!(parse_color("#é1"), Err(ColorError::BadNibble { at: 0 }));
}

#[test]
fn digits_and_pairs() {
    assert_eq!(h1(b'7'), Some(0x77));
    assert_eq!(h1(b'F'), Some(0xff));
    assert_eq!(h1(b'g'), None);
    assert_eq!(h1(b'+'), None);
    assert_eq!(h2(b'2', b'a'), Some(0x2a));
    assert_eq!(h2(b'+', b'a'), None);
    assert_eq!(h2(b'a', b'+'), None);
    for hi in 0..=255u8 {
        for lo in 0..=127u8 {
            if hi < 128 {
                let text = format!("{}{}", hi as char, lo as char);
                let plain = hi.is_ascii_hexdigit() && lo.is_ascii_hexdigit();
                let value = u8::from_str_radix(&text, 16).ok();
                assert_eq!(h2(hi, lo), value.filter(|_| plain));
            }
        }
    }
}

#[test]
fn short_colours_mean_doubled_digits() {
    assert_eq!(parse_color("#a0f"), parse_color("#aa00ff"));
    assert_eq!(parse_color("#a0f3"), parse_color("#aa00ff33"));
}

#[test]
fn letter_case_and_white_space_make_no_difference() {
    for s in ["#aBc", "#ABCD", "#Ff00aA", "#FFd16680", "#Gab", "#ÄB", "fff", "  #AbC\t"] {
        let plain = parse_color(s);
        assert_eq!(parse_color(&s.to_ascii_lowercase()), plain);
        assert_eq!(parse_color(&format!("\n \u{2003}{s}\u{85}  ")), plain);
    }
}

#[test]
fn colours_are_written_and_read_back() {
    assert_eq!(rgba(0x4d, 0x8c, 0xe5, 0x47).hex(), "#4d8ce5");
    assert_eq!(rgba(0, 9, 255, 0).hex(), "#0009ff");
    for v in 0..=255u8 {
        let c = rgba(v, 255 - v, v / 2, 255);
        assert_eq!(parse_color(&c.hex()), Ok(c));
    }
}

#[test]
fn channels_are_rounded_to_bytes() {
    let half = Rgba { r: 127 * CHANNEL_STEP + 500_000, g: 127 * CHANNEL_STEP + 499_999, b: 300 * CHANNEL_STEP, a: 0 };
    assert_eq!(half.hex(), "#807fff");
}

#[test]
fn no_file_means_defaults() {
    assert_same(&Config::load(None).unwrap(), &Config::default());
    assert_same(&Config::load(Some(raw())).unwrap(), &Config::default());
    let empty = RawConfig {
        window: Some(no_window()),
        font: Some(no_font()),
        colors: Some(no_colors()),
    };
    assert_same(&Config::load(Some(empty)).unwrap(), &Config::default());
}

#[test]
fn keys_override_only_themselves() {
    let c = Config::load(Some(RawConfig {
        window: Some(RawWindow { width: Some(300), ..no_window() }),
        font: Some(RawFont { bold_apps: Some(false), ..no_font() }),
        colors: Some(RawColors { app: Some("#123".to_string()), ..no_colors() }),
    }))
    .unwrap();
    let mut expected = Config::default();
    expected.width = 300;
    expected.bold_apps = false;
    expected.theme.app = rgba(0x11, 0x22, 0x33, 0xff);
    assert_same(&c, &expected);
}

#[test]
fn all_keys_together() {
    let color = |s: &str| Some(s.to_string());
    let c = Config::load(Some(RawConfig {
        window: Some(RawWindow { width: Some(1), max_height: Some(2), opacity: Some(500_000) }),
        font: Some(RawFont {
            family: Some("Mono".to_string()),
            size: Some(9_500),
            bold_headers: Some(false),
            bold_apps: Some(false),
        }),
        colors: Some(RawColors {
            background: color("#000001"),
            border: color("#000002"),
            cursor: color("#000003"),
            drop_target: color("#000004"),
            header_current: color("#000005"),
            header_empty: color("#000006"),
            header: color("#000007"),
            app: color("#000008"),
            app_focused: color("#000009"),
            app_dim: color("#00000a"),
        }),
    }))
    .unwrap();
    assert_eq!((c.width, c.max_height, c.opacity), (1, 2, 500_000));
    assert_eq!((c.font_family.as_str(), c.font_size), ("Mono", 9_500));
    assert_eq!((c.bold_headers, c.bold_apps), (false, false));
    assert_eq!(c.theme.background, rgba(0, 0, 1, 255));
    assert_eq!(c.theme.border, rgba(0, 0, 2, 255));
    assert_eq!(c.theme.cursor, rgba(0, 0, 3, 255));
    assert_eq!(c.theme.drop_target, rgba(0, 0, 4, 255));
    assert_eq!(c.theme.header_current, rgba(0, 0, 5, 255));
    assert_eq!(c.theme.header_empty, rgba(0, 0, 6, 255));
    assert_eq!(c.theme.header, rgba(0, 0, 7, 255));
    assert_eq!(c.theme.app, rgba(0, 0, 8, 255));
    assert_eq!(c.theme.app_focused, rgba(0, 0, 9, 255));
    assert_eq!(c.theme.app_dim, rgba(0, 0, 10, 255));
}

#[test]
fn opacity_is_cut_to_its_range() {
    for (given, used) in [(-1, 0), (0, 0), (1, 1), (1_000_000, 1_000_000), (1_000_001, 1_000_000)] {
        let c = Config::load(Some(RawConfig {
            window: Some(RawWindow { opacity: Some(given), ..no_window() }),
            ..raw()
        }))
        .unwrap();
        assert_eq!(c.opacity, used);
        assert!(c.opacity <= OPAQUE);
    }
}

#[test]
fn font_sizes_that_are_not_positive_are_ignored() {
    for (given, used) in [(-5, 13_000), (0, 13_000), (1, 1), (20_000, 20_000)] {
        let c = Config::load(Some(RawConfig {
            font: Some(RawFont { size: Some(given), ..no_font() }),
            ..raw()
        }))
        .unwrap();
        assert_eq!(c.font_size, used);
    }
}

#[test]
fn first_bad_colour_is_reported() {
    let e = Config::load(Some(RawConfig {
        colors: Some(RawColors {
            drop_target: Some("#12".to_string()),
            app_dim: Some("red".to_string()),
            ..no_colors()
        }),
        ..raw()
    }))
    .unwrap_err();
    assert_eq!(e, ConfigError::Color { key: ColorKey::DropTarget, error: ColorError::BadLength });
    let e = Config::load(Some(RawConfig {
        colors: Some(RawColors { app_dim: Some("red".to_string()), ..no_colors() }),
        ..raw()
    }))
    .unwrap_err();
    assert_eq!(e, ConfigError::Color { key: ColorKey::AppDim, error: ColorError::MissingHash });
}

#[test]
fn each_colour_key_is_named_in_its_error() {
    let bad = || Some("#".to_string());
    let cases = [
        (RawColors { background: bad(), ..no_colors() }, ColorKey::Background),
        (RawColors { border: bad(), ..no_colors() }, ColorKey::Border),
        (RawColors { cursor: bad(), ..no_colors() }, ColorKey::Cursor),
        (RawColors { drop_target: bad(), ..no_colors() }, ColorKey::DropTarget),
        (RawColors { header_current: bad(), ..no_colors() }, ColorKey::HeaderCurrent),
        (RawColors { header_empty: bad(), ..no_colors() }, ColorKey::HeaderEmpty),
        (RawColors { header: bad(), ..no_colors() }, ColorKey::Header),
        (RawColors { app: bad(), ..no_colors() }, ColorKey::App),
        (RawColors { app_focused: bad(), ..no_colors() }, ColorKey::AppFocused),
        (RawColors { app_dim: bad(), ..no_colors() }, ColorKey::AppDim),
    ];
    for (colors, key) in cases {
        let e = Config::load(Some(RawConfig { colors: Some(colors), ..raw() })).unwrap_err();
        assert_eq!(e, ConfigError::Color { key, error: ColorError::BadLength });
    }
}

#[test]
fn written_defaults_are_the_defaults() {
    let table: toml::Table = toml::from_str(DEFAULT_CONFIG).unwrap();
    let window = table["window"].as_table().unwrap();
    let font = table["font"].as_table().unwrap();
    let colors = table["colors"].as_table().unwrap();
    assert_eq!((window.len(), font.len(), colors.len()), (3, 4, 10));
    let color = |key: &str| Some(colors[key].as_str().unwrap().to_string());
    let raw = RawConfig {
        window: Some(RawWindow {
            width: Some(window["width"].as_integer().unwrap() as u16),
            max_height: Some(window["max_height"].as_integer().unwrap() as u16),
            opacity: Some((window["opacity"].as_float().unwrap() * 1e6).round() as i64),
        }),
        font: Some(RawFont {
            family: Some(font["family"].as_str().unwrap().to_string()),
            size: Some((font["size"].as_float().unwrap() * 1e3).round() as i32),
            bold_headers: font["bold_headers"].as_bool(),
            bold_apps: font["bold_apps"].as_bool(),
        }),
        colors: Some(RawColors {
            background: color("background"),
            border: color("border"),
            cursor: color("cursor"),
            drop_target: color("drop_target"),
            header_current: color("header_current"),
            header_empty: color("header_empty"),
            header: color("header"),
            app: color("app"),
            app_focused: color("app_focused"),
            app_dim: color("app_dim"),
        }),
    };
    assert_same(&Config::load(Some(raw)).unwrap(), &Config::default());
}

#[test]
fn background_takes_its_alpha_from_the_opacity() {
    let mut c = Config::default();
    c.theme.background = rgba(1, 2, 3, 4);
    let b = c.background_with_opacity();
    assert_eq!((b.r, b.g, b.b), (CHANNEL_STEP, 2 * CHANNEL_STEP, 3 * CHANNEL_STEP));
    assert_eq!(b.a, 940_000 * 255);
    c.opacity = OPAQUE;
    assert_eq!(c.background_with_opacity().a, 255 * CHANNEL_STEP);
}

#[test]
fn file_is_below_the_config_home() {
    let path = |xdg: Option<&str>, home: Option<&str>| {
        config_path(xdg.map(|s| s.as_bytes()), home.map(|s| s.as_bytes()))
            .map(|p| String::from_utf8(p).unwrap())
    };
    assert_eq!(path(Some("/x"), Some("/h")).unwrap(), "/x/scatto/config.toml");
    assert_eq!(path(None, Some("/h")).unwrap(), "/h/.config/scatto/config.toml");
    assert_eq!(path(None, Some("/")).unwrap(), "/.config/scatto/config.toml");
    assert_eq!(path(Some(""), None).unwrap(), "scatto/config.toml");
    assert_eq!(path(None, None), None);
    for base in ["", "/", "a", "a/", "/a/b", "a//"] {
        let joined = std::path::Path::new(base).join("scatto").join("config.toml");
        assert_eq!(path(Some(base), None).unwrap(), joined.to_str().unwrap());
    }
}

#[test]
fn default_file_is_written_only_where_there_is_none() {
    let home: Option<&[u8]> = Some(b"/h");
    let plan = write_default_config(None, home, false).unwrap();
    assert_eq!(plan.dir, b"/h/.config/scatto");
    assert_eq!(plan.file, b"/h/.config/scatto/config.toml");
    assert_eq!(plan.text, DEFAULT_CONFIG);
    match write_default_config(None, home, true) {
        Err(InitError::Exists { file }) => assert_eq!(file, b"/h/.config/scatto/config.toml"),
        _ => panic!("an existing file would be overwritten"),
    }
    assert!(matches!(write_default_config(None, None, false), Err(InitError::NoPath)));
    assert!(matches!(write_default_config(None, None, true), Err(InitError::NoPath)));
}
