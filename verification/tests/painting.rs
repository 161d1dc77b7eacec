use scatto::config::{rgba, Config};
use scatto::ewmh::{DesktopInfo, WindowInfo};
use scatto::layout::Row;
use scatto::place::{app_plan, frame_line, header_plan, text_top, FINE_PX};
use scatto::render::{
    app_markup, bindings, finish, header_color, header_label, DragOverlay, Frame, Rect, Renderer,
};
use scatto::state::{Drag, State};

fn window(id: u32, title: &str, class: &str) -> WindowInfo {
    WindowInfo { id, desktop: 0, title: title.to_string(), class: class.to_string(), icon: None }
}

fn state() -> State {
    let desktops =
        (0..2).map(|index| DesktopInfo { index, name: format!("d{index}") }).collect();
    let windows = vec![window(10, "t", "c"), window(11, "t", "c")];
    let mut s = State::snapshot(Config::default(), desktops, windows, 0, None);
    s.open();
    s
}

fn drag(started: bool) -> Drag {
    Drag {
        window_id: 10,
        label: "C".to_string(),
        cursor_x: 100,
        cursor_y: 90,
        target_desktop: Some(1),
        press_x: 100,
        press_y: 40,
        started,
        follow: false,
    }
}

#[test]
fn headers_show_a_name_or_a_number() {
    let d = DesktopInfo { index: 4, name: "main".to_string() };
    assert_eq!(header_label(&d), "main");
    let d = DesktopInfo { index: 4, name: String::new() };
    assert_eq!(header_label(&d), "Desktop 5");
}

#[test]
fn headers_have_three_colours() {
    let t = Config::default().theme;
    assert_eq!(header_color(&t, true, true), t.header_current);
    assert_eq!(header_color(&t, true, false), t.header_current);
    assert_eq!(header_color(&t, false, true), t.header_empty);
    assert_eq!(header_color(&t, false, false), t.header);
}

#[test]
fn app_rows_show_name_and_title() {
    let mut cfg = Config::default();
    assert_eq!(
        app_markup(&cfg, &window(1, "a <b>", "kitty"), false),
        "<b><span foreground=\"#e8e8ee\">Kitty</span></b>  \
         <span foreground=\"#9c9ca8\">a &lt;b&gt;</span>"
    );
    cfg.bold_apps = false;
    cfg.theme.app_focused = rgba(1, 2, 3, 4);
    assert_eq!(
        app_markup(&cfg, &window(1, "kitty", "kitty"), true),
        "<span foreground=\"#010203\">Kitty</span>"
    );
    assert_eq!(
        app_markup(&cfg, &window(1, "mail & news", ""), false),
        "<span foreground=\"#e8e8ee\">Mail &amp; news</span>"
    );
    assert_eq!(
        app_markup(&cfg, &window(1, "", "kitty"), false),
        "<span foreground=\"#e8e8ee\">Kitty</span>"
    );
}

#[test]
fn long_titles_are_cut() {
    let mut cfg = Config::default();
    cfg.bold_apps = false;
    let title = "x".repeat(61);
    let markup = app_markup(&cfg, &window(1, &title, "a"), false);
    assert!(markup.ends_with(&format!(">{}…</span>", "x".repeat(60))));
    let title = "x".repeat(60);
    let markup = app_markup(&cfg, &window(1, &title, "a"), false);
    assert!(markup.ends_with(&format!(">{title}</span>")));
}

#[test]
fn key_bindings_are_listed() {
    let b = bindings();
    assert_eq!(b.len(), 12);
    assert_eq!(b[0], ("j / k, ↓ / ↑", "move cursor"));
    assert_eq!(b[9], ("dd", "close window"));
    assert_eq!(b[11], ("Esc / q / Super+D", "close popup"));
}

#[test]
fn help_has_two_columns() {
    let plan = Renderer::new(520, 400).draw_help(&Config::default());
    assert_eq!((plan.title_y, plan.key_x, plan.key_w), (1_000, 16_000, 234_000));
    assert_eq!((plan.desc_x, plan.desc_w), (250_000, 254_000));
    assert_eq!((plan.lines.len(), plan.line_h), (12, 26_000));
    assert_eq!((plan.lines[0], plan.lines[11]), (31_000, 317_000));
    let narrow = Renderer::new(200, 400).draw_help(&Config::default());
    assert_eq!((narrow.key_w, narrow.desc_x, narrow.desc_w), (180_000, 196_000, -12_000));
}

#[test]
fn rows_in_sight_are_painted() {
    // Rows at 1, 31, 57 and 83 px.
    let mut s = state();
    s.cursor = 2;
    s.scroll = 0;
    let r = Renderer::new(520, 57);
    let rows = match r.repaint(&s) {
        Frame::List { rows, ghost_box } => {
            assert!(ghost_box.is_none());
            rows
        }
        other => panic!("{other:?}"),
    };
    // Row 2 starts at the lower edge and still counts; row 3 does not.
    assert_eq!(rows.len(), 3);
    assert_eq!((rows[1].y, rows[1].h, rows[1].highlight), (31_000, 26_000, None));
    assert!(matches!(rows[1].row, Row::App { window_idx: 1, .. }));
    let mark = Rect { x: 1_000, y: 57_000, w: 518_000, h: 26_000 };
    assert_eq!(rows[2].highlight, Some(mark));
    s.scroll = 58_000;
    match r.repaint(&s) {
        Frame::List { rows, .. } => {
            assert_eq!(rows.len(), 2);
            assert_eq!(rows[0].y, -1_000);
        }
        other => panic!("{other:?}"),
    }
}

#[test]
fn drags_mark_their_target() {
    let mut s = state();
    s.drag = Some(drag(true));
    let r = Renderer::new(520, 200);
    match r.repaint(&s) {
        Frame::List { rows, ghost_box } => {
            assert_eq!(rows[0].underline, None);
            assert_eq!(
                rows[3].underline,
                Some(Rect { x: 1_000, y: 111_000, w: 518_000, h: 2_000 })
            );
            let (area, label) = ghost_box.unwrap();
            assert_eq!(area.area, Rect { x: 108_000, y: 94_000, w: 220_000, h: 26_000 });
            assert_eq!(area.line, Rect { x: 108_500, y: 94_500, w: 219_000, h: 25_000 });
            assert_eq!((area.text_x, area.text_w), (116_000, 208_000));
            assert_eq!(label, "C");
        }
        other => panic!("{other:?}"),
    }
    s.drag = Some(drag(false));
    match r.repaint(&s) {
        Frame::List { rows, ghost_box } => {
            assert!(ghost_box.is_none());
            assert!(rows.iter().all(|p| p.underline.is_none()));
        }
        other => panic!("{other:?}"),
    }
}

#[test]
fn help_hides_the_rows() {
    let mut s = state();
    s.show_help = true;
    assert!(matches!(Renderer::new(520, 200).repaint(&s), Frame::Help(_)));
}

#[test]
fn drag_box_fits_or_is_left_out() {
    let r = Renderer::new(520, 200);
    let cfg = Config::default();
    let at = |x: i32| {
        let d = DragOverlay {
            cursor_x: x,
            cursor_y: 10,
            label: String::new(),
            target_desktop: None,
        };
        r.drag_ghost(&cfg, &d).map(|b| (b.area.x, b.area.w))
    };
    assert_eq!(at(100), Some((108_000, 220_000)));
    assert_eq!(at(284), Some((292_000, 220_000)));
    assert_eq!(at(285), Some((293_000, 219_000)));
    assert_eq!(at(444), Some((452_000, 60_000)));
    assert_eq!(at(445), None);
    assert_eq!(at(-20), Some((-12_000, 220_000)));
}

#[test]
fn icons_are_made_once() {
    let mut r = Renderer::new(520, 200);
    let mut w = window(7, "t", "c");
    assert!(r.icon_for(&w).is_none());
    w.icon = Some(vec![3]);
    assert!(r.icon_for(&w).is_none());
    w.icon = Some(vec![1, 1, 0xff01_0203]);
    assert_eq!(r.icon_for(&w).unwrap().data, vec![3, 2, 1, 255]);
    w.icon = Some(vec![1, 1, 0xff00_0000]);
    assert_eq!(r.icon_for(&w).unwrap().data, vec![3, 2, 1, 255]);
    w.icon = None;
    assert!(r.icon_for(&w).is_some());
    w.id = 8;
    assert!(r.icon_for(&w).is_none());
}

#[test]
fn gaps_between_rows_are_dropped() {
    let data: Vec<u8> = (0..24).collect();
    assert_eq!(finish(&data, 12, 3, 2), data);
    let packed = finish(&data, 12, 2, 2);
    assert_eq!(packed, vec![0, 1, 2, 3, 4, 5, 6, 7, 12, 13, 14, 15, 16, 17, 18, 19]);
    assert_eq!(finish(&[], 12, 3, 0), Vec::<u8>::new());
}

#[test]
fn texts_are_in_the_middle() {
    assert_eq!(text_top(26_000, 20), 3 * FINE_PX);
    assert_eq!(text_top(26_000, 19), 3_500_000);
    assert_eq!(text_top(26_001, 19), 3_500_500);
    assert_eq!(text_top(10_000, 20), -5 * FINE_PX);
    for (h, text_h) in [(26_000, 17), (30_001, 20), (5, 3)] {
        let top = text_top(h, text_h);
        assert_eq!(top, h as i128 * 1000 - top - text_h as i128 * FINE_PX);
    }
}

#[test]
fn headers_have_a_circle() {
    let mut cfg = Config::default();
    let p = header_plan(&cfg, true, 20);
    assert_eq!(p.radius, 3_120_000);
    assert_eq!((p.cx, p.cy), (19_120_000, 15 * FINE_PX));
    assert_eq!((p.text_x, p.text_top), (30_240_000, 5 * FINE_PX));
    assert!(p.filled);
    cfg.font_size = 12_000;
    let p = header_plan(&cfg, false, 21);
    assert_eq!((p.radius, p.text_x), (3 * FINE_PX, 30 * FINE_PX));
    assert_eq!((p.cy, p.text_top), (15 * FINE_PX, 4_500_000));
    assert!(!p.filled);
}

#[test]
fn app_rows_have_an_icon() {
    let p = app_plan(&Config::default(), 520);
    assert_eq!(p.hint_x, 16 * FINE_PX);
    assert_eq!(
        p.icon,
        Rect { x: 38 * FINE_PX, y: 4 * FINE_PX, w: 18 * FINE_PX, h: 18 * FINE_PX }
    );
    assert_eq!((p.text_x, p.text_w), (66 * FINE_PX, 438 * FINE_PX));
}

#[test]
fn frames_lie_along_the_edge() {
    let mut cfg = Config::default();
    let f = frame_line(&cfg, 520, 170).unwrap();
    assert_eq!(f.width, FINE_PX);
    assert_eq!(
        f.line,
        Rect { x: 500_000, y: 500_000, w: 519 * FINE_PX, h: 169 * FINE_PX }
    );
    cfg.border_thickness = 0;
    assert_eq!(frame_line(&cfg, 520, 170), None);
}
