use scatto::popup::{
    after_grab, find_argb_visual, monitor_under_pointer, wm_class, Depth, Geometry, GrabStep, Look,
    Monitor, Popup, Screen, Visual, GRAB_ATTEMPTS, GRAB_PAUSE_MS,
};

const TRUE_COLOR: u8 = 4;

fn area(x: i16, y: i16, w: u16, h: u16) -> Geometry {
    Geometry { x, y, w, h }
}

fn screen(depths: Vec<Depth>) -> Screen {
    Screen { width: 1920, height: 1080, root_depth: 24, root_visual: 33, depths }
}

fn depth(depth: u8, visuals: &[(u32, u8)]) -> Depth {
    Depth {
        depth,
        visuals: visuals.iter().map(|&(visual_id, class)| Visual { visual_id, class }).collect(),
    }
}

#[test]
fn popup_is_in_the_middle() {
    assert_eq!(area(0, 0, 1920, 1080).center(520, 640), Some((700, 220)));
    assert_eq!(area(1920, 100, 1001, 501).center(520, 200), Some((2160, 250)));
    // Too large: rounded towards zero, and over both edges.
    assert_eq!(area(0, 0, 100, 100).center(105, 300), Some((-2, -100)));
    assert_eq!(area(i16::MAX, 0, 1000, 10).center(10, 10), None);
}

#[test]
fn monitor_under_the_pointer_is_chosen() {
    let left = Monitor { area: area(0, 0, 1000, 800), primary: false };
    let right = Monitor { area: area(1000, 0, 1000, 800), primary: true };
    let all = [left, right];
    assert_eq!(monitor_under_pointer(&all, 999, 799), Some(left.area));
    assert_eq!(monitor_under_pointer(&all, 1000, 0), Some(right.area));
    // On none of them: the primary one.
    assert_eq!(monitor_under_pointer(&all, 5, 800), Some(right.area));
    let none_primary = [left, Monitor { primary: false, ..right }];
    assert_eq!(monitor_under_pointer(&none_primary, -1, 0), Some(left.area));
    assert_eq!(monitor_under_pointer(&[], 0, 0), None);
    // Overlapping: the first one.
    let mirrored = [left, Monitor { area: area(0, 0, 500, 500), primary: true }];
    assert_eq!(monitor_under_pointer(&mirrored, 10, 10), Some(left.area));
}

#[test]
fn visual_with_alpha_is_preferred() {
    let argb = Look { depth: 32, visual_id: 7, own_colormap: true };
    let depths = vec![
        depth(24, &[(5, TRUE_COLOR)]),
        depth(32, &[(6, 5), (7, TRUE_COLOR), (8, TRUE_COLOR)]),
    ];
    assert_eq!(find_argb_visual(&depths), Some(argb));
    assert_eq!(find_argb_visual(&[depth(24, &[(5, TRUE_COLOR)])]), None);
    assert_eq!(find_argb_visual(&[depth(32, &[(6, 5)])]), None);
    assert_eq!(
        find_argb_visual(&[depth(32, &[(6, 5)]), depth(32, &[(7, TRUE_COLOR)])]),
        Some(argb)
    );
}

#[test]
fn popup_window() {
    let plain = Look { depth: 24, visual_id: 33, own_colormap: false };
    let p = Popup::open(&screen(vec![]), None, 520, 640).unwrap();
    assert_eq!(p, Popup { x: 700, y: 220, w: 520, h: 640, look: plain });
    let s = screen(vec![depth(32, &[(7, TRUE_COLOR)])]);
    let p = Popup::open(&s, Some(area(100, 100, 1000, 1000)), 520, 640).unwrap();
    let argb = Look { depth: 32, visual_id: 7, own_colormap: true };
    assert_eq!(p, Popup { x: 340, y: 280, w: 520, h: 640, look: argb });
    assert_eq!(Popup::open(&s, Some(area(i16::MAX, 0, 1000, 10)), 10, 10), None);
}

#[test]
fn keyboard_is_asked_for_again() {
    assert_eq!(after_grab(1, 0), GrabStep::Grabbed);
    assert_eq!(after_grab(50, 0), GrabStep::Grabbed);
    assert_eq!(after_grab(1, 1), GrabStep::Retry);
    assert_eq!(after_grab(49, 3), GrabStep::Retry);
    assert_eq!(after_grab(50, 1), GrabStep::GiveUp);
    assert_eq!((GRAB_ATTEMPTS, GRAB_PAUSE_MS), (50, 20));
}

#[test]
fn class_property_has_two_names() {
    assert_eq!(wm_class("scatto", "Scatto"), b"scatto\0Scatto\0");
    assert_eq!(wm_class("", "é"), b"\0\xc3\xa9\0");
}
