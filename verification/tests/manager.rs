use scatto::ewmh::{Atoms, ClientMessage, Ewmh, Query, Request, ALL_DESKTOPS, WHOLE};
use scatto::popup::wm_class;
use scatto::probe::WindowScan;
use scatto::property::{read_u32, read_u32_array, ByteOrder, PropertyReply, PropertyRequest};
use scatto::wm::WmOp;

const ROOT: u32 = 1000;

fn ewmh() -> Ewmh {
    let ids: Vec<u32> = (501..=516).collect();
    Ewmh::new(ROOT, Atoms::new(&ids), ByteOrder::Little)
}

fn words(list: &[u32]) -> PropertyReply {
    let value: Vec<u8> = list.iter().flat_map(|w| w.to_le_bytes()).collect();
    PropertyReply::new(32, list.len() as u32, value).unwrap()
}

fn text(bytes: &[u8]) -> PropertyReply {
    PropertyReply::new(8, bytes.len() as u32, bytes.to_vec()).unwrap()
}

fn nothing() -> PropertyReply {
    PropertyReply::new(0, 0, vec![]).unwrap()
}

#[test]
fn atoms_are_named() {
    let names = Atoms::names();
    assert_eq!(names.len(), 16);
    assert_eq!(names[0], "_NET_NUMBER_OF_DESKTOPS");
    assert_eq!(names[9], "_NET_WM_WINDOW_TYPE");
    assert_eq!(names[13], "_NET_CLOSE_WINDOW");
    assert_eq!(names[15], "UTF8_STRING");
    let a = ewmh().atoms;
    assert_eq!(a.net_number_of_desktops, 501);
    assert_eq!(a.net_wm_state_skip_taskbar, 513);
    assert_eq!(a.utf8_string, 516);
}

#[test]
fn questions_name_property_and_type() {
    let ew = ewmh();
    let ask = |q: Query| {
        let PropertyRequest { window, property, type_, length } = ew.request(q);
        (window, property, type_, length)
    };
    assert_eq!(WHOLE, u32::MAX / 4);
    assert_eq!(ask(Query::NumberOfDesktops), (ROOT, 501, 6, 4));
    assert_eq!(ask(Query::CurrentDesktop), (ROOT, 502, 6, 4));
    assert_eq!(ask(Query::DesktopNames), (ROOT, 503, 516, WHOLE));
    assert_eq!(ask(Query::ActiveWindow), (ROOT, 506, 33, 4));
    assert_eq!(ask(Query::ClientListStacking), (ROOT, 505, 33, WHOLE));
    assert_eq!(ask(Query::ClientList), (ROOT, 504, 33, WHOLE));
    assert_eq!(ask(Query::WindowState { window: 7 }), (7, 512, 4, 1024));
    assert_eq!(ask(Query::WindowType { window: 7 }), (7, 510, 4, 1024));
    assert_eq!(ask(Query::WindowDesktop { window: 7 }), (7, 507, 6, 4));
    assert_eq!(ask(Query::NetName { window: 7 }), (7, 508, 516, WHOLE));
    assert_eq!(ask(Query::WmName { window: 7 }), (7, 39, 31, WHOLE));
    assert_eq!(ask(Query::Class { window: 7 }), (7, 67, 31, 1024));
    assert_eq!(ask(Query::Icon { window: 7 }), (7, 509, 6, WHOLE));
}

#[test]
fn words_are_read_in_either_order() {
    let bytes = vec![1, 2, 3, 4, 5, 6, 7, 8, 9];
    let r = PropertyReply::new(32, 2, bytes).unwrap();
    assert_eq!(read_u32(&r, ByteOrder::Little), Some(0x0403_0201));
    assert_eq!(read_u32(&r, ByteOrder::Big), Some(0x0102_0304));
    assert_eq!(read_u32_array(&r, ByteOrder::Little), vec![0x0403_0201, 0x0807_0605]);
    assert_eq!(read_u32_array(&r, ByteOrder::Big), vec![0x0102_0304, 0x0506_0708]);
    let r = PropertyReply::new(8, 8, vec![1; 8]).unwrap();
    assert_eq!(read_u32(&r, ByteOrder::Little), None);
    assert_eq!(read_u32_array(&r, ByteOrder::Little), vec![]);
    let r = PropertyReply::new(32, 0, vec![1; 8]).unwrap();
    assert_eq!(read_u32(&r, ByteOrder::Little), None);
    assert!(PropertyReply::new(32, 1, vec![1, 2, 3]).is_none());
}

#[test]
fn desktop_numbers() {
    let ew = ewmh();
    assert_eq!(ew.number_of_desktops(&words(&[4])), 4);
    assert_eq!(ew.number_of_desktops(&nothing()), 1);
    assert_eq!(ew.current_desktop(&words(&[2])), 2);
    assert_eq!(ew.current_desktop(&nothing()), 0);
    assert_eq!(ew.active_window(&words(&[99])), Some(99));
    assert_eq!(ew.active_window(&words(&[0])), None);
    assert_eq!(ew.active_window(&nothing()), None);
    assert_eq!(ew.window_desktop(&words(&[ALL_DESKTOPS])), ALL_DESKTOPS);
    assert_eq!(ew.window_desktop(&nothing()), 0);
}

#[test]
fn stacking_order_is_preferred() {
    let ew = ewmh();
    assert_eq!(ew.client_list(&words(&[3, 1, 2]), None), Some(vec![3, 1, 2]));
    assert_eq!(ew.client_list(&words(&[3, 1]), Some(&words(&[1, 3]))), Some(vec![3, 1]));
    assert_eq!(ew.client_list(&nothing(), None), None);
    assert_eq!(ew.client_list(&nothing(), Some(&words(&[1, 3]))), Some(vec![1, 3]));
    assert_eq!(ew.client_list(&nothing(), Some(&nothing())), Some(vec![]));
}

#[test]
fn desktop_names_are_separated_by_zeros() {
    let ew = ewmh();
    assert_eq!(ew.desktop_names(&text(b"main\0code\0chat\0")), vec!["main", "code", "chat"]);
    assert_eq!(ew.desktop_names(&text(b"main\0code")), vec!["main", "code"]);
    assert_eq!(ew.desktop_names(&text("a\0ü\0".as_bytes())), vec!["a", "ü"]);
    assert_eq!(ew.desktop_names(&text(b"a\0\xff\0")), vec!["a", "\u{fffd}"]);
    assert_eq!(ew.desktop_names(&text(b"a\0\0b\0")), vec!["a", "", "b"]);
    assert_eq!(ew.desktop_names(&text(b"a\0\0\0\0b")), vec!["a", "", "b"]);
    assert_eq!(ew.desktop_names(&text(b"\0")), Vec::<String>::new());
    assert_eq!(ew.desktop_names(&nothing()), Vec::<String>::new());
    for names in ["main", "main\0code", "a\0\0b", "a\0", "a\0\0", "\0b", "\0\0"] {
        let ended = format!("{names}\0");
        assert_eq!(
            ew.desktop_names(&text(names.as_bytes())),
            ew.desktop_names(&text(ended.as_bytes()))
        );
    }
    assert_eq!(ew.desktop_names(&text(b"a\0\xff")), vec!["a", "\u{fffd}"]);
}

#[test]
fn desktops_without_a_name_get_their_number() {
    let d = Ewmh::desktops(3, &vec!["main".to_string()]);
    let shown: Vec<(u32, &str)> = d.iter().map(|d| (d.index, d.name.as_str())).collect();
    assert_eq!(shown, vec![(0, "main"), (1, "Desktop 2"), (2, "Desktop 3")]);
    assert_eq!(Ewmh::desktops(0, &vec!["main".to_string()]).len(), 0);
    let one = Ewmh::desktops(1, &vec!["a".to_string(), "b".to_string()]);
    assert_eq!((one.len(), one[0].name.as_str()), (1, "a"));
}

#[test]
fn class_is_the_second_name() {
    let ew = ewmh();
    assert_eq!(ew.window_class(&text(b"navigator\0firefox\0")), "firefox");
    assert_eq!(ew.window_class(&text(b"xterm\0")), "xterm");
    assert_eq!(ew.window_class(&text(b"\0\0a\0\0b\0c")), "b");
    assert_eq!(ew.window_class(&text(b"\0")), "");
    assert_eq!(ew.window_class(&nothing()), "");
    assert_eq!(ew.window_class(&text(&wm_class("scatto", "Scatto"))), "Scatto");
}

#[test]
fn titles_and_icons() {
    let ew = ewmh();
    assert_eq!(ew.window_title(&text("naïve".as_bytes())), Some("naïve".to_string()));
    assert_eq!(ew.window_title(&text(b"a\xffb")), Some("a\u{fffd}b".to_string()));
    assert_eq!(ew.window_title(&nothing()), None);
    assert_eq!(ew.window_icon(&words(&[1, 1, 5])), Some(vec![1, 1, 5]));
    assert_eq!(ew.window_icon(&text(b"1234")), None);
    assert_eq!(ew.window_icon(&nothing()), None);
}

#[test]
fn states_and_types() {
    let ew = ewmh();
    assert!(ew.has_state(&words(&[1, 513]), 513));
    assert!(!ew.has_state(&words(&[1, 2]), 513));
    assert!(!ew.has_state(&nothing(), 513));
    assert!(ew.is_normal_or_unspecified(&nothing()));
    assert!(ew.is_normal_or_unspecified(&words(&[5, 511])));
    assert!(!ew.is_normal_or_unspecified(&words(&[5])));
}

fn message(window: u32, message_type: u32, a: u32, b: u32) -> ClientMessage {
    ClientMessage { destination: ROOT, window, message_type, data: (a, b, 0, 0, 0) }
}

fn sent(op: WmOp) -> ClientMessage {
    match ewmh().encode(op) {
        Request::Message(m) => m,
        other => panic!("not a message: {other:?}"),
    }
}

#[test]
fn requests_to_the_window_manager() {
    assert_eq!(
        sent(WmOp::SwitchDesktop { desktop: 3, time: 8 }),
        message(ROOT, 502, 3, 8)
    );
    assert_eq!(sent(WmOp::MoveToDesktop { window: 7, desktop: 3 }), message(7, 507, 3, 2));
    assert_eq!(sent(WmOp::Activate { window: 7, time: 8 }), message(7, 506, 2, 8));
    assert_eq!(sent(WmOp::Close { window: 7, time: 8 }), message(7, 514, 8, 2));
    match ewmh().encode(WmOp::Raise { window: 7 }) {
        Request::StackAbove { window } => assert_eq!(window, 7),
        other => panic!("{other:?}"),
    }
    match ewmh().encode(WmOp::BumpUserTime { window: 7, time: 0x0102_0304 }) {
        Request::SetProperty { window, property, type_, format, count, data } => {
            assert_eq!((window, property, type_, format, count), (7, 515, 6, 32, 1));
            assert_eq!(data, vec![4, 3, 2, 1]);
            let r = PropertyReply::new(format, count, data).unwrap();
            assert_eq!(read_u32(&r, ByteOrder::Little), Some(0x0102_0304));
        }
        other => panic!("{other:?}"),
    }
    let big = Ewmh::new(ROOT, ewmh().atoms, ByteOrder::Big);
    match big.bump_user_time(7, 0x0102_0304) {
        Request::SetProperty { data, .. } => assert_eq!(data, vec![1, 2, 3, 4]),
        other => panic!("{other:?}"),
    }
}

/// Runs a scan against answers given as (window, property, answer); what is
/// not given is empty, and a property in `fails` fails.
fn scan(
    ids: &[u32],
    given: &[(u32, u32, PropertyReply)],
    fails: &[(u32, u32)],
) -> (WindowScan, usize) {
    let ew = ewmh();
    let mut s = Ewmh::windows(ids.to_vec());
    let mut questions = 0;
    while let Some(q) = s.request(&ew) {
        questions += 1;
        let reply = if fails.contains(&(q.window, q.property)) {
            None
        } else {
            Some(
                given
                    .iter()
                    .find(|g| (g.0, g.1) == (q.window, q.property))
                    .map(|g| {
                        let r = &g.2;
                        PropertyReply::new(r.format, r.value_len, r.value.clone()).unwrap()
                    })
                    .unwrap_or_else(nothing),
            )
        };
        s.answer(&ew, reply);
    }
    (s, questions)
}

const DESKTOP: u32 = 507;
const NET_NAME: u32 = 508;
const ICON: u32 = 509;
const TYPE: u32 = 510;
const STATE: u32 = 512;
const WM_NAME: u32 = 39;
const CLASS: u32 = 67;

#[test]
fn windows_are_listed_with_all_their_properties() {
    let (s, questions) = scan(
        &[20, 21],
        &[
            (20, STATE, words(&[1])),
            (20, TYPE, words(&[511])),
            (20, DESKTOP, words(&[3])),
            (20, NET_NAME, text(b"title")),
            (20, CLASS, text(b"x\0kitty\0")),
            (20, ICON, words(&[1, 1, 9])),
            (21, WM_NAME, text(b"old")),
        ],
        &[],
    );
    assert!(!s.failed);
    assert_eq!(questions, 6 + 7);
    assert_eq!(s.found.len(), 2);
    let w = &s.found[0];
    assert_eq!((w.id, w.desktop), (20, 3));
    assert_eq!((w.title.as_str(), w.class.as_str()), ("title", "kitty"));
    assert_eq!(w.icon, Some(vec![1, 1, 9]));
    let w = &s.found[1];
    assert_eq!((w.id, w.desktop), (21, 0));
    assert_eq!((w.title.as_str(), w.class.as_str()), ("old", ""));
    assert_eq!(w.icon, None);
}

#[test]
fn some_windows_are_not_for_the_list() {
    let (s, _) = scan(
        &[20, 21, 22, 23],
        &[
            (20, STATE, words(&[513])),
            (20, CLASS, text(b"a\0b\0")),
            (21, TYPE, words(&[99])),
            (21, CLASS, text(b"a\0b\0")),
            (23, CLASS, text(b"a\0b\0")),
        ],
        &[],
    );
    assert!(!s.failed);
    let ids: Vec<u32> = s.found.iter().map(|w| w.id).collect();
    assert_eq!(ids, vec![23]);
}

#[test]
fn most_questions_may_fail() {
    let (s, _) = scan(
        &[20],
        &[(20, CLASS, text(b"a\0b\0")), (20, WM_NAME, text(b"old"))],
        &[(20, DESKTOP), (20, NET_NAME), (20, ICON)],
    );
    assert!(!s.failed);
    assert_eq!(s.found.len(), 1);
    // A failed title is no title, and the older one is not asked for.
    assert_eq!((s.found[0].title.as_str(), s.found[0].class.as_str()), ("", "b"));
    assert_eq!(s.found[0].desktop, 0);
    let (s, _) = scan(&[20], &[(20, NET_NAME, text(b"t"))], &[(20, CLASS)]);
    assert_eq!(s.found.len(), 1);
}

#[test]
fn state_and_type_have_to_be_answered() {
    for property in [STATE, TYPE] {
        let (s, _) = scan(
            &[20, 21],
            &[(20, CLASS, text(b"a\0b\0")), (21, CLASS, text(b"a\0b\0"))],
            &[(21, property)],
        );
        assert!(s.failed);
        assert_eq!(s.found.len(), 1);
    }
}

#[test]
fn no_windows_no_questions() {
    let (s, questions) = scan(&[], &[], &[]);
    assert!(!s.failed);
    assert_eq!((s.found.len(), questions), (0, 0));
}
