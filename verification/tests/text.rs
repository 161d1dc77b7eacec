use scatto::action::{action, parse_command, Command, Known, Next};
use scatto::render::{capitalize, escape_markup, truncate};
use scatto::text::{decimal, to_ascii_lower, trim};
use scatto::wm::{step_desktop, WmOp};

#[test]
fn white_space_is_what_std_says() {
    for u in 0..0x3100u32 {
        if let Some(c) = char::from_u32(u) {
            let s = format!("{c}a{c}{c}");
            assert_eq!(trim(&s), s.trim());
        }
    }
    assert_eq!(trim(""), "");
    assert_eq!(trim(" \n "), "");
    assert_eq!(trim("a b"), "a b");
}

#[test]
fn small_letters() {
    for u in 0..0x180u32 {
        let c = char::from_u32(u).unwrap();
        assert_eq!(to_ascii_lower(c), c.to_ascii_lowercase());
    }
}

#[test]
fn decimal_numbers() {
    for n in [0, 1, 9, 10, 11, 99, 100, 12345, u32::MAX] {
        assert_eq!(decimal(n), n.to_string());
    }
}

#[test]
fn first_letter_is_capitalized() {
    assert_eq!(capitalize("firefox"), "Firefox");
    assert_eq!(capitalize("Firefox"), "Firefox");
    assert_eq!(capitalize("élan"), "Élan");
    assert_eq!(capitalize("ßa"), "SSa");
    assert_eq!(capitalize("1st"), "1st");
    assert_eq!(capitalize(""), "");
    assert_eq!(capitalize("gIMP"), "GIMP");
    for s in ["firefox", "gIMP", "ßx", "élan", "ŉa", "ǆx", "-x", ""] {
        assert_eq!(capitalize(&capitalize(s)), capitalize(s));
    }
}

#[test]
fn markup_is_escaped() {
    assert_eq!(escape_markup("a < b && c > d"), "a &lt; b &amp;&amp; c &gt; d");
    assert_eq!(escape_markup("&lt;"), "&amp;lt;");
    assert_eq!(escape_markup("plain \"text\""), "plain \"text\"");
    assert_eq!(escape_markup(""), "");
    let tags = escape_markup("<b>&</b>");
    assert!(!tags.contains('<') && !tags.contains('>'));
}

#[test]
fn long_text_is_cut() {
    assert_eq!(truncate("abc", 3), "abc");
    assert_eq!(truncate("abcd", 3), "abc…");
    assert_eq!(truncate("äöüß", 3), "äöü…");
    assert_eq!(truncate("a", 0), "…");
    assert_eq!(truncate("", 0), "");
}

#[test]
fn commands() {
    assert_eq!(parse_command(""), Some(Command::Popup));
    assert_eq!(parse_command("popup"), Some(Command::Popup));
    assert_eq!(parse_command("switch-next"), Some(Command::Go { delta: 1, take_active: false }));
    assert_eq!(parse_command("switch-prev"), Some(Command::Go { delta: -1, take_active: false }));
    assert_eq!(parse_command("move-next"), Some(Command::Go { delta: 1, take_active: true }));
    assert_eq!(parse_command("move-prev"), Some(Command::Go { delta: -1, take_active: true }));
    assert_eq!(parse_command("print-config"), Some(Command::PrintConfig));
    assert_eq!(parse_command("init-config"), Some(Command::InitConfig));
    assert_eq!(parse_command("-h"), Some(Command::Help));
    assert_eq!(parse_command("--help"), Some(Command::Help));
    assert_eq!(parse_command("Popup"), None);
    assert_eq!(parse_command("popup "), None);
}

fn sent(delta: i32, take_active: bool, known: Known) -> Vec<WmOp> {
    match action(delta, take_active, known) {
        Next::Send(ops) => ops,
        other => panic!("asks for more: {other:?}"),
    }
}

#[test]
fn actions_ask_only_for_what_they_need() {
    let nothing = Known { desktops: None, current: None, active: None };
    assert!(matches!(action(1, true, nothing), Next::AskDesktops));
    let counted = Known { desktops: Some(4), ..nothing };
    assert!(matches!(action(1, true, counted), Next::AskCurrent));
    assert_eq!(sent(1, true, Known { desktops: Some(0), ..nothing }), vec![]);
    let placed = Known { current: Some(3), ..counted };
    assert!(matches!(action(1, true, placed), Next::AskActive));
    assert_eq!(sent(1, false, placed), vec![WmOp::SwitchDesktop { desktop: 0, time: 0 }]);
    assert_eq!(sent(-1, false, placed), vec![WmOp::SwitchDesktop { desktop: 2, time: 0 }]);
    assert_eq!(
        sent(1, true, Known { active: Some(Some(77)), ..placed }),
        vec![
            WmOp::MoveToDesktop { window: 77, desktop: 0 },
            WmOp::SwitchDesktop { desktop: 0, time: 0 },
        ]
    );
    assert_eq!(
        sent(1, true, Known { active: Some(None), ..placed }),
        vec![WmOp::SwitchDesktop { desktop: 0, time: 0 }]
    );
}

#[test]
fn desktops_go_round() {
    assert_eq!(step_desktop(0, 1, 3), 1);
    assert_eq!(step_desktop(2, 1, 3), 0);
    assert_eq!(step_desktop(0, -1, 3), 2);
    assert_eq!(step_desktop(7, 1, 3), 2);
    assert_eq!(step_desktop(0, 1, 1), 0);
    assert_eq!(step_desktop(u32::MAX, 1, 3), 0);
    for n in 1..6u64 {
        for base in 0..n as u32 {
            for delta in -7..8 {
                assert_eq!(step_desktop(step_desktop(base, delta, n), -delta, n), base);
            }
        }
    }
}

#[test]
fn many_desktops_go_round_too() {
    let n = u64::from(u32::MAX);
    let last = u32::MAX - 1;
    assert_eq!(step_desktop(0x7fff_ffff, 1, n), 0x8000_0000);
    assert_eq!(step_desktop(0x8000_0000, 1, n), 0x8000_0001);
    assert_eq!(step_desktop(0x8000_0000, -1, n), 0x7fff_ffff);
    assert_eq!(step_desktop(last, 1, n), 0);
    assert_eq!(step_desktop(0, -1, n), last);
    assert_eq!(step_desktop(u32::MAX, 1, n), 0);
    for base in [0, 5, 0x7fff_ffff, 0x8000_0000, last] {
        assert_eq!(step_desktop(step_desktop(base, i32::MAX, n), -i32::MAX, n), base);
    }
    let many = Known { desktops: Some(0xc000_0000), current: Some(0xbfff_ffff), active: None };
    assert_eq!(sent(1, false, many), vec![WmOp::SwitchDesktop { desktop: 0, time: 0 }]);
    assert_eq!(sent(-1, false, many), vec![WmOp::SwitchDesktop { desktop: 0xbfff_fffe, time: 0 }]);
}

#[test]
fn markup_goes_by_pieces_and_loses_nothing() {
    let texts = ["", "a", "&", "&amp;", "<", "&lt;", ">", "&gt;", ";", "a&b", "amp;"];
    for a in texts {
        for b in texts {
            let both = format!("{a}{b}");
            assert_eq!(escape_markup(&both), escape_markup(a) + &escape_markup(b));
            assert_eq!(escape_markup(a) == escape_markup(b), a == b);
        }
    }
}
