//! What the program is asked to do on its command line, and the actions that
//! need no popup.

use crate::text::same;
#[allow(unused_imports)]
use crate::wm::{
    law_steps_can_be_taken_back, law_steps_count, law_steps_go_round, step_desktop, stepped, WmOp,
};
use crate::x11::current_time;
use vstd::prelude::*;

verus! {

/// One use of the program.
#[derive(Debug, Clone, Copy, PartialEq, Eq, Structural)]
pub enum Command {
    /// Open the popup.
    Popup,
    /// Go `delta` desktops further, with the active window or without.
    Go { delta: i32, take_active: bool },
    /// Print the default configuration.
    PrintConfig,
    /// Write the default configuration to a file.
    InitConfig,
    /// Say how the program is used.
    Help,
}

/// The command that an argument stands for.
pub open spec fn command_of(arg: Seq<char>) -> Option<Command> {
    if arg == ""@ || arg == "popup"@ {
        Some(Command::Popup)
    } else if arg == "switch-next"@ {
        Some(Command::Go { delta: 1, take_active: false })
    } else if arg == "switch-prev"@ {
        Some(Command::Go { delta: -1 as i32, take_active: false })
    } else if arg == "move-next"@ {
        Some(Command::Go { delta: 1, take_active: true })
    } else if arg == "move-prev"@ {
        Some(Command::Go { delta: -1 as i32, take_active: true })
    } else if arg == "print-config"@ {
        Some(Command::PrintConfig)
    } else if arg == "init-config"@ {
        Some(Command::InitConfig)
    } else if arg == "-h"@ || arg == "--help"@ {
        Some(Command::Help)
    } else {
        None
    }
}

/// Reads the program's argument; without one it is empty. `None` means that
/// there is no such command.
pub fn parse_command(arg: &str) -> (r: Option<Command>)
    ensures
        r == command_of(arg@),
{
    if same(arg, "") || same(arg, "popup") {
        Some(Command::Popup)
    } else if same(arg, "switch-next") {
        Some(Command::Go { delta: 1, take_active: false })
    } else if same(arg, "switch-prev") {
        Some(Command::Go { delta: -1, take_active: false })
    } else if same(arg, "move-next") {
        Some(Command::Go { delta: 1, take_active: true })
    } else if same(arg, "move-prev") {
        Some(Command::Go { delta: -1, take_active: true })
    } else if same(arg, "print-config") {
        Some(Command::PrintConfig)
    } else if same(arg, "init-config") {
        Some(Command::InitConfig)
    } else if same(arg, "-h") || same(arg, "--help") {
        Some(Command::Help)
    } else {
        None
    }
}

/// What has been read so far for an action. The outer `None` of a field means
/// that it has not been read.
#[derive(Debug, Clone, Copy, PartialEq, Eq, Structural)]
pub struct Known {
    pub desktops: Option<u32>,
    pub current: Option<u32>,
    pub active: Option<Option<u32>>,
}

/// What an action needs next.
#[derive(Debug)]
pub enum Next {
    /// The number of desktops.
    AskDesktops,
    /// The current desktop.
    AskCurrent,
    /// The active window.
    AskActive,
    /// Nothing more: these requests, in order, are all that is left to do.
    Send(Vec<WmOp>),
}

/// What an action needs next, as values.
#[verifier::ext_equal]
pub enum NextView {
    AskDesktops,
    AskCurrent,
    AskActive,
    Send(Seq<WmOp>),
}

impl View for Next {
    type V = NextView;

    open spec fn view(&self) -> NextView {
        match self {
            Next::AskDesktops => NextView::AskDesktops,
            Next::AskCurrent => NextView::AskCurrent,
            Next::AskActive => NextView::AskActive,
            Next::Send(ops) => NextView::Send(ops@),
        }
    }
}

/// The requests that go from desktop `current` of `n` to the one `delta`
/// further, and take the window `taken` along.
pub open spec fn going(delta: int, taken: Option<u32>, n: u32, current: u32) -> Seq<WmOp> {
    let next = stepped(current, delta, n as int);
    (match taken {
        Some(window) => seq![WmOp::MoveToDesktop { window, desktop: next }],
        None => Seq::empty(),
    }).push(WmOp::SwitchDesktop { desktop: next, time: 0 })
}

/// What an action needs next. Without desktops it does nothing.
pub open spec fn next_of(delta: int, take_active: bool, known: Known) -> NextView {
    match known.desktops {
        None => NextView::AskDesktops,
        Some(0) => NextView::Send(Seq::empty()),
        Some(n) => match known.current {
            None => NextView::AskCurrent,
            Some(current) => if !take_active {
                NextView::Send(going(delta, None, n, current))
            } else {
                match known.active {
                    None => NextView::AskActive,
                    Some(taken) => NextView::Send(going(delta, taken, n, current)),
                }
            },
        },
    }
}

/// Goes on with an action, given what has been read so far.
pub fn action(delta: i32, take_active: bool, known: Known) -> (r: Next)
    ensures
        r@ == next_of(delta as int, take_active, known),
{
    let n = match known.desktops {
        None => return Next::AskDesktops,
        Some(n) => n,
    };
    let mut ops: Vec<WmOp> = Vec::new();
    if n == 0 {
        return Next::Send(ops);
    }
    let current = match known.current {
        None => return Next::AskCurrent,
        Some(current) => current,
    };
    let next = step_desktop(current, delta, n as u64);
    if take_active {
        match known.active {
            None => return Next::AskActive,
            Some(Some(window)) => ops.push(WmOp::MoveToDesktop { window, desktop: next }),
            Some(None) => {},
        }
    }
    ops.push(WmOp::SwitchDesktop { desktop: next, time: current_time() });
    assert(NextView::Send(ops@) =~= next_of(delta as int, take_active, known));
    Next::Send(ops)
}

/// Going on and then back shows the desktop where it started, with or without
/// windows taken along.
pub proof fn law_going_can_be_taken_back(
    delta: int,
    taken1: Option<u32>,
    taken2: Option<u32>,
    n: u32,
    current: u32,
)
    requires
        current < n,
    ensures
        going(delta, taken1, n, current).last() matches WmOp::SwitchDesktop { desktop, .. }
            && desktop < n && going(-delta, taken2, n, desktop).last() == (WmOp::SwitchDesktop {
            desktop: current,
            time: 0,
        }),
{
    law_steps_can_be_taken_back(current, delta, n as int);
}

/// A window that is taken along ends up on the desktop that is shown.
pub proof fn law_taken_window_goes_along(delta: int, window: u32, n: u32, current: u32)
    ensures
        going(delta, Some(window), n, current).len() == 2,
        going(delta, Some(window), n, current)[1] matches WmOp::SwitchDesktop { desktop, .. }
            && going(delta, Some(window), n, current)[0] == (WmOp::MoveToDesktop {
            window,
            desktop,
        }),
{
}

/// The commands that go to another desktop are called by what they do: `switch`
/// goes alone and `move` takes the active window along, `next` goes one desktop
/// on and `prev` one back. No other text goes anywhere.
pub proof fn law_names_of_moves(arg: Seq<char>, take_active: bool, next: bool)
    ensures
        ({
            let name = (if take_active {
                "move-"@
            } else {
                "switch-"@
            }) + (if next {
                "next"@
            } else {
                "prev"@
            });
            command_of(arg) == Some(
                Command::Go {
                    delta: if next {
                        1
                    } else {
                        -1 as i32
                    },
                    take_active,
                },
            ) <==> arg == name
        }),
{
    lemma_command_names();
    let name = (if take_active {
        "move-"@
    } else {
        "switch-"@
    }) + (if next {
        "next"@
    } else {
        "prev"@
    });
    assert(take_active && next ==> name =~= "move-next"@);
    assert(take_active && !next ==> name =~= "move-prev"@);
    assert(!take_active && next ==> name =~= "switch-next"@);
    assert(!take_active && !next ==> name =~= "switch-prev"@);
}

proof fn lemma_command_names()
    ensures
        "move-next"@ == "move-"@ + "next"@,
        "move-prev"@ == "move-"@ + "prev"@,
        "switch-next"@ == "switch-"@ + "next"@,
        "switch-prev"@ == "switch-"@ + "prev"@,
        "move-next"@ != "move-prev"@,
        "move-next"@ != "switch-next"@,
        "move-next"@ != "switch-prev"@,
        "move-prev"@ != "switch-next"@,
        "move-prev"@ != "switch-prev"@,
        "switch-next"@ != "switch-prev"@,
        ""@.len() == 0,
        "popup"@.len() == 5,
        "move-next"@.len() == 9,
        "move-prev"@.len() == 9,
        "switch-next"@.len() == 11,
        "switch-prev"@.len() == 11,
        "print-config"@.len() == 12,
        "init-config"@.len() == 11,
        "init-config"@[0] == 'i',
        "switch-next"@[0] == 's',
        "switch-prev"@[0] == 's',
        "-h"@.len() == 2,
        "--help"@.len() == 6,
{
    reveal_strlit("move-");
    reveal_strlit("switch-");
    reveal_strlit("next");
    reveal_strlit("prev");
    reveal_strlit("move-next");
    reveal_strlit("move-prev");
    reveal_strlit("switch-next");
    reveal_strlit("switch-prev");
    reveal_strlit("");
    reveal_strlit("popup");
    reveal_strlit("print-config");
    reveal_strlit("init-config");
    reveal_strlit("-h");
    reveal_strlit("--help");
    assert("move-next"@ =~= "move-"@ + "next"@);
    assert("move-prev"@ =~= "move-"@ + "prev"@);
    assert("switch-next"@ =~= "switch-"@ + "next"@);
    assert("switch-prev"@ =~= "switch-"@ + "prev"@);
    assert("move-next"@[5] == 'n' && "move-prev"@[5] == 'p');
    assert("switch-next"@[7] == 'n' && "switch-prev"@[7] == 'p');
}

/// Without an argument the popup opens, and so it does by its name. The
/// configuration is printed or written, and the usage shown, by theirs. Any
/// other text but those of the moves is no command.
pub proof fn law_names_of_the_rest(arg: Seq<char>)
    ensures
        command_of(arg) == Some(Command::Popup) <==> arg.len() == 0 || arg == "popup"@,
        command_of(arg) == Some(Command::PrintConfig) <==> arg == "print-config"@,
        command_of(arg) == Some(Command::InitConfig) <==> arg == "init-config"@,
        command_of(arg) == Some(Command::Help) <==> arg == "-h"@ || arg == "--help"@,
        command_of(arg) matches Some(Command::Go { delta, .. }) ==> delta == 1 || delta == -1,
{
    lemma_command_names();
    if arg.len() == 0 {
        assert(arg =~= ""@);
    }
}

/// An action asks for what it does not know, and for nothing that it does not
/// need: first the number of desktops, then, if there are any, the current one,
/// and the active window only to take it along. Without desktops it sends
/// nothing.
pub proof fn law_actions_ask_in_order(delta: int, take_active: bool, known: Known)
    ensures
        ({
            let next = next_of(delta, take_active, known);
            &&& next is AskDesktops <==> known.desktops is None
            &&& next is AskCurrent <==> known.desktops is Some && known.desktops != Some(0u32)
                && known.current is None
            &&& next is AskActive <==> known.desktops is Some && known.desktops != Some(0u32)
                && known.current is Some && take_active && known.active is None
            &&& known.desktops == Some(0u32) ==> next == NextView::Send(Seq::empty())
        }),
{
}

/// An action shows the desktop `delta` places on from the current one, around
/// the ends, and nothing else; if it takes the active window along and there is
/// one, that window is first sent to the same desktop.
pub proof fn law_actions_go_to_the_desktop(
    delta: int,
    take_active: bool,
    known: Known,
    n: u32,
    current: u32,
)
    requires
        known.desktops == Some(n),
        known.current == Some(current),
        take_active ==> known.active is Some,
        current < n,
    ensures
        next_of(delta, take_active, known) matches NextView::Send(ops) && ops.len() >= 1 && (
        ops.last() matches WmOp::SwitchDesktop { desktop, time } && {
            &&& time == 0
            &&& desktop < n && (desktop - current - delta) % (n as int) == 0
            &&& delta == 1 ==> desktop == if current == n - 1 {
                0
            } else {
                current + 1
            }
            &&& delta == -1 ==> desktop == if current == 0 {
                n - 1
            } else {
                current - 1
            }
            &&& take_active && known.active->0 is Some ==> ops.len() == 2 && ops[0] == (
            WmOp::MoveToDesktop { window: known.active->0->0, desktop })
            &&& !take_active || known.active->0 is None ==> ops.len() == 1
        }),
{
    law_steps_count(current, delta, n as int);
    law_steps_go_round(current, n as int);
}

/// An action that starts on a desktop that is not there ends on one that is, as
/// many places on from its number, taken as a signed one.
pub proof fn law_actions_from_elsewhere(delta: int, known: Known, n: u32, current: u32)
    requires
        known.desktops == Some(n),
        known.current == Some(current),
        0 < n <= current,
    ensures
        next_of(delta, false, known) matches NextView::Send(ops) && ops.len() == 1 && (
        ops[0] matches WmOp::SwitchDesktop { desktop, .. } && {
            &&& desktop < n
            &&& current < 0x8000_0000 ==> (desktop - current - delta) % (n as int) == 0
            &&& current >= 0x8000_0000 ==> (desktop - (current - 0x1_0000_0000) - delta) % (
            n as int) == 0
        }),
{
    law_steps_count(current, delta, n as int);
}

} // verus!
