//! The command line.
use vstd::prelude::*;

use crate::backend;
use crate::backend::BackendTarget;
use crate::control::CmdKind;
use crate::ipc;
use crate::strings;

verus! {

/// What the program was started for.
#[derive(Debug)]
pub enum Invocation {
    /// Send a command to the running daemon and print its reply.
    Control(CmdKind),
    /// Send this line, about the backend, to the running daemon and print its reply.
    Backend(String),
    /// Print our keymap.
    GenKeymap,
    /// Print the help.
    Help,
    /// Run the daemon, under the IBus daemon where `ibus` holds.
    Daemon { ibus: bool },
    /// The subcommand is not known.
    Unknown(String),
}

/// [`Invocation`] with its text as characters.
pub enum Wish {
    Control(CmdKind),
    Backend(Seq<char>),
    GenKeymap,
    Help,
    Daemon { ibus: bool },
    Unknown(Seq<char>),
}

impl View for Invocation {
    type V = Wish;

    open spec fn view(&self) -> Wish {
        match *self {
            Invocation::Control(k) => Wish::Control(k),
            Invocation::Backend(line) => Wish::Backend(line@),
            Invocation::GenKeymap => Wish::GenKeymap,
            Invocation::Help => Wish::Help,
            Invocation::Daemon { ibus } => Wish::Daemon { ibus },
            Invocation::Unknown(s) => Wish::Unknown(s@),
        }
    }
}

/// The subcommands that are sent to the running daemon.
pub open spec fn control_word(arg: Seq<char>) -> Option<CmdKind> {
    if arg == "toggle"@ {
        Some(CmdKind::Toggle)
    } else if arg == "enable"@ {
        Some(CmdKind::Enable)
    } else if arg == "disable"@ {
        Some(CmdKind::Disable)
    } else if arg == "status"@ {
        Some(CmdKind::Status)
    } else {
        None
    }
}

/// What the arguments, the program's name first, ask for.
pub open spec fn wish_of(args: Seq<Seq<char>>) -> Wish {
    if args.len() < 2 {
        Wish::Daemon { ibus: args.contains("--ibus"@) }
    } else {
        let arg = args[1];
        match control_word(arg) {
            Some(k) => Wish::Control(k),
            None => if arg == "backend"@ {
                Wish::Backend(strings::joined(args.skip(1), " "@))
            } else if arg == "gen-keymap"@ {
                Wish::GenKeymap
            } else if arg == "--help"@ || arg == "-h"@ || arg == "help"@ {
                Wish::Help
            } else if arg == "--ibus"@ {
                Wish::Daemon { ibus: true }
            } else {
                Wish::Unknown(arg)
            },
        }
    }
}

/// The arguments behind the program's name, on one line.
fn line_of(args: &Vec<String>) -> (line: String)
    requires
        args@.len() > 0,
    ensures
        line@ == strings::joined(strings::texts(args@).skip(1), " "@),
{
    let mut rest: Vec<String> = Vec::new();
    for i in 1..args.len()
        invariant
            1 <= i,
            rest@.len() == i - 1,
            forall|j: int| 0 <= j < i - 1 ==> (#[trigger] rest@[j])@ == args@[j + 1]@,
    {
        rest.push(args[i].as_str().to_owned());
    }
    assert(strings::texts(rest@) =~= strings::texts(args@).skip(1));
    strings::join(&rest, " ")
}

/// What the arguments, the program's name first, ask for.
pub fn invocation(args: &Vec<String>) -> (i: Invocation)
    ensures
        i@ == wish_of(strings::texts(args@)),
{
    let ghost texts = strings::texts(args@);
    if args.len() < 2 {
        let ibus = strings::contains_text(args, "--ibus");
        return Invocation::Daemon { ibus };
    }
    let arg: &str = args[1].as_str();
    assert(texts[1] == arg@);
    if *arg == *"toggle" {
        Invocation::Control(CmdKind::Toggle)
    } else if *arg == *"enable" {
        Invocation::Control(CmdKind::Enable)
    } else if *arg == *"disable" {
        Invocation::Control(CmdKind::Disable)
    } else if *arg == *"status" {
        Invocation::Control(CmdKind::Status)
    } else if *arg == *"backend" {
        Invocation::Backend(line_of(args))
    } else if *arg == *"gen-keymap" {
        Invocation::GenKeymap
    } else if *arg == *"--help" || *arg == *"-h" || *arg == *"help" {
        Invocation::Help
    } else if *arg == *"--ibus" {
        Invocation::Daemon { ibus: true }
    } else {
        Invocation::Unknown(arg.to_owned())
    }
}

/// The complaint about a subcommand that is not known.
pub fn unknown_subcommand(arg: &str) -> (s: String)
    ensures
        s@ == "daklak: unknown subcommand "@ + strings::debug_text(arg@) + "\n"@,
{
    let mut s = "daklak: unknown subcommand ".to_owned();
    let quoted = strings::to_debug_text(arg);
    s.push_str(quoted.as_str());
    s.push_str("\n");
    s
}

/// What `help` prints.
pub fn help_text() -> (s: &'static str)
    ensures
        s@
            == "Usage: daklak [SUBCOMMAND]\n\nSubcommands:\n  toggle       Toggle the input method on or off.\n  enable       Turn the input method on.\n  disable      Turn the input method off.\n  status       Print 'on' or 'off' and exit.\n  gen-keymap   Print daklak's synthetic xkb keymap to stdout and exit.\n               Pipe to a file then load it into your compositor manually:\n                 daklak gen-keymap > /tmp/daklak.xkb\n                 swaymsg input <viet-ime-id> xkb_file /tmp/daklak.xkb\n\nWith no subcommand, runs the input-method daemon.\n\nSway keybind example:\n  bindsym $mod+space exec daklak toggle\n"@,
{
    "Usage: daklak [SUBCOMMAND]\n\nSubcommands:\n  toggle       Toggle the input method on or off.\n  enable       Turn the input method on.\n  disable      Turn the input method off.\n  status       Print 'on' or 'off' and exit.\n  gen-keymap   Print daklak's synthetic xkb keymap to stdout and exit.\n               Pipe to a file then load it into your compositor manually:\n                 daklak gen-keymap > /tmp/daklak.xkb\n                 swaymsg input <viet-ime-id> xkb_file /tmp/daklak.xkb\n\nWith no subcommand, runs the input-method daemon.\n\nSway keybind example:\n  bindsym $mod+space exec daklak toggle\n"
}

/// `backend`, alone or with the name of a target, is understood by the daemon: it asks
/// for the backend, or for a switch to that target.
pub proof fn law_backend_lines_are_understood(program: Seq<char>, t: BackendTarget)
    ensures
        wish_of(seq![program, "backend"@]) matches Wish::Backend(line) && ipc::command_of(line)
            == Ok::<CmdKind, Seq<char>>(CmdKind::BackendStatus),
        wish_of(seq![program, "backend"@, backend::target_name(t)]) matches Wish::Backend(line)
            && ipc::command_of(line) == Ok::<CmdKind, Seq<char>>(CmdKind::SetBackend(t)),
{
    reveal_strlit("toggle");
    reveal_strlit("enable");
    reveal_strlit("disable");
    reveal_strlit("status");
    reveal_strlit("backend");
    assert("backend"@[0] == 'b');
    assert("toggle"@[0] == 't');
    assert("enable"@[0] == 'e');
    assert("disable"@[0] == 'd');
    assert("status"@[0] == 's');
    let one = seq![program, "backend"@];
    assert(one.skip(1) =~= seq!["backend"@]);
    ipc::law_command_words_parse(CmdKind::BackendStatus);
    let two = seq![program, "backend"@, backend::target_name(t)];
    assert(two.skip(1) =~= seq!["backend"@, backend::target_name(t)]);
    assert(two.skip(1).drop_last() =~= seq!["backend"@]);
    assert(strings::joined(two.skip(1), " "@) == "backend"@ + " "@ + backend::target_name(t)) by {
        reveal_with_fuel(strings::joined, 3);
    }
    ipc::law_switches_parse(t);
}

/// A subcommand that is sent to the daemon is understood there, as the same
/// command.
pub proof fn law_subcommands_are_understood(arg: Seq<char>)
    requires
        control_word(arg) is Some,
    ensures
        ipc::command_of(arg) == Ok::<CmdKind, Seq<char>>(control_word(arg)->0),
{
    ipc::law_command_words_parse(control_word(arg)->0);
}

/// A subcommand is known by its word, and no other word is taken for it; a word that is
/// known to nothing is handed back as it is. Without one, the daemon runs.
pub proof fn law_subcommands_are_named_by_their_words(args: Seq<Seq<char>>)
    ensures
        wish_of(args) matches Wish::Control(k) ==> args.len() >= 2 && args[1] == ipc::command_word(
            k,
        ) && k !is Quit && k !is BackendStatus && k !is SetBackend,
        wish_of(args) matches Wish::Backend(_) ==> args.len() >= 2 && args[1] == "backend"@,
        wish_of(args) is GenKeymap ==> args.len() >= 2 && args[1] == "gen-keymap"@,
        wish_of(args) is Help ==> args.len() >= 2 && (args[1] == "--help"@ || args[1] == "-h"@
            || args[1] == "help"@),
        wish_of(args) matches Wish::Unknown(w) ==> args.len() >= 2 && args[1] == w,
        wish_of(args) matches Wish::Daemon { ibus } ==> args.len() < 2 || args[1] == "--ibus"@
            && ibus,
        args.len() < 2 ==> wish_of(args) is Daemon,
        args.len() == 1 && args[0] != "--ibus"@ ==> wish_of(args) == (Wish::Daemon { ibus: false }),
{
}

} // verus!
