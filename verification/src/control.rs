//! The control plane: commands, their replies and run-time settings.
use vstd::prelude::*;

use crate::backend;
use crate::backend::{BackendTarget, InputBackend};
use crate::config::MethodConfig;
use crate::strings;

verus! {

/// The answer to a command.
#[derive(Debug)]
pub enum ControlReply {
    Enabled(bool),
    Backend(InputBackend),
    Done(String),
    Error(String),
}

/// [`ControlReply`] with its text as characters.
pub enum Answer {
    Enabled(bool),
    Backend(InputBackend),
    Done(Seq<char>),
    Error(Seq<char>),
}

impl View for ControlReply {
    type V = Answer;

    open spec fn view(&self) -> Answer {
        match *self {
            ControlReply::Enabled(v) => Answer::Enabled(v),
            ControlReply::Backend(b) => Answer::Backend(b),
            ControlReply::Done(m) => Answer::Done(m@),
            ControlReply::Error(m) => Answer::Error(m@),
        }
    }
}

/// A reply as a line of the control socket.
pub open spec fn ipc_line(a: Answer) -> Seq<char> {
    match a {
        Answer::Enabled(true) => "on"@,
        Answer::Enabled(false) => "off"@,
        Answer::Backend(b) => backend::backend_name(b),
        Answer::Done(m) => "ok "@ + m,
        Answer::Error(m) => "err "@ + m,
    }
}

impl ControlReply {
    pub fn as_ipc_line(&self) -> (s: String)
        ensures
            s@ == ipc_line(self@),
    {
        match self {
            ControlReply::Enabled(on) => if *on {
                "on".to_owned()
            } else {
                "off".to_owned()
            },
            ControlReply::Backend(b) => b.as_str().to_owned(),
            ControlReply::Done(m) => {
                let mut s = "ok ".to_owned();
                s.push_str(m.as_str());
                s
            },
            ControlReply::Error(m) => {
                let mut s = "err ".to_owned();
                s.push_str(m.as_str());
                s
            },
        }
    }

    pub fn enabled_value(&self) -> (v: Option<bool>)
        ensures
            v == match self@ {
                Answer::Enabled(b) => Some(b),
                _ => None,
            },
    {
        match self {
            ControlReply::Enabled(v) => Some(*v),
            _ => None,
        }
    }
}

/// The settings that may change while the daemon runs, all of them at once: two
/// changes in a row can then never lose part of each other.
#[derive(Debug, Clone, Copy, PartialEq, Eq, Structural)]
pub struct ConfigChange {
    pub method: MethodConfig,
    pub modern_style: bool,
}

impl ConfigChange {
    /// Whether nothing differs from `other`.
    pub fn no_change_from(&self, other: &Self) -> (b: bool)
        ensures
            b == (*self == *other),
    {
        self.method == other.method && self.modern_style == other.modern_style
    }
}

impl Default for ConfigChange {
    fn default() -> (c: Self)
        ensures
            c == (ConfigChange { method: MethodConfig::Telex, modern_style: true }),
    {
        ConfigChange { method: MethodConfig::Telex, modern_style: true }
    }
}

/// A command to the daemon.
#[derive(Debug, Clone, Copy, PartialEq, Eq, Structural)]
pub enum CmdKind {
    Toggle,
    Enable,
    Disable,
    Status,
    Quit,
    BackendStatus,
    SetBackend(BackendTarget),
}

/// What a command does before any backend runs.
#[derive(Debug)]
pub struct ControlStep {
    /// Whether composition is on afterwards.
    pub enabled: bool,
    /// Whether that is announced to those who watch it.
    pub announce: bool,
    pub reply: ControlReply,
    /// Whether the daemon ends.
    pub quit: bool,
}

/// Whether composition is on after a command.
pub open spec fn enabled_after(kind: CmdKind, enabled: bool) -> bool {
    match kind {
        CmdKind::Toggle => !enabled,
        CmdKind::Enable => true,
        CmdKind::Disable => false,
        _ => enabled,
    }
}

/// A command that sets the on/off state, changed or not.
pub open spec fn sets_enabled(kind: CmdKind) -> bool {
    kind == CmdKind::Toggle || kind == CmdKind::Enable || kind == CmdKind::Disable
}

/// A command that asks for or about a backend.
pub open spec fn about_backend(kind: CmdKind) -> bool {
    kind is BackendStatus || kind is SetBackend
}

/// Carry out a command before any backend runs.
pub fn control_step(kind: CmdKind, enabled: bool) -> (s: ControlStep)
    ensures
        s.enabled == enabled_after(kind, enabled),
        s.announce == sets_enabled(kind),
        s.quit == (kind == CmdKind::Quit),
        s.reply@ == if about_backend(kind) {
            Answer::Error("backend switching unavailable before supervisor starts"@)
        } else {
            Answer::Enabled(enabled_after(kind, enabled))
        },
{
    match kind {
        CmdKind::Toggle => ControlStep {
            enabled: !enabled,
            announce: true,
            reply: ControlReply::Enabled(!enabled),
            quit: false,
        },
        CmdKind::Enable => ControlStep {
            enabled: true,
            announce: true,
            reply: ControlReply::Enabled(true),
            quit: false,
        },
        CmdKind::Disable => ControlStep {
            enabled: false,
            announce: true,
            reply: ControlReply::Enabled(false),
            quit: false,
        },
        CmdKind::Status => ControlStep {
            enabled,
            announce: false,
            reply: ControlReply::Enabled(enabled),
            quit: false,
        },
        CmdKind::Quit => ControlStep {
            enabled,
            announce: false,
            reply: ControlReply::Enabled(enabled),
            quit: true,
        },
        CmdKind::BackendStatus | CmdKind::SetBackend(_) => ControlStep {
            enabled,
            announce: false,
            reply: ControlReply::Error(
                "backend switching unavailable before supervisor starts".to_owned(),
            ),
            quit: false,
        },
    }
}

/// Toggling twice leaves composition as it was.
pub proof fn law_toggle_twice(enabled: bool)
    ensures
        enabled_after(CmdKind::Toggle, enabled_after(CmdKind::Toggle, enabled)) == enabled,
{
}

/// Asking for the state never changes it.
pub proof fn law_queries_change_nothing(kind: CmdKind, enabled: bool)
    requires
        !sets_enabled(kind),
    ensures
        enabled_after(kind, enabled) == enabled,
{
}

/// Enabling and disabling do that whatever held before, toggling does the other thing, and
/// only these are announced.
pub proof fn law_switching(enabled: bool, kind: CmdKind)
    ensures
        enabled_after(CmdKind::Enable, enabled),
        !enabled_after(CmdKind::Disable, enabled),
        enabled_after(CmdKind::Toggle, enabled) == !enabled,
        enabled_after(kind, enabled) != enabled ==> sets_enabled(kind),
        sets_enabled(kind) <==> kind is Toggle || kind is Enable || kind is Disable,
        about_backend(kind) ==> !sets_enabled(kind),
{
}

/// A line that answers says what kind of answer it is: what failed begins with `err `,
/// what was done with `ok `, each followed by the message; anything else is one word.
pub proof fn law_lines_tell_answers_apart(a: Answer)
    ensures
        a is Error <==> strings::has_prefix(ipc_line(a), "err "@),
        a is Done <==> strings::has_prefix(ipc_line(a), "ok "@),
        a matches Answer::Error(m) ==> ipc_line(a).skip(4) == m,
        a matches Answer::Done(m) ==> ipc_line(a).skip(3) == m,
        a matches Answer::Enabled(v) ==> (v <==> ipc_line(a) == "on"@) && (!v <==> ipc_line(a)
            == "off"@),
{
    reveal_strlit("err ");
    reveal_strlit("ok ");
    reveal_strlit("on");
    reveal_strlit("off");
    reveal_strlit("auto");
    reveal_strlit("ibus");
    reveal_strlit("wayland");
    reveal_strlit("evdev");
    let line = ipc_line(a);
    assert("err "@[0] == 'e' && "err "@[1] == 'r' && "ok "@[0] == 'o' && "ok "@[1] == 'k');
    assert("evdev"@[0] == 'e' && "evdev"@[1] == 'v' && "on"@[1] == 'n' && "off"@[1] == 'f');
    assert("auto"@[0] == 'a' && "ibus"@[0] == 'i' && "wayland"@[0] == 'w');
    assert("on"@[0] == 'o' && "off"@[0] == 'o');
    if line.len() >= 4 {
        assert(line.take(4)[0] == line[0] && line.take(4)[1] == line[1]);
    }
    if line.len() >= 3 {
        assert(line.take(3)[0] == line[0] && line.take(3)[1] == line[1]);
    }
    if let Answer::Error(m) = a {
        assert(line.take(4) =~= "err "@);
        assert(line.skip(4) =~= m);
    }
    if let Answer::Done(m) = a {
        assert(line.take(3) =~= "ok "@);
        assert(line.skip(3) =~= m);
    }
}

} // verus!
