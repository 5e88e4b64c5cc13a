//! Which input backend is in use.
use vstd::prelude::*;

use crate::config;
use crate::config::Config;
use crate::strings;

verus! {

/// A way to reach the desktop.
#[derive(Debug, Clone, Copy, PartialEq, Eq, Structural)]
pub enum InputBackend {
    Auto,
    Ibus,
    Wayland,
    Evdev,
}

/// A switch of backend that a user may ask for. The native one is not named:
/// Wayland and IBus are never exchanged for each other at run time.
#[derive(Debug, Clone, Copy, PartialEq, Eq, Structural)]
pub enum BackendTarget {
    Native,
    Evdev,
    Toggle,
}

/// The target that a word names.
pub open spec fn target_named(raw: Seq<char>) -> Option<BackendTarget> {
    let t = strings::lowered(strings::trimmed(raw));
    if t == "native"@ || t == "auto"@ {
        Some(BackendTarget::Native)
    } else if t == "evdev"@ || t == "evdev-grab"@ || t == "evdev_grab"@ {
        Some(BackendTarget::Evdev)
    } else if t == "toggle"@ {
        Some(BackendTarget::Toggle)
    } else {
        None
    }
}

/// The name of a target.
pub open spec fn target_name(t: BackendTarget) -> Seq<char> {
    match t {
        BackendTarget::Native => "native"@,
        BackendTarget::Evdev => "evdev"@,
        BackendTarget::Toggle => "toggle"@,
    }
}

/// The name of a backend.
pub open spec fn backend_name(b: InputBackend) -> Seq<char> {
    match b {
        InputBackend::Auto => "auto"@,
        InputBackend::Ibus => "ibus"@,
        InputBackend::Wayland => "wayland"@,
        InputBackend::Evdev => "evdev"@,
    }
}

/// The native backend under given settings, in a build with IBus or without. A request
/// for IBus counts only where IBus is built in.
pub open spec fn native_backend(s: config::Settings, ibus: bool) -> InputBackend {
    if ibus && s.ibus_requested {
        InputBackend::Ibus
    } else if s.enable_wayland {
        InputBackend::Wayland
    } else {
        InputBackend::Auto
    }
}

/// The backend to start with, in a build with IBus or without. A requested IBus
/// connection comes first, since a keyboard grab can be layered over it; otherwise the
/// grab comes first.
pub open spec fn startup_backend(s: config::Settings, ibus: bool) -> InputBackend {
    if ibus && s.ibus_requested {
        InputBackend::Ibus
    } else if s.enable_evdev_grab {
        InputBackend::Evdev
    } else if s.enable_wayland {
        InputBackend::Wayland
    } else {
        InputBackend::Auto
    }
}

impl BackendTarget {
    pub fn parse(raw: &str) -> (t: Option<Self>)
        ensures
            t == target_named(raw@),
    {
        let t = strings::to_lower(strings::trim(raw));
        let t = t.as_str();
        if *t == *"native" || *t == *"auto" {
            Some(BackendTarget::Native)
        } else if *t == *"evdev" || *t == *"evdev-grab" || *t == *"evdev_grab" {
            Some(BackendTarget::Evdev)
        } else if *t == *"toggle" {
            Some(BackendTarget::Toggle)
        } else {
            None
        }
    }

    pub fn as_str(self) -> (s: &'static str)
        ensures
            s@ == target_name(self),
    {
        match self {
            BackendTarget::Native => "native",
            BackendTarget::Evdev => "evdev",
            BackendTarget::Toggle => "toggle",
        }
    }
}

impl InputBackend {
    pub fn as_str(self) -> (s: &'static str)
        ensures
            s@ == backend_name(self),
    {
        match self {
            InputBackend::Auto => "auto",
            InputBackend::Ibus => "ibus",
            InputBackend::Wayland => "wayland",
            InputBackend::Evdev => "evdev",
        }
    }

    /// The native backend, in a build with IBus.
    pub fn native_from_config(config: &Config) -> (b: Self)
        ensures
            b == native_backend(config@, true),
    {
        Self::native_at_build(config, true)
    }

    /// The backend to start with, in a build with IBus.
    pub fn startup_from_config(config: &Config) -> (b: Self)
        ensures
            b == startup_backend(config@, true),
    {
        Self::startup_at_build(config, true)
    }

    /// The native backend, in a build with IBus or without.
    pub fn native_at_build(config: &Config, ibus: bool) -> (b: Self)
        ensures
            b == native_backend(config@, ibus),
    {
        if ibus && config.ibus_requested {
            InputBackend::Ibus
        } else if config.enable_wayland {
            InputBackend::Wayland
        } else {
            InputBackend::Auto
        }
    }

    /// The backend to start with, in a build with IBus or without.
    pub fn startup_at_build(config: &Config, ibus: bool) -> (b: Self)
        ensures
            b == startup_backend(config@, ibus),
    {
        if ibus && config.ibus_requested {
            InputBackend::Ibus
        } else if config.enable_evdev_grab {
            InputBackend::Evdev
        } else if config.enable_wayland {
            InputBackend::Wayland
        } else {
            InputBackend::Auto
        }
    }
}

/// The name of every target is read as that target.
pub proof fn law_target_names_parse(t: BackendTarget)
    ensures
        target_named(target_name(t)) == Some(t),
{
    reveal_strlit("native");
    reveal_strlit("auto");
    reveal_strlit("evdev");
    reveal_strlit("evdev-grab");
    reveal_strlit("evdev_grab");
    reveal_strlit("toggle");
    let n = target_name(t);
    assert(n.len() > 0);
    assert(strings::start_trimmed(n) == n);
    assert(strings::trimmed(n) == n);
    assert(strings::lowered(n) =~= n);
    assert("evdev"@[0] != "native"@[0] && "evdev"@[0] != "auto"@[0]);
    assert("toggle"@[0] != "native"@[0] && "toggle"@[0] != "auto"@[0]);
    assert("toggle"@[0] != "evdev"@[0] && "toggle"@[0] != "evdev-grab"@[0] && "toggle"@[0]
        != "evdev_grab"@[0]);
}

/// No word names Wayland or IBus as a target.
pub proof fn law_native_backends_are_no_targets(b: InputBackend)
    requires
        b == InputBackend::Ibus || b == InputBackend::Wayland,
    ensures
        target_named(backend_name(b)) is None,
{
    reveal_strlit("ibus");
    reveal_strlit("wayland");
    reveal_strlit("native");
    reveal_strlit("auto");
    reveal_strlit("evdev");
    reveal_strlit("evdev-grab");
    reveal_strlit("evdev_grab");
    reveal_strlit("toggle");
    let n = backend_name(b);
    assert(strings::start_trimmed(n) == n);
    assert(strings::trimmed(n) == n);
    assert(strings::lowered(n) =~= n);
    assert(n[0] == 'i' || n[0] == 'w');
    assert("native"@[0] == 'n');
    assert("auto"@[0] == 'a');
    assert("evdev"@[0] == 'e');
    assert("evdev-grab"@[0] == 'e');
    assert("evdev_grab"@[0] == 'e');
    assert("toggle"@[0] == 't');
}

/// The backend to start with is the native one, unless a grab is configured and
/// IBus is not asked for or not built in.
pub proof fn law_startup_is_native_or_grab(s: config::Settings, ibus: bool)
    ensures
        startup_backend(s, ibus) == if s.enable_evdev_grab && !(ibus && s.ibus_requested) {
            InputBackend::Evdev
        } else {
            native_backend(s, ibus)
        },
{
}

/// Without IBus built in, it is never started, and a request for it changes nothing.
pub proof fn law_ibus_needs_its_build(s: config::Settings)
    ensures
        startup_backend(s, false) != InputBackend::Ibus,
        native_backend(s, false) != InputBackend::Ibus,
        startup_backend(s, false) == startup_backend(
            (config::Settings { ibus_requested: false, ..s }),
            true,
        ),
        native_backend(s, false) == native_backend(
            (config::Settings { ibus_requested: false, ..s }),
            true,
        ),
{
}

/// A target is named by one of its own words, and a backend by one word each.
pub proof fn law_names_tell_backends_apart(a: InputBackend, b: InputBackend, raw: Seq<char>)
    ensures
        backend_name(a) == backend_name(b) ==> a == b,
        ({
            let t = strings::lowered(strings::trimmed(raw));
            &&& target_named(raw) == Some(BackendTarget::Native) ==> t == "native"@ || t == "auto"@
            &&& target_named(raw) == Some(BackendTarget::Evdev) ==> t == "evdev"@ || t
                == "evdev-grab"@ || t == "evdev_grab"@
            &&& target_named(raw) == Some(BackendTarget::Toggle) ==> t == "toggle"@
            &&& t == "native"@ || t == "auto"@ || t == "evdev"@ || t == "evdev-grab"@ || t
                == "evdev_grab"@ || t == "toggle"@ ==> target_named(raw) is Some
        }),
{
    reveal_strlit("auto");
    reveal_strlit("ibus");
    reveal_strlit("wayland");
    reveal_strlit("evdev");
    assert("auto"@[0] == 'a' && "ibus"@[0] == 'i' && "wayland"@[0] == 'w' && "evdev"@[0] == 'e');
}

/// Of the ways to run, the IBus engine comes first where it was asked for, then a grab,
/// then Wayland; what is not switched on is not run.
pub proof fn law_what_is_run_was_asked_for(s: config::Settings, ibus: bool)
    ensures
        ({
            let b = startup_backend(s, ibus);
            let n = native_backend(s, ibus);
            &&& b == InputBackend::Ibus <==> ibus && s.ibus_requested
            &&& b == InputBackend::Evdev <==> s.enable_evdev_grab && !(ibus && s.ibus_requested)
            &&& b == InputBackend::Wayland <==> s.enable_wayland && !s.enable_evdev_grab && !(ibus
                && s.ibus_requested)
            &&& n == InputBackend::Ibus <==> ibus && s.ibus_requested
            &&& n == InputBackend::Wayland <==> s.enable_wayland && !(ibus && s.ibus_requested)
            &&& n != InputBackend::Evdev
        }),
{
}

} // verus!
