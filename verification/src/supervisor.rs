//! Which backend runs, and when another takes over.
//!
//! The supervisor makes the decisions. Whoever runs a backend tells it what
//! happened and carries out what it says.
use vstd::prelude::*;

use crate::backend;
use crate::backend::{BackendTarget, InputBackend};
use crate::config::{Config, Settings};
use crate::control;
use crate::control::{Answer, CmdKind, ControlReply};

verus! {

/// What to do once the backend that runs has stopped.
#[derive(Debug, Clone, Copy, PartialEq, Eq, Structural)]
pub enum PendingAction {
    SwitchTo(InputBackend),
    Quit,
}

/// What this build can do.
#[derive(Debug, Clone, Copy, PartialEq, Eq, Structural)]
pub struct BuildSupport {
    pub ibus: bool,
    pub evdev_grab: bool,
}

/// State of the supervisor.
pub struct Supervisor {
    pub config: Config,
    pub enabled: bool,
    /// The backend announced last.
    pub backend: InputBackend,
    pub build: BuildSupport,
    /// The IBus engine passes keys on while grabbed keyboards compose.
    pub ibus_suspended: bool,
    pub pending_action: Option<PendingAction>,
}

/// [`Supervisor`] as values.
pub struct Watch {
    pub settings: Settings,
    pub enabled: bool,
    pub backend: InputBackend,
    pub build: BuildSupport,
    pub ibus_suspended: bool,
    pub pending: Option<PendingAction>,
}

impl View for Supervisor {
    type V = Watch;

    open spec fn view(&self) -> Watch {
        Watch {
            settings: self.config@,
            enabled: self.enabled,
            backend: self.backend,
            build: self.build,
            ibus_suspended: self.ibus_suspended,
            pending: self.pending_action,
        }
    }
}

/// Why a backend cannot run.
#[derive(Debug, Clone, Copy, PartialEq, Eq, Structural)]
pub enum BackendFault {
    /// No backend is enabled at all.
    NoneEnabled,
    NoNative,
    IbusNotBuilt,
    EvdevNotBuilt,
}

/// The text of a fault.
pub open spec fn fault_text(f: BackendFault) -> Seq<char> {
    match f {
        BackendFault::NoneEnabled => {
            "no input backend enabled; set enable_wayland=true or enable_evdev_grab=true"@
        },
        BackendFault::NoNative => "no configured native backend available"@,
        BackendFault::IbusNotBuilt => "ibus support was not compiled in"@,
        BackendFault::EvdevNotBuilt => "evdev_grab support was not compiled in"@,
    }
}

impl BackendFault {
    pub fn message(self) -> (s: &'static str)
        ensures
            s@ == fault_text(self),
    {
        match self {
            BackendFault::NoneEnabled => {
                "no input backend enabled; set enable_wayland=true or enable_evdev_grab=true"
            },
            BackendFault::NoNative => "no configured native backend available",
            BackendFault::IbusNotBuilt => "ibus support was not compiled in",
            BackendFault::EvdevNotBuilt => "evdev_grab support was not compiled in",
        }
    }
}

/// What keeps this build from running a backend.
pub open spec fn build_fault(b: InputBackend, build: BuildSupport) -> Option<BackendFault> {
    match b {
        InputBackend::Ibus => if build.ibus {
            None
        } else {
            Some(BackendFault::IbusNotBuilt)
        },
        InputBackend::Evdev => if build.evdev_grab {
            None
        } else {
            Some(BackendFault::EvdevNotBuilt)
        },
        _ => None,
    }
}

/// Whether this build can run a backend.
pub fn backend_supported_at_build(b: InputBackend, build: BuildSupport) -> (r: Result<
    (),
    BackendFault,
>)
    ensures
        r == match build_fault(b, build) {
            Some(f) => Err::<(), BackendFault>(f),
            None => Ok(()),
        },
{
    match b {
        InputBackend::Ibus => if build.ibus {
            Ok(())
        } else {
            Err(BackendFault::IbusNotBuilt)
        },
        InputBackend::Evdev => if build.evdev_grab {
            Ok(())
        } else {
            Err(BackendFault::EvdevNotBuilt)
        },
        _ => Ok(()),
    }
}

/// The backend that a request means.
pub open spec fn requested(w: Watch, t: BackendTarget) -> InputBackend {
    match t {
        BackendTarget::Native => backend::native_backend(w.settings, w.build.ibus),
        BackendTarget::Evdev => InputBackend::Evdev,
        BackendTarget::Toggle => if w.backend == InputBackend::Evdev {
            backend::native_backend(w.settings, w.build.ibus)
        } else {
            InputBackend::Evdev
        },
    }
}

/// The backend that a request means, if it can run.
pub open spec fn resolved(w: Watch, t: BackendTarget) -> Result<InputBackend, BackendFault> {
    let b = requested(w, t);
    if b == InputBackend::Auto {
        Err(BackendFault::NoNative)
    } else {
        match build_fault(b, w.build) {
            Some(f) => Err(f),
            None => Ok(b),
        }
    }
}

/// What a command leads to.
#[derive(Debug)]
pub enum CmdStep {
    /// The reply; and the on/off state, when it is to be announced.
    Reply { reply: ControlReply, announce: Option<bool> },
    /// Keyboards would be grabbed: whether that is possible has to be checked
    /// first.
    CheckGrab,
}

/// The reply that a switch is under way, or was not needed.
pub open spec fn switched(b: InputBackend) -> Answer {
    Answer::Done("backend "@ + backend::backend_name(b))
}

/// The reply that a switch is impossible.
pub open spec fn unavailable(name: Seq<char>, why: Seq<char>) -> Answer {
    Answer::Error("backend "@ + name + " unavailable: "@ + why)
}

fn switched_reply(b: InputBackend) -> (r: ControlReply)
    ensures
        r@ == switched(b),
{
    let mut s = "backend ".to_owned();
    s.push_str(b.as_str());
    ControlReply::Done(s)
}

fn unavailable_reply(name: &str, why: &str) -> (r: ControlReply)
    ensures
        r@ == unavailable(name@, why@),
{
    let mut s = "backend ".to_owned();
    s.push_str(name);
    s.push_str(" unavailable: ");
    s.push_str(why);
    ControlReply::Error(s)
}

/// The state and the reply for a request to switch.
pub open spec fn switch_step(w: Watch, t: BackendTarget) -> (Watch, Option<Answer>) {
    match resolved(w, t) {
        Err(f) => (w, Some(unavailable(backend::target_name(t), fault_text(f)))),
        Ok(b) => if w.backend == b {
            (w, Some(switched(b)))
        } else if b == InputBackend::Evdev {
            (w, None)
        } else {
            (
                Watch { pending: Some(PendingAction::SwitchTo(b)), ..w },
                Some(switched(b)),
            )
        },
    }
}

/// What happens once the backend that ran has stopped.
#[derive(Debug, Clone, Copy, PartialEq, Eq, Structural)]
pub enum NextStep {
    Run(InputBackend),
    /// End the process.
    Exit,
    /// Report the result of the backend that stopped.
    Finish,
}

/// What happens once `current` has stopped, with a failure or not. Grabbed
/// keyboards that fail give way to the native backend, if there is one.
pub open spec fn next_step(w: Watch, current: InputBackend, failed: bool) -> NextStep {
    match w.pending {
        Some(PendingAction::SwitchTo(b)) => NextStep::Run(b),
        Some(PendingAction::Quit) => NextStep::Exit,
        None => if current == InputBackend::Evdev && failed && backend::native_backend(w.settings, w.build.ibus)
            != InputBackend::Auto {
            NextStep::Run(backend::native_backend(w.settings, w.build.ibus))
        } else {
            NextStep::Finish
        },
    }
}

/// What the IBus backend does when it looks for something to do.
#[derive(Debug, Clone, Copy, PartialEq, Eq, Structural)]
pub enum IbusStep {
    Wait,
    /// Grab keyboards, and keep the IBus connection: a new one would not be bound
    /// to its input context.
    Grab,
    /// Close the connection.
    Leave,
}

impl Supervisor {
    pub fn new(
        config: Config,
        enabled: bool,
        backend: InputBackend,
        build: BuildSupport,
    ) -> (s: Self)
        ensures
            s@ == (Watch {
                settings: config@,
                enabled,
                backend,
                build,
                ibus_suspended: false,
                pending: None,
            }),
    {
        Supervisor {
            config,
            enabled,
            backend,
            build,
            ibus_suspended: false,
            pending_action: None,
        }
    }

    /// The backend to start with. Keyboards that are to be grabbed are grabbed as
    /// soon as another backend runs.
    pub fn start(&mut self) -> (r: Result<InputBackend, BackendFault>)
        ensures
            ({
                let b = backend::startup_backend(old(self)@.settings, old(self)@.build.ibus);
                if b == InputBackend::Auto {
                    r == Err::<InputBackend, BackendFault>(BackendFault::NoneEnabled)
                        && final(self)@ == old(self)@
                } else {
                    r == Ok::<InputBackend, BackendFault>(b) && final(self)@ == if old(
                        self,
                    )@.settings.enable_evdev_grab && b != InputBackend::Evdev {
                        Watch {
                            pending: Some(PendingAction::SwitchTo(InputBackend::Evdev)),
                            ..old(self)@
                        }
                    } else {
                        old(self)@
                    }
                }
            }),
    {
        let b = InputBackend::startup_at_build(&self.config, self.build.ibus);
        if b == InputBackend::Auto {
            return Err(BackendFault::NoneEnabled);
        }
        if self.config.enable_evdev_grab && b != InputBackend::Evdev {
            self.pending_action = Some(PendingAction::SwitchTo(InputBackend::Evdev));
        }
        Ok(b)
    }

    /// What to do now that `current` has stopped.
    pub fn after_stop(&mut self, current: InputBackend, failed: bool) -> (n: NextStep)
        ensures
            n == next_step(old(self)@, current, failed),
            final(self)@ == (Watch { pending: None, ..old(self)@ }),
    {
        let pending = self.pending_action;
        self.pending_action = None;
        match pending {
            Some(PendingAction::SwitchTo(b)) => NextStep::Run(b),
            Some(PendingAction::Quit) => NextStep::Exit,
            None => {
                let native = InputBackend::native_at_build(&self.config, self.build.ibus);
                if current == InputBackend::Evdev && failed && native != InputBackend::Auto {
                    NextStep::Run(native)
                } else {
                    NextStep::Finish
                }
            },
        }
    }

    pub fn current_backend(&self) -> (b: InputBackend)
        ensures
            b == self@.backend,
    {
        self.backend
    }

    /// A backend is up: it is the one announced from now on.
    pub fn announce(&mut self, b: InputBackend)
        ensures
            final(self)@ == (Watch { backend: b, ..old(self)@ }),
    {
        self.backend = b;
    }

    pub fn resolve_target(&self, target: BackendTarget) -> (r: Result<InputBackend, BackendFault>)
        ensures
            r == resolved(self@, target),
    {
        let b = match target {
            BackendTarget::Native => InputBackend::native_at_build(&self.config, self.build.ibus),
            BackendTarget::Evdev => InputBackend::Evdev,
            BackendTarget::Toggle => if self.backend == InputBackend::Evdev {
                InputBackend::native_at_build(&self.config, self.build.ibus)
            } else {
                InputBackend::Evdev
            },
        };
        if b == InputBackend::Auto {
            return Err(BackendFault::NoNative);
        }
        match backend_supported_at_build(b, self.build) {
            Err(f) => Err(f),
            Ok(()) => Ok(b),
        }
    }

    fn set_enabled(&mut self, on: bool) -> (s: CmdStep)
        ensures
            final(self)@ == (Watch { enabled: on, ..old(self)@ }),
            s matches CmdStep::Reply { reply, announce } && reply@ == Answer::Enabled(on)
                && announce == Some(on),
    {
        self.enabled = on;
        CmdStep::Reply { reply: ControlReply::Enabled(on), announce: Some(on) }
    }

    /// Carry out a command. A switch only takes effect when the backend that runs
    /// has stopped.
    pub fn handle_cmd(&mut self, kind: CmdKind) -> (s: CmdStep)
        ensures
            match kind {
                CmdKind::Toggle | CmdKind::Enable | CmdKind::Disable => {
                    let on = control::enabled_after(kind, old(self)@.enabled);
                    &&& final(self)@ == (Watch { enabled: on, ..old(self)@ })
                    &&& s matches CmdStep::Reply { reply, announce } && reply@ == Answer::Enabled(
                        on,
                    ) && announce == Some(on)
                },
                CmdKind::Status => {
                    &&& final(self)@ == old(self)@
                    &&& s matches CmdStep::Reply { reply, announce } && reply@ == Answer::Enabled(
                        old(self)@.enabled,
                    ) && announce is None
                },
                CmdKind::BackendStatus => {
                    &&& final(self)@ == old(self)@
                    &&& s matches CmdStep::Reply { reply, announce } && reply@ == Answer::Backend(
                        old(self)@.backend,
                    ) && announce is None
                },
                CmdKind::Quit => {
                    &&& final(self)@ == (Watch { pending: Some(PendingAction::Quit), ..old(self)@ })
                    &&& s matches CmdStep::Reply { reply, announce } && reply@ == Answer::Enabled(
                        old(self)@.enabled,
                    ) && announce is None
                },
                CmdKind::SetBackend(t) => {
                    let (w, a) = switch_step(old(self)@, t);
                    &&& final(self)@ == w
                    &&& match a {
                        Some(a) => s matches CmdStep::Reply { reply, announce } && reply@ == a
                            && announce is None,
                        None => s is CheckGrab,
                    }
                },
            },
    {
        match kind {
            CmdKind::Toggle => {
                let on = !self.enabled;
                self.set_enabled(on)
            },
            CmdKind::Enable => self.set_enabled(true),
            CmdKind::Disable => self.set_enabled(false),
            CmdKind::Status => CmdStep::Reply {
                reply: ControlReply::Enabled(self.enabled),
                announce: None,
            },
            CmdKind::BackendStatus => CmdStep::Reply {
                reply: ControlReply::Backend(self.backend),
                announce: None,
            },
            CmdKind::SetBackend(t) => self.switch_backend(t),
            CmdKind::Quit => {
                self.pending_action = Some(PendingAction::Quit);
                CmdStep::Reply { reply: ControlReply::Enabled(self.enabled), announce: None }
            },
        }
    }

    fn switch_backend(&mut self, t: BackendTarget) -> (s: CmdStep)
        ensures
            ({
                let (w, a) = switch_step(old(self)@, t);
                &&& final(self)@ == w
                &&& match a {
                    Some(a) => s matches CmdStep::Reply { reply, announce } && reply@ == a
                        && announce is None,
                    None => s is CheckGrab,
                }
            }),
    {
        let b = match self.resolve_target(t) {
            Err(f) => {
                return CmdStep::Reply {
                    reply: unavailable_reply(t.as_str(), f.message()),
                    announce: None,
                };
            },
            Ok(b) => b,
        };
        if self.backend == b {
            return CmdStep::Reply { reply: switched_reply(b), announce: None };
        }
        if b == InputBackend::Evdev {
            return CmdStep::CheckGrab;
        }
        self.pending_action = Some(PendingAction::SwitchTo(b));
        CmdStep::Reply { reply: switched_reply(b), announce: None }
    }

    /// Finish a switch to grabbed keyboards, once it was checked whether they can
    /// be grabbed.
    pub fn finish_grab_switch(&mut self, check: Result<(), String>) -> (r: ControlReply)
        ensures
            match check {
                Ok(()) => {
                    &&& final(self)@ == (Watch {
                        pending: Some(PendingAction::SwitchTo(InputBackend::Evdev)),
                        ..old(self)@
                    })
                    &&& r@ == switched(InputBackend::Evdev)
                },
                Err(e) => {
                    &&& final(self)@ == old(self)@
                    &&& r@ == unavailable("evdev"@, e@)
                },
            },
    {
        match check {
            Ok(()) => {
                self.pending_action = Some(PendingAction::SwitchTo(InputBackend::Evdev));
                switched_reply(InputBackend::Evdev)
            },
            Err(e) => unavailable_reply("evdev", e.as_str()),
        }
    }

    /// Whether the backend that runs has to stop.
    pub fn must_stop(&self) -> (b: bool)
        ensures
            b == self@.pending is Some,
    {
        self.pending_action.is_some()
    }

    /// What the IBus backend does next.
    pub fn ibus_step(&mut self) -> (s: IbusStep)
        ensures
            match old(self)@.pending {
                None => s == IbusStep::Wait && final(self)@ == old(self)@,
                Some(PendingAction::SwitchTo(InputBackend::Evdev)) => s == IbusStep::Grab
                    && final(self)@ == (Watch { pending: None, ..old(self)@ }),
                Some(_) => s == IbusStep::Leave && final(self)@ == old(self)@,
            },
    {
        match self.pending_action {
            None => IbusStep::Wait,
            Some(PendingAction::SwitchTo(InputBackend::Evdev)) => {
                self.pending_action = None;
                IbusStep::Grab
            },
            Some(_) => IbusStep::Leave,
        }
    }

    /// Keyboards are grabbed beside a live IBus connection: its engine passes keys
    /// on, so that no key is composed twice.
    pub fn enter_grab_beside_ibus(&mut self)
        ensures
            final(self)@ == (Watch {
                ibus_suspended: true,
                backend: InputBackend::Evdev,
                ..old(self)@
            }),
    {
        self.ibus_suspended = true;
        self.backend = InputBackend::Evdev;
    }

    /// The keyboards beside IBus were let go: its engine composes again.
    pub fn leave_grab_beside_ibus(&mut self)
        ensures
            final(self)@ == (Watch { ibus_suspended: false, ..old(self)@ }),
    {
        self.ibus_suspended = false;
    }

    /// Whether the IBus connection goes on after keyboards beside it were let go.
    /// It does unless another backend or the end was asked for.
    pub fn resume_ibus(&mut self) -> (resumed: bool)
        ensures
            resumed == (old(self)@.pending is None || old(self)@.pending == Some(
                PendingAction::SwitchTo(InputBackend::Ibus),
            )),
            final(self)@ == if resumed {
                Watch { pending: None, backend: InputBackend::Ibus, ..old(self)@ }
            } else {
                old(self)@
            },
    {
        let resumed = match self.pending_action {
            None => true,
            Some(PendingAction::SwitchTo(InputBackend::Ibus)) => true,
            Some(_) => false,
        };
        if resumed {
            self.pending_action = None;
            self.backend = InputBackend::Ibus;
        }
        resumed
    }
}

/// A run of grabbed keyboards and the hooks around it. Hooks are set up while the
/// keyboards already run, and undone after both have ended.
#[derive(Debug)]
pub struct GrabRun {
    /// The hooks are in effect.
    pub hooks_applied: bool,
    /// How the keyboards ended, once they did.
    pub ended: Option<Result<(), String>>,
}

/// What a run of grabbed keyboards does next.
#[derive(Debug)]
pub enum GrabStep {
    Wait,
    /// The keyboards ended: wait for the hooks only.
    AwaitHooks,
    /// Undo the hooks.
    Undo,
    /// It is over, with this result.
    Finish(Result<(), String>),
}

/// A result with its error as characters.
pub open spec fn result_view(r: Result<(), String>) -> Result<(), Seq<char>> {
    match r {
        Ok(()) => Ok(()),
        Err(e) => Err(e@),
    }
}

/// How the keyboards ended, as characters.
pub open spec fn ended_view(r: Option<Result<(), String>>) -> Option<Result<(), Seq<char>>> {
    match r {
        Some(r) => Some(result_view(r)),
        None => None,
    }
}

/// The first of two results that is an error.
pub open spec fn both(a: Result<(), Seq<char>>, b: Result<(), Seq<char>>) -> Result<(), Seq<char>> {
    match a {
        Err(e) => Err(e),
        Ok(()) => b,
    }
}

impl GrabRun {
    pub fn new() -> (g: Self)
        ensures
            !g.hooks_applied,
            g.ended is None,
    {
        GrabRun { hooks_applied: false, ended: None }
    }

    /// The hooks are set up, or could not be.
    pub fn hooks_ready(&mut self, r: Result<(), String>) -> (s: GrabStep)
        ensures
            match r {
                Err(e) => s matches GrabStep::Finish(f) && result_view(f) == Err::<(), Seq<char>>(
                    e@,
                ) && *final(self) == *old(self),
                Ok(()) => {
                    &&& final(self).hooks_applied
                    &&& final(self).ended == old(self).ended
                    &&& old(self).ended is None ==> s is Wait
                    &&& old(self).ended is Some ==> s is Undo
                },
            },
    {
        match r {
            Err(e) => GrabStep::Finish(Err(e)),
            Ok(()) => {
                self.hooks_applied = true;
                if self.ended.is_some() {
                    GrabStep::Undo
                } else {
                    GrabStep::Wait
                }
            },
        }
    }

    /// The keyboards ended.
    pub fn keyboards_ended(&mut self, r: Result<(), String>) -> (s: GrabStep)
        ensures
            final(self).hooks_applied == old(self).hooks_applied,
            final(self).ended == Some(r),
            old(self).hooks_applied ==> s is Undo,
            !old(self).hooks_applied ==> s is AwaitHooks,
    {
        self.ended = Some(r);
        if self.hooks_applied {
            GrabStep::Undo
        } else {
            GrabStep::AwaitHooks
        }
    }

    /// The hooks are undone, or could not be: the result of it all. A failure of
    /// the keyboards comes first.
    pub fn hooks_undone(self, undo: Result<(), String>) -> (r: Result<(), String>)
        ensures
            result_view(r) == match ended_view(self.ended) {
                Some(e) => both(e, result_view(undo)),
                None => result_view(undo),
            },
    {
        match self.ended {
            Some(Err(e)) => Err(e),
            _ => undo,
        }
    }
}

/// A request to quit or to switch is never lost: the backend that runs has to stop,
/// and then the request is carried out, whether the backend failed or not.
pub proof fn law_requests_are_carried_out(w: Watch, a: PendingAction, b: InputBackend, f: bool)
    requires
        w.pending == Some(a),
    ensures
        next_step(w, b, f) == match a {
            PendingAction::SwitchTo(n) => NextStep::Run(n),
            PendingAction::Quit => NextStep::Exit,
        },
{
}

/// A request for the native backend is never turned down for want of IBus: a build
/// without it takes the native backend that there is.
pub proof fn law_native_needs_no_ibus(w: Watch)
    ensures
        resolved(w, BackendTarget::Native) != Err::<InputBackend, BackendFault>(
            BackendFault::IbusNotBuilt,
        ),
        !w.build.ibus && w.settings.enable_wayland ==> resolved(w, BackendTarget::Native) == Ok::<
            InputBackend,
            BackendFault,
        >(InputBackend::Wayland),
{
}

/// A switch never leads to the pseudo backend that only stands for a choice.
pub proof fn law_switches_are_concrete(w: Watch, t: BackendTarget)
    ensures
        resolved(w, t) matches Ok(b) ==> b != InputBackend::Auto && build_fault(b, w.build) is None,
        switch_step(w, t).0.pending matches Some(PendingAction::SwitchTo(InputBackend::Auto))
            ==> w.pending == Some(PendingAction::SwitchTo(InputBackend::Auto)),
{
}

/// Grabbed keyboards that fail do not end the daemon while a native backend is
/// there to take over; a native backend that fails is reported.
pub proof fn law_failed_grab_falls_back(w: Watch)
    requires
        w.pending is None,
    ensures
        backend::native_backend(w.settings, w.build.ibus) != InputBackend::Auto ==> next_step(
            w,
            InputBackend::Evdev,
            true,
        ) == NextStep::Run(backend::native_backend(w.settings, w.build.ibus)),
        next_step(w, InputBackend::Wayland, true) == NextStep::Finish,
        next_step(w, InputBackend::Ibus, true) == NextStep::Finish,
        next_step(w, InputBackend::Evdev, false) == NextStep::Finish,
{
}

/// Toggling asks for the other side: keyboards are grabbed unless they are, and
/// given back if they are.
pub proof fn law_toggle_resolves_other_side(w: Watch)
    ensures
        w.backend != InputBackend::Evdev ==> requested(w, BackendTarget::Toggle)
            == InputBackend::Evdev,
        w.backend == InputBackend::Evdev ==> requested(w, BackendTarget::Toggle)
            == backend::native_backend(w.settings, w.build.ibus),
{
}

/// A switch that cannot be made changes nothing, and says why; one to the backend that runs
/// changes nothing, and is answered as done. A grab is looked into first. Any other is
/// noted, and nothing else changes.
pub proof fn law_switches_are_noted_or_answered(w: Watch, t: BackendTarget)
    ensures
        ({
            let (after, answer) = switch_step(w, t);
            let wanted = if t == BackendTarget::Evdev || (t == BackendTarget::Toggle && w.backend
                != InputBackend::Evdev) {
                InputBackend::Evdev
            } else {
                backend::native_backend(w.settings, w.build.ibus)
            };
            let possible = wanted != InputBackend::Auto && (wanted == InputBackend::Evdev
                ==> w.build.evdev_grab) && (wanted == InputBackend::Ibus ==> w.build.ibus);
            &&& !possible ==> after == w && answer is Some && answer->0 is Error
            &&& possible && wanted == w.backend ==> after == w && answer == Some(
                Answer::Done("backend "@ + backend::backend_name(wanted)),
            )
            &&& possible && wanted != w.backend && wanted == InputBackend::Evdev ==> after == w
                && answer is None
            &&& possible && wanted != w.backend && wanted != InputBackend::Evdev ==> after == (
            Watch { pending: Some(PendingAction::SwitchTo(wanted)), ..w }) && answer == Some(
                Answer::Done("backend "@ + backend::backend_name(wanted)),
            )
        }),
{
}

/// Why a backend cannot run is what was left out of the build, and each fault has its own
/// words.
pub proof fn law_faults_say_what_is_missing(b: InputBackend, build: BuildSupport)
    ensures
        build_fault(b, build) == Some(BackendFault::IbusNotBuilt) <==> b == InputBackend::Ibus
            && !build.ibus,
        build_fault(b, build) == Some(BackendFault::EvdevNotBuilt) <==> b == InputBackend::Evdev
            && !build.evdev_grab,
        b == InputBackend::Wayland || b == InputBackend::Auto ==> build_fault(b, build) is None,
{
}

/// What failed first is what is reported, and nothing is reported where nothing failed.
pub proof fn law_first_failure_counts(a: Result<(), Seq<char>>, b: Result<(), Seq<char>>)
    ensures
        both(a, b) is Ok <==> a is Ok && b is Ok,
        a is Err ==> both(a, b) == a,
        a is Ok ==> both(a, b) == b,
{
}

} // verus!
