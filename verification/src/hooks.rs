//! Hooks around a keyboard grab.
//!
//! A hook is a pair of scripts, one that prepares the desktop for the grab and
//! one that undoes it. They are set up in order and undone in reverse order.
use vstd::prelude::*;
use vstd::string::*;

use crate::config;
use crate::config::Config;
use crate::numbers;
use crate::paths;
use crate::strings;

pub mod resolve;

use resolve::{resolve_hooks, Places};

verus! {

/// A hook and where its scripts are.
#[derive(Debug)]
pub struct HookSpec {
    pub name: String,
    pub set_path: String,
    pub unset_path: String,
}

/// [`HookSpec`] as characters.
pub struct Hook {
    pub name: Seq<char>,
    pub set_path: Seq<char>,
    pub unset_path: Seq<char>,
}

impl View for HookSpec {
    type V = Hook;

    open spec fn view(&self) -> Hook {
        Hook { name: self.name@, set_path: self.set_path@, unset_path: self.unset_path@ }
    }
}

/// Hooks as characters.
pub open spec fn hooks_view(v: Seq<HookSpec>) -> Seq<Hook> {
    v.map_values(|h: HookSpec| h@)
}

/// What became of a hook.
#[derive(Debug, PartialEq, Eq)]
pub enum SetupOutcome {
    Applied(String),
    Skipped(String),
}

/// [`SetupOutcome`] as characters.
pub enum Outcome {
    Applied(Seq<char>),
    Skipped(Seq<char>),
}

impl View for SetupOutcome {
    type V = Outcome;

    open spec fn view(&self) -> Outcome {
        match *self {
            SetupOutcome::Applied(n) => Outcome::Applied(n@),
            SetupOutcome::Skipped(n) => Outcome::Skipped(n@),
        }
    }
}

/// Outcomes as characters.
pub open spec fn outcomes_view(v: Seq<SetupOutcome>) -> Seq<Outcome> {
    v.map_values(|o: SetupOutcome| o@)
}

/// Hooks that are in effect.
#[derive(Debug)]
pub struct AppliedHooks {
    pub hooks: Vec<HookSpec>,
}

/// The names of hooks.
pub open spec fn hook_names(hooks: Seq<Hook>) -> Seq<Seq<char>> {
    hooks.map_values(|h: Hook| h.name)
}

impl AppliedHooks {
    pub fn is_empty(&self) -> (b: bool)
        ensures
            b == (self.hooks@.len() == 0),
    {
        self.hooks.len() == 0
    }

    pub fn names(&self) -> (v: Vec<String>)
        ensures
            strings::texts(v@) == hook_names(hooks_view(self.hooks@)),
    {
        let ghost all = hook_names(hooks_view(self.hooks@));
        let mut v: Vec<String> = Vec::new();
        for i in 0..self.hooks.len()
            invariant
                all == hook_names(hooks_view(self.hooks@)),
                strings::texts(v@) == all.take(i as int),
        {
            let name = self.hooks[i].name.as_str().to_owned();
            let ghost before = strings::texts(v@);
            v.push(name);
            assert(strings::texts(v@) =~= before.push(name@));
            assert(all.take(i + 1) =~= all.take(i as int).push(all[i as int]));
        }
        assert(all.take(self.hooks.len() as int) =~= all);
        v
    }
}

/// Why hooks are refused or failed.
#[derive(Debug)]
pub enum HookError {
    EmptyName,
    /// A name with anything but ASCII letters, digits, `_` and `-`.
    UnsafeName(String),
    /// A script could not be run.
    Run(String),
    SetFailed { name: String, code: i32 },
    UnsetFailed { name: String, code: i32 },
}

/// [`HookError`] as characters.
pub enum Failure {
    EmptyName,
    UnsafeName(Seq<char>),
    Run(Seq<char>),
    SetFailed { name: Seq<char>, code: i32 },
    UnsetFailed { name: Seq<char>, code: i32 },
}

impl View for HookError {
    type V = Failure;

    open spec fn view(&self) -> Failure {
        match *self {
            HookError::EmptyName => Failure::EmptyName,
            HookError::UnsafeName(n) => Failure::UnsafeName(n@),
            HookError::Run(e) => Failure::Run(e@),
            HookError::SetFailed { name, code } => Failure::SetFailed { name: name@, code },
            HookError::UnsetFailed { name, code } => Failure::UnsetFailed { name: name@, code },
        }
    }
}

/// The text of an error.
pub open spec fn failure_text(f: Failure) -> Seq<char> {
    match f {
        Failure::EmptyName => "evdev hook name must not be empty"@,
        Failure::UnsafeName(n) => "evdev hook name "@ + strings::debug_text(n)
            + " must contain only ASCII letters, digits, '_' or '-'"@,
        Failure::Run(e) => e,
        Failure::SetFailed { name, code } => "evdev hook "@ + name
            + " set failed with exit code "@ + numbers::signed_decimal(code as int),
        Failure::UnsetFailed { name, code } => "evdev hook "@ + name
            + " unset failed with exit code "@ + numbers::signed_decimal(code as int),
    }
}

fn exit_text(name: &str, what: &str, code: i32) -> (s: String)
    ensures
        s@ == "evdev hook "@ + name@ + what@ + numbers::signed_decimal(code as int),
{
    let mut s = "evdev hook ".to_owned();
    s.push_str(name);
    s.push_str(what);
    let n = numbers::to_signed_decimal(code);
    s.push_str(n.as_str());
    s
}

impl HookError {
    pub fn message(&self) -> (s: String)
        ensures
            s@ == failure_text(self@),
    {
        match self {
            HookError::EmptyName => "evdev hook name must not be empty".to_owned(),
            HookError::UnsafeName(n) => {
                let mut s = "evdev hook name ".to_owned();
                let quoted = strings::to_debug_text(n.as_str());
                s.push_str(quoted.as_str());
                s.push_str(" must contain only ASCII letters, digits, '_' or '-'");
                s
            },
            HookError::Run(e) => e.as_str().to_owned(),
            HookError::SetFailed { name, code } => exit_text(
                name.as_str(),
                " set failed with exit code ",
                *code,
            ),
            HookError::UnsetFailed { name, code } => exit_text(
                name.as_str(),
                " unset failed with exit code ",
                *code,
            ),
        }
    }
}

/// One run of a hook script: its exit code, or that it could not be run.
pub struct HookCall {
    pub path: Seq<char>,
    pub phase: Seq<char>,
    pub name: Seq<char>,
    pub result: Result<i32, Seq<char>>,
}

/// A result with its error as characters.
pub open spec fn run_view(r: Result<i32, String>) -> Result<i32, Seq<char>> {
    match r {
        Ok(c) => Ok(c),
        Err(e) => Err(e@),
    }
}

/// Runs hook scripts. `calls` is the sequence of runs so far.
pub trait HookCommandRunner {
    open spec fn calls(&self) -> Seq<HookCall> {
        Seq::empty()
    }

    /// Run the script at `path` for a phase of hook `name`; its exit code.
    fn run(&mut self, path: &str, phase: &str, name: &str) -> (r: Result<i32, String>)
        ensures
            final(self).calls() == old(self).calls().push(
                HookCall { path: path@, phase: phase@, name: name@, result: run_view(r) },
            ),
    ;
}

/// The entries that were found in the hook directories.
pub struct HookFiles {
    /// Paths of regular files.
    pub files: Vec<String>,
    /// Paths of anything else.
    pub others: Vec<String>,
}

pub open spec fn is_file(f: HookFiles, path: Seq<char>) -> bool {
    strings::texts(f.files@).contains(path)
}

pub open spec fn is_entry(f: HookFiles, path: Seq<char>) -> bool {
    is_file(f, path) || strings::texts(f.others@).contains(path)
}

/// Both scripts of a hook are installed.
pub open spec fn scripts_installed(f: HookFiles, h: Hook) -> bool {
    is_file(f, h.set_path) && is_file(f, h.unset_path)
}

pub fn hook_scripts_present(hook: &HookSpec, files: &HookFiles) -> (b: bool)
    ensures
        b == scripts_installed(*files, hook@),
{
    strings::contains_text(&files.files, hook.set_path.as_str()) && strings::contains_text(
        &files.files,
        hook.unset_path.as_str(),
    )
}

/// The run that sets up a hook.
pub open spec fn set_call(h: Hook, result: Result<i32, Seq<char>>) -> HookCall {
    HookCall { path: h.set_path, phase: "set"@, name: h.name, result }
}

/// The run that undoes a hook.
pub open spec fn unset_call(h: Hook, result: Result<i32, Seq<char>>) -> HookCall {
    HookCall { path: h.unset_path, phase: "unset"@, name: h.name, result }
}

/// `calls` undoes `hooks`, each once, in reverse order.
pub open spec fn undoes(calls: Seq<HookCall>, hooks: Seq<Hook>) -> bool {
    &&& calls.len() == hooks.len()
    &&& forall|i: int|
        0 <= i < calls.len() ==> #[trigger] calls[i] == unset_call(
            hooks[hooks.len() - 1 - i],
            calls[i].result,
        )
}

/// A run that undoes a hook and fails; an exit code of 10 says that the hook does
/// not apply here.
pub open spec fn unset_failure(c: HookCall) -> Option<Failure> {
    match c.result {
        Ok(code) => if code == 0 || code == 10 {
            None
        } else {
            Some(Failure::UnsetFailed { name: c.name, code })
        },
        Err(e) => Some(Failure::Run(e)),
    }
}

/// The first failure among runs that undo hooks.
pub open spec fn first_failure(calls: Seq<HookCall>) -> Option<Failure>
    decreases calls.len(),
{
    if calls.len() == 0 {
        None
    } else {
        match first_failure(calls.drop_last()) {
            Some(f) => Some(f),
            None => unset_failure(calls.last()),
        }
    }
}

/// An error as characters, if there is one.
pub open spec fn failure_view(r: Result<(), HookError>) -> Option<Failure> {
    match r {
        Ok(()) => None,
        Err(e) => Some(e@),
    }
}

fn clone_hook(h: &HookSpec) -> (r: HookSpec)
    ensures
        r@ == h@,
{
    HookSpec {
        name: h.name.as_str().to_owned(),
        set_path: h.set_path.as_str().to_owned(),
        unset_path: h.unset_path.as_str().to_owned(),
    }
}

/// The runner's calls grew from `before` to `after` by undoing `hooks`, with this
/// failure.
pub open spec fn undone(
    before: Seq<HookCall>,
    after: Seq<HookCall>,
    hooks: Seq<Hook>,
    failure: Option<Failure>,
) -> bool {
    exists|calls: Seq<HookCall>|
        {
            &&& after == before + calls
            &&& #[trigger] undoes(calls, hooks)
            &&& failure == first_failure(calls)
        }
}

/// Undo hooks in reverse order. Every one of them is tried; the first failure is
/// reported.
pub fn run_cleanup_hooks<R: HookCommandRunner>(applied: &AppliedHooks, runner: &mut R) -> (r:
    Result<(), HookError>)
    ensures
        undone(
            old(runner).calls(),
            final(runner).calls(),
            hooks_view(applied.hooks@),
            failure_view(r),
        ),
{
    let ghost start = runner.calls();
    let ghost hooks = hooks_view(applied.hooks@);
    let n: usize = applied.hooks.len();
    let ghost mut calls: Seq<HookCall> = Seq::empty();
    let mut first: Result<(), HookError> = Ok(());
    for i in 0..n
        invariant
            n == applied.hooks@.len(),
            hooks == hooks_view(applied.hooks@),
            runner.calls() == start + calls,
            calls.len() == i,
            forall|j: int|
                0 <= j < i ==> #[trigger] calls[j] == unset_call(
                    hooks[hooks.len() - 1 - j],
                    calls[j].result,
                ),
            failure_view(first) == first_failure(calls),
    {
        let hook = &applied.hooks[n - 1 - i];
        let run = runner.run(hook.unset_path.as_str(), "unset", hook.name.as_str());
        let ghost call = unset_call(hook@, run_view(run));
        proof {
            assert(runner.calls() =~= start + calls.push(call));
            assert(calls.push(call).drop_last() =~= calls);
            calls = calls.push(call);
        }
        let outcome: Result<(), HookError> = match run {
            Ok(code) => if code == 0 || code == 10 {
                Ok(())
            } else {
                Err(HookError::UnsetFailed { name: hook.name.as_str().to_owned(), code })
            },
            Err(e) => Err(HookError::Run(e)),
        };
        assert(failure_view(outcome) == unset_failure(call));
        if first.is_ok() {
            first = outcome;
        }
    }
    assert(undoes(calls, hooks));
    first
}

/// How setting up the first hooks went, given the result of each script that was
/// run: the hooks now in effect, what became of each, the runs, and the failure
/// that ended it.
pub struct Setup {
    pub applied: Seq<Hook>,
    pub outcomes: Seq<Outcome>,
    pub calls: Seq<HookCall>,
    pub failure: Option<Failure>,
}

/// Setting up `hooks` one by one; `results[i]` is the result of hook `i`'s script
/// where that script is run. A hook whose scripts are not installed, or whose
/// script exits with 10, is skipped. Any other exit code, or a script that cannot
/// be run, ends it.
pub open spec fn setup(
    hooks: Seq<Hook>,
    installed: spec_fn(Hook) -> bool,
    results: Seq<Result<i32, Seq<char>>>,
) -> Setup
    decreases hooks.len(),
{
    if hooks.len() == 0 {
        Setup {
            applied: Seq::empty(),
            outcomes: Seq::empty(),
            calls: Seq::empty(),
            failure: None,
        }
    } else {
        let s = setup(hooks.drop_last(), installed, results.drop_last());
        let h = hooks.last();
        if s.failure is Some {
            s
        } else if !installed(h) {
            Setup { outcomes: s.outcomes.push(Outcome::Skipped(h.name)), ..s }
        } else {
            let calls = s.calls.push(set_call(h, results.last()));
            match results.last() {
                Err(e) => Setup { calls, failure: Some(Failure::Run(e)), ..s },
                Ok(code) => if code == 0 {
                    Setup {
                        applied: s.applied.push(h),
                        outcomes: s.outcomes.push(Outcome::Applied(h.name)),
                        calls,
                        ..s
                    }
                } else if code == 10 {
                    Setup { outcomes: s.outcomes.push(Outcome::Skipped(h.name)), calls, ..s }
                } else {
                    Setup {
                        calls,
                        failure: Some(Failure::SetFailed { name: h.name, code }),
                        ..s
                    }
                },
            }
        }
    }
}

/// Which hooks count as installed.
pub open spec fn installed_in(files: HookFiles, check_files: bool) -> spec_fn(Hook) -> bool {
    |h: Hook| !check_files || scripts_installed(files, h)
}

/// The runs of a setup and the result that it has: on success the hooks and their
/// outcomes; when a script exits with a failure, the hooks already in effect are
/// undone first.
pub open spec fn setup_done(
    s: Setup,
    before: Seq<HookCall>,
    after: Seq<HookCall>,
    r: Result<(Seq<Hook>, Seq<Outcome>), Failure>,
) -> bool {
    match s.failure {
        None => after == before + s.calls && r == Ok::<(Seq<Hook>, Seq<Outcome>), Failure>(
            (s.applied, s.outcomes),
        ),
        Some(f) => {
            &&& r == Err::<(Seq<Hook>, Seq<Outcome>), Failure>(f)
            &&& if f is SetFailed {
                exists|undo: Seq<HookCall>|
                    after == before + s.calls + undo && #[trigger] undoes(undo, s.applied)
            } else {
                after == before + s.calls
            }
        },
    }
}

/// Setting up `hooks` took the runner's calls from `before` to `after`, with this
/// result.
pub open spec fn setup_ran(
    hooks: Seq<Hook>,
    installed: spec_fn(Hook) -> bool,
    before: Seq<HookCall>,
    after: Seq<HookCall>,
    r: Result<(Seq<Hook>, Seq<Outcome>), Failure>,
) -> bool {
    exists|results: Seq<Result<i32, Seq<char>>>|
        results.len() == hooks.len() && setup_done(
            #[trigger] setup(hooks, installed, results),
            before,
            after,
            r,
        )
}

/// A setup result as characters.
pub open spec fn setup_view(r: Result<(AppliedHooks, Vec<SetupOutcome>), HookError>) -> Result<
    (Seq<Hook>, Seq<Outcome>),
    Failure,
> {
    match r {
        Ok((a, o)) => Ok((hooks_view(a.hooks@), outcomes_view(o@))),
        Err(e) => Err(e@),
    }
}

/// Set up hooks in order, with or without looking whether their scripts are
/// installed.
pub fn run_setup_hooks_inner<R: HookCommandRunner>(
    hooks: &Vec<HookSpec>,
    files: &HookFiles,
    runner: &mut R,
    check_files: bool,
) -> (r: Result<(AppliedHooks, Vec<SetupOutcome>), HookError>)
    ensures
        setup_ran(
            hooks_view(hooks@),
            installed_in(*files, check_files),
            old(runner).calls(),
            final(runner).calls(),
            setup_view(r),
        ),
{
    let ghost start = runner.calls();
    let ghost all = hooks_view(hooks@);
    let ghost inst = installed_in(*files, check_files);
    let ghost mut results: Seq<Result<i32, Seq<char>>> = Seq::empty();
    let mut applied: Vec<HookSpec> = Vec::new();
    let mut outcomes: Vec<SetupOutcome> = Vec::new();
    assert(all.take(0) =~= Seq::<Hook>::empty());
    assert(hooks_view(applied@) =~= Seq::<Hook>::empty());
    assert(outcomes_view(outcomes@) =~= Seq::<Outcome>::empty());
    assert(start + Seq::<HookCall>::empty() =~= start);
    for i in 0..hooks.len()
        invariant
            start == old(runner).calls(),
            all == hooks_view(hooks@),
            inst == installed_in(*files, check_files),
            results.len() == i,
            setup(all.take(i as int), inst, results).failure is None,
            hooks_view(applied@) == setup(all.take(i as int), inst, results).applied,
            outcomes_view(outcomes@) == setup(all.take(i as int), inst, results).outcomes,
            runner.calls() == start + setup(all.take(i as int), inst, results).calls,
    {
        let hook = &hooks[i];
        let ghost s = setup(all.take(i as int), inst, results);
        let ghost outcomes0 = outcomes_view(outcomes@);
        let ghost applied0 = hooks_view(applied@);
        let ghost h = hook@;
        proof {
            assert(all.take(i + 1).drop_last() =~= all.take(i as int));
            assert(all.take(i + 1).last() == h);
        }
        if check_files && !hook_scripts_present(hook, files) {
            outcomes.push(SetupOutcome::Skipped(hook.name.as_str().to_owned()));
            proof {
                let next = results.push(Ok(0));
                assert(next.drop_last() =~= results);
                results = next;
                assert(outcomes_view(outcomes@) =~= outcomes0.push(Outcome::Skipped(h.name)));
            }
        } else {
            let run = runner.run(hook.set_path.as_str(), "set", hook.name.as_str());
            let ghost result = run_view(run);
            proof {
                let next = results.push(result);
                assert(next.drop_last() =~= results);
                results = next;
                assert(runner.calls() =~= start + s.calls.push(set_call(h, result)));
            }
            match run {
                Err(e) => {
                    proof {
                        lemma_setup_stops(all, i + 1, inst, results);
                        let full = results + Seq::new(
                            (all.len() - (i + 1)) as nat,
                            |j: int| Ok::<i32, Seq<char>>(0),
                        );
                        assert(setup(all, inst, full).failure is Some);
                    }
                    return Err(HookError::Run(e));
                },
                Ok(code) => {
                    if code == 0 {
                        applied.push(clone_hook(hook));
                        outcomes.push(SetupOutcome::Applied(hook.name.as_str().to_owned()));
                        assert(hooks_view(applied@) =~= applied0.push(h));
                        assert(outcomes_view(outcomes@) =~= outcomes0.push(Outcome::Applied(h.name)));
                    } else if code == 10 {
                        outcomes.push(SetupOutcome::Skipped(hook.name.as_str().to_owned()));
                        assert(outcomes_view(outcomes@) =~= outcomes0.push(Outcome::Skipped(h.name)));
                    } else {
                        let ghost mid = runner.calls();
                        let name = hook.name.as_str().to_owned();
                        let applied_hooks = AppliedHooks { hooks: applied };
                        let _cleanup = run_cleanup_hooks(&applied_hooks, runner);
                        proof {
                            let hooks_set = hooks_view(applied_hooks.hooks@);
                            assert(undone(
                                mid,
                                runner.calls(),
                                hooks_set,
                                failure_view(_cleanup),
                            ));
                            let undo = choose|calls: Seq<HookCall>|
                                runner.calls() == mid + calls && #[trigger] undoes(
                                    calls,
                                    hooks_set,
                                );
                            lemma_setup_stops(all, i + 1, inst, results);
                            let full = results + Seq::new(
                                (all.len() - (i + 1)) as nat,
                                |j: int| Ok::<i32, Seq<char>>(0),
                            );
                            let s = setup(all, inst, full);
                            assert(runner.calls() =~= start + s.calls + undo);
                            assert(undoes(undo, s.applied));
                        }
                        return Err(HookError::SetFailed { name, code });
                    }
                },
            }
        }
    }
    proof {
        assert(all.take(hooks.len() as int) =~= all);
        assert(setup(all, inst, results).failure is None);
    }
    Ok((AppliedHooks { hooks: applied }, outcomes))
}

proof fn lemma_setup_stops(
    hooks: Seq<Hook>,
    k: int,
    installed: spec_fn(Hook) -> bool,
    results: Seq<Result<i32, Seq<char>>>,
)
    requires
        0 <= k <= hooks.len(),
        results.len() == k,
        setup(hooks.take(k), installed, results).failure is Some,
    ensures
        setup(
            hooks,
            installed,
            results + Seq::new((hooks.len() - k) as nat, |j: int| Ok::<i32, Seq<char>>(0)),
        ) == setup(hooks.take(k), installed, results),
    decreases hooks.len() - k,
{
    let rest = Seq::new((hooks.len() - k) as nat, |j: int| Ok::<i32, Seq<char>>(0));
    if k < hooks.len() {
        let more = results.push(Ok::<i32, Seq<char>>(0));
        assert(more.drop_last() =~= results);
        assert(hooks.take(k + 1).drop_last() =~= hooks.take(k));
        lemma_setup_stops(hooks, k + 1, installed, more);
        assert(results + rest =~= more + Seq::new(
            (hooks.len() - (k + 1)) as nat,
            |j: int| Ok::<i32, Seq<char>>(0),
        ));
    } else {
        assert(hooks.take(k) =~= hooks);
        assert(results + rest =~= results);
    }
}

/// Set up hooks in order. Hooks whose scripts are not installed are skipped: a
/// list that serves several desktops is no error.
pub fn run_setup_hooks<R: HookCommandRunner>(
    hooks: &Vec<HookSpec>,
    files: &HookFiles,
    runner: &mut R,
) -> (r: Result<(AppliedHooks, Vec<SetupOutcome>), HookError>)
    ensures
        setup_ran(
            hooks_view(hooks@),
            installed_in(*files, true),
            old(runner).calls(),
            final(runner).calls(),
            setup_view(r),
        ),
{
    run_setup_hooks_inner(hooks, files, runner, true)
}

/// A character that may stand in a hook's name.
pub open spec fn name_char(c: char) -> bool {
    'a' <= c <= 'z' || 'A' <= c <= 'Z' || '0' <= c <= '9' || c == '_' || c == '-'
}

/// A name that is safe in a file name and in a settings file.
pub open spec fn safe_name(name: Seq<char>) -> bool {
    name.len() > 0 && forall|i: int| 0 <= i < name.len() ==> name_char(#[trigger] name[i])
}

/// What is wrong with a hook's name.
pub open spec fn name_fault(name: Seq<char>) -> Option<Failure> {
    if safe_name(name) {
        None
    } else if name.len() == 0 {
        Some(Failure::EmptyName)
    } else {
        Some(Failure::UnsafeName(name))
    }
}

/// Whether a hook may have this name.
pub fn validate_hook_name(name: &str) -> (r: Result<(), HookError>)
    ensures
        failure_view(r) == name_fault(name@),
{
    let n: usize = name.unicode_len();
    if n == 0 {
        return Err(HookError::EmptyName);
    }
    for i in 0..n
        invariant
            n == name@.len(),
            n > 0,
            forall|j: int| 0 <= j < i ==> name_char(#[trigger] name@[j]),
    {
        let c = name.get_char(i);
        let allowed = ('a' <= c && c <= 'z') || ('A' <= c && c <= 'Z') || ('0' <= c && c <= '9')
            || c == '_' || c == '-';
        if !allowed {
            assert(!name_char(name@[i as int]));
            return Err(HookError::UnsafeName(name.to_owned()));
        }
    }
    Ok(())
}

/// What a script file's metadata says.
pub struct ScriptMeta {
    pub is_file: bool,
    pub mode: u32,
    pub owner: u32,
}

/// Why a script is not run.
#[derive(Debug, Clone, Copy, PartialEq, Eq, Structural)]
pub enum ScriptFault {
    NotRegular,
    Writable,
    ForeignOwner,
}

/// A script is run only when it is a regular file, nobody but its owner may write
/// it, and its owner is this user or root.
pub fn check_script(meta: &ScriptMeta, euid: u32) -> (r: Result<(), ScriptFault>)
    ensures
        r == if !meta.is_file {
            Err::<(), ScriptFault>(ScriptFault::NotRegular)
        } else if meta.mode & 0o022 != 0 {
            Err(ScriptFault::Writable)
        } else if meta.owner != euid && meta.owner != 0 {
            Err(ScriptFault::ForeignOwner)
        } else {
            Ok(())
        },
{
    if !meta.is_file {
        return Err(ScriptFault::NotRegular);
    }
    if meta.mode & 0o022 != 0 {
        return Err(ScriptFault::Writable);
    }
    if meta.owner != euid && meta.owner != 0 {
        return Err(ScriptFault::ForeignOwner);
    }
    Ok(())
}

/// The text that reports a fault of the script at `path`.
pub open spec fn script_fault_text(
    fault: ScriptFault,
    path: Seq<char>,
    owner: u32,
    euid: u32,
) -> Seq<char> {
    match fault {
        ScriptFault::NotRegular => "hook "@ + path + " is not a regular file"@,
        ScriptFault::Writable => "hook "@ + path
            + " is group/other writable; refusing to execute"@,
        ScriptFault::ForeignOwner => "hook "@ + path + " owner uid "@ + numbers::decimal(
            owner as nat,
        ) + " is neither daemon uid "@ + numbers::decimal(euid as nat) + " nor root"@,
    }
}

impl ScriptFault {
    pub fn message(self, path: &str, owner: u32, euid: u32) -> (s: String)
        ensures
            s@ == script_fault_text(self, path@, owner, euid),
    {
        let mut s = "hook ".to_owned();
        s.push_str(path);
        match self {
            ScriptFault::NotRegular => {
                s.push_str(" is not a regular file");
            },
            ScriptFault::Writable => {
                s.push_str(" is group/other writable; refusing to execute");
            },
            ScriptFault::ForeignOwner => {
                s.push_str(" owner uid ");
                let owner_text = numbers::to_decimal(owner as u64);
                s.push_str(owner_text.as_str());
                s.push_str(" is neither daemon uid ");
                let euid_text = numbers::to_decimal(euid as u64);
                s.push_str(euid_text.as_str());
                s.push_str(" nor root");
            },
        }
        s
    }
}

/// Where the hooks that are in effect are written down, below the directory for
/// run-time files.
pub fn rollback_marker_path(runtime_dir: &Option<String>) -> (r: Option<String>)
    ensures
        config::opt_text(r) == match config::opt_text(*runtime_dir) {
            Some(d) => Some(paths::join_of(d, "daklak-evdev-hooks.json"@)),
            None => None,
        },
{
    match runtime_dir {
        Some(d) => Some(paths::join(d.as_str(), "daklak-evdev-hooks.json")),
        None => None,
    }
}

/// What a rollback marker holds: the hooks themselves, or, from older versions,
/// only their names.
pub enum RollbackMarkerFile {
    Hooks(Vec<HookSpec>),
    Names(Vec<String>),
}

/// [`RollbackMarkerFile`] as characters.
pub enum Marker {
    Hooks(Seq<Hook>),
    Names(Seq<Seq<char>>),
}

impl View for RollbackMarkerFile {
    type V = Marker;

    open spec fn view(&self) -> Marker {
        match *self {
            RollbackMarkerFile::Hooks(v) => Marker::Hooks(hooks_view(v@)),
            RollbackMarkerFile::Names(v) => Marker::Names(strings::texts(v@)),
        }
    }
}

/// An optional marker as characters.
pub open spec fn opt_marker(m: Option<RollbackMarkerFile>) -> Option<Marker> {
    match m {
        Some(m) => Some(m@),
        None => None,
    }
}

/// What is written down while `applied` are in effect: the hooks themselves, or
/// nothing where there are none.
pub open spec fn marker_for(applied: Seq<Hook>) -> Option<Marker> {
    if applied.len() == 0 {
        None
    } else {
        Some(Marker::Hooks(applied))
    }
}

/// What is written down while `applied` are in effect.
pub fn rollback_marker(applied: &AppliedHooks) -> (m: Option<RollbackMarkerFile>)
    ensures
        opt_marker(m) == marker_for(hooks_view(applied.hooks@)),
{
    if applied.is_empty() {
        return None;
    }
    let ghost all = hooks_view(applied.hooks@);
    let mut hooks: Vec<HookSpec> = Vec::new();
    for i in 0..applied.hooks.len()
        invariant
            all == hooks_view(applied.hooks@),
            hooks_view(hooks@) == all.take(i as int),
    {
        let h = clone_hook(&applied.hooks[i]);
        let ghost before = hooks_view(hooks@);
        hooks.push(h);
        assert(hooks_view(hooks@) =~= before.push(h@));
        assert(all.take(i + 1) =~= before.push(all[i as int]));
    }
    assert(hooks_view(hooks@) =~= all);
    Some(RollbackMarkerFile::Hooks(hooks))
}

/// The first of `hooks` with this name.
pub open spec fn hook_named(hooks: Seq<Hook>, name: Seq<char>) -> Option<Hook>
    decreases hooks.len(),
{
    if hooks.len() == 0 {
        None
    } else {
        match hook_named(hooks.drop_last(), name) {
            Some(h) => Some(h),
            None => if hooks.last().name == name {
                Some(hooks.last())
            } else {
                None
            },
        }
    }
}

/// The hooks with these names, in their order; names of no hook are left out.
pub open spec fn hooks_named(hooks: Seq<Hook>, names: Seq<Seq<char>>) -> Seq<Hook>
    decreases names.len(),
{
    if names.len() == 0 {
        Seq::empty()
    } else {
        let rest = hooks_named(hooks, names.drop_last());
        match hook_named(hooks, names.last()) {
            Some(h) => rest.push(h),
            None => rest,
        }
    }
}

proof fn lemma_hook_named_stays(hooks: Seq<Hook>, k: int, name: Seq<char>)
    requires
        0 <= k <= hooks.len(),
        hook_named(hooks.take(k), name) is Some,
    ensures
        hook_named(hooks, name) == hook_named(hooks.take(k), name),
    decreases hooks.len() - k,
{
    if k < hooks.len() {
        assert(hooks.take(k + 1).drop_last() =~= hooks.take(k));
        lemma_hook_named_stays(hooks, k + 1, name);
    } else {
        assert(hooks.take(k) =~= hooks);
    }
}

/// An optional hook as characters.
pub open spec fn opt_hook(h: Option<HookSpec>) -> Option<Hook> {
    match h {
        Some(h) => Some(h@),
        None => None,
    }
}

fn find_hook(hooks: &Vec<HookSpec>, name: &str) -> (r: Option<HookSpec>)
    ensures
        opt_hook(r) == hook_named(hooks_view(hooks@), name@),
{
    let ghost all = hooks_view(hooks@);
    for i in 0..hooks.len()
        invariant
            all == hooks_view(hooks@),
            hook_named(all.take(i as int), name@) is None,
    {
        proof {
            assert(all.take(i + 1).drop_last() =~= all.take(i as int));
            assert(all.take(i + 1).last() == hooks[i as int]@);
        }
        if *hooks[i].name.as_str() == *name {
            proof {
                lemma_hook_named_stays(all, i + 1, name@);
            }
            return Some(clone_hook(&hooks[i]));
        }
    }
    assert(all.take(hooks.len() as int) =~= all);
    None
}

fn find_hooks(hooks: &Vec<HookSpec>, names: &Vec<String>) -> (r: Vec<HookSpec>)
    ensures
        hooks_view(r@) == hooks_named(hooks_view(hooks@), strings::texts(names@)),
{
    let ghost all = strings::texts(names@);
    let mut out: Vec<HookSpec> = Vec::new();
    assert(hooks_view(out@) =~= Seq::<Hook>::empty());
    for i in 0..names.len()
        invariant
            all == strings::texts(names@),
            hooks_view(out@) == hooks_named(hooks_view(hooks@), all.take(i as int)),
    {
        proof {
            assert(all.take(i + 1).drop_last() =~= all.take(i as int));
            assert(all.take(i + 1).last() == names[i as int]@);
        }
        if let Some(h) = find_hook(hooks, names[i].as_str()) {
            let ghost before = hooks_view(out@);
            out.push(h);
            assert(hooks_view(out@) =~= before.push(h@));
        }
    }
    assert(all.take(names.len() as int) =~= all);
    out
}

/// The hooks that a marker says are still in effect.
pub open spec fn stale_hooks(
    marker: Marker,
    names: Seq<Seq<char>>,
    dirs: Seq<Seq<char>>,
    files: HookFiles,
) -> Result<Seq<Hook>, Failure> {
    match marker {
        Marker::Hooks(hooks) => Ok(hooks),
        Marker::Names(v) => match resolve::resolved(names, dirs, files) {
            Err(f) => Err(f),
            Ok(hooks) => Ok(hooks_named(hooks, v)),
        },
    }
}

/// What became of the hooks that an earlier run left in effect.
pub struct Recovery {
    pub result: Result<(), HookError>,
    /// The marker is to be removed.
    pub clear_marker: bool,
}

/// The runner's calls grew from `before` to `after` by undoing what `marker` says,
/// with this failure; and the marker is cleared or kept. `names` are the hooks that
/// the settings list.
pub open spec fn recovered(
    marker: Option<Marker>,
    names: Seq<Seq<char>>,
    dirs: Seq<Seq<char>>,
    files: HookFiles,
    before: Seq<HookCall>,
    after: Seq<HookCall>,
    failure: Option<Failure>,
    cleared: bool,
) -> bool {
    match marker {
        None => after == before && failure is None && !cleared,
        Some(m) => cleared == (failure is None) && match stale_hooks(m, names, dirs, files) {
            Err(f) => failure == Some(f) && after == before,
            Ok(hooks) => undone(before, after, hooks, failure),
        },
    }
}

/// Undo the hooks that an earlier run left in effect, as the marker that it left
/// behind says. Without a marker there is nothing to do. On success the marker goes;
/// after a failure it stays, for the next start.
pub fn recover_stale_rollback<R: HookCommandRunner>(
    config: &Config,
    places: &Places,
    files: &HookFiles,
    marker: Option<RollbackMarkerFile>,
    runner: &mut R,
) -> (r: Recovery)
    ensures
        recovered(
            opt_marker(marker),
            config@.evdev_grab_hooks,
            resolve::search_dirs(*places),
            *files,
            old(runner).calls(),
            final(runner).calls(),
            failure_view(r.result),
            r.clear_marker,
        ),
{
    let hooks = match marker {
        None => {
            return Recovery { result: Ok(()), clear_marker: false };
        },
        Some(RollbackMarkerFile::Hooks(hooks)) => hooks,
        Some(RollbackMarkerFile::Names(names)) => {
            match resolve_hooks(config, places, files) {
                Err(e) => {
                    return Recovery { result: Err(e), clear_marker: false };
                },
                Ok(all) => find_hooks(&all, &names),
            }
        },
    };
    let result = run_cleanup_hooks(&AppliedHooks { hooks }, runner);
    let clear_marker = result.is_ok();
    Recovery { result, clear_marker }
}

/// A script that undoes a hook did its work, or had nothing to do.
pub open spec fn undid(call: HookCall) -> bool {
    call.result == Ok::<i32, Seq<char>>(0) || call.result == Ok::<i32, Seq<char>>(10)
}

proof fn lemma_no_failure(calls: Seq<HookCall>)
    ensures
        first_failure(calls) is None <==> (forall|i: int|
            0 <= i < calls.len() ==> undid(#[trigger] calls[i])),
    decreases calls.len(),
{
    if calls.len() > 0 {
        let front = calls.drop_last();
        lemma_no_failure(front);
        assert(forall|i: int| 0 <= i < front.len() ==> front[i] == calls[i]);
        assert(undid(calls[calls.len() - 1]) <==> unset_failure(calls.last()) is None);
        if forall|i: int| 0 <= i < calls.len() ==> undid(#[trigger] calls[i]) {
            assert(forall|i: int| 0 <= i < front.len() ==> undid(#[trigger] front[i]));
        }
        if first_failure(calls) is None {
            assert forall|i: int| 0 <= i < calls.len() implies undid(#[trigger] calls[i]) by {
                if i < front.len() {
                    assert(undid(front[i]));
                }
            }
        }
    }
}

/// Hooks that were written down as in effect are undone by the next start, whatever
/// the settings list by then: each once, by its own script, the last one first. That
/// succeeds if every script did its work or had nothing to do, and the marker goes if
/// it succeeds.
pub proof fn law_marked_hooks_are_undone(
    applied: Seq<Hook>,
    names: Seq<Seq<char>>,
    dirs: Seq<Seq<char>>,
    files: HookFiles,
    before: Seq<HookCall>,
    after: Seq<HookCall>,
    failure: Option<Failure>,
    cleared: bool,
)
    requires
        applied.len() > 0,
        recovered(marker_for(applied), names, dirs, files, before, after, failure, cleared),
    ensures
        after.len() == before.len() + applied.len(),
        after.take(before.len() as int) == before,
        forall|i: int|
            0 <= i < applied.len() ==> {
                let call = #[trigger] after[before.len() + i];
                let hook = applied[applied.len() - 1 - i];
                call.path == hook.unset_path && call.phase == "unset"@ && call.name == hook.name
            },
        failure is None <==> (forall|i: int|
            0 <= i < applied.len() ==> undid(#[trigger] after[before.len() + i])),
        cleared <==> failure is None,
{
    let calls = choose|calls: Seq<HookCall>|
        {
            &&& after == before + calls
            &&& #[trigger] undoes(calls, applied)
            &&& failure == first_failure(calls)
        };
    assert(after.take(before.len() as int) =~= before);
    assert(forall|i: int| 0 <= i < calls.len() ==> #[trigger] after[before.len() + i] == calls[i]);
    lemma_no_failure(calls);
    if failure is None {
        assert forall|i: int| 0 <= i < applied.len() implies undid(
            #[trigger] after[before.len() + i],
        ) by {
            assert(undid(calls[i]));
        }
    }
    if forall|i: int| 0 <= i < applied.len() ==> undid(#[trigger] after[before.len() + i]) {
        assert forall|i: int| 0 <= i < calls.len() implies undid(#[trigger] calls[i]) by {
            assert(undid(after[before.len() + i]));
        }
    }
}

/// Where no hook is in effect nothing is written down, and the next start has nothing
/// to undo.
pub proof fn law_nothing_marked_nothing_undone(
    names: Seq<Seq<char>>,
    dirs: Seq<Seq<char>>,
    files: HookFiles,
    before: Seq<HookCall>,
    after: Seq<HookCall>,
    failure: Option<Failure>,
    cleared: bool,
)
    requires
        recovered(marker_for(Seq::empty()), names, dirs, files, before, after, failure, cleared),
    ensures
        after == before,
        failure is None,
        !cleared,
{
}

/// A setup that fails because a script exits with a failure leaves no hook in
/// effect: its runs end with one that undoes each hook that it had set up, the
/// last one first.
pub proof fn law_failed_setup_is_undone(
    s: Setup,
    before: Seq<HookCall>,
    after: Seq<HookCall>,
    r: Result<(Seq<Hook>, Seq<Outcome>), Failure>,
)
    requires
        setup_done(s, before, after, r),
        s.failure matches Some(f) && f is SetFailed,
    ensures
        after.len() == before.len() + s.calls.len() + s.applied.len(),
        undoes(after.skip((before.len() + s.calls.len()) as int), s.applied),
{
    let undo = choose|undo: Seq<HookCall>|
        after == before + s.calls + undo && #[trigger] undoes(undo, s.applied);
    assert(after.skip((before.len() + s.calls.len()) as int) =~= undo);
}

/// A run that sets up one of `hooks`, and one that is installed.
pub open spec fn sets_one_of(
    call: HookCall,
    hooks: Seq<Hook>,
    installed: spec_fn(Hook) -> bool,
) -> bool {
    exists|h: Hook|
        #[trigger] hooks.contains(h) && installed(h) && call == set_call(h, call.result)
}

/// Every hook that is set up is one of the given hooks, was found installed, and
/// its script was run; hooks that are not installed are not run.
pub proof fn law_setup_runs_installed_hooks(
    hooks: Seq<Hook>,
    installed: spec_fn(Hook) -> bool,
    results: Seq<Result<i32, Seq<char>>>,
)
    requires
        results.len() == hooks.len(),
    ensures
        ({
            let s = setup(hooks, installed, results);
            &&& forall|i: int|
                0 <= i < s.calls.len() ==> sets_one_of(#[trigger] s.calls[i], hooks, installed)
            &&& forall|i: int|
                0 <= i < s.applied.len() ==> s.calls.contains(
                    set_call(#[trigger] s.applied[i], Ok(0)),
                )
        }),
    decreases hooks.len(),
{
    if hooks.len() > 0 {
        let before = setup(hooks.drop_last(), installed, results.drop_last());
        let s = setup(hooks, installed, results);
        law_setup_runs_installed_hooks(hooks.drop_last(), installed, results.drop_last());
        assert forall|i: int| 0 <= i < s.calls.len() implies sets_one_of(
            #[trigger] s.calls[i],
            hooks,
            installed,
        ) by {
            if i < before.calls.len() {
                assert(s.calls[i] == before.calls[i]);
                assert(sets_one_of(before.calls[i], hooks.drop_last(), installed));
                let h = choose|h: Hook|
                    #[trigger] hooks.drop_last().contains(h) && installed(h) && before.calls[i]
                        == set_call(h, before.calls[i].result);
                let j = choose|j: int| 0 <= j < hooks.drop_last().len() && hooks.drop_last()[j] == h;
                assert(hooks[j] == h);
                assert(hooks.contains(h));
            } else {
                assert(hooks[hooks.len() - 1] == hooks.last());
                assert(hooks.contains(hooks.last()));
            }
        }
        assert forall|i: int| 0 <= i < s.applied.len() implies s.calls.contains(
            set_call(#[trigger] s.applied[i], Ok(0)),
        ) by {
            if i < before.applied.len() {
                assert(s.applied[i] == before.applied[i]);
                let c = set_call(before.applied[i], Ok(0));
                let j = choose|j: int| 0 <= j < before.calls.len() && before.calls[j] == c;
                assert(s.calls[j] == c);
            } else {
                assert(s.calls[s.calls.len() - 1] == set_call(s.applied[i], Ok(0)));
            }
        }
    }
}

/// What setup applied, cleanup undoes in reverse, so the last hook set up is the
/// first undone.
pub proof fn law_cleanup_reverses(calls: Seq<HookCall>, hooks: Seq<Hook>, i: int)
    requires
        undoes(calls, hooks),
        0 <= i < hooks.len(),
    ensures
        calls[i].name == hooks.reverse()[i].name,
        calls[i].path == hooks.reverse()[i].unset_path,
{
    assert(calls[i] == unset_call(hooks[hooks.len() - 1 - i], calls[i].result));
}

/// A setup that goes through has an outcome for each hook, in order: a hook is applied
/// exactly when its scripts are there and its script ended with 0. The scripts that ran
/// are those of the hooks whose scripts are there.
pub proof fn law_outcomes_follow_the_hooks(
    hooks: Seq<Hook>,
    installed: spec_fn(Hook) -> bool,
    results: Seq<Result<i32, Seq<char>>>,
)
    requires
        results.len() == hooks.len(),
        setup(hooks, installed, results).failure is None,
    ensures
        ({
            let s = setup(hooks, installed, results);
            &&& s.outcomes.len() == hooks.len()
            &&& forall|i: int|
                0 <= i < hooks.len() ==> #[trigger] s.outcomes[i] == if installed(hooks[i])
                    && results[i] == Ok::<i32, Seq<char>>(0) {
                    Outcome::Applied(hooks[i].name)
                } else {
                    Outcome::Skipped(hooks[i].name)
                }
            &&& forall|i: int|
                0 <= i < hooks.len() && installed(#[trigger] hooks[i]) ==> results[i] == Ok::<
                    i32,
                    Seq<char>,
                >(0) || results[i] == Ok::<i32, Seq<char>>(10)
        }),
    decreases hooks.len(),
{
    if hooks.len() > 0 {
        let h = hooks.drop_last();
        let r = results.drop_last();
        let before = setup(h, installed, r);
        let s = setup(hooks, installed, results);
        assert(before.failure is None);
        law_outcomes_follow_the_hooks(h, installed, r);
        assert forall|i: int| 0 <= i < hooks.len() implies #[trigger] s.outcomes[i] == if installed(
            hooks[i],
        ) && results[i] == Ok::<i32, Seq<char>>(0) {
            Outcome::Applied(hooks[i].name)
        } else {
            Outcome::Skipped(hooks[i].name)
        } by {
            if i < h.len() {
                assert(h[i] == hooks[i] && r[i] == results[i]);
                assert(s.outcomes[i] == before.outcomes[i]);
            }
        }
        assert forall|i: int| 0 <= i < hooks.len() && installed(#[trigger] hooks[i]) implies results[i]
            == Ok::<i32, Seq<char>>(0) || results[i] == Ok::<i32, Seq<char>>(10) by {
            if i < h.len() {
                assert(h[i] == hooks[i] && r[i] == results[i]);
            }
        }
    }
}

/// A setup stops at the script that fails: it is the last that ran, and the failure is its
/// own.
pub proof fn law_setup_stops_at_the_failure(
    hooks: Seq<Hook>,
    installed: spec_fn(Hook) -> bool,
    results: Seq<Result<i32, Seq<char>>>,
)
    requires
        results.len() == hooks.len(),
        setup(hooks, installed, results).failure is Some,
    ensures
        ({
            let s = setup(hooks, installed, results);
            &&& s.calls.len() > 0
            &&& s.calls.last().phase == "set"@
            &&& s.failure == match s.calls.last().result {
                Err(e) => Some(Failure::Run(e)),
                Ok(code) => Some(Failure::SetFailed { name: s.calls.last().name, code }),
            }
            &&& s.calls.last().result matches Ok(code) ==> code != 0 && code != 10
        }),
    decreases hooks.len(),
{
    if hooks.len() > 0 {
        let before = setup(hooks.drop_last(), installed, results.drop_last());
        if before.failure is Some {
            law_setup_stops_at_the_failure(hooks.drop_last(), installed, results.drop_last());
        }
    }
}

/// A hook is looked up by its name: the first of that name, and none where there is none.
pub proof fn law_hooks_are_found_by_name(hooks: Seq<Hook>, name: Seq<char>)
    ensures
        match hook_named(hooks, name) {
            Some(h) => exists|i: int|
                0 <= i < hooks.len() && #[trigger] hooks[i] == h && h.name == name && forall|j: int|
                    0 <= j < i ==> (#[trigger] hooks[j]).name != name,
            None => forall|j: int| 0 <= j < hooks.len() ==> (#[trigger] hooks[j]).name != name,
        },
    decreases hooks.len(),
{
    if hooks.len() > 0 {
        let rest = hooks.drop_last();
        law_hooks_are_found_by_name(rest, name);
        match hook_named(rest, name) {
            Some(h) => {
                let i = choose|i: int|
                    0 <= i < rest.len() && #[trigger] rest[i] == h && h.name == name && forall|
                        j: int,
                    |
                        0 <= j < i ==> (#[trigger] rest[j]).name != name;
                assert(hooks[i] == h);
                assert forall|j: int| 0 <= j < i implies (#[trigger] hooks[j]).name != name by {
                    assert(rest[j] == hooks[j]);
                }
            },
            None => {
                assert forall|j: int| 0 <= j < hooks.len() - 1 implies (#[trigger] hooks[j]).name
                    != name by {
                    assert(rest[j] == hooks[j]);
                }
                assert(hooks[hooks.len() - 1] == hooks.last());
            },
        }
    }
}

/// A name is safe by its characters alone, so that no path can be made of it; what is
/// wrong with a name is said.
pub proof fn law_safe_names_make_no_paths(name: Seq<char>)
    ensures
        safe_name(name) ==> !name.contains('/') && !name.contains('.') && !name.contains(' ')
            && !name.contains('\0'),
        name_fault(name) is None <==> safe_name(name),
        name.len() == 0 ==> name_fault(name) == Some(Failure::EmptyName),
        name.len() > 0 && !safe_name(name) ==> name_fault(name) == Some(Failure::UnsafeName(name)),
{
}

/// Hooks that were applied are recorded, and where none was there is nothing to record.
pub proof fn law_markers_record_hooks(applied: Seq<Hook>)
    ensures
        marker_for(applied) is None <==> applied.len() == 0,
        marker_for(applied) matches Some(m) ==> m == Marker::Hooks(applied),
{
}

/// A name of letters, digits, underscores and hyphens is safe, and any other is not; the
/// files are looked for only where that is asked for.
pub proof fn law_safe_names(name: Seq<char>, files: HookFiles, h: Hook)
    ensures
        safe_name(name) <==> name.len() > 0 && forall|i: int|
            0 <= i < name.len() ==> {
                let c = #[trigger] name[i];
                'a' <= c <= 'z' || 'A' <= c <= 'Z' || '0' <= c <= '9' || c == '_' || c == '-'
            },
        installed_in(files, false)(h),
        installed_in(files, true)(h) <==> strings::texts(files.files@).contains(h.set_path)
            && strings::texts(files.files@).contains(h.unset_path),
{
}

/// The failure that is reported is that of the first script that failed, and there is none
/// where none did.
pub proof fn law_first_failure_is_reported(calls: Seq<HookCall>, k: int)
    requires
        0 <= k <= calls.len(),
        forall|i: int| 0 <= i < k ==> undid(#[trigger] calls[i]),
        k < calls.len() ==> !undid(calls[k]),
    ensures
        first_failure(calls) == if k == calls.len() {
            None
        } else {
            match calls[k].result {
                Ok(code) => Some(Failure::UnsetFailed { name: calls[k].name, code }),
                Err(e) => Some(Failure::Run(e)),
            }
        },
    decreases calls.len(),
{
    if calls.len() > 0 {
        let rest = calls.drop_last();
        assert(forall|i: int| 0 <= i < rest.len() ==> #[trigger] rest[i] == calls[i]);
        if k == calls.len() {
            assert(undid(calls[calls.len() - 1]));
            law_first_failure_is_reported(rest, k - 1);
        } else {
            law_first_failure_is_reported(rest, k);
        }
    }
}

/// Hooks that are looked up by their names come in the order of the names.
pub proof fn law_hooks_come_in_the_order_of_their_names(hooks: Seq<Hook>, names: Seq<Seq<char>>)
    requires
        forall|i: int| 0 <= i < names.len() ==> hook_named(hooks, #[trigger] names[i]) is Some,
    ensures
        hooks_named(hooks, names).len() == names.len(),
        forall|i: int|
            0 <= i < names.len() ==> #[trigger] hooks_named(hooks, names)[i] == hook_named(
                hooks,
                names[i],
            )->0,
    decreases names.len(),
{
    if names.len() > 0 {
        let rest = names.drop_last();
        assert(forall|i: int| 0 <= i < rest.len() ==> #[trigger] rest[i] == names[i]);
        assert(names.last() == names[names.len() - 1]);
        law_hooks_come_in_the_order_of_their_names(hooks, rest);
    }
}

} // verus!
