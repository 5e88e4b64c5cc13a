//! Where hooks are found.
use vstd::prelude::*;
use vstd::string::*;

use crate::config;
use crate::config::Config;
use crate::hooks;
use crate::hooks::{
    hook_scripts_present,
    validate_hook_name,
    Failure,
    Hook,
    HookError,
    HookFiles,
    HookSpec,
};
use crate::paths;
use crate::strings;

verus! {

/// Both scripts of hook `name` in directory `dir`.
pub open spec fn hook_at(dir: Seq<char>, name: Seq<char>) -> Hook {
    Hook {
        name,
        set_path: paths::join_of(dir, name + "-set"@),
        unset_path: paths::join_of(dir, name + "-unset"@),
    }
}

fn hook_pair_paths(dir: &str, name: &str) -> (h: HookSpec)
    ensures
        h@ == hook_at(dir@, name@),
{
    let mut set_name = name.to_owned();
    set_name.push_str("-set");
    let mut unset_name = name.to_owned();
    unset_name.push_str("-unset");
    HookSpec {
        name: name.to_owned(),
        set_path: paths::join(dir, set_name.as_str()),
        unset_path: paths::join(dir, unset_name.as_str()),
    }
}

/// At least one script of a hook is there.
pub open spec fn scripts_partial(f: HookFiles, h: Hook) -> bool {
    hooks::is_entry(f, h.set_path) || hooks::is_entry(f, h.unset_path)
}

fn hook_pair_is_partial(hook: &HookSpec, files: &HookFiles) -> (b: bool)
    ensures
        b == scripts_partial(*files, hook@),
{
    strings::contains_text(&files.files, hook.set_path.as_str()) || strings::contains_text(
        &files.others,
        hook.set_path.as_str(),
    ) || strings::contains_text(&files.files, hook.unset_path.as_str())
        || strings::contains_text(&files.others, hook.unset_path.as_str())
}

/// The first of `dirs` in which `found` holds of hook `name`.
pub open spec fn first_dir(
    dirs: Seq<Seq<char>>,
    name: Seq<char>,
    found: spec_fn(Hook) -> bool,
) -> Option<Seq<char>>
    decreases dirs.len(),
{
    if dirs.len() == 0 {
        None
    } else {
        match first_dir(dirs.drop_last(), name, found) {
            Some(d) => Some(d),
            None => if found(hook_at(dirs.last(), name)) {
                Some(dirs.last())
            } else {
                None
            },
        }
    }
}

proof fn lemma_first_dir_stays(
    dirs: Seq<Seq<char>>,
    k: int,
    name: Seq<char>,
    found: spec_fn(Hook) -> bool,
)
    requires
        0 <= k <= dirs.len(),
        first_dir(dirs.take(k), name, found) is Some,
    ensures
        first_dir(dirs, name, found) == first_dir(dirs.take(k), name, found),
    decreases dirs.len() - k,
{
    if k < dirs.len() {
        assert(dirs.take(k + 1).drop_last() =~= dirs.take(k));
        lemma_first_dir_stays(dirs, k + 1, name, found);
    } else {
        assert(dirs.take(k) =~= dirs);
    }
}

/// Where a hook is taken from: the first directory that has both scripts, else the
/// first that has one, else the first of all.
pub open spec fn hook_home(
    name: Seq<char>,
    dirs: Seq<Seq<char>>,
    files: HookFiles,
) -> Seq<char> {
    match first_dir(dirs, name, |h: Hook| hooks::scripts_installed(files, h)) {
        Some(d) => d,
        None => match first_dir(dirs, name, |h: Hook| scripts_partial(files, h)) {
            Some(d) => d,
            None => if dirs.len() > 0 {
                dirs[0]
            } else {
                Seq::empty()
            },
        },
    }
}

/// The scripts of hook `name`, looked for in `dirs` in order.
pub fn resolve_hook_pair(name: &str, dirs: &Vec<String>, files: &HookFiles) -> (h: HookSpec)
    ensures
        h@ == hook_at(hook_home(name@, strings::texts(dirs@), *files), name@),
{
    let ghost all = strings::texts(dirs@);
    let ghost complete = |h: Hook| hooks::scripts_installed(*files, h);
    let ghost partial = |h: Hook| scripts_partial(*files, h);
    for i in 0..dirs.len()
        invariant
            all == strings::texts(dirs@),
            complete == |h: Hook| hooks::scripts_installed(*files, h),
            first_dir(all.take(i as int), name@, complete) is None,
    {
        let hook = hook_pair_paths(dirs[i].as_str(), name);
        proof {
            assert(all.take(i + 1).drop_last() =~= all.take(i as int));
            assert(all.take(i + 1).last() == dirs[i as int]@);
        }
        if hook_scripts_present(&hook, files) {
            proof {
                lemma_first_dir_stays(all, i + 1, name@, complete);
            }
            return hook;
        }
    }
    assert(all.take(dirs.len() as int) =~= all);
    for i in 0..dirs.len()
        invariant
            all == strings::texts(dirs@),
            complete == |h: Hook| hooks::scripts_installed(*files, h),
            partial == |h: Hook| scripts_partial(*files, h),
            first_dir(all, name@, complete) is None,
            first_dir(all.take(i as int), name@, partial) is None,
    {
        let hook = hook_pair_paths(dirs[i].as_str(), name);
        proof {
            assert(all.take(i + 1).drop_last() =~= all.take(i as int));
            assert(all.take(i + 1).last() == dirs[i as int]@);
        }
        if hook_pair_is_partial(&hook, files) {
            proof {
                lemma_first_dir_stays(all, i + 1, name@, partial);
            }
            return hook;
        }
    }
    assert(all.take(dirs.len() as int) =~= all);
    if dirs.len() > 0 {
        assert(all[0] == dirs[0]@);
        hook_pair_paths(dirs[0].as_str(), name)
    } else {
        let none = String::new();
        assert(none@ =~= Seq::<char>::empty());
        hook_pair_paths(none.as_str(), name)
    }
}

/// The hooks of a list of names, or what is wrong with the first bad name.
pub open spec fn resolved(
    names: Seq<Seq<char>>,
    dirs: Seq<Seq<char>>,
    files: HookFiles,
) -> Result<Seq<Hook>, Failure>
    decreases names.len(),
{
    if names.len() == 0 {
        Ok(Seq::empty())
    } else {
        match resolved(names.drop_last(), dirs, files) {
            Err(f) => Err(f),
            Ok(hooks) => match hooks::name_fault(names.last()) {
                Some(f) => Err(f),
                None => Ok(
                    hooks.push(hook_at(hook_home(names.last(), dirs, files), names.last())),
                ),
            },
        }
    }
}

proof fn lemma_resolved_fails(
    names: Seq<Seq<char>>,
    k: int,
    dirs: Seq<Seq<char>>,
    files: HookFiles,
)
    requires
        0 <= k <= names.len(),
        resolved(names.take(k), dirs, files) is Err,
    ensures
        resolved(names, dirs, files) == resolved(names.take(k), dirs, files),
    decreases names.len() - k,
{
    if k < names.len() {
        assert(names.take(k + 1).drop_last() =~= names.take(k));
        lemma_resolved_fails(names, k + 1, dirs, files);
    } else {
        assert(names.take(k) =~= names);
    }
}

/// A list of hooks, or an error, as characters.
pub open spec fn specs_view(r: Result<Vec<HookSpec>, HookError>) -> Result<Seq<Hook>, Failure> {
    match r {
        Ok(v) => Ok(hooks::hooks_view(v@)),
        Err(e) => Err(e@),
    }
}

/// The hooks that the settings name, looked for in `dirs`.
pub fn resolve_hooks_in_dirs(config: &Config, dirs: &Vec<String>, files: &HookFiles) -> (r: Result<
    Vec<HookSpec>,
    HookError,
>)
    ensures
        specs_view(r) == resolved(config@.evdev_grab_hooks, strings::texts(dirs@), *files),
{
    let names = &config.evdev_grab_hooks;
    let ghost all = strings::texts(names@);
    let ghost places = strings::texts(dirs@);
    let mut out: Vec<HookSpec> = Vec::new();
    assert(hooks::hooks_view(out@) =~= Seq::<Hook>::empty());
    assert(all.take(0) =~= Seq::<Seq<char>>::empty());
    for i in 0..names.len()
        invariant
            all == strings::texts(names@),
            names@ == config.evdev_grab_hooks@,
            places == strings::texts(dirs@),
            resolved(all.take(i as int), places, *files) == Ok::<Seq<Hook>, Failure>(
                hooks::hooks_view(out@),
            ),
    {
        let name = names[i].as_str();
        proof {
            assert(all.take(i + 1).drop_last() =~= all.take(i as int));
            assert(all.take(i + 1).last() == name@);
        }
        match validate_hook_name(name) {
            Err(e) => {
                proof {
                    lemma_resolved_fails(all, i + 1, places, *files);
                }
                return Err(e);
            },
            Ok(()) => {},
        }
        let hook = resolve_hook_pair(name, dirs, files);
        let ghost before = hooks::hooks_view(out@);
        out.push(hook);
        assert(hooks::hooks_view(out@) =~= before.push(hook@));
    }
    assert(all.take(names.len() as int) =~= all);
    Ok(out)
}

/// The places that decide where hooks and keyboard data are looked for.
pub struct Places {
    /// `XDG_CONFIG_HOME`.
    pub config_home: Option<String>,
    /// `HOME`.
    pub home: Option<String>,
    /// The directory that an environment variable of this program names.
    pub override_dir: Option<String>,
    /// The directory that the build named.
    pub built_in: Option<String>,
}

/// A directory that is set at run time, else at build time; an empty one counts
/// as not set.
pub open spec fn builtin_dir(run: Option<Seq<char>>, build: Option<Seq<char>>) -> Option<
    Seq<char>,
> {
    match run {
        Some(d) if d.len() > 0 => Some(d),
        _ => match build {
            Some(d) if d.len() > 0 => Some(d),
            _ => None,
        },
    }
}

fn nonempty(s: &Option<String>) -> (r: Option<String>)
    ensures
        config::opt_text(r) == match config::opt_text(*s) {
            Some(d) if d.len() > 0 => Some(d),
            _ => None,
        },
{
    match s {
        Some(d) => if d.as_str().unicode_len() > 0 {
            Some(d.as_str().to_owned())
        } else {
            None
        },
        None => None,
    }
}

/// A directory that is set at run time, else at build time.
pub fn resolve_builtin_dir(run: &Option<String>, build: &Option<String>) -> (r: Option<String>)
    ensures
        config::opt_text(r) == builtin_dir(config::opt_text(*run), config::opt_text(*build)),
{
    match nonempty(run) {
        Some(d) => Some(d),
        None => nonempty(build),
    }
}

/// The user's own hook directory.
pub open spec fn user_dir(config_home: Option<Seq<char>>, home: Option<Seq<char>>) -> Option<
    Seq<char>,
> {
    match config_home {
        Some(d) => Some(paths::join_of(paths::join_of(d, "daklak"@), "hooks"@)),
        None => match home {
            Some(h) => Some(
                paths::join_of(
                    paths::join_of(paths::join_of(h, ".config"@), "daklak"@),
                    "hooks"@,
                ),
            ),
            None => None,
        },
    }
}

/// The user's own hook directory, if the environment says where it is.
pub fn hook_dir(places: &Places) -> (r: Option<String>)
    ensures
        config::opt_text(r) == user_dir(
            config::opt_text(places.config_home),
            config::opt_text(places.home),
        ),
{
    match &places.config_home {
        Some(d) => {
            let d = paths::join(d.as_str(), "daklak");
            Some(paths::join(d.as_str(), "hooks"))
        },
        None => match &places.home {
            Some(h) => {
                let d = paths::join(h.as_str(), ".config");
                let d = paths::join(d.as_str(), "daklak");
                Some(paths::join(d.as_str(), "hooks"))
            },
            None => None,
        },
    }
}

/// An optional text as a list of at most one.
pub open spec fn listed(d: Option<Seq<char>>) -> Seq<Seq<char>> {
    match d {
        Some(d) => seq![d],
        None => Seq::empty(),
    }
}

/// The install directory under the user's home.
pub open spec fn local_dir(home: Option<Seq<char>>) -> Option<Seq<char>> {
    match home {
        Some(h) => Some(
            paths::join_of(
                paths::join_of(
                    paths::join_of(paths::join_of(h, ".local"@), "libexec"@),
                    "daklak"@,
                ),
                "hooks"@,
            ),
        ),
        None => None,
    }
}

/// Where hooks are looked for, in order: the user's own directory, the install
/// under the home directory, the system's, and at last the built-in directory,
/// unless it is one of the others.
pub open spec fn search_dirs(p: Places) -> Seq<Seq<char>> {
    let dirs = listed(
        user_dir(config::opt_text(p.config_home), config::opt_text(p.home)),
    ) + listed(local_dir(config::opt_text(p.home))) + seq!["/usr/libexec/daklak/hooks"@];
    match builtin_dir(config::opt_text(p.override_dir), config::opt_text(p.built_in)) {
        Some(d) if !paths::is_among(d, dirs) => dirs.push(d),
        _ => dirs,
    }
}

fn note_dir(dirs: &mut Vec<String>, d: Option<String>)
    ensures
        strings::texts(final(dirs)@) == strings::texts(old(dirs)@) + listed(config::opt_text(d)),
{
    let ghost before = strings::texts(dirs@);
    match d {
        Some(d) => {
            dirs.push(d);
            assert(strings::texts(dirs@) =~= before + seq![d@]);
        },
        None => {
            assert(before + Seq::<Seq<char>>::empty() =~= before);
        },
    }
}

/// Where hooks are looked for, in order.
pub fn hook_search_dirs(places: &Places) -> (v: Vec<String>)
    ensures
        strings::texts(v@) == search_dirs(*places),
{
    let mut dirs: Vec<String> = Vec::new();
    assert(strings::texts(dirs@) =~= Seq::<Seq<char>>::empty());
    note_dir(&mut dirs, hook_dir(places));
    assert(strings::texts(dirs@) =~= listed(
        user_dir(config::opt_text(places.config_home), config::opt_text(places.home)),
    ));
    let local = match &places.home {
        Some(h) => {
            let d = paths::join(h.as_str(), ".local");
            let d = paths::join(d.as_str(), "libexec");
            let d = paths::join(d.as_str(), "daklak");
            Some(paths::join(d.as_str(), "hooks"))
        },
        None => None,
    };
    note_dir(&mut dirs, local);
    note_dir(&mut dirs, Some("/usr/libexec/daklak/hooks".to_owned()));
    if let Some(d) = resolve_builtin_dir(&places.override_dir, &places.built_in) {
        if !paths::among(d.as_str(), &dirs) {
            let ghost before = strings::texts(dirs@);
            dirs.push(d);
            assert(strings::texts(dirs@) =~= before.push(d@));
        }
    }
    dirs
}

/// The hooks that the settings name, looked for in all the usual places.
pub fn resolve_hooks(config: &Config, places: &Places, files: &HookFiles) -> (r: Result<
    Vec<HookSpec>,
    HookError,
>)
    ensures
        specs_view(r) == resolved(config@.evdev_grab_hooks, search_dirs(*places), *files),
{
    let dirs = hook_search_dirs(places);
    resolve_hooks_in_dirs(config, &dirs, files)
}

/// Where keyboard data is looked for, in order, when no directory is set.
pub open spec fn xkb_candidates(p: Places) -> Seq<Seq<char>> {
    listed(
        match config::opt_text(p.config_home) {
            Some(c) => Some(paths::join_of(paths::join_of(c, "daklak"@), "xkb"@)),
            None => match config::opt_text(p.home) {
                Some(h) => Some(
                    paths::join_of(
                        paths::join_of(paths::join_of(h, ".config"@), "daklak"@),
                        "xkb"@,
                    ),
                ),
                None => None,
            },
        },
    ) + listed(
        match config::opt_text(p.home) {
            Some(h) => Some(
                paths::join_of(
                    paths::join_of(
                        paths::join_of(paths::join_of(h, ".local"@), "share"@),
                        "daklak"@,
                    ),
                    "xkb"@,
                ),
            ),
            None => None,
        },
    ) + seq!["/usr/share/daklak/xkb"@]
}

/// Where keyboard data is looked for, in order, when no directory is set.
pub fn xkb_search_dirs(places: &Places) -> (v: Vec<String>)
    ensures
        strings::texts(v@) == xkb_candidates(*places),
{
    let mut dirs: Vec<String> = Vec::new();
    assert(strings::texts(dirs@) =~= Seq::<Seq<char>>::empty());
    let user = match &places.config_home {
        Some(c) => {
            let d = paths::join(c.as_str(), "daklak");
            Some(paths::join(d.as_str(), "xkb"))
        },
        None => match &places.home {
            Some(h) => {
                let d = paths::join(h.as_str(), ".config");
                let d = paths::join(d.as_str(), "daklak");
                Some(paths::join(d.as_str(), "xkb"))
            },
            None => None,
        },
    };
    let ghost first = listed(config::opt_text(user));
    note_dir(&mut dirs, user);
    assert(strings::texts(dirs@) =~= first);
    let local = match &places.home {
        Some(h) => {
            let d = paths::join(h.as_str(), ".local");
            let d = paths::join(d.as_str(), "share");
            let d = paths::join(d.as_str(), "daklak");
            Some(paths::join(d.as_str(), "xkb"))
        },
        None => None,
    };
    note_dir(&mut dirs, local);
    note_dir(&mut dirs, Some("/usr/share/daklak/xkb".to_owned()));
    dirs
}

/// A hook is looked for in the directories one after the other: the first that has what
/// is looked for is taken.
pub proof fn law_first_directory_is_taken(
    dirs: Seq<Seq<char>>,
    name: Seq<char>,
    found: spec_fn(Hook) -> bool,
)
    ensures
        match first_dir(dirs, name, found) {
            Some(d) => exists|i: int|
                0 <= i < dirs.len() && #[trigger] dirs[i] == d && found(hook_at(d, name)) && forall|
                    j: int,
                |
                    0 <= j < i ==> !found(hook_at(#[trigger] dirs[j], name)),
            None => forall|j: int|
                0 <= j < dirs.len() ==> !found(hook_at(#[trigger] dirs[j], name)),
        },
    decreases dirs.len(),
{
    if dirs.len() > 0 {
        let rest = dirs.drop_last();
        law_first_directory_is_taken(rest, name, found);
        match first_dir(rest, name, found) {
            Some(d) => {
                let i = choose|i: int|
                    0 <= i < rest.len() && #[trigger] rest[i] == d && found(hook_at(d, name))
                        && forall|j: int|
                        0 <= j < i ==> !found(hook_at(#[trigger] rest[j], name));
                assert(dirs[i] == d);
                assert forall|j: int| 0 <= j < i implies !found(
                    hook_at(#[trigger] dirs[j], name),
                ) by {
                    assert(rest[j] == dirs[j]);
                }
            },
            None => {
                assert forall|j: int| 0 <= j < dirs.len() - 1 implies !found(
                    hook_at(#[trigger] dirs[j], name),
                ) by {
                    assert(rest[j] == dirs[j]);
                }
                assert(dirs[dirs.len() - 1] == dirs.last());
            },
        }
    }
}

/// Names are resolved one by one, in order: each to its scripts in the directory where it
/// lives.
pub proof fn law_names_are_resolved_in_order(
    names: Seq<Seq<char>>,
    dirs: Seq<Seq<char>>,
    files: HookFiles,
)
    ensures
        (forall|i: int| 0 <= i < names.len() ==> hooks::safe_name(#[trigger] names[i]))
            <==> resolved(names, dirs, files) is Ok,
        resolved(names, dirs, files) matches Ok(v) ==> v.len() == names.len() && forall|i: int|
            0 <= i < names.len() ==> (#[trigger] v[i]).name == names[i] && v[i].set_path
                == paths::join_of(hook_home(names[i], dirs, files), names[i] + "-set"@)
                && v[i].unset_path == paths::join_of(
                hook_home(names[i], dirs, files),
                names[i] + "-unset"@,
            ),
    decreases names.len(),
{
    if names.len() > 0 {
        let rest = names.drop_last();
        law_names_are_resolved_in_order(rest, dirs, files);
        assert(names.last() == names[names.len() - 1]);
        assert(forall|i: int| 0 <= i < rest.len() ==> #[trigger] rest[i] == names[i]);
        if forall|i: int| 0 <= i < names.len() ==> hooks::safe_name(#[trigger] names[i]) {
            assert forall|i: int| 0 <= i < rest.len() implies hooks::safe_name(
                #[trigger] rest[i],
            ) by {
                assert(hooks::safe_name(names[i]));
            }
        }
        if let Ok(v) = resolved(names, dirs, files) {
            let w = resolved(rest, dirs, files)->Ok_0;
            assert forall|i: int| 0 <= i < names.len() implies hooks::safe_name(
                #[trigger] names[i],
            ) by {
                if i < rest.len() {
                    assert(hooks::safe_name(rest[i]));
                }
            }
            assert forall|i: int| 0 <= i < names.len() implies (#[trigger] v[i]).name == names[i]
                && v[i].set_path == paths::join_of(
                hook_home(names[i], dirs, files),
                names[i] + "-set"@,
            ) && v[i].unset_path == paths::join_of(
                hook_home(names[i], dirs, files),
                names[i] + "-unset"@,
            ) by {
                if i < rest.len() {
                    assert(v[i] == w[i]);
                }
            }
        }
    }
}

/// A hook lives where both of its scripts are, in the first such directory; where there is
/// none, in the first that has one of them.
pub proof fn law_hooks_live_with_their_scripts(
    name: Seq<char>,
    dirs: Seq<Seq<char>>,
    files: HookFiles,
    k: int,
)
    requires
        0 <= k < dirs.len(),
    ensures
        ({
            let whole = |h: Hook| hooks::scripts_installed(files, h);
            let part = |h: Hook|
                hooks::is_entry(files, h.set_path) || hooks::is_entry(files, h.unset_path);
            &&& whole(hook_at(dirs[k], name)) && (forall|j: int|
                0 <= j < k ==> !whole(hook_at(#[trigger] dirs[j], name))) ==> hook_home(
                name,
                dirs,
                files,
            ) == dirs[k]
            &&& part(hook_at(dirs[k], name)) && (forall|j: int|
                0 <= j < k ==> !part(hook_at(#[trigger] dirs[j], name))) && (forall|j: int|
                0 <= j < dirs.len() ==> !whole(hook_at(#[trigger] dirs[j], name))) ==> hook_home(
                name,
                dirs,
                files,
            ) == dirs[k]
            &&& (forall|j: int| 0 <= j < dirs.len() ==> !part(hook_at(#[trigger] dirs[j], name)))
                && (forall|j: int| 0 <= j < dirs.len() ==> !whole(hook_at(#[trigger] dirs[j], name)))
                ==> hook_home(name, dirs, files) == dirs[0]
        }),
{
    let whole = |h: Hook| hooks::scripts_installed(files, h);
    let part = |h: Hook| scripts_partial(files, h);
    law_first_directory_is_taken(dirs, name, whole);
    law_first_directory_is_taken(dirs, name, part);
}

/// The directories are searched in order: the user's own, those of a local installation,
/// the system's, and last the one that is named for this run or this build. None of that
/// last kind is searched twice.
pub proof fn law_search_order(p: Places)
    ensures
        ({
            let d = search_dirs(p);
            let user = user_dir(config::opt_text(p.config_home), config::opt_text(p.home));
            let local = local_dir(config::opt_text(p.home));
            let m = listed(user).len() + listed(local).len();
            &&& d.len() > m && d[m as int] == "/usr/libexec/daklak/hooks"@
            &&& user is Some ==> d[0] == user->0
            &&& local is Some ==> d[m - 1] == local->0
            &&& d.len() <= m + 2
            &&& d.len() == m + 2 ==> d.last().len() > 0 && !paths::is_among(
                d.last(),
                d.drop_last(),
            )
            &&& config::opt_text(p.override_dir) matches Some(o) ==> (o.len() > 0
                && !paths::is_among(o, d.take(m as int + 1)) ==> d.last() == o)
        }),
{
    let user = user_dir(config::opt_text(p.config_home), config::opt_text(p.home));
    let local = local_dir(config::opt_text(p.home));
    let base = listed(user) + listed(local) + seq!["/usr/libexec/daklak/hooks"@];
    let d = search_dirs(p);
    let m = (listed(user).len() + listed(local).len()) as int;
    assert(d.take(m + 1) =~= base);
    if d.len() == m + 2 {
        assert(d.drop_last() =~= base);
    }
}

} // verus!
