//! The tray icon's menu.
use vstd::prelude::*;
use vstd::string::*;

use crate::backend::{BackendTarget, InputBackend};
use crate::config::{Config, MethodConfig};
use crate::control;
use crate::control::{CmdKind, ConfigChange};
use crate::hooks;
use crate::hooks::validate_hook_name;
use crate::settings_file::TrayChange;
use crate::strings;

verus! {

/// What the tray shows and controls.
#[derive(Debug)]
pub struct DaklakTray {
    pub enabled: bool,
    pub method: MethodConfig,
    pub modern_style: bool,
    /// Whether keyboards are grabbed at startup.
    pub evdev_enabled: bool,
    /// The backend that runs now.
    pub backend: InputBackend,
    pub evdev_grab_hooks: Vec<String>,
}

/// [`DaklakTray`] as values.
pub struct Tray {
    pub enabled: bool,
    pub method: MethodConfig,
    pub modern_style: bool,
    pub evdev_enabled: bool,
    pub backend: InputBackend,
    pub hooks: Seq<Seq<char>>,
}

impl View for DaklakTray {
    type V = Tray;

    open spec fn view(&self) -> Tray {
        Tray {
            enabled: self.enabled,
            method: self.method,
            modern_style: self.modern_style,
            evdev_enabled: self.evdev_enabled,
            backend: self.backend,
            hooks: strings::texts(self.evdev_grab_hooks@),
        }
    }
}

/// A hook in the menu.
#[derive(Debug)]
pub struct HookItem {
    pub name: String,
    pub checked: bool,
}

/// What a checked entry of the menu stands for.
#[derive(Debug, Clone, Copy, PartialEq, Eq, Structural)]
pub enum Setting {
    /// Tones are placed the legacy way.
    LegacyTones,
    /// Keyboards are grabbed.
    EvdevGrab,
}

/// An entry of the menu.
#[derive(Debug)]
pub enum MenuEntry {
    /// Sends a command.
    Button { label: String, command: CmdKind },
    /// Chooses the input method.
    Modes { label: String, selected: usize, options: Vec<String> },
    /// Turns a setting on or off.
    Check { label: String, checked: bool, setting: Setting },
    /// Turns hooks on or off.
    Hooks { label: String, items: Vec<HookItem> },
}

/// [`HookItem`] as values.
pub struct Item {
    pub name: Seq<char>,
    pub checked: bool,
}

/// Hooks in the menu as values.
pub open spec fn items_view(v: Seq<HookItem>) -> Seq<Item> {
    v.map_values(|h: HookItem| Item { name: h.name@, checked: h.checked })
}

/// [`MenuEntry`] as values.
pub enum Entry {
    Button { label: Seq<char>, command: CmdKind },
    Modes { label: Seq<char>, selected: usize, options: Seq<Seq<char>> },
    Check { label: Seq<char>, checked: bool, setting: Setting },
    Hooks { label: Seq<char>, items: Seq<Item> },
}

impl View for MenuEntry {
    type V = Entry;

    open spec fn view(&self) -> Entry {
        match *self {
            MenuEntry::Button { label, command } => Entry::Button { label: label@, command },
            MenuEntry::Modes { label, selected, options } => Entry::Modes {
                label: label@,
                selected,
                options: strings::texts(options@),
            },
            MenuEntry::Check { label, checked, setting } => Entry::Check {
                label: label@,
                checked,
                setting,
            },
            MenuEntry::Hooks { label, items } => Entry::Hooks {
                label: label@,
                items: items_view(items@),
            },
        }
    }
}

/// A menu as values.
pub open spec fn menu_view(v: Seq<MenuEntry>) -> Seq<Entry> {
    v.map_values(|e: MenuEntry| e@)
}

/// The label of the entry that grabs keyboards.
pub open spec fn evdev_label(on: bool) -> Seq<char> {
    if on {
        "Evdev grab backend active"@
    } else {
        "Enable evdev grab backend"@
    }
}

pub fn evdev_toggle_label(evdev_enabled: bool) -> (s: &'static str)
    ensures
        s@ == evdev_label(evdev_enabled),
{
    if evdev_enabled {
        "Evdev grab backend active"
    } else {
        "Enable evdev grab backend"
    }
}

/// The place of a method among the modes.
pub open spec fn mode_index(m: MethodConfig) -> usize {
    match m {
        MethodConfig::Telex => 0,
        MethodConfig::Vni => 1,
        MethodConfig::Viqr => 2,
    }
}

/// The method at a place among the modes.
pub open spec fn mode_at(i: usize) -> Option<MethodConfig> {
    if i == 0 {
        Some(MethodConfig::Telex)
    } else if i == 1 {
        Some(MethodConfig::Vni)
    } else if i == 2 {
        Some(MethodConfig::Viqr)
    } else {
        None
    }
}

/// The entry that turns composition on or off.
pub open spec fn power_entry(on: bool) -> Entry {
    if on {
        Entry::Button { label: "Off"@, command: CmdKind::Disable }
    } else {
        Entry::Button { label: "On"@, command: CmdKind::Enable }
    }
}

/// The entries for hooks, in the order of `names`.
pub open spec fn hook_items(t: Tray, names: Seq<Seq<char>>) -> Seq<Item> {
    names.map_values(|n: Seq<char>| Item { name: n, checked: t.hooks.contains(n) })
}

/// The entries that every build has.
pub open spec fn common_entries(t: Tray) -> Seq<Entry> {
    seq![
        power_entry(t.enabled),
        Entry::Modes {
            label: "Mode"@,
            selected: mode_index(t.method),
            options: seq!["Telex"@, "VNI"@, "VIQR"@],
        },
        Entry::Check {
            label: "Legacy tone placement (òa vs oà)"@,
            checked: !t.modern_style,
            setting: Setting::LegacyTones,
        },
    ]
}

/// The entries about grabbed keyboards.
pub open spec fn grab_entries(t: Tray, names: Seq<Seq<char>>) -> Seq<Entry> {
    seq![
        Entry::Check {
            label: evdev_label(t.evdev_enabled),
            checked: t.evdev_enabled,
            setting: Setting::EvdevGrab,
        },
        Entry::Hooks { label: "Evdev hooks"@, items: hook_items(t, names) },
    ]
}

/// The whole menu. `hooks` are the names of the hooks to choose from, where this
/// build can grab keyboards.
pub open spec fn menu_of(t: Tray, hooks: Option<Seq<Seq<char>>>) -> Seq<Entry> {
    common_entries(t) + (match hooks {
        Some(names) => grab_entries(t, names),
        None => Seq::empty(),
    }) + seq![Entry::Button { label: "Quit"@, command: CmdKind::Quit }]
}

/// Names of hooks as characters.
pub open spec fn opt_names(v: Option<Vec<String>>) -> Option<Seq<Seq<char>>> {
    match v {
        Some(v) => Some(strings::texts(v@)),
        None => None,
    }
}

/// What choosing an entry leads to.
#[derive(Debug)]
pub struct TrayEffect {
    /// A change of settings to tell the daemon.
    pub change: Option<ConfigChange>,
    /// A command to send.
    pub command: Option<CmdKind>,
    /// Whether the settings are saved.
    pub save: bool,
}

/// The settings that take effect at once.
pub open spec fn change_of(t: Tray) -> ConfigChange {
    ConfigChange { method: t.method, modern_style: t.modern_style }
}

/// A list of hooks with `name` added at its end, or with its first occurrence
/// removed.
pub open spec fn hook_toggled(hooks: Seq<Seq<char>>, name: Seq<char>) -> Seq<Seq<char>> {
    if hooks.contains(name) {
        hooks.remove(hooks.index_of_first(name)->0)
    } else {
        hooks.push(name)
    }
}

proof fn lemma_menu_push(v: Seq<MenuEntry>, e: MenuEntry)
    ensures
        menu_view(v.push(e)) == menu_view(v).push(e@),
{
    assert(menu_view(v.push(e)) =~= menu_view(v).push(e@));
}

fn mode_options() -> (v: Vec<String>)
    ensures
        strings::texts(v@) == seq!["Telex"@, "VNI"@, "VIQR"@],
{
    let mut v: Vec<String> = Vec::new();
    v.push("Telex".to_owned());
    v.push("VNI".to_owned());
    v.push("VIQR".to_owned());
    assert(strings::texts(v@) =~= seq!["Telex"@, "VNI"@, "VIQR"@]);
    v
}

impl DaklakTray {
    /// What the tray shows at first.
    pub fn new(config: &Config, enabled: bool, backend: InputBackend) -> (t: Self)
        ensures
            t@ == (Tray {
                enabled,
                method: config@.method,
                modern_style: config@.modern_style,
                evdev_enabled: config@.enable_evdev_grab,
                backend,
                hooks: config@.evdev_grab_hooks,
            }),
    {
        DaklakTray {
            enabled,
            method: config.method,
            modern_style: config.modern_style,
            evdev_enabled: config.enable_evdev_grab,
            backend,
            evdev_grab_hooks: strings::clone_all(&config.evdev_grab_hooks),
        }
    }

    pub fn id(&self) -> (s: &'static str)
        ensures
            s@ == "daklak"@,
    {
        "daklak"
    }

    pub fn icon_name(&self) -> (s: &'static str)
        ensures
            s@ == if self@.enabled {
                "input-keyboard"@
            } else {
                "input-keyboard-symbolic"@
            },
    {
        if self.enabled {
            "input-keyboard"
        } else {
            "input-keyboard-symbolic"
        }
    }

    pub fn title(&self) -> (s: String)
        ensures
            s@ == "daklak — "@ + (if self@.enabled {
                "on"@
            } else {
                "off"@
            }),
    {
        let mut s = "daklak — ".to_owned();
        s.push_str(
            if self.enabled {
                "on"
            } else {
                "off"
            },
        );
        s
    }

    fn items(&self, names: &Vec<String>) -> (v: Vec<HookItem>)
        ensures
            items_view(v@) == hook_items(self@, strings::texts(names@)),
    {
        let ghost all = strings::texts(names@);
        let mut v: Vec<HookItem> = Vec::new();
        for i in 0..names.len()
            invariant
                all == strings::texts(names@),
                v@.len() == i,
                forall|j: int|
                    0 <= j < i ==> items_view(v@)[j] == (Item {
                        name: all[j],
                        checked: self@.hooks.contains(all[j]),
                    }),
        {
            let ghost before = items_view(v@);
            let name = names[i].as_str().to_owned();
            let checked = strings::contains_text(&self.evdev_grab_hooks, names[i].as_str());
            assert(all[i as int] == names[i as int]@);
            let item = HookItem { name, checked };
            v.push(item);
            assert(items_view(v@) =~= before.push(Item { name: item.name@, checked }));
        }
        assert(items_view(v@) =~= hook_items(self@, all));
        v
    }

    /// The whole menu. `hook_names` are the hooks to choose from, where this build
    /// can grab keyboards.
    pub fn menu(&self, hook_names: &Option<Vec<String>>) -> (v: Vec<MenuEntry>)
        ensures
            menu_view(v@) == menu_of(self@, opt_names(*hook_names)),
    {
        let mut v: Vec<MenuEntry> = Vec::new();
        let power = if self.enabled {
            MenuEntry::Button { label: "Off".to_owned(), command: CmdKind::Disable }
        } else {
            MenuEntry::Button { label: "On".to_owned(), command: CmdKind::Enable }
        };
        let selected: usize = match self.method {
            MethodConfig::Telex => 0,
            MethodConfig::Vni => 1,
            MethodConfig::Viqr => 2,
        };
        let modes = MenuEntry::Modes { label: "Mode".to_owned(), selected, options: mode_options() };
        let legacy = MenuEntry::Check {
            label: "Legacy tone placement (òa vs oà)".to_owned(),
            checked: !self.modern_style,
            setting: Setting::LegacyTones,
        };
        v.push(power);
        v.push(modes);
        v.push(legacy);
        assert(menu_view(v@) =~= common_entries(self@));
        if let Some(names) = hook_names {
            let grab = MenuEntry::Check {
                label: evdev_toggle_label(self.evdev_enabled).to_owned(),
                checked: self.evdev_enabled,
                setting: Setting::EvdevGrab,
            };
            let hooks = MenuEntry::Hooks {
                label: "Evdev hooks".to_owned(),
                items: self.items(names),
            };
            proof {
                lemma_menu_push(v@, grab);
                lemma_menu_push(v@.push(grab), hooks);
            }
            v.push(grab);
            v.push(hooks);
            assert(menu_view(v@) =~= common_entries(self@) + grab_entries(
                self@,
                strings::texts(names@),
            ));
        }
        let quit = MenuEntry::Button { label: "Quit".to_owned(), command: CmdKind::Quit };
        proof {
            lemma_menu_push(v@, quit);
        }
        v.push(quit);
        assert(menu_view(v@) =~= menu_of(self@, opt_names(*hook_names)));
        v
    }

    /// Choose the mode at `index`; a place without a mode is ignored.
    pub fn select_mode(&mut self, index: usize) -> (e: TrayEffect)
        ensures
            match mode_at(index) {
                Some(m) => {
                    &&& final(self)@ == (Tray { method: m, ..old(self)@ })
                    &&& e.change == Some(change_of(final(self)@))
                    &&& e.save
                },
                None => final(self)@ == old(self)@ && e.change is None && !e.save,
            },
            e.command is None,
    {
        let method = if index == 0 {
            MethodConfig::Telex
        } else if index == 1 {
            MethodConfig::Vni
        } else if index == 2 {
            MethodConfig::Viqr
        } else {
            return TrayEffect { change: None, command: None, save: false };
        };
        self.method = method;
        TrayEffect {
            change: Some(ConfigChange { method, modern_style: self.modern_style }),
            command: None,
            save: true,
        }
    }

    /// Place tones the other way.
    pub fn toggle_legacy_tones(&mut self) -> (e: TrayEffect)
        ensures
            final(self)@ == (Tray { modern_style: !old(self)@.modern_style, ..old(self)@ }),
            e.change == Some(change_of(final(self)@)),
            e.command is None,
            e.save,
    {
        self.modern_style = !self.modern_style;
        TrayEffect {
            change: Some(ConfigChange { method: self.method, modern_style: self.modern_style }),
            command: None,
            save: true,
        }
    }

    /// Grab keyboards, or give them back to the desktop's own input method.
    pub fn toggle_evdev_grab(&mut self) -> (e: TrayEffect)
        ensures
            final(self)@ == (Tray { evdev_enabled: !old(self)@.evdev_enabled, ..old(self)@ }),
            e.command == Some(
                CmdKind::SetBackend(
                    if final(self)@.evdev_enabled {
                        BackendTarget::Evdev
                    } else {
                        BackendTarget::Native
                    },
                ),
            ),
            e.change is None,
            e.save,
    {
        self.evdev_enabled = !self.evdev_enabled;
        let target = if self.evdev_enabled {
            BackendTarget::Evdev
        } else {
            BackendTarget::Native
        };
        TrayEffect { change: None, command: Some(CmdKind::SetBackend(target)), save: true }
    }

    /// Turn a hook on or off.
    pub fn toggle_evdev_hook(&mut self, name: &str) -> (e: TrayEffect)
        ensures
            final(self)@ == (Tray { hooks: hook_toggled(old(self)@.hooks, name@), ..old(self)@ }),
            e.change is None,
            e.command is None,
            e.save,
    {
        let ghost all = strings::texts(self.evdev_grab_hooks@);
        let n: usize = self.evdev_grab_hooks.len();
        let mut at: usize = 0;
        while at < n && *self.evdev_grab_hooks[at].as_str() != *name
            invariant
                n == self.evdev_grab_hooks@.len(),
                all == strings::texts(self.evdev_grab_hooks@),
                self@ == old(self)@,
                at <= n,
                forall|j: int| 0 <= j < at ==> all[j] != name@,
            decreases n - at,
        {
            assert(all[at as int] == self.evdev_grab_hooks@[at as int]@);
            at = at + 1;
        }
        if at < n {
            proof {
                assert(all[at as int] == self.evdev_grab_hooks@[at as int]@);
                assert(all.contains(name@));
                all.index_of_first_ensures(name@);
            }
            let _ = self.evdev_grab_hooks.remove(at);
            assert(strings::texts(self.evdev_grab_hooks@) =~= all.remove(at as int));
        } else {
            assert(!all.contains(name@));
            let name = name.to_owned();
            self.evdev_grab_hooks.push(name);
            assert(strings::texts(self.evdev_grab_hooks@) =~= all.push(name@));
        }
        TrayEffect { change: None, command: None, save: true }
    }

    /// The settings that are saved.
    pub fn saved_change(&self) -> (c: TrayChange)
        ensures
            c == (TrayChange {
                method: self@.method,
                modern_style: self@.modern_style,
                enable_evdev_grab: self@.evdev_enabled,
            }),
    {
        TrayChange {
            method: self.method,
            modern_style: self.modern_style,
            enable_evdev_grab: self.evdev_enabled,
        }
    }
}

/// The order of texts: by the first character that differs, a shorter text first.
pub open spec fn text_before(a: Seq<char>, b: Seq<char>) -> bool
    decreases a.len(),
{
    if b.len() == 0 {
        false
    } else if a.len() == 0 {
        true
    } else if a[0] != b[0] {
        a[0] < b[0]
    } else {
        text_before(a.drop_first(), b.drop_first())
    }
}

proof fn lemma_before_trans(a: Seq<char>, b: Seq<char>, c: Seq<char>)
    requires
        text_before(a, b),
        text_before(b, c),
    ensures
        text_before(a, c),
    decreases a.len(),
{
    if a.len() > 0 && b.len() > 0 && c.len() > 0 && a[0] == b[0] && b[0] == c[0] {
        lemma_before_trans(a.drop_first(), b.drop_first(), c.drop_first());
    }
}

proof fn lemma_before_total(a: Seq<char>, b: Seq<char>)
    ensures
        a != b ==> text_before(a, b) || text_before(b, a),
        !(text_before(a, b) && text_before(b, a)),
        a == b ==> !text_before(a, b),
    decreases a.len(),
{
    if a.len() > 0 && b.len() > 0 && a[0] == b[0] {
        lemma_before_total(a.drop_first(), b.drop_first());
        if a.drop_first() == b.drop_first() {
            assert(a =~= seq![a[0]] + a.drop_first());
            assert(b =~= seq![b[0]] + b.drop_first());
        }
    } else if a.len() == 0 && b.len() == 0 {
        assert(a =~= b);
    }
}

fn is_before(a: &str, b: &str) -> (r: bool)
    ensures
        r == text_before(a@, b@),
{
    let n: usize = a.unicode_len();
    let m: usize = b.unicode_len();
    let mut i: usize = 0;
    assert(a@.skip(0) =~= a@);
    assert(b@.skip(0) =~= b@);
    while i < n && i < m
        invariant
            n == a@.len(),
            m == b@.len(),
            i <= n,
            i <= m,
            text_before(a@, b@) == text_before(a@.skip(i as int), b@.skip(i as int)),
        decreases n - i,
    {
        let x = a.get_char(i);
        let y = b.get_char(i);
        assert(a@.skip(i as int)[0] == x);
        assert(b@.skip(i as int)[0] == y);
        if x != y {
            return x < y;
        }
        assert(a@.skip(i as int).drop_first() =~= a@.skip(i + 1));
        assert(b@.skip(i as int).drop_first() =~= b@.skip(i + 1));
        i = i + 1;
    }
    i < m
}

/// In order, each text once.
pub open spec fn in_order(v: Seq<Seq<char>>) -> bool {
    forall|i: int, j: int| 0 <= i < j < v.len() ==> text_before(#[trigger] v[i], #[trigger] v[j])
}

/// Put a text into an ordered list, unless it is there.
fn insert_ordered(v: &mut Vec<String>, s: &str)
    requires
        in_order(strings::texts(old(v)@)),
    ensures
        in_order(strings::texts(final(v)@)),
        forall|t: Seq<char>| #[trigger]
            strings::texts(final(v)@).contains(t) <==> strings::texts(old(v)@).contains(t) || t
                == s@,
{
    let ghost all = strings::texts(v@);
    let n: usize = v.len();
    let mut at: usize = 0;
    while at < n && is_before(v[at].as_str(), s)
        invariant
            n == v@.len(),
            all == strings::texts(v@),
            at <= n,
            forall|j: int| 0 <= j < at ==> text_before(#[trigger] all[j], s@),
        decreases n - at,
    {
        assert(all[at as int] == v@[at as int]@);
        at = at + 1;
    }
    if at < n && *v[at].as_str() == *s {
        proof {
            assert(all[at as int] == s@);
            assert(all.contains(s@));
        }
        return;
    }
    proof {
        if at < n {
            assert(all[at as int] == v@[at as int]@);
            lemma_before_total(all[at as int], s@);
            assert forall|j: int| at <= j < n implies text_before(s@, #[trigger] all[j]) by {
                if at < j {
                    lemma_before_trans(s@, all[at as int], all[j]);
                }
            }
        }
    }
    let new = s.to_owned();
    v.insert(at, new);
    proof {
        let now = strings::texts(v@);
        assert(now =~= all.insert(at as int, s@));
        assert forall|t: Seq<char>| #[trigger] now.contains(t) <==> all.contains(t) || t == s@ by {
            if all.contains(t) {
                let k = choose|k: int| 0 <= k < all.len() && all[k] == t;
                assert(now[if k < at {
                    k
                } else {
                    k + 1
                }] == t);
            }
            if t == s@ {
                assert(now[at as int] == t);
            }
            if now.contains(t) && t != s@ {
                let k = choose|k: int| 0 <= k < now.len() && now[k] == t;
                assert(all[if k < at {
                    k
                } else {
                    k - 1
                }] == t);
            }
        }
        assert forall|i: int, j: int| 0 <= i < j < now.len() implies text_before(
            #[trigger] now[i],
            #[trigger] now[j],
        ) by {
            let a = if i < at {
                i
            } else {
                i - 1
            };
            let b = if j < at {
                j
            } else {
                j - 1
            };
            if i < at {
                assert(now[i] == all[i]);
            } else if i > at {
                assert(now[i] == all[i - 1]);
            }
            if j < at {
                assert(now[j] == all[j]);
            } else if j > at {
                assert(now[j] == all[j - 1]);
            }
        }
    }
}

/// A hook that comes with the daemon.
pub open spec fn builtin_hook(name: Seq<char>) -> bool {
    name == "gnome"@ || name == "kde"@ || name == "sway"@ || name == "x11"@
}

/// A hook in a directory that holds these entries and these regular files: its
/// name is safe, and both of its scripts are there.
pub open spec fn user_hook(
    entries: Seq<Seq<char>>,
    files: Seq<Seq<char>>,
    name: Seq<char>,
) -> bool {
    entries.contains(name + "-set"@) && hooks::safe_name(name) && files.contains(
        name + "-unset"@,
    )
}

/// The hooks to choose from: those that come with the daemon, and those of the
/// user's own directory, in order. `entries` are the names in that directory, and
/// `files` those of them that are regular files.
pub fn discover_hook_names(entries: &Vec<String>, files: &Vec<String>) -> (v: Vec<String>)
    ensures
        in_order(strings::texts(v@)),
        forall|n: Seq<char>| #[trigger]
            strings::texts(v@).contains(n) <==> builtin_hook(n) || user_hook(
                strings::texts(entries@),
                strings::texts(files@),
                n,
            ),
{
    let ghost names = strings::texts(entries@);
    let ghost there = strings::texts(files@);
    let mut v: Vec<String> = Vec::new();
    assert(strings::texts(v@) =~= Seq::<Seq<char>>::empty());
    insert_ordered(&mut v, "gnome");
    insert_ordered(&mut v, "kde");
    insert_ordered(&mut v, "sway");
    insert_ordered(&mut v, "x11");
    assert(forall|n: Seq<char>| #[trigger]
        strings::texts(v@).contains(n) <==> builtin_hook(n) || user_hook(names.take(0), there, n));
    for i in 0..entries.len()
        invariant
            names == strings::texts(entries@),
            there == strings::texts(files@),
            in_order(strings::texts(v@)),
            forall|n: Seq<char>| #[trigger]
                strings::texts(v@).contains(n) <==> builtin_hook(n) || user_hook(
                    names.take(i as int),
                    there,
                    n,
                ),
    {
        let entry = entries[i].as_str();
        let ghost added = names.take(i + 1);
        proof {
            assert(added =~= names.take(i as int).push(names[i as int]));
            assert(names[i as int] == entry@);
            assert forall|t: Seq<char>| #[trigger]
                added.contains(t) <==> names.take(i as int).contains(t) || t == entry@ by {
                if names.take(i as int).contains(t) {
                    let k = choose|k: int|
                        0 <= k < names.take(i as int).len() && names.take(i as int)[k] == t;
                    assert(added[k] == t);
                }
                if t == entry@ {
                    assert(added[i as int] == t);
                }
            }
        }
        match strings::strip_suffix(entry, "-set") {
            Some(name) => {
                let mut other = name.to_owned();
                other.push_str("-unset");
                assert(entry@ =~= name@ + "-set"@);
                let valid = validate_hook_name(name).is_ok();
                proof {
                    assert forall|n: Seq<char>| n + "-set"@ == entry@ implies n == name@ by {
                        assert((n + "-set"@).take(n.len() as int) =~= n);
                        assert((name@ + "-set"@).take(name@.len() as int) =~= name@);
                        assert(n.len() == name@.len());
                    }
                }
                if valid && strings::contains_text(files, other.as_str()) {
                    insert_ordered(&mut v, name);
                }
            },
            None => {
                proof {
                    assert forall|n: Seq<char>| n + "-set"@ != entry@ by {
                        assert((n + "-set"@).skip(n.len() as int) =~= "-set"@);
                        if n + "-set"@ == entry@ {
                            assert(entry@.skip(entry@.len() - "-set"@.len()) == "-set"@);
                            assert(strings::has_suffix(entry@, "-set"@));
                        }
                    }
                }
            },
        }
    }
    assert(names.take(entries.len() as int) =~= names);
    v
}

/// Turning a hook on and off again leaves the list as it was; turning one off and
/// on again moves it to the end.
pub proof fn law_hook_toggled_twice(hooks: Seq<Seq<char>>, name: Seq<char>)
    ensures
        !hooks.contains(name) ==> hook_toggled(hook_toggled(hooks, name), name) == hooks,
        hook_toggled(hooks, name).contains(name) || hooks.contains(name),
{
    if !hooks.contains(name) {
        let on = hooks.push(name);
        assert(on[hooks.len() as int] == name);
        assert(on.contains(name));
        on.index_of_first_ensures(name);
        let k = on.index_of_first(name)->0;
        assert(k == hooks.len()) by {
            if k < hooks.len() {
                assert(hooks[k] == name);
            }
        }
        assert(on.remove(k) =~= hooks);
    }
}

/// The modes in the menu are those that can be chosen there, each at its place.
pub proof fn law_modes_round_trip(m: MethodConfig, i: usize)
    ensures
        mode_at(mode_index(m)) == Some(m),
        mode_at(i) matches Some(n) ==> mode_index(n) == i,
{
}

/// The menu shows how things are, and each of its entries is for changing one of them: the
/// first turns composition to the other state, the second has the input method chosen,
/// the third shows and turns the tone style, and the last ends the daemon. Where keyboards
/// can be grabbed, that is shown too, with a hook for each name, in the order of the names.
pub proof fn law_menu_shows_how_things_are(t: Tray, hooks: Option<Seq<Seq<char>>>)
    ensures
        ({
            let m = menu_of(t, hooks);
            let n = m.len() as int;
            &&& n == if hooks is Some {
                6int
            } else {
                4int
            }
            &&& m[0] matches Entry::Button { label, command } && control::enabled_after(
                command,
                t.enabled,
            ) == !t.enabled && label == if t.enabled {
                "Off"@
            } else {
                "On"@
            }
            &&& m[1] matches Entry::Modes { label, selected, options } && mode_at(selected) == Some(
                t.method,
            ) && options == seq!["Telex"@, "VNI"@, "VIQR"@]
            &&& m[2] matches Entry::Check { label, checked, setting } && setting
                == Setting::LegacyTones && checked == !t.modern_style
            &&& m[n - 1] matches Entry::Button { label, command } && command == CmdKind::Quit
            &&& hooks matches Some(names) ==> {
                &&& m[3] matches Entry::Check { label, checked, setting } && setting
                    == Setting::EvdevGrab && checked == t.evdev_enabled
                &&& m[4] matches Entry::Hooks { label, items } && items.len() == names.len()
                    && forall|i: int|
                    #![trigger items[i]]
                    0 <= i < names.len() ==> items[i].name == names[i] && (items[i].checked
                        <==> t.hooks.contains(names[i]))
            }
        }),
{
}

/// The options of the menu name the methods that they choose.
pub proof fn law_modes_are_told_apart(i: usize, j: usize)
    ensures
        mode_at(i) is Some <==> i < 3,
        mode_at(i) is Some && mode_at(i) == mode_at(j) ==> i == j,
        mode_at(0) == Some(MethodConfig::Telex),
        mode_at(1) == Some(MethodConfig::Vni),
        mode_at(2) == Some(MethodConfig::Viqr),
{
}

/// Toggling a hook turns that hook, and no other; hooks that stay keep their order.
pub proof fn law_toggling_turns_one_hook(hooks: Seq<Seq<char>>, name: Seq<char>, other: Seq<char>)
    requires
        hooks.no_duplicates(),
    ensures
        hook_toggled(hooks, name).contains(name) == !hooks.contains(name),
        other != name ==> hook_toggled(hooks, name).contains(other) == hooks.contains(other),
        hook_toggled(hooks, name).no_duplicates(),
{
    let n = hook_toggled(hooks, name);
    if hooks.contains(name) {
        hooks.index_of_first_ensures(name);
        let k = hooks.index_of_first(name)->0;
        assert forall|i: int| 0 <= i < n.len() implies #[trigger] n[i] == hooks[if i < k {
            i
        } else {
            i + 1
        }] by {}
        if n.contains(name) {
            let i = choose|i: int| 0 <= i < n.len() && n[i] == name;
            assert(hooks[if i < k {
                i
            } else {
                i + 1
            }] == name);
        }
        if other != name && hooks.contains(other) {
            let i = choose|i: int| 0 <= i < hooks.len() && hooks[i] == other;
            assert(n[if i < k {
                i
            } else {
                i - 1
            }] == other);
        }
        if n.contains(other) {
            let i = choose|i: int| 0 <= i < n.len() && n[i] == other;
            assert(hooks[if i < k {
                i
            } else {
                i + 1
            }] == other);
        }
    } else {
        assert(n[hooks.len() as int] == name);
        if hooks.contains(other) {
            let i = choose|i: int| 0 <= i < hooks.len() && hooks[i] == other;
            assert(n[i] == other);
        }
        if n.contains(other) && other != name {
            let i = choose|i: int| 0 <= i < n.len() && n[i] == other;
            assert(hooks[i] == other);
        }
    }
}

/// Of two texts that differ, one comes first, and only one.
pub proof fn law_texts_have_an_order(a: Seq<char>, b: Seq<char>)
    ensures
        !text_before(a, a),
        text_before(a, b) ==> !text_before(b, a),
        a != b ==> text_before(a, b) || text_before(b, a),
    decreases a.len(),
{
    if a.len() > 0 {
        let x = a.drop_first();
        law_texts_have_an_order(x, x);
        if b.len() > 0 && a[0] == b[0] {
            let y = b.drop_first();
            law_texts_have_an_order(x, y);
            if x == y {
                assert(a =~= seq![a[0]] + x);
                assert(b =~= seq![b[0]] + y);
            }
        }
    } else if b.len() == 0 {
        assert(a =~= b);
    }
}

/// Where two texts first differ decides which comes first; a text comes in front of what
/// continues it.
pub proof fn law_first_difference_decides(p: Seq<char>, a: Seq<char>, b: Seq<char>)
    ensures
        a.len() > 0 && b.len() > 0 && a[0] != b[0] ==> (text_before(p + a, p + b) <==> a[0] < b[0]),
        a.len() == 0 ==> (text_before(p + a, p + b) <==> b.len() > 0),
    decreases p.len(),
{
    if p.len() == 0 {
        assert(p + a =~= a);
        assert(p + b =~= b);
    } else {
        law_first_difference_decides(p.drop_first(), a, b);
        assert((p + a).drop_first() =~= p.drop_first() + a);
        assert((p + b).drop_first() =~= p.drop_first() + b);
    }
}

/// A hook of the user's is one whose two scripts are there, under a name that is safe.
pub proof fn law_hooks_of_the_user(entries: Seq<Seq<char>>, files: Seq<Seq<char>>, name: Seq<char>)
    ensures
        user_hook(entries, files, name) ==> hooks::safe_name(name) && entries.contains(
            name + "-set"@,
        ) && files.contains(name + "-unset"@),
        hooks::safe_name(name) && entries.contains(name + "-set"@) && files.contains(
            name + "-unset"@,
        ) ==> user_hook(entries, files, name),
        builtin_hook("gnome"@) && builtin_hook("kde"@) && builtin_hook("sway"@) && builtin_hook(
            "x11"@,
        ),
        builtin_hook(name) ==> name == "gnome"@ || name == "kde"@ || name == "sway"@ || name
            == "x11"@,
{
}

/// What the daemon is told of a change is how things are then: the daemon that takes it has
/// the method and the tone style that the menu shows.
pub proof fn law_changes_tell_how_things_are(t: Tray)
    ensures
        change_of(t).method == t.method,
        change_of(t).modern_style == t.modern_style,
        mode_at(mode_index(change_of(t).method)) == Some(t.method),
{
}

} // verus!
