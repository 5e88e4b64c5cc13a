//! Where the IBus daemon listens.
use vstd::prelude::*;
use vstd::string::*;

use crate::config;
use crate::strings;

verus! {

/// What the environment says.
pub struct BusEnv {
    /// `IBUS_ADDRESS`.
    pub address: Option<String>,
    /// `WAYLAND_DISPLAY`.
    pub wayland_display: Option<String>,
    /// `DISPLAY`.
    pub display: Option<String>,
}

/// A file of the directory in which daemons leave their addresses.
pub struct AddressFile {
    pub name: String,
    /// What it holds; nothing when it could not be read.
    pub content: Option<String>,
}

/// `s` without the colons at its start.
pub open spec fn without_colons(s: Seq<char>) -> Seq<char>
    decreases s.len(),
{
    if s.len() > 0 && s[0] == ':' {
        without_colons(s.drop_first())
    } else {
        s
    }
}

/// How the file for a display ends: the Wayland display's name, or the number of
/// the X display without its screen.
pub open spec fn suffix_of(wayland: Option<Seq<char>>, x: Option<Seq<char>>) -> Seq<char> {
    match wayland {
        Some(w) => "unix-"@ + w,
        None => match x {
            Some(d) => "unix-"@ + strings::split(without_colons(d), '.')[0],
            None => "unix-0"@,
        },
    }
}

fn strip_colons(s: &str) -> (r: String)
    ensures
        r@ == without_colons(s@),
{
    let n: usize = s.unicode_len();
    let mut i: usize = 0;
    assert(s@.skip(0) =~= s@);
    while i < n && s.get_char(i) == ':'
        invariant
            n == s@.len(),
            i <= n,
            without_colons(s@) == without_colons(s@.skip(i as int)),
        decreases n - i,
    {
        assert(s@.skip(i as int)[0] == s@[i as int]);
        assert(s@.skip(i as int).drop_first() =~= s@.skip(i + 1));
        i = i + 1;
    }
    if i < n {
        assert(s@.skip(i as int)[0] == s@[i as int]);
    }
    assert(s@.subrange(i as int, n as int) =~= s@.skip(i as int));
    s.substring_char(i, n).to_owned()
}

/// How the file for this display ends.
pub fn bus_suffix(env: &BusEnv) -> (s: String)
    ensures
        s@ == suffix_of(
            config::opt_text(env.wayland_display),
            config::opt_text(env.display),
        ),
{
    match &env.wayland_display {
        Some(w) => {
            let mut s = "unix-".to_owned();
            s.push_str(w.as_str());
            s
        },
        None => match &env.display {
            Some(d) => {
                let bare = strip_colons(d.as_str());
                let parts = strings::split_at_char(bare.as_str(), '.');
                proof {
                    strings::lemma_split_nonempty(bare@, '.');
                    assert(strings::texts(parts@)[0] == parts@[0]@);
                }
                let mut s = "unix-".to_owned();
                s.push_str(parts[0].as_str());
                s
            },
            None => "unix-0".to_owned(),
        },
    }
}

/// The address on a line, if it gives one that is not empty.
pub open spec fn address_on_line(line: Seq<char>) -> Option<Seq<char>> {
    if strings::has_prefix(line, "IBUS_ADDRESS="@) {
        let a = strings::trimmed(line.skip("IBUS_ADDRESS="@.len() as int));
        if a.len() > 0 {
            Some(a)
        } else {
            None
        }
    } else {
        None
    }
}

/// The first address on lines.
pub open spec fn address_in_lines(lines: Seq<Seq<char>>) -> Option<Seq<char>>
    decreases lines.len(),
{
    if lines.len() == 0 {
        None
    } else {
        match address_in_lines(lines.drop_last()) {
            Some(a) => Some(a),
            None => address_on_line(lines.last()),
        }
    }
}

/// The first address in a file.
pub open spec fn address_in(f: AddressFile) -> Option<Seq<char>> {
    match f.content {
        Some(c) => address_in_lines(strings::lines(c@)),
        None => None,
    }
}

/// The first address in those of the files whose names end with `suffix`, or in
/// those whose names do not.
pub open spec fn address_among(
    files: Seq<AddressFile>,
    suffix: Seq<char>,
    matching: bool,
) -> Option<Seq<char>>
    decreases files.len(),
{
    if files.len() == 0 {
        None
    } else {
        match address_among(files.drop_last(), suffix, matching) {
            Some(a) => Some(a),
            None => if strings::has_suffix(files.last().name@, suffix) == matching {
                address_in(files.last())
            } else {
                None
            },
        }
    }
}

/// The daemon's address: what the environment says, or else the first address in
/// the files for this display, or else the first in any other file. Daemons that
/// are gone leave files with empty addresses behind; those do not count.
pub open spec fn address_of(env: BusEnv, files: Seq<AddressFile>) -> Option<Seq<char>> {
    let suffix = suffix_of(config::opt_text(env.wayland_display), config::opt_text(env.display));
    match config::opt_text(env.address) {
        Some(a) if a.len() > 0 => Some(a),
        _ => match address_among(files, suffix, true) {
            Some(a) => Some(a),
            None => address_among(files, suffix, false),
        },
    }
}

proof fn lemma_line_stays(lines: Seq<Seq<char>>, k: int)
    requires
        0 <= k <= lines.len(),
        address_in_lines(lines.take(k)) is Some,
    ensures
        address_in_lines(lines) == address_in_lines(lines.take(k)),
    decreases lines.len() - k,
{
    if k < lines.len() {
        assert(lines.take(k + 1).drop_last() =~= lines.take(k));
        lemma_line_stays(lines, k + 1);
    } else {
        assert(lines.take(k) =~= lines);
    }
}

fn read_address(f: &AddressFile) -> (r: Option<String>)
    ensures
        config::opt_text(r) == address_in(*f),
{
    let content = match &f.content {
        Some(c) => c,
        None => {
            return None;
        },
    };
    let lines = strings::split_lines(content.as_str());
    let ghost all = strings::texts(lines@);
    for i in 0..lines.len()
        invariant
            all == strings::texts(lines@),
            all == strings::lines(content@),
            f.content == Some(*content),
            address_in_lines(all.take(i as int)) is None,
    {
        let line = lines[i].as_str();
        proof {
            assert(all.take(i + 1).drop_last() =~= all.take(i as int));
            assert(all.take(i + 1).last() == line@);
        }
        if let Some(rest) = strings::strip_prefix(line, "IBUS_ADDRESS=") {
            let a = strings::trim(rest);
            if !a.is_empty() {
                proof {
                    lemma_line_stays(all, i + 1);
                }
                return Some(a.to_owned());
            }
        }
    }
    assert(all.take(lines.len() as int) =~= all);
    None
}

proof fn lemma_file_stays(files: Seq<AddressFile>, k: int, suffix: Seq<char>, matching: bool)
    requires
        0 <= k <= files.len(),
        address_among(files.take(k), suffix, matching) is Some,
    ensures
        address_among(files, suffix, matching) == address_among(files.take(k), suffix, matching),
    decreases files.len() - k,
{
    if k < files.len() {
        assert(files.take(k + 1).drop_last() =~= files.take(k));
        lemma_file_stays(files, k + 1, suffix, matching);
    } else {
        assert(files.take(k) =~= files);
    }
}

fn search(files: &Vec<AddressFile>, suffix: &str, matching: bool) -> (r: Option<String>)
    ensures
        config::opt_text(r) == address_among(files@, suffix@, matching),
{
    for i in 0..files.len()
        invariant
            address_among(files@.take(i as int), suffix@, matching) is None,
    {
        proof {
            assert(files@.take(i + 1).drop_last() =~= files@.take(i as int));
            assert(files@.take(i + 1).last() == files@[i as int]);
        }
        if strings::strip_suffix(files[i].name.as_str(), suffix).is_some() == matching {
            let r = read_address(&files[i]);
            if r.is_some() {
                proof {
                    lemma_file_stays(files@, i + 1, suffix@, matching);
                }
                return r;
            }
        }
    }
    assert(files@.take(files.len() as int) =~= files@);
    None
}

/// The daemon's address, if it can be found. `files` are those of the directory in
/// which daemons leave their addresses.
pub fn resolve_ibus_address(env: &BusEnv, files: &Vec<AddressFile>) -> (r: Option<String>)
    ensures
        config::opt_text(r) == address_of(*env, files@),
{
    if let Some(a) = &env.address {
        if !a.as_str().is_empty() {
            return Some(a.as_str().to_owned());
        }
    }
    let suffix = bus_suffix(env);
    match search(files, suffix.as_str(), true) {
        Some(a) => Some(a),
        None => search(files, suffix.as_str(), false),
    }
}

/// An address that is found is never empty.
pub proof fn law_addresses_are_not_empty(env: BusEnv, files: Seq<AddressFile>)
    ensures
        address_of(env, files) matches Some(a) ==> a.len() > 0,
{
    let suffix = suffix_of(config::opt_text(env.wayland_display), config::opt_text(env.display));
    lemma_found_nonempty(files, suffix, true);
    lemma_found_nonempty(files, suffix, false);
}

proof fn lemma_found_nonempty(files: Seq<AddressFile>, suffix: Seq<char>, matching: bool)
    ensures
        address_among(files, suffix, matching) matches Some(a) ==> a.len() > 0,
    decreases files.len(),
{
    if files.len() > 0 {
        lemma_found_nonempty(files.drop_last(), suffix, matching);
        if let Some(c) = files.last().content {
            lemma_lines_nonempty(strings::lines(c@));
        }
    }
}

proof fn lemma_lines_nonempty(lines: Seq<Seq<char>>)
    ensures
        address_in_lines(lines) matches Some(a) ==> a.len() > 0,
    decreases lines.len(),
{
    if lines.len() > 0 {
        lemma_lines_nonempty(lines.drop_last());
    }
}

/// An address from the environment comes first. Else the first file of this display that
/// holds one decides, and only where there is none the first of another display.
pub proof fn law_own_display_comes_first(
    env: BusEnv,
    files: Seq<AddressFile>,
    suffix: Seq<char>,
    k: int,
)
    requires
        suffix == suffix_of(config::opt_text(env.wayland_display), config::opt_text(env.display)),
        0 <= k < files.len(),
        strings::has_suffix(files[k].name@, suffix),
        address_in(files[k]) is Some,
        forall|i: int|
            0 <= i < k ==> address_in(#[trigger] files[i]) is None || !strings::has_suffix(
                files[i].name@,
                suffix,
            ),
    ensures
        config::opt_text(env.address) matches Some(a) && a.len() > 0 ==> address_of(env, files)
            == config::opt_text(env.address),
        (config::opt_text(env.address) matches Some(a) ==> a.len() == 0) ==> address_of(env, files)
            == address_in(files[k]),
{
    lemma_first_among(files, suffix, true, k);
}

proof fn lemma_first_among(files: Seq<AddressFile>, suffix: Seq<char>, matching: bool, k: int)
    requires
        0 <= k < files.len(),
        strings::has_suffix(files[k].name@, suffix) == matching,
        address_in(files[k]) is Some,
        forall|i: int|
            0 <= i < k ==> address_in(#[trigger] files[i]) is None || strings::has_suffix(
                files[i].name@,
                suffix,
            ) != matching,
    ensures
        address_among(files, suffix, matching) == address_in(files[k]),
    decreases files.len(),
{
    let rest = files.drop_last();
    if k < files.len() - 1 {
        assert(forall|i: int| 0 <= i < rest.len() ==> #[trigger] rest[i] == files[i]);
        lemma_first_among(rest, suffix, matching, k);
    } else {
        assert forall|i: int| 0 <= i < rest.len() implies address_in(#[trigger] rest[i]) is None
            || strings::has_suffix(rest[i].name@, suffix) != matching by {
            assert(rest[i] == files[i]);
        }
        lemma_none_among(rest, suffix, matching);
    }
}

proof fn lemma_none_among(files: Seq<AddressFile>, suffix: Seq<char>, matching: bool)
    requires
        forall|i: int|
            0 <= i < files.len() ==> address_in(#[trigger] files[i]) is None
                || strings::has_suffix(files[i].name@, suffix) != matching,
    ensures
        address_among(files, suffix, matching) is None,
    decreases files.len(),
{
    if files.len() > 0 {
        let rest = files.drop_last();
        assert(files.last() == files[files.len() - 1]);
        assert forall|i: int| 0 <= i < rest.len() implies address_in(#[trigger] rest[i]) is None
            || strings::has_suffix(rest[i].name@, suffix) != matching by {
            assert(rest[i] == files[i]);
        }
        lemma_none_among(rest, suffix, matching);
    }
}

/// Where this display has no address, the first file of another that has one decides.
pub proof fn law_other_displays_come_last(
    env: BusEnv,
    files: Seq<AddressFile>,
    suffix: Seq<char>,
    k: int,
)
    requires
        suffix == suffix_of(config::opt_text(env.wayland_display), config::opt_text(env.display)),
        config::opt_text(env.address) matches Some(a) ==> a.len() == 0,
        0 <= k < files.len(),
        address_in(files[k]) is Some,
        forall|i: int|
            0 <= i < files.len() && strings::has_suffix((#[trigger] files[i]).name@, suffix)
                ==> address_in(files[i]) is None,
        forall|i: int| 0 <= i < k ==> address_in(#[trigger] files[i]) is None,
    ensures
        address_of(env, files) == address_in(files[k]),
{
    lemma_none_among(files, suffix, true);
    lemma_first_among(files, suffix, false, k);
}

/// An address stands on its line behind its name, up to white space at the end; a line
/// without the name, or with nothing behind it, holds none.
pub proof fn law_addresses_stand_behind_their_name(address: Seq<char>, b: Seq<char>)
    requires
        strings::laws::solid(address),
        strings::laws::blank(b),
    ensures
        address_on_line("IBUS_ADDRESS="@ + address + b) == Some(address),
        address_on_line("IBUS_ADDRESS="@ + b) is None,
{
    let p = "IBUS_ADDRESS="@;
    let none = Seq::<char>::empty();
    let line = p + address + b;
    assert(address.last() == address[address.len() - 1]);
    assert(line.take(p.len() as int) =~= p);
    assert(line.skip(p.len() as int) =~= none + address + b);
    strings::laws::law_trimming_takes_white_space(none, address, b);
    let bare = p + b;
    assert(bare.take(p.len() as int) =~= p);
    assert(bare.skip(p.len() as int) =~= none + none + b);
    strings::laws::law_trimming_takes_white_space(none, none, b);
}

/// The files of a display end with its name: that of the Wayland display where there is
/// one, and else that of the X display, without its host and screen.
pub proof fn law_displays_have_their_files(w: Seq<char>, number: Seq<char>, screen: Seq<char>)
    requires
        !number.contains('.') && !number.contains(':'),
        number.len() > 0,
    ensures
        suffix_of(Some(w), None) == "unix-"@ + w,
        suffix_of(Some(w), Some(number)) == "unix-"@ + w,
        suffix_of(None, Some(seq![':'] + number)) == "unix-"@ + number,
        suffix_of(None, Some(seq![':'] + number.push('.') + screen)) == "unix-"@ + number,
        suffix_of(None, None) == "unix-0"@,
{
    let a = seq![':'] + number;
    assert(a.drop_first() =~= number);
    assert(number[0] != ':') by {
        if number[0] == ':' {
            assert(number.contains(':'));
        }
    }
    assert(without_colons(number) == number);
    strings::law_split_undoes_join(seq![number], '.');
    assert(strings::joined(seq![number], seq!['.']) == number);
    let t = number.push('.') + screen;
    let c = seq![':'] + number.push('.') + screen;
    assert(c.drop_first() =~= t);
    assert(t[0] == number[0]);
    assert(without_colons(t) == t);
    strings::laws::lemma_split_front(number, '.', screen);
    assert(strings::split(t, '.')[0] == number);
}

} // verus!
