//! Whether this process may grab keyboards.
use vstd::prelude::*;

use crate::numbers;
use crate::strings;

verus! {

/// The group id on one line of a group file, when the line is about `name`.
pub open spec fn gid_on_line(line: Seq<char>, name: Seq<char>) -> Option<u32> {
    let parts = strings::split(line, ':');
    if parts.len() >= 3 && parts[0] == name {
        numbers::u32_of(parts[2])
    } else {
        None
    }
}

/// The group id on the first of `lines` that gives one for `name`.
pub open spec fn gid_in_lines(lines: Seq<Seq<char>>, name: Seq<char>) -> Option<u32>
    decreases lines.len(),
{
    if lines.len() == 0 {
        None
    } else {
        match gid_in_lines(lines.drop_last(), name) {
            Some(g) => Some(g),
            None => gid_on_line(lines.last(), name),
        }
    }
}

fn gid_of_line(line: &str, name: &str) -> (r: Option<u32>)
    ensures
        r == gid_on_line(line@, name@),
{
    let parts = strings::split_at_char(line, ':');
    let ghost texts = strings::texts(parts@);
    if parts.len() < 3 {
        return None;
    }
    assert(texts[0] == parts[0]@);
    assert(texts[2] == parts[2]@);
    if *parts[0].as_str() == *name {
        numbers::parse_u32(parts[2].as_str())
    } else {
        None
    }
}

/// The id of a group, from the text of a group file.
pub fn group_gid(groups: &str, name: &str) -> (r: Option<u32>)
    ensures
        r == gid_in_lines(strings::lines(groups@), name@),
{
    let lines = strings::split_lines(groups);
    let ghost all = strings::texts(lines@);
    for i in 0..lines.len()
        invariant
            all == strings::texts(lines@),
            all == strings::lines(groups@),
            gid_in_lines(all.take(i as int), name@) is None,
    {
        let g = gid_of_line(lines[i].as_str(), name);
        proof {
            assert(all.take(i + 1).drop_last() =~= all.take(i as int));
            assert(all.take(i + 1).last() == lines[i as int]@);
        }
        if g.is_some() {
            proof {
                lemma_gid_stays(all, i + 1, name@);
            }
            return g;
        }
    }
    assert(all.take(lines.len() as int) =~= all);
    None
}

proof fn lemma_gid_stays(lines: Seq<Seq<char>>, k: int, name: Seq<char>)
    requires
        0 <= k <= lines.len(),
        gid_in_lines(lines.take(k), name) is Some,
    ensures
        gid_in_lines(lines, name) == gid_in_lines(lines.take(k), name),
    decreases lines.len() - k,
{
    if k < lines.len() {
        assert(lines.take(k + 1).drop_last() =~= lines.take(k));
        lemma_gid_stays(lines, k + 1, name);
    } else {
        assert(lines.take(k) =~= lines);
    }
}

/// What is wrong with the membership in a group; nothing when it is in order.
pub open spec fn group_problem(name: Seq<char>, gid: Option<u32>, active: Seq<u32>) -> Option<
    Seq<char>,
> {
    match gid {
        None => Some("group "@ + strings::debug_text(name) + " does not exist"@),
        Some(g) => if active.contains(g) {
            None
        } else {
            Some("current process is not in group "@ + strings::debug_text(name))
        },
    }
}

fn contains_gid(v: &Vec<u32>, g: u32) -> (b: bool)
    ensures
        b == v@.contains(g),
{
    for i in 0..v.len()
        invariant
            forall|j: int| 0 <= j < i ==> v@[j] != g,
    {
        if v[i] == g {
            assert(v@[i as int] == g);
            return true;
        }
    }
    false
}

/// The process must be in group `name`, whose id is `gid`.
pub fn require_active_group(name: &str, gid: Option<u32>, active: &Vec<u32>) -> (r: Result<
    (),
    String,
>)
    ensures
        match r {
            Ok(()) => group_problem(name@, gid, active@) is None,
            Err(e) => group_problem(name@, gid, active@) == Some(e@),
        },
{
    match gid {
        None => {
            let mut e = "group ".to_owned();
            let quoted = strings::to_debug_text(name);
            e.push_str(quoted.as_str());
            e.push_str(" does not exist");
            Err(e)
        },
        Some(g) => if contains_gid(active, g) {
            Ok(())
        } else {
            let mut e = "current process is not in group ".to_owned();
            let quoted = strings::to_debug_text(name);
            e.push_str(quoted.as_str());
            Err(e)
        },
    }
}

/// Whether a directory entry is an input event device.
pub fn is_event_device(name: &str) -> (b: bool)
    ensures
        b == strings::has_prefix(name@, "event"@),
{
    strings::strip_prefix(name, "event").is_some()
}

/// An entry of the input-device directory, and whether it could be opened.
pub struct DeviceEntry {
    pub name: String,
    pub readable: bool,
}

/// Entry `i` is an event device.
pub open spec fn event_entry(d: DeviceEntry) -> bool {
    strings::has_prefix(d.name@, "event"@)
}

/// Some event device must be readable.
pub fn check_input_access(entries: &Vec<DeviceEntry>) -> (r: Result<(), String>)
    ensures
        r is Ok <==> exists|i: int|
            0 <= i < entries@.len() && event_entry(#[trigger] entries@[i]) && entries@[i].readable,
        r matches Err(e) ==> e@ == if exists|i: int|
            0 <= i < entries@.len() && event_entry(#[trigger] entries@[i]) {
            "no readable /dev/input/event* device found"@
        } else {
            "no /dev/input/event* devices found"@
        },
{
    let mut saw_event = false;
    for i in 0..entries.len()
        invariant
            forall|j: int| 0 <= j < i ==> !(event_entry(#[trigger] entries@[j]) && entries@[j].readable),
            saw_event == exists|j: int| 0 <= j < i && event_entry(#[trigger] entries@[j]),
    {
        if is_event_device(entries[i].name.as_str()) {
            assert(event_entry(entries@[i as int]));
            if entries[i].readable {
                return Ok(());
            }
            saw_event = true;
        }
    }
    if saw_event {
        Err("no readable /dev/input/event* device found".to_owned())
    } else {
        Err("no /dev/input/event* devices found".to_owned())
    }
}

/// All problems in one report.
pub fn preflight_report(problems: &Vec<String>) -> (r: Result<(), String>)
    ensures
        r is Ok <==> problems@.len() == 0,
        r matches Err(e) ==> e@ == "evdev grab preflight failed: "@ + strings::joined(
            strings::texts(problems@),
            "; "@,
        )
            + ". Add your user to input and uinput, ensure /dev/uinput exists, then log out/in."@,
{
    if problems.len() == 0 {
        return Ok(());
    }
    let mut e = "evdev grab preflight failed: ".to_owned();
    let list = strings::join(problems, "; ");
    e.push_str(list.as_str());
    e.push_str(
        ". Add your user to input and uinput, ensure /dev/uinput exists, then log out/in.",
    );
    Err(e)
}

/// The checks that were made before a grab, each with its outcome.
pub struct PreflightChecks {
    pub input_group: Result<(), String>,
    pub uinput_group: Result<(), String>,
    pub uinput_access: Result<(), String>,
    pub input_access: Result<(), String>,
}

/// The error of a check, as a list of at most one text.
pub open spec fn problem_of(r: Result<(), String>) -> Seq<Seq<char>> {
    match r {
        Ok(()) => Seq::empty(),
        Err(e) => seq![e@],
    }
}

fn note_problem(problems: &mut Vec<String>, r: Result<(), String>)
    ensures
        strings::texts(final(problems)@) == strings::texts(old(problems)@) + problem_of(r),
{
    let ghost start = strings::texts(problems@);
    match r {
        Ok(()) => {
            assert(start + Seq::<Seq<char>>::empty() =~= start);
        },
        Err(e) => {
            problems.push(e);
            assert(strings::texts(problems@) =~= start + seq![e@]);
        },
    }
}

/// The report on failed checks: all problems, in order; `None` where every check
/// passed.
pub open spec fn report_of(checks: PreflightChecks) -> Option<Seq<char>> {
    let problems = problem_of(checks.input_group) + problem_of(checks.uinput_group) + problem_of(
        checks.uinput_access,
    ) + problem_of(checks.input_access);
    if problems.len() == 0 {
        None
    } else {
        Some(
            "evdev grab preflight failed: "@ + strings::joined(problems, "; "@)
                + ". Add your user to input and uinput, ensure /dev/uinput exists, then log out/in."@,
        )
    }
}

/// Whether every check passed; otherwise all problems, in order.
pub fn check(checks: PreflightChecks) -> (r: Result<(), String>)
    ensures
        r is Ok <==> report_of(checks) is None,
        r matches Err(e) ==> report_of(checks) == Some(e@),
{
    let mut problems: Vec<String> = Vec::new();
    assert(strings::texts(problems@) =~= Seq::<Seq<char>>::empty());
    note_problem(&mut problems, checks.input_group);
    assert(strings::texts(problems@) =~= problem_of(checks.input_group));
    note_problem(&mut problems, checks.uinput_group);
    note_problem(&mut problems, checks.uinput_access);
    note_problem(&mut problems, checks.input_access);
    assert(strings::texts(problems@).len() == problems@.len());
    preflight_report(&problems)
}

/// What the user is told when the checks fail: the report, and what helps.
pub open spec fn notice_of(report: Seq<char>) -> Seq<char> {
    report + "\n\nTry: sudo usermod -aG input,uinput $USER; then log out and back in."@
}

/// Whether every check passed; otherwise the report, and the notice for the user.
pub fn check_or_notify(checks: PreflightChecks) -> (r: (Result<(), String>, Option<String>))
    ensures
        r.0 is Ok <==> report_of(checks) is None,
        r.0 matches Err(e) ==> report_of(checks) == Some(e@),
        r.1 is Some <==> r.0 is Err,
        r.1 matches Some(n) ==> n@ == notice_of(report_of(checks)->0),
{
    match check(checks) {
        Ok(()) => (Ok(()), None),
        Err(e) => {
            let mut notice = e.clone();
            notice.push_str(
                "\n\nTry: sudo usermod -aG input,uinput $USER; then log out and back in.",
            );
            (Err(e), Some(notice))
        },
    }
}

/// A report says every problem there is, in order, and there is none where nothing is
/// wrong.
pub proof fn law_reports_say_every_problem(c: PreflightChecks)
    ensures
        report_of(c) is None <==> c.input_group is Ok && c.uinput_group is Ok && c.uinput_access
            is Ok && c.input_access is Ok,
        ({
            let p = problem_of(c.input_group) + problem_of(c.uinput_group) + problem_of(
                c.uinput_access,
            ) + problem_of(c.input_access);
            report_of(c) matches Some(t) ==> strings::has_prefix(
                t,
                "evdev grab preflight failed: "@ + strings::joined(p, "; "@),
            )
        }),
        forall|r: Result<(), String>|
            r is Err ==> #[trigger] problem_of(r) == seq![r->Err_0@],
{
    let p = problem_of(c.input_group) + problem_of(c.uinput_group) + problem_of(c.uinput_access)
        + problem_of(c.input_access);
    if p.len() > 0 {
        let front = "evdev grab preflight failed: "@ + strings::joined(p, "; "@);
        let t = report_of(c)->0;
        assert(t.take(front.len() as int) =~= front);
    }
}

/// To be in a group is to have its number; a group without one does not exist.
pub proof fn law_group_members_have_its_number(name: Seq<char>, gid: Option<u32>, active: Seq<u32>)
    ensures
        group_problem(name, gid, active) is None <==> gid is Some && active.contains(gid->0),
{
}

/// A group's number stands third on the first line that is the group's and holds one.
pub proof fn law_numbers_stand_third(
    name: Seq<char>,
    second: Seq<char>,
    number: Seq<char>,
    more: Seq<Seq<char>>,
)
    ensures
        ({
            let parts = seq![name, second, number] + more;
            (forall|i: int| 0 <= i < parts.len() ==> !(#[trigger] parts[i]).contains(':'))
                ==> gid_on_line(strings::joined(parts, seq![':']), name) == numbers::u32_of(number)
        }),
        forall|lines: Seq<Seq<char>>, line: Seq<char>|
            #[trigger] gid_in_lines(lines.push(line), name) == if gid_in_lines(lines, name) is Some {
                gid_in_lines(lines, name)
            } else {
                gid_on_line(line, name)
            },
{
    let parts = seq![name, second, number] + more;
    if forall|i: int| 0 <= i < parts.len() ==> !(#[trigger] parts[i]).contains(':') {
        strings::law_split_undoes_join(parts, ':');
    }
    assert forall|lines: Seq<Seq<char>>, line: Seq<char>| #[trigger]
        gid_in_lines(lines.push(line), name) == if gid_in_lines(lines, name) is Some {
        gid_in_lines(lines, name)
    } else {
        gid_on_line(line, name)
    } by {
        assert(lines.push(line).drop_last() =~= lines);
    }
}

} // verus!
