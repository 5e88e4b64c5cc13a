//! A client's text, as the protocols change it.
//!
//! A [`Client`] does what a text field does with the requests that reach it. What an edit
//! is for is said in these terms: which text it leaves in the field.
use vstd::prelude::*;

use crate::edit;
use crate::edit::forward_key;
use crate::edit::shadow;
use crate::edit::shadow::Shadow;
use crate::edit::surrounding;
use crate::edit::vk_only;
use crate::edit::{BackspaceMethod, Channels, DeleteUnit, KeyState, SinkCall};
use crate::ibus::engine;
use crate::ibus::engine::Sent;
use crate::ibus::sink;
use crate::ibus::sink::PendingDelete;
use crate::text;
use crate::words;

verus! {

/// The text of a field in front of the cursor, what is selected, and the text behind;
/// and what a text-input request has asked for and not committed yet.
pub struct Client {
    pub before: Seq<char>,
    pub selected: Seq<char>,
    pub after: Seq<char>,
    pub delete_before: nat,
    pub delete_after: nat,
    pub insert: Seq<char>,
}

/// A client at rest: nothing waits to be committed.
pub open spec fn at_rest(c: Client) -> bool {
    c.delete_before == 0 && c.delete_after == 0 && c.insert.len() == 0
}

/// Backspace: what is selected goes, or else the character in front of the cursor.
pub open spec fn erased(c: Client) -> Client {
    if c.selected.len() > 0 {
        Client { selected: Seq::empty(), ..c }
    } else if c.before.len() > 0 {
        Client { before: c.before.drop_last(), ..c }
    } else {
        c
    }
}

/// A text comes in at the cursor, in the place of what is selected.
pub open spec fn inserted(c: Client, t: Seq<char>) -> Client {
    Client { before: c.before + t, selected: Seq::empty(), ..c }
}

/// A text without the characters that make up its last `n` bytes.
pub open spec fn without_last_bytes(s: Seq<char>, n: int) -> Seq<char>
    decreases s.len(),
{
    if s.len() == 0 || n <= 0 {
        s
    } else {
        without_last_bytes(s.drop_last(), n - text::char_width(s.last()))
    }
}

/// A text without its last `n` units: bytes, or characters where the client counts those.
pub open spec fn without_last(s: Seq<char>, n: nat, unit: DeleteUnit) -> Seq<char> {
    match unit {
        DeleteUnit::Bytes => without_last_bytes(s, n as int),
        DeleteUnit::Chars => if n <= s.len() {
            s.take(s.len() - n)
        } else {
            Seq::empty()
        },
    }
}

/// A text without the characters that make up its first `n` bytes.
pub open spec fn without_first_bytes(s: Seq<char>, n: int) -> Seq<char>
    decreases s.len(),
{
    if s.len() == 0 || n <= 0 {
        s
    } else {
        without_first_bytes(s.drop_first(), n - text::char_width(s.first()))
    }
}

/// A text without its first `n` units.
pub open spec fn without_first(s: Seq<char>, n: nat, unit: DeleteUnit) -> Seq<char> {
    match unit {
        DeleteUnit::Bytes => without_first_bytes(s, n as int),
        DeleteUnit::Chars => if n <= s.len() {
            s.skip(n as int)
        } else {
            Seq::empty()
        },
    }
}

/// What was asked for takes effect: the deletion first, then the text.
pub open spec fn committed(c: Client, unit: DeleteUnit) -> Client {
    let d = Client {
        before: without_last(c.before, c.delete_before, unit),
        after: without_first(c.after, c.delete_after, unit),
        delete_before: 0,
        delete_after: 0,
        insert: Seq::empty(),
        ..c
    };
    if c.insert.len() > 0 {
        inserted(d, c.insert)
    } else {
        d
    }
}

/// One request reaches the client, which expects `serial` and measures deletions in
/// `unit`.
pub open spec fn received(c: Client, serial: u32, unit: DeleteUnit, call: SinkCall) -> Client {
    match call {
        SinkCall::DeleteSurroundingText { before_bytes, before_chars, after_bytes, after_chars } => {
            Client { delete_before: before_bytes as nat, delete_after: after_bytes as nat, ..c }
        },
        SinkCall::CommitString(t) => Client { insert: t, ..c },
        SinkCall::Commit(n) => if n == serial {
            committed(c, unit)
        } else {
            c
        },
        SinkCall::VkKey { time, key_code, state } => if key_code == 14 && state
            == KeyState::Pressed {
            erased(c)
        } else {
            c
        },
        SinkCall::VkModifiers { .. } => c,
        SinkCall::VkCommitChar { time, c: ch } => inserted(c, seq![ch]),
        SinkCall::CommitViaKeysym { serial: n, time, text } => inserted(c, text),
    }
}

/// Requests reach the client one after the other.
pub open spec fn ran(c: Client, serial: u32, unit: DeleteUnit, calls: Seq<SinkCall>) -> Client
    decreases calls.len(),
{
    if calls.len() == 0 {
        c
    } else {
        received(ran(c, serial, unit, calls.drop_last()), serial, unit, calls.last())
    }
}

/// The client once its last `n` characters in front of the cursor gave way to a text.
pub open spec fn replaced(c: Client, n: nat, t: Seq<char>) -> Client {
    Client { before: c.before.take(c.before.len() - n) + t, selected: Seq::empty(), ..c }
}

/// `tail` stands at the end of `s`.
pub open spec fn ends_with(s: Seq<char>, tail: Seq<char>) -> bool {
    tail.len() <= s.len() && s.skip(s.len() - tail.len()) == tail
}

proof fn lemma_ran_concat(
    c: Client,
    serial: u32,
    unit: DeleteUnit,
    a: Seq<SinkCall>,
    b: Seq<SinkCall>,
)
    ensures
        ran(c, serial, unit, a + b) == ran(ran(c, serial, unit, a), serial, unit, b),
    decreases b.len(),
{
    if b.len() == 0 {
        assert(a + b =~= a);
    } else {
        assert((a + b).drop_last() =~= a + b.drop_last());
        lemma_ran_concat(c, serial, unit, a, b.drop_last());
    }
}

proof fn lemma_ran_push(c: Client, serial: u32, unit: DeleteUnit, a: Seq<SinkCall>, x: SinkCall)
    ensures
        ran(c, serial, unit, a.push(x)) == received(ran(c, serial, unit, a), serial, unit, x),
{
    assert(a.push(x).drop_last() =~= a);
}

proof fn lemma_ran_backspaces(c: Client, serial: u32, unit: DeleteUnit, time: u32, n: nat)
    requires
        c.selected.len() == 0,
        n <= c.before.len(),
    ensures
        ran(c, serial, unit, edit::backspace_calls(time, n)) == (Client {
            before: c.before.take(c.before.len() - n),
            ..c
        }),
    decreases n,
{
    if n == 0 {
        assert(c.before.take(c.before.len() as int) =~= c.before);
    } else {
        let m = (n - 1) as nat;
        let rest = edit::backspace_calls(time, m);
        let press = SinkCall::VkKey { time, key_code: 14, state: KeyState::Pressed };
        let release = SinkCall::VkKey { time, key_code: 14, state: KeyState::Released };
        lemma_ran_backspaces(c, serial, unit, time, m);
        lemma_ran_push(c, serial, unit, rest, press);
        lemma_ran_push(c, serial, unit, rest.push(press), release);
        assert(c.before.take(c.before.len() - m).drop_last() =~= c.before.take(
            c.before.len() - n,
        ));
    }
}

proof fn lemma_ran_typed(c: Client, serial: u32, unit: DeleteUnit, time: u32, t: Seq<char>)
    requires
        c.selected.len() == 0,
    ensures
        ran(c, serial, unit, forward_key::typed_calls(time, t)) == (Client {
            before: c.before + t,
            ..c
        }),
    decreases t.len(),
{
    let calls = forward_key::typed_calls(time, t);
    if t.len() == 0 {
        assert(calls.len() == 0);
        assert(c.before + t =~= c.before);
    } else {
        lemma_ran_typed(c, serial, unit, time, t.drop_last());
        assert(calls.drop_last() =~= forward_key::typed_calls(time, t.drop_last()));
        assert(calls.last() == forward_key::typed_call(time, t.last()));
        assert(c.before + t.drop_last() + seq![t.last()] =~= c.before + t);
        assert(c.selected =~= Seq::<char>::empty());
    }
}

proof fn lemma_ran_committed(
    c: Client,
    serial: u32,
    unit: DeleteUnit,
    ch: Channels,
    t: Seq<char>,
    time: u32,
)
    requires
        c.selected.len() == 0,
        at_rest(c),
    ensures
        ran(c, serial, unit, forward_key::committed_calls(ch, t, serial, time)) == (Client {
            before: c.before + t,
            ..c
        }),
{
    assert(c.selected =~= Seq::<char>::empty());
    assert(c.insert =~= Seq::<char>::empty());
    assert(c.after.skip(0) =~= c.after);
    let none = Seq::<SinkCall>::empty();
    if ch.keysyms.contains(t) {
        let one = SinkCall::CommitViaKeysym { serial, time, text: t };
        assert(forward_key::committed_calls(ch, t, serial, time) =~= none.push(one));
        lemma_ran_push(c, serial, unit, none, one);
    } else {
        let text = SinkCall::CommitString(t);
        let done = SinkCall::Commit(serial);
        assert(forward_key::committed_calls(ch, t, serial, time) =~= none.push(text).push(done));
        lemma_ran_push(c, serial, unit, none, text);
        lemma_ran_push(c, serial, unit, none.push(text), done);
        assert(c.before.take(c.before.len() as int) =~= c.before);
        if t.len() == 0 {
            assert(c.before + t =~= c.before);
            assert(t =~= Seq::<char>::empty());
        }
    }
}

/// The bytes of the last characters of a text are those characters.
proof fn lemma_last_bytes(s: Seq<char>, n: nat)
    requires
        n <= s.len(),
    ensures
        without_last_bytes(s, text::utf8_len(s.skip(s.len() - n)) as int) == s.take(s.len() - n),
    decreases n,
{
    let tail = s.skip(s.len() - n);
    if n == 0 {
        assert(tail =~= Seq::<char>::empty());
        assert(s.take(s.len() as int) =~= s);
    } else {
        lemma_last_bytes(s.drop_last(), (n - 1) as nat);
        assert(tail.drop_last() =~= s.drop_last().skip(s.drop_last().len() - (n - 1)));
        assert(s.drop_last().take(s.drop_last().len() - (n - 1)) =~= s.take(s.len() - n));
    }
}

proof fn lemma_tail_of_tail(s: Seq<char>, tail: Seq<char>, n: nat)
    requires
        ends_with(s, tail),
        n <= tail.len(),
    ensures
        s.skip(s.len() - n) == tail.skip(tail.len() - n),
        ends_with(s.take(s.len() - n), tail.take(tail.len() - n)),
{
    let d = s.len() - tail.len();
    assert forall|i: int| 0 <= i < tail.len() implies s[d + i] == #[trigger] tail[i] by {
        assert(s.skip(d)[i] == s[d + i]);
    }
    assert(s.skip(s.len() - n) =~= tail.skip(tail.len() - n));
    assert(s.take(s.len() - n).skip(d) =~= tail.take(tail.len() - n));
}

pub proof fn lemma_ends_with_more(s: Seq<char>, tail: Seq<char>, t: Seq<char>)
    requires
        ends_with(s, tail),
    ensures
        ends_with(s + t, tail + t),
{
    let d = s.len() - tail.len();
    assert forall|i: int| 0 <= i < tail.len() implies s[d + i] == #[trigger] tail[i] by {
        assert(s.skip(d)[i] == s[d + i]);
    }
    assert((s + t).skip(d) =~= tail + t);
}

/// The text in front of the client's cursor ends with the shadow, and nothing is selected.
pub open spec fn in_step(c: Client, s: Shadow) -> bool {
    at_rest(c) && c.selected.len() == 0 && !shadow::selects(s) && ends_with(c.before, s.text)
}

/// An edit does its work: whatever the tier, the last `backspaces` characters in front of
/// the client's cursor give way to the replacement, and nothing else changes. The shadow
/// keeps in step. (On the tier that only types, the sink has to have the keys.)
pub proof fn law_edit_replaces_text(
    ch: Channels,
    method: BackspaceMethod,
    s: Shadow,
    backspaces: usize,
    commit: Seq<char>,
    serial: u32,
    time: u32,
    unit: DeleteUnit,
    c: Client,
)
    requires
        in_step(c, s),
        backspaces <= s.text.len(),
        text::utf8_len(s.text) <= u32::MAX,
        method == BackspaceMethod::VkOnly ==> forall|i: int|
            0 <= i < commit.len() ==> ch.keys.contains(#[trigger] commit[i]),
    ensures
        ran(
            c,
            serial,
            unit,
            edit::tier_calls(ch, method, s, backspaces, commit, serial, time, unit),
        ) == replaced(c, backspaces as nat, commit),
        in_step(
            replaced(c, backspaces as nat, commit),
            edit::tier_shadow(method, s, backspaces, commit),
        ),
{
    let n = backspaces as nat;
    lemma_tail_of_tail(c.before, s.text, n);
    lemma_ends_with_more(
        c.before.take(c.before.len() - n),
        s.text.take(s.text.len() - n),
        commit,
    );
    assert(c.selected =~= Seq::<char>::empty());
    assert(words::chars_dropped(s.text, n) == s.text.take(s.text.len() - n));
    match method {
        BackspaceMethod::SurroundingText => {
            lemma_surrounding(s, backspaces, commit, serial, time, unit, c);
        },
        BackspaceMethod::ForwardKey => {
            law_forwarded_edit_replaces_text(
                ch,
                s,
                backspaces,
                commit,
                serial,
                time,
                false,
                unit,
                c,
            );
        },
        BackspaceMethod::VkOnly => {
            let head = edit::backspace_calls(time, n);
            vk_only::lemma_char_calls(ch.keys, time, commit);
            let typed = forward_key::typed_calls(time, commit);
            lemma_ran_backspaces(c, serial, unit, time, n);
            lemma_ran_concat(c, serial, unit, head, typed);
            lemma_ran_typed(ran(c, serial, unit, head), serial, unit, time, commit);
        },
    }
}

/// The same for an edit that goes out as Backspace keys whatever the tier.
pub proof fn law_forwarded_edit_replaces_text(
    ch: Channels,
    s: Shadow,
    backspaces: usize,
    commit: Seq<char>,
    serial: u32,
    time: u32,
    key_channel: bool,
    unit: DeleteUnit,
    c: Client,
)
    requires
        in_step(c, s),
        backspaces <= s.text.len(),
    ensures
        ran(
            c,
            serial,
            unit,
            forward_key::calls(ch, backspaces, commit, serial, time, key_channel),
        ) == replaced(c, backspaces as nat, commit),
        in_step(
            replaced(c, backspaces as nat, commit),
            forward_key::shadow_after(s, backspaces, commit),
        ),
{
    let n = backspaces as nat;
    lemma_tail_of_tail(c.before, s.text, n);
    lemma_ends_with_more(
        c.before.take(c.before.len() - n),
        s.text.take(s.text.len() - n),
        commit,
    );
    assert(c.selected =~= Seq::<char>::empty());
    assert(words::chars_dropped(s.text, n) == s.text.take(s.text.len() - n));
    let head = edit::backspace_calls(time, n);
    let rest = forward_key::replacement(ch, commit, serial, time, key_channel);
    lemma_ran_backspaces(c, serial, unit, time, n);
    lemma_ran_concat(c, serial, unit, head, rest);
    let mid = ran(c, serial, unit, head);
    if key_channel && forward_key::typable(ch, commit) {
        lemma_ran_typed(mid, serial, unit, time, commit);
    } else {
        lemma_ran_committed(mid, serial, unit, ch, commit, time);
    }
}

proof fn lemma_surrounding(
    s: Shadow,
    backspaces: usize,
    commit: Seq<char>,
    serial: u32,
    time: u32,
    unit: DeleteUnit,
    c: Client,
)
    requires
        in_step(c, s),
        backspaces <= s.text.len(),
        text::utf8_len(s.text) <= u32::MAX,
    ensures
        ran(c, serial, unit, surrounding::calls(s, backspaces, commit, serial, time, unit))
            == replaced(c, backspaces as nat, commit),
{
    let n = backspaces as nat;
    let none = Seq::<SinkCall>::empty();
    let cut = s.text.len() - n;
    lemma_tail_of_tail(c.before, s.text, n);
    lemma_last_bytes(c.before, n);
    assert(s.text =~= s.text.take(cut) + s.text.skip(cut));
    text::lemma_utf8_len_concat(s.text.take(cut), s.text.skip(cut));
    text::lemma_utf8_len_take(s.text, 0, s.text.len() as int);
    assert(s.text.take(s.text.len() as int) =~= s.text);
    assert(shadow::tail_bytes(s.text, n) == text::utf8_len(c.before.skip(c.before.len() - n)));
    let all = surrounding::calls(s, backspaces, commit, serial, time, unit);
    let delete = all[0];
    let text = SinkCall::CommitString(commit);
    let done = SinkCall::Commit(serial);
    assert(all =~= none.push(delete).push(text).push(done));
    lemma_ran_push(c, serial, unit, none, delete);
    lemma_ran_push(c, serial, unit, none.push(delete), text);
    lemma_ran_push(c, serial, unit, none.push(delete).push(text), done);
    assert(c.selected =~= Seq::<char>::empty());
    assert(c.insert =~= Seq::<char>::empty());
    assert(c.after.skip(0) =~= c.after);
    if commit.len() == 0 {
        assert(c.before.take(c.before.len() - n) + commit =~= c.before.take(c.before.len() - n));
    }
}

/// What is selected at the client is what the shadow takes to be selected, on one side
/// of the cursor or the other.
pub open spec fn selection_in_step(c: Client, s: Shadow) -> bool {
    &&& at_rest(c)
    &&& c.selected.len() > 0
    &&& if s.selected_before_chars > 0 {
        &&& s.selected_before_chars == c.selected.len()
        &&& ends_with(c.before + c.selected, s.text)
        &&& s.selected_before_chars <= s.text.len()
    } else {
        s.selected_after_chars == c.selected.len() && ends_with(c.before, s.text)
    }
}

proof fn lemma_ran_backspaces_selected(
    c: Client,
    serial: u32,
    unit: DeleteUnit,
    time: u32,
    n: nat,
)
    requires
        c.selected.len() > 0,
        0 < n <= c.before.len() + 1,
    ensures
        ran(c, serial, unit, edit::backspace_calls(time, n)) == (Client {
            before: c.before.take(c.before.len() - (n - 1)),
            selected: Seq::empty(),
            ..c
        }),
    decreases n,
{
    let m = (n - 1) as nat;
    let rest = edit::backspace_calls(time, m);
    let press = SinkCall::VkKey { time, key_code: 14, state: KeyState::Pressed };
    let release = SinkCall::VkKey { time, key_code: 14, state: KeyState::Released };
    lemma_ran_push(c, serial, unit, rest, press);
    lemma_ran_push(c, serial, unit, rest.push(press), release);
    if m == 0 {
        assert(c.before.take(c.before.len() as int) =~= c.before);
    } else {
        lemma_ran_backspaces_selected(c, serial, unit, time, m);
        assert(c.before.take(c.before.len() - (m - 1)).drop_last() =~= c.before.take(
            c.before.len() - (n - 1),
        ));
    }
}

/// With a selection, which a client may have made by completing a word, an edit clears
/// the selection and then does its work on the text in front of it.
pub proof fn law_edit_clears_selection(
    ch: Channels,
    s: Shadow,
    backspaces: usize,
    commit: Seq<char>,
    serial: u32,
    time: u32,
    unit: DeleteUnit,
    c: Client,
)
    requires
        selection_in_step(c, s),
        backspaces < usize::MAX,
        backspaces + s.selected_before_chars <= s.text.len() <= usize::MAX,
    ensures
        ran(
            c,
            serial,
            unit,
            edit::tier_calls(
                ch,
                BackspaceMethod::SurroundingText,
                s,
                backspaces,
                commit,
                serial,
                time,
                unit,
            ),
        ) == replaced(c, backspaces as nat, commit),
        in_step(
            replaced(c, backspaces as nat, commit),
            edit::tier_shadow(BackspaceMethod::SurroundingText, s, backspaces, commit),
        ),
{
    let n = backspaces as nat;
    let k = s.selected_before_chars as nat;
    let head = edit::backspace_calls(time, n + 1);
    let text = SinkCall::CommitString(commit);
    let done = SinkCall::Commit(serial);
    let whole = if k > 0 {
        c.before + c.selected
    } else {
        c.before
    };
    lemma_tail_of_tail(whole, s.text, n + k);
    assert(whole.take(whole.len() - (n + k)) =~= c.before.take(c.before.len() - n));
    lemma_ends_with_more(
        c.before.take(c.before.len() - n),
        s.text.take(s.text.len() - (n + k)),
        commit,
    );
    assert(words::chars_dropped(s.text, n + k) == s.text.take(s.text.len() - (n + k)));
    lemma_ran_backspaces_selected(c, serial, unit, time, n + 1);
    lemma_ran_push(c, serial, unit, head, text);
    lemma_ran_push(c, serial, unit, head.push(text), done);
    assert(c.insert =~= Seq::<char>::empty());
    assert(c.after.skip(0) =~= c.after);
    let cut = c.before.take(c.before.len() - n);
    assert(cut.take(cut.len() as int) =~= cut);
    if commit.len() == 0 {
        assert(cut + commit =~= cut);
    }
}

/// A frame that reports a client's text brings the shadow in step with it: the cursor
/// and the anchor are the bytes in front of them.
pub proof fn law_frames_bring_the_shadow_in_step(c: Client, cursor: u32, anchor: u32)
    requires
        at_rest(c),
        cursor == text::utf8_len(c.before + c.selected),
        anchor == text::utf8_len(c.before),
        c.selected.len() <= usize::MAX,
    ensures
        ({
            let s = shadow::synced(c.before + c.selected + c.after, cursor, anchor);
            &&& s.text == c.before + c.selected
            &&& c.selected.len() == 0 ==> in_step(c, s)
            &&& c.selected.len() > 0 ==> selection_in_step(c, s)
        }),
{
    let front = c.before + c.selected;
    let all = front + c.after;
    lemma_chars_within_front(c.before, c.selected + c.after);
    assert(c.before + (c.selected + c.after) =~= all);
    lemma_chars_within_front(front, c.after);
    assert(all.take(front.len() as int) =~= front);
    assert(front.skip(0) =~= front);
    if c.selected.len() == 0 {
        assert(front =~= c.before);
    }
}

/// The same with the cursor in front of what is selected.
pub proof fn law_frames_report_selections_behind_the_cursor(c: Client, cursor: u32, anchor: u32)
    requires
        at_rest(c),
        c.selected.len() > 0,
        cursor == text::utf8_len(c.before),
        anchor == text::utf8_len(c.before + c.selected),
    ensures
        selection_in_step(c, shadow::synced(c.before + c.selected + c.after, cursor, anchor)),
        shadow::synced(c.before + c.selected + c.after, cursor, anchor).text == c.before,
{
    let front = c.before + c.selected;
    let all = front + c.after;
    lemma_chars_within_front(c.before, c.selected + c.after);
    assert(c.before + (c.selected + c.after) =~= all);
    lemma_chars_within_front(front, c.after);
    assert(all.take(c.before.len() as int) =~= c.before);
    assert(c.before.skip(0) =~= c.before);
    text::lemma_utf8_len_take(front, 0, front.len() as int);
    assert(front.take(front.len() as int) =~= front);
}

proof fn lemma_chars_within_front(a: Seq<char>, b: Seq<char>)
    ensures
        text::chars_within(a + b, text::utf8_len(a)) == a.len(),
{
    let s = a + b;
    assert(s.take(a.len() as int) =~= a);
    if b.len() > 0 {
        text::lemma_utf8_len_take(s, a.len() as int, a.len() as int + 1);
    }
    text::lemma_chars_within_unique(s, text::utf8_len(a), a.len() as int);
}

/// The text that requests carry, joined.
pub open spec fn carried(calls: Seq<SinkCall>) -> Seq<char>
    decreases calls.len(),
{
    if calls.len() == 0 {
        Seq::empty()
    } else {
        carried(calls.drop_last()) + match calls.last() {
            SinkCall::CommitString(t) => t,
            SinkCall::VkCommitChar { time, c } => seq![c],
            SinkCall::CommitViaKeysym { serial, time, text } => text,
            _ => Seq::empty(),
        }
    }
}

/// On the tier that only types, the replacement goes out whole and in order, character
/// by character; one that has no key goes out as a text of its own.
pub proof fn law_typed_edit_carries_text(
    keys: Set<char>,
    backspaces: usize,
    commit: Seq<char>,
    time: u32,
)
    ensures
        carried(vk_only::calls(keys, backspaces, commit, time)) == commit,
        vk_only::calls(keys, backspaces, commit, time).len() == 2 * backspaces + commit.len(),
        forall|i: int|
            0 <= i < commit.len() ==> ((#[trigger] vk_only::calls(
                keys,
                backspaces,
                commit,
                time,
            )[2 * backspaces + i]) is VkCommitChar <==> keys.contains(commit[i])),
{
    let head = edit::backspace_calls(time, backspaces as nat);
    let tail = vk_only::char_calls(keys, time, commit);
    edit::law_backspaces_are_paired(time, backspaces as nat);
    lemma_backspaces_carry_nothing(time, backspaces as nat);
    lemma_chars_carried(head, keys, time, commit);
    assert(Seq::<char>::empty() + commit =~= commit);
    assert forall|i: int| 0 <= i < commit.len() implies ((#[trigger] (head + tail)[2 * backspaces
        + i]) is VkCommitChar <==> keys.contains(commit[i])) by {
        assert((head + tail)[2 * backspaces + i] == tail[i]);
        assert(tail[i] == vk_only::char_call(keys, time, commit[i]));
    }
}

proof fn lemma_backspaces_carry_nothing(time: u32, n: nat)
    ensures
        carried(edit::backspace_calls(time, n)) == Seq::<char>::empty(),
    decreases n,
{
    if n > 0 {
        let rest = edit::backspace_calls(time, (n - 1) as nat);
        lemma_backspaces_carry_nothing(time, (n - 1) as nat);
        let all = edit::backspace_calls(time, n);
        assert(all.drop_last().drop_last() =~= rest);
        assert(carried(all.drop_last()) =~= Seq::<char>::empty());
        assert(carried(all) =~= Seq::<char>::empty());
    }
}

proof fn lemma_chars_carried(head: Seq<SinkCall>, keys: Set<char>, time: u32, t: Seq<char>)
    ensures
        carried(head + vk_only::char_calls(keys, time, t)) == carried(head) + t,
    decreases t.len(),
{
    let calls = vk_only::char_calls(keys, time, t);
    if t.len() == 0 {
        assert(head + calls =~= head);
        assert(carried(head) + t =~= carried(head));
    } else {
        lemma_chars_carried(head, keys, time, t.drop_last());
        assert((head + calls).drop_last() =~= head + vk_only::char_calls(
            keys,
            time,
            t.drop_last(),
        ));
        assert((head + calls).last() == vk_only::char_call(keys, time, t.last()));
        assert(carried(head) + t.drop_last() + seq![t.last()] =~= carried(head) + t);
    }
}

/// A deletion covers `before` characters in front of the cursor and `after` behind it,
/// and no others: it starts that many characters before the cursor, and ends that many
/// behind it.
pub proof fn law_deletion_covers_its_range(before: u32, after: u32)
    requires
        before <= i32::MAX,
        before + after <= u32::MAX,
    ensures
        sink::delete_of(before, after).offset == -before,
        sink::delete_of(before, after).offset + sink::delete_of(before, after).n_chars == after,
{
}

/// A deletion that starts `offset` characters from the cursor. One that does not reach
/// the cursor, or goes beyond the text, is not carried out.
pub open spec fn span_deleted(c: Client, d: PendingDelete) -> Client {
    let start = c.before.len() + d.offset;
    let behind = d.offset + d.n_chars;
    if 0 <= start <= c.before.len() && 0 <= behind <= c.after.len() {
        Client { before: c.before.take(start), after: c.after.skip(behind), ..c }
    } else {
        c
    }
}

/// A signal reaches an IBus client. A key event is a press of Backspace by its keyval and
/// by not being marked as a release.
pub open spec fn signalled(c: Client, s: Sent) -> Client {
    match s {
        Sent::DeleteSurroundingText(d) => span_deleted(c, d),
        Sent::ForwardKeyEvent(f) => if f.keyval == 0xff08 && f.state & 0x4000_0000 == 0 {
            erased(c)
        } else {
            c
        },
        Sent::CommitText(t) => inserted(c, t),
    }
}

/// Signals reach an IBus client one after the other.
pub open spec fn heard(c: Client, signals: Seq<Sent>) -> Client
    decreases signals.len(),
{
    if signals.len() == 0 {
        c
    } else {
        signalled(heard(c, signals.drop_last()), signals.last())
    }
}

proof fn lemma_heard_concat(c: Client, a: Seq<Sent>, b: Seq<Sent>)
    ensures
        heard(c, a + b) == heard(heard(c, a), b),
    decreases b.len(),
{
    if b.len() == 0 {
        assert(a + b =~= a);
    } else {
        assert((a + b).drop_last() =~= a + b.drop_last());
        lemma_heard_concat(c, a, b.drop_last());
    }
}

proof fn lemma_heard_one(c: Client, x: Sent)
    ensures
        heard(c, seq![x]) == signalled(c, x),
{
    assert(seq![x].drop_last() =~= Seq::<Sent>::empty());
    assert(heard(c, seq![x].drop_last()) == c);
}

proof fn lemma_backspace_signals(c: Client, f: Seq<sink::PendingForward>, n: nat)
    requires
        c.selected.len() == 0,
        n <= c.before.len(),
        f.len() == 2 * n,
        forall|i: int|
            0 <= i < f.len() ==> #[trigger] f[i] == sink::backspace_event(
                if i % 2 == 0 {
                    KeyState::Pressed
                } else {
                    KeyState::Released
                },
            ),
    ensures
        heard(c, f.map_values(|x: sink::PendingForward| Sent::ForwardKeyEvent(x))) == (Client {
            before: c.before.take(c.before.len() - n),
            ..c
        }),
    decreases n,
{
    let all = f.map_values(|x: sink::PendingForward| Sent::ForwardKeyEvent(x));
    if n == 0 {
        assert(c.before.take(c.before.len() as int) =~= c.before);
    } else {
        let m = (n - 1) as nat;
        let g = f.take(2 * m as int);
        assert forall|i: int| 0 <= i < g.len() implies #[trigger] g[i] == sink::backspace_event(
            if i % 2 == 0 {
                KeyState::Pressed
            } else {
                KeyState::Released
            },
        ) by {
            assert(g[i] == f[i]);
        }
        lemma_backspace_signals(c, g, m);
        let rest = g.map_values(|x: sink::PendingForward| Sent::ForwardKeyEvent(x));
        assert(all.drop_last().drop_last() =~= rest);
        assert(all.last() == Sent::ForwardKeyEvent(f[2 * n - 1]));
        assert(all.drop_last().last() == Sent::ForwardKeyEvent(f[2 * n - 2]));
        assert(forall|i: int| 0 <= i < g.len() ==> g[i] == f[i]);
        assert(f[2 * n - 2] == sink::backspace_event(KeyState::Pressed));
        assert(f[2 * n - 1] == sink::backspace_event(KeyState::Released));
        assert(0x0200_0000u32 & 0x4000_0000u32 == 0) by (bit_vector);
        assert((0x0200_0000u32 | 0x4000_0000u32) & 0x4000_0000u32 != 0) by (bit_vector);
        assert(c.before.take(c.before.len() - m).drop_last() =~= c.before.take(
            c.before.len() - n,
        ));
        let mid = heard(c, rest);
        assert(heard(c, all.drop_last()) == signalled(mid, all.drop_last().last()));
        assert(heard(c, all) == signalled(heard(c, all.drop_last()), all.last()));
    }
}

/// An edit does its work on an IBus client, on either tier that IBus has: the last
/// `backspaces` characters in front of the cursor give way to the replacement, and
/// nothing behind the cursor is touched.
pub proof fn law_ibus_edit_replaces_text(
    method: BackspaceMethod,
    s: Shadow,
    backspaces: usize,
    commit: Seq<char>,
    serial: u32,
    time: u32,
    unit: DeleteUnit,
    c: Client,
)
    requires
        in_step(c, s),
        backspaces <= s.text.len(),
        backspaces <= i32::MAX,
        method != BackspaceMethod::VkOnly,
    ensures
        heard(
            c,
            engine::signals_of(
                sink::emitted(
                    edit::tier_calls(
                        sink::no_channels(),
                        method,
                        s,
                        backspaces,
                        commit,
                        serial,
                        time,
                        unit,
                    ),
                ),
            ),
        ) == replaced(c, backspaces as nat, commit),
{
    let n = backspaces as nat;
    let calls = edit::tier_calls(
        sink::no_channels(),
        method,
        s,
        backspaces,
        commit,
        serial,
        time,
        unit,
    );
    let none = Seq::<SinkCall>::empty();
    let text = SinkCall::CommitString(commit);
    let done = SinkCall::Commit(serial);
    let head = if method == BackspaceMethod::SurroundingText {
        none.push(calls[0])
    } else {
        edit::backspace_calls(time, n)
    };
    assert(calls =~= head.push(text).push(done));
    assert(calls.drop_last() =~= head.push(text));
    assert(head.push(text).drop_last() =~= head);
    let e = sink::emitted(head);
    if method == BackspaceMethod::SurroundingText {
        assert(head.drop_last() =~= none);
        assert(head.last() == calls[0]);
        assert(sink::emitted(none) == sink::nothing());
        assert(e == sink::with_call(sink::emitted(head.drop_last()), head.last()));
        assert(shadow::delete_span(s, backspaces).1 == backspaces as u32);
        assert(calls[0] matches SinkCall::DeleteSurroundingText {
            before_bytes,
            before_chars,
            after_bytes,
            after_chars,
        } && before_chars == backspaces as u32 && after_chars == 0);
        assert(e.deletes =~= seq![sink::delete_of(backspaces as u32, 0)]);
        assert(e.forwards =~= Seq::<sink::PendingForward>::empty());
        law_deletion_covers_its_range(backspaces as u32, 0);
    } else {
        crate::ibus::laws::law_backspaces_are_forwarded(none, time, n);
        assert(none + head =~= head);
        assert(e.deletes =~= Seq::<PendingDelete>::empty());
    }
    assert(e.commits =~= Seq::<Seq<char>>::empty());
    let all = sink::emitted(calls);
    assert(sink::emitted(head.push(text)) == sink::with_call(e, text));
    assert(all == sink::with_call(sink::emitted(head.push(text)), done));
    let texts = if commit.len() > 0 {
        seq![commit]
    } else {
        Seq::empty()
    };
    assert(all.commits =~= texts);
    assert(all.deletes == e.deletes && all.forwards == e.forwards);
    let a = all.deletes.map_values(|d: PendingDelete| Sent::DeleteSurroundingText(d));
    let b = all.forwards.map_values(|f: sink::PendingForward| Sent::ForwardKeyEvent(f));
    let t = all.commits.map_values(|t: Seq<char>| Sent::CommitText(t));
    lemma_heard_concat(c, a + b, t);
    lemma_heard_concat(c, a, b);
    assert(c.selected =~= Seq::<char>::empty());
    let cut = c.before.take(c.before.len() - n);
    let mid = Client { before: cut, ..c };
    if method == BackspaceMethod::SurroundingText {
        let d = sink::delete_of(backspaces as u32, 0);
        assert(a =~= seq![Sent::DeleteSurroundingText(d)]);
        lemma_heard_one(c, Sent::DeleteSurroundingText(d));
        assert(c.after.skip(0) =~= c.after);
        assert(heard(c, a) == mid);
        assert(b =~= Seq::<Sent>::empty());
    } else {
        assert(a =~= Seq::<Sent>::empty());
        lemma_backspace_signals(c, all.forwards, n);
    }
    assert(heard(c, a + b) == mid);
    if commit.len() > 0 {
        assert(t =~= seq![Sent::CommitText(commit)]);
        lemma_heard_one(mid, Sent::CommitText(commit));
    } else {
        assert(t =~= Seq::<Sent>::empty());
        assert(cut + commit =~= cut);
    }
}

/// Every key event that IBus hands to its client is marked, so that the client does not
/// hand it back to be composed.
pub proof fn law_forwarded_keys_are_marked(state: KeyState)
    ensures
        sink::backspace_event(state).state & 0x0200_0000 != 0,
        sink::backspace_event(state).keyval == 0xff08,
        sink::backspace_event(state).keycode == 14,
        state == KeyState::Released <==> sink::backspace_event(state).state & 0x4000_0000 != 0,
{
    assert(0x0200_0000u32 & 0x0200_0000u32 != 0 && 0x0200_0000u32 & 0x4000_0000u32 == 0)
        by (bit_vector);
    assert((0x0200_0000u32 | 0x4000_0000u32) & 0x0200_0000u32 != 0) by (bit_vector);
    assert((0x0200_0000u32 | 0x4000_0000u32) & 0x4000_0000u32 != 0) by (bit_vector);
}

} // verus!
