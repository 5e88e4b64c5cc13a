//! The forward-key tier: Backspace keys, then the replacement.
use vstd::prelude::*;
use vstd::string::*;

use crate::edit;
use crate::edit::shadow;
use crate::edit::shadow::ShadowBuffer;
use crate::edit::OutputSink;
use crate::words;

verus! {

/// `c` typed as a key.
pub open spec fn typed_call(time: u32, c: char) -> edit::SinkCall {
    edit::SinkCall::VkCommitChar { time, c }
}

/// Each character of `commit` typed as a key.
pub open spec fn typed_calls(time: u32, commit: Seq<char>) -> Seq<edit::SinkCall> {
    commit.map_values(|c: char| typed_call(time, c))
}

/// `text` as keysyms, or committed as a string where the sink has no keysyms for it.
pub open spec fn committed_calls(
    ch: edit::Channels,
    text: Seq<char>,
    serial: u32,
    time: u32,
) -> Seq<edit::SinkCall> {
    if ch.keysyms.contains(text) {
        seq![edit::SinkCall::CommitViaKeysym { serial, time, text }]
    } else {
        seq![edit::SinkCall::CommitString(text), edit::SinkCall::Commit(serial)]
    }
}

/// There is a key for every character of `text`.
pub open spec fn typable(ch: edit::Channels, text: Seq<char>) -> bool {
    forall|i: int| 0 <= i < text.len() ==> ch.keys.contains(#[trigger] text[i])
}

/// How the replacement text goes out: whole, by one channel. On the key channel it is
/// typed where the sink has keys for all of it.
pub open spec fn replacement(
    ch: edit::Channels,
    commit: Seq<char>,
    serial: u32,
    time: u32,
    key_channel: bool,
) -> Seq<edit::SinkCall> {
    if key_channel && typable(ch, commit) {
        typed_calls(time, commit)
    } else {
        committed_calls(ch, commit, serial, time)
    }
}

/// What an edit emits on this tier, into a sink that types `ch`.
pub open spec fn calls(
    ch: edit::Channels,
    backspaces: usize,
    commit: Seq<char>,
    serial: u32,
    time: u32,
    key_channel: bool,
) -> Seq<edit::SinkCall> {
    edit::backspace_calls(time, backspaces as nat) + replacement(
        ch,
        commit,
        serial,
        time,
        key_channel,
    )
}

/// The shadow after an edit on this tier.
pub open spec fn shadow_after(s: shadow::Shadow, backspaces: usize, commit: Seq<char>) -> shadow::Shadow {
    shadow::Shadow {
        text: words::chars_dropped(s.text, backspaces as nat) + commit,
        pending_commit: true,
        ..s
    }
}

/// Whether the sink has a key for every character of `text`.
fn can_type<S: OutputSink>(text: &str, sink: &S) -> (b: bool)
    ensures
        b == typable(sink.channels(), text@),
{
    let n: usize = text.unicode_len();
    for i in 0..n
        invariant
            n == text@.len(),
            forall|j: int| 0 <= j < i ==> sink.channels().keys.contains(#[trigger] text@[j]),
    {
        if !sink.vk_can_type(text.get_char(i)) {
            assert(!sink.channels().keys.contains(text@[i as int]));
            return false;
        }
    }
    true
}

/// Type `text`, all of which the sink has keys for.
fn type_chars<S: OutputSink>(text: &str, time: u32, sink: &mut S)
    requires
        typable(old(sink).channels(), text@),
    ensures
        old(sink).sound() ==> final(sink).sound(),
        final(sink).channels() == old(sink).channels(),
        final(sink).log() == old(sink).log() + typed_calls(time, text@),
{
    let ghost start = sink.log();
    let n: usize = text.unicode_len();
    assert(start + typed_calls(time, text@.take(0)) =~= start);
    for i in 0..n
        invariant
            n == text@.len(),
            typable(old(sink).channels(), text@),
            sink.channels() == old(sink).channels(),
            old(sink).sound() ==> sink.sound(),
            sink.log() == start + typed_calls(time, text@.take(i as int)),
    {
        let c = text.get_char(i);
        assert(sink.channels().keys.contains(text@[i as int]));
        let _ = sink.vk_commit_char(time, c);
        assert(typed_calls(time, text@.take(i + 1)) =~= typed_calls(
            time,
            text@.take(i as int),
        ).push(typed_call(time, c)));
        assert(sink.log() =~= start + typed_calls(time, text@.take(i + 1)));
    }
    assert(text@.take(n as int) =~= text@);
}

pub fn apply<S: OutputSink>(
    shadow: &mut ShadowBuffer,
    backspaces: usize,
    commit: &str,
    serial: u32,
    time: u32,
    sink: &mut S,
    prefer_key_channel_commit: bool,
)
    ensures
        old(sink).sound() ==> final(sink).sound(),
        final(sink).channels() == old(sink).channels(),
        final(shadow)@ == shadow_after(old(shadow)@, backspaces, commit@),
        final(sink).log() == old(sink).log() + calls(
            old(sink).channels(),
            backspaces,
            commit@,
            serial,
            time,
            prefer_key_channel_commit,
        ),
{
    let ghost start = sink.log();
    edit::emit_backspaces(sink, time, backspaces);
    if prefer_key_channel_commit && can_type(commit, sink) {
        type_chars(commit, time, sink);
    } else if !sink.commit_via_keysym(serial, time, commit) {
        sink.commit_string(commit);
        sink.commit(serial);
    }
    assert(sink.log() =~= start + calls(
        old(sink).channels(),
        backspaces,
        commit@,
        serial,
        time,
        prefer_key_channel_commit,
    ));
    let _ = shadow.pop_chars(backspaces);
    shadow.append(commit);
    shadow.pending_commit = true;
}

} // verus!
