//! The virtual-keyboard tier: everything that has a key goes out as keys.
use vstd::prelude::*;

use crate::edit;
use crate::edit::forward_key;
use crate::edit::shadow;
use crate::edit::shadow::ShadowBuffer;
use crate::edit::OutputSink;
use crate::words;

verus! {

/// One character as a key, or committed as a string where there is no key for it.
pub open spec fn char_call(keys: Set<char>, time: u32, c: char) -> edit::SinkCall {
    if keys.contains(c) {
        edit::SinkCall::VkCommitChar { time, c }
    } else {
        edit::SinkCall::CommitString(seq![c])
    }
}

/// The characters of `commit`, each as a key, or committed as a string of its
/// own where the keymap has no key for it.
pub open spec fn char_calls(keys: Set<char>, time: u32, commit: Seq<char>) -> Seq<edit::SinkCall> {
    commit.map_values(|c: char| char_call(keys, time, c))
}

/// What an edit emits on this tier, into a sink that has keys for `keys`. No serial
/// is committed: these clients have no text-input session.
pub open spec fn calls(keys: Set<char>, backspaces: usize, commit: Seq<char>, time: u32) -> Seq<
    edit::SinkCall,
> {
    edit::backspace_calls(time, backspaces as nat) + char_calls(keys, time, commit)
}

/// Characters that have keys are typed.
pub proof fn lemma_char_calls(keys: Set<char>, time: u32, commit: Seq<char>)
    requires
        forall|i: int| 0 <= i < commit.len() ==> keys.contains(#[trigger] commit[i]),
    ensures
        char_calls(keys, time, commit) == forward_key::typed_calls(time, commit),
{
    assert forall|i: int| 0 <= i < commit.len() implies char_calls(keys, time, commit)[i]
        == forward_key::typed_calls(time, commit)[i] by {
        assert(keys.contains(commit[i]));
    }
    assert(char_calls(keys, time, commit) =~= forward_key::typed_calls(time, commit));
}

/// The shadow after an edit on this tier: no echo is to be expected.
pub open spec fn shadow_after(s: shadow::Shadow, backspaces: usize, commit: Seq<char>) -> shadow::Shadow {
    shadow::Shadow { text: words::chars_dropped(s.text, backspaces as nat) + commit, ..s }
}

pub fn apply<S: OutputSink>(
    shadow: &mut ShadowBuffer,
    backspaces: usize,
    commit: &str,
    time: u32,
    sink: &mut S,
)
    ensures
        old(sink).sound() ==> final(sink).sound(),
        final(sink).channels() == old(sink).channels(),
        final(shadow)@ == shadow_after(old(shadow)@, backspaces, commit@),
        final(sink).log() == old(sink).log() + calls(
            old(sink).channels().keys,
            backspaces,
            commit@,
            time,
        ),
{
    let ghost start = sink.log();
    let ghost head = edit::backspace_calls(time, backspaces as nat);
    edit::emit_backspaces(sink, time, backspaces);
    let ghost keys = sink.channels().keys;
    let ghost mut i: int = 0;
    for c in it: commit.chars()
        invariant
            it.seq() == commit@,
            i == it.index(),
            keys == old(sink).channels().keys,
            sink.channels() == old(sink).channels(),
            old(sink).sound() ==> sink.sound(),
            sink.log() == start + (head + char_calls(keys, time, commit@.take(i))),
    {
        let emitted = sink.vk_commit_char(time, c);
        if !emitted {
            let mut one = String::new();
            one.push(c);
            sink.commit_string(one.as_str());
            assert(one@ =~= seq![c]);
        }
        proof {
            assert(char_calls(keys, time, commit@.take(i + 1)) =~= char_calls(
                keys,
                time,
                commit@.take(i),
            ).push(char_call(keys, time, c)));
            assert(sink.log() =~= start + (head + char_calls(keys, time, commit@.take(i + 1))));
            i = i + 1;
        }
    }
    assert(commit@.take(i) =~= commit@);
    let _ = shadow.pop_chars(backspaces);
    shadow.append(commit);
}

} // verus!
