//! The surrounding-text tier: delete around the cursor, then commit.
use vstd::prelude::*;

use crate::edit;
use crate::edit::shadow;
use crate::edit::shadow::ShadowBuffer;
use crate::edit::{DeleteUnit, OutputSink};

verus! {

/// What an edit emits on this tier.
///
/// With a selection, on either side of the cursor, the delete goes out as Backspace
/// keys: a client may reject a surrounding-text delete while its selection changes,
/// but one Backspace always clears the selection and the rest delete characters.
pub open spec fn calls(
    s: shadow::Shadow,
    backspaces: usize,
    commit: Seq<char>,
    serial: u32,
    time: u32,
    unit: DeleteUnit,
) -> Seq<edit::SinkCall> {
    let (before_bytes, before_chars, _after_bytes, _after_chars) = shadow::delete_span(s, backspaces);
    let delete = if shadow::selects(s) {
        edit::backspace_calls(time, one_more(backspaces) as nat)
    } else {
        seq![
            edit::SinkCall::DeleteSurroundingText {
                before_bytes: match unit {
                    DeleteUnit::Bytes => before_bytes,
                    DeleteUnit::Chars => before_chars,
                },
                before_chars,
                after_bytes: 0,
                after_chars: 0,
            },
        ]
    };
    delete.push(edit::SinkCall::CommitString(commit)).push(edit::SinkCall::Commit(serial))
}

/// `n + 1`, at most the largest count.
pub open spec fn one_more(n: usize) -> usize {
    if n < usize::MAX {
        (n + 1) as usize
    } else {
        n
    }
}

/// The shadow after an edit on this tier.
pub open spec fn shadow_after(s: shadow::Shadow, backspaces: usize, commit: Seq<char>) -> shadow::Shadow {
    let p = shadow::span_popped(s, backspaces);
    shadow::Shadow { text: p.text + commit, pending_commit: true, ..p }
}

pub fn apply<S: OutputSink>(
    shadow: &mut ShadowBuffer,
    backspaces: usize,
    commit: &str,
    serial: u32,
    time: u32,
    sink: &mut S,
    delete_unit: DeleteUnit,
)
    ensures
        old(sink).sound() ==> final(sink).sound(),
        final(sink).channels() == old(sink).channels(),
        final(shadow)@ == shadow_after(old(shadow)@, backspaces, commit@),
        final(sink).log() == old(sink).log() + calls(
            old(shadow)@,
            backspaces,
            commit@,
            serial,
            time,
            delete_unit,
        ),
{
    let ghost start = sink.log();
    let selected = shadow.has_selection();
    let (before_bytes, before_chars, _, _) = shadow.pop_delete_span(backspaces);
    if selected {
        let total: usize = backspaces.saturating_add(1);
        edit::emit_backspaces(sink, time, total);
    } else {
        let emit_before: u32 = match delete_unit {
            DeleteUnit::Bytes => before_bytes,
            DeleteUnit::Chars => before_chars,
        };
        sink.delete_surrounding_text(emit_before, before_chars, 0, 0);
    }
    sink.commit_string(commit);
    sink.commit(serial);
    shadow.append(commit);
    shadow.pending_commit = true;
    assert(sink.log() =~= start + calls(
        old(shadow)@,
        backspaces,
        commit@,
        serial,
        time,
        delete_unit,
    ));
}

} // verus!
