//! The control socket's protocol.
use vstd::prelude::*;

use crate::backend;
use crate::backend::BackendTarget;
use crate::control::CmdKind;
use crate::numbers;
use crate::paths;
use crate::strings;
use crate::words;

verus! {

/// Longest command line, newline included.
pub const MAX_IPC_LINE_BYTES: usize = 4096;

/// `String::from_utf8`: bytes that are valid UTF-8 become the text that they
/// encode; any others give nothing.
#[verifier::external_body]
fn text_of_bytes(bytes: Vec<u8>) -> (r: Option<String>)
    ensures
        r is Some <==> vstd::utf8::valid_utf8(bytes@),
        r matches Some(s) ==> s@ == vstd::utf8::decode_utf8(bytes@),
{
    String::from_utf8(bytes).ok()
}

/// What a command line means; the text of the error when it means nothing.
pub open spec fn command_of(line: Seq<char>) -> Result<CmdKind, Seq<char>> {
    let parts = strings::fields(strings::trimmed(line));
    if parts.len() == 0 {
        Err("empty command"@)
    } else {
        let cmd = strings::lowered(parts[0]);
        if cmd == "toggle"@ {
            Ok(CmdKind::Toggle)
        } else if cmd == "enable"@ {
            Ok(CmdKind::Enable)
        } else if cmd == "disable"@ {
            Ok(CmdKind::Disable)
        } else if cmd == "status"@ {
            Ok(CmdKind::Status)
        } else if cmd == "quit"@ {
            Ok(CmdKind::Quit)
        } else if cmd == "backend"@ {
            if parts.len() == 1 {
                Ok(CmdKind::BackendStatus)
            } else {
                match backend::target_named(parts[1]) {
                    None => Err(unknown_backend(parts[1])),
                    Some(t) => if parts.len() > 2 {
                        Err("backend takes at most one argument"@)
                    } else {
                        Ok(CmdKind::SetBackend(t))
                    },
                }
            }
        } else {
            Err("unknown command: "@ + cmd)
        }
    }
}

/// The error for a backend that is no target.
pub open spec fn unknown_backend(raw: Seq<char>) -> Seq<char> {
    if raw == "ibus"@ || raw == "wayland"@ {
        "direct "@ + raw + " switching is not supported; use native, evdev, or toggle"@
    } else {
        "unknown backend: "@ + raw
    }
}

/// A result with its error as characters.
pub open spec fn result_view<T>(r: Result<T, String>) -> Result<T, Seq<char>> {
    match r {
        Ok(v) => Ok(v),
        Err(e) => Err(e@),
    }
}

fn no_such_backend(raw: &str) -> (s: String)
    ensures
        s@ == unknown_backend(raw@),
{
    if *raw == *"ibus" || *raw == *"wayland" {
        let mut s = "direct ".to_owned();
        s.push_str(raw);
        s.push_str(" switching is not supported; use native, evdev, or toggle");
        s
    } else {
        let mut s = "unknown backend: ".to_owned();
        s.push_str(raw);
        s
    }
}

/// Read a command line. Command words are case-insensitive.
pub fn parse_ipc_command(line: &str) -> (r: Result<CmdKind, String>)
    ensures
        result_view(r) == command_of(line@),
{
    let parts = strings::split_fields(strings::trim(line));
    let ghost texts = strings::texts(parts@);
    if parts.len() == 0 {
        return Err("empty command".to_owned());
    }
    assert(texts[0] == parts[0]@);
    let cmd = strings::to_lower(parts[0].as_str());
    let c = cmd.as_str();
    if *c == *"toggle" {
        Ok(CmdKind::Toggle)
    } else if *c == *"enable" {
        Ok(CmdKind::Enable)
    } else if *c == *"disable" {
        Ok(CmdKind::Disable)
    } else if *c == *"status" {
        Ok(CmdKind::Status)
    } else if *c == *"quit" {
        Ok(CmdKind::Quit)
    } else if *c == *"backend" {
        if parts.len() == 1 {
            return Ok(CmdKind::BackendStatus);
        }
        assert(texts[1] == parts[1]@);
        match BackendTarget::parse(parts[1].as_str()) {
            None => Err(no_such_backend(parts[1].as_str())),
            Some(t) => if parts.len() > 2 {
                Err("backend takes at most one argument".to_owned())
            } else {
                Ok(CmdKind::SetBackend(t))
            },
        }
    } else {
        let mut s = "unknown command: ".to_owned();
        s.push_str(c);
        Err(s)
    }
}

/// The word that names a command, as a client sends it.
pub open spec fn command_word(kind: CmdKind) -> Seq<char> {
    match kind {
        CmdKind::Toggle => "toggle"@,
        CmdKind::Enable => "enable"@,
        CmdKind::Disable => "disable"@,
        CmdKind::Status => "status"@,
        CmdKind::Quit => "quit"@,
        CmdKind::BackendStatus => "backend"@,
        CmdKind::SetBackend(_) => "backend"@,
    }
}

/// A command line in the making.
pub struct LineReader {
    pub buf: Vec<u8>,
}

/// What a further byte makes of the line.
#[derive(Debug, Clone, Copy, PartialEq, Eq, Structural)]
pub enum LineStep {
    More,
    Complete,
    TooLong,
}

impl LineReader {
    pub fn new() -> (l: Self)
        ensures
            l.buf@ == Seq::<u8>::empty(),
    {
        LineReader { buf: Vec::new() }
    }

    /// Take one byte. A newline completes the line, unless the line is too long
    /// with it.
    pub fn push(&mut self, byte: u8) -> (step: LineStep)
        ensures
            final(self).buf@ == old(self).buf@.push(byte),
            step == if old(self).buf@.len() + 1 > MAX_IPC_LINE_BYTES {
                LineStep::TooLong
            } else if byte == 0x0a {
                LineStep::Complete
            } else {
                LineStep::More
            },
    {
        self.buf.push(byte);
        if self.buf.len() > MAX_IPC_LINE_BYTES {
            LineStep::TooLong
        } else if byte == 0x0a {
            LineStep::Complete
        } else {
            LineStep::More
        }
    }

    /// The error when the line ends before its newline.
    pub fn end_of_input(&self) -> (e: String)
        ensures
            e@ == if self.buf@.len() == 0 {
                "empty command"@
            } else {
                "command missing newline"@
            },
    {
        if self.buf.len() == 0 {
            "empty command".to_owned()
        } else {
            "command missing newline".to_owned()
        }
    }

    /// The error for a line that is too long.
    pub fn too_long() -> (e: String)
        ensures
            e@ == "command too long (max "@ + numbers::decimal(MAX_IPC_LINE_BYTES as nat)
                + " bytes)"@,
    {
        let mut e = "command too long (max ".to_owned();
        let n = numbers::to_decimal(MAX_IPC_LINE_BYTES as u64);
        e.push_str(n.as_str());
        e.push_str(" bytes)");
        e
    }

    /// The text of a complete line.
    pub fn finish(self) -> (r: Result<String, String>)
        ensures
            match r {
                Ok(s) => vstd::utf8::valid_utf8(self.buf@) && s@ == vstd::utf8::decode_utf8(
                    self.buf@,
                ),
                Err(e) => !vstd::utf8::valid_utf8(self.buf@) && e@ == "command must be UTF-8"@,
            },
    {
        match text_of_bytes(self.buf) {
            Some(s) => Ok(s),
            None => Err("command must be UTF-8".to_owned()),
        }
    }
}

/// The line that tells a client of an error.
pub fn error_line(error: &str) -> (s: String)
    ensures
        s@ == "err "@ + error@ + "\n"@,
{
    let mut s = "err ".to_owned();
    s.push_str(error);
    s.push_str("\n");
    s
}

/// Accept a client of the daemon's own user, and no other.
pub fn validate_peer_uid(peer: u32, expected: u32) -> (r: Result<(), String>)
    ensures
        r is Ok <==> peer == expected,
        r matches Err(e) ==> e@ == "IPC peer uid "@ + numbers::decimal(peer as nat)
            + " does not match daemon uid "@ + numbers::decimal(expected as nat),
{
    if peer == expected {
        Ok(())
    } else {
        let mut e = "IPC peer uid ".to_owned();
        let p = numbers::to_decimal(peer as u64);
        e.push_str(p.as_str());
        e.push_str(" does not match daemon uid ");
        let x = numbers::to_decimal(expected as u64);
        e.push_str(x.as_str());
        Err(e)
    }
}

/// How the task of one connection ended.
#[derive(Debug, Clone, Copy, PartialEq, Eq, Structural)]
pub enum ConnectionEnd {
    Finished,
    Failed,
    Cancelled,
    Panicked,
}

/// What the listener does after that.
#[derive(Debug, Clone, Copy, PartialEq, Eq, Structural)]
pub enum TaskDisposition {
    Continue,
    Shutdown,
}

/// One bad connection never stops the listener; cancelling does.
pub fn classify_connection_join(end: ConnectionEnd) -> (d: TaskDisposition)
    ensures
        d == if end == ConnectionEnd::Cancelled {
            TaskDisposition::Shutdown
        } else {
            TaskDisposition::Continue
        },
{
    match end {
        ConnectionEnd::Cancelled => TaskDisposition::Shutdown,
        ConnectionEnd::Finished | ConnectionEnd::Failed | ConnectionEnd::Panicked => {
            TaskDisposition::Continue
        },
    }
}

/// How long to wait, in milliseconds, after `failures` failed accepts in a row
/// and one more; `None` to give up.
pub fn accept_retry_delay(failures: usize) -> (d: Option<u64>)
    ensures
        d == if failures == 0 {
            Some(100u64)
        } else if failures == 1 {
            Some(500u64)
        } else {
            None::<u64>
        },
{
    if failures == 0 {
        Some(100)
    } else if failures == 1 {
        Some(500)
    } else {
        None
    }
}

/// Where the control socket is, if the directory for such files is known.
pub fn socket_path(runtime_dir: &Option<String>) -> (r: Option<String>)
    ensures
        r is Some <==> runtime_dir is Some,
        r matches Some(p) ==> p@ == paths::join_of(runtime_dir->0@, "daklak.sock"@),
{
    match runtime_dir {
        Some(dir) => Some(paths::join(dir.as_str(), "daklak.sock")),
        None => None,
    }
}

proof fn lemma_one_word(w: Seq<char>)
    requires
        w.len() > 0,
        forall|i: int| 0 <= i < w.len() ==> !words::whitespace(#[trigger] w[i]),
    ensures
        strings::trimmed(w) == w,
        strings::fields(w) == seq![w],
    decreases w.len(),
{
    assert(!words::whitespace(w[0]));
    assert(!words::whitespace(w[w.len() - 1]));
    assert(strings::start_trimmed(w) == w);
    if w.len() == 1 {
        assert(strings::fields(w.drop_last()) =~= Seq::<Seq<char>>::empty());
        assert(seq![w.last()] =~= w);
        assert(strings::fields(w) =~= seq![w]);
    } else {
        let v = w.drop_last();
        assert forall|i: int| 0 <= i < v.len() implies !words::whitespace(#[trigger] v[i]) by {
            assert(v[i] == w[i]);
        }
        lemma_one_word(v);
        assert(!words::whitespace(w[w.len() - 2]));
        assert(v.push(w.last()) =~= w);
        assert(strings::fields(w) =~= seq![w]);
    }
}

proof fn lemma_two_words(a: Seq<char>, b: Seq<char>)
    requires
        a.len() > 0,
        b.len() > 0,
        forall|i: int| 0 <= i < a.len() ==> !words::whitespace(#[trigger] a[i]),
        forall|i: int| 0 <= i < b.len() ==> !words::whitespace(#[trigger] b[i]),
    ensures
        strings::trimmed(a + seq![' '] + b) == a + seq![' '] + b,
        strings::fields(a + seq![' '] + b) == seq![a, b],
    decreases b.len(),
{
    let line = a + seq![' '] + b;
    assert(line[0] == a[0]);
    assert(line.last() == b.last());
    assert(!words::whitespace(b[b.len() - 1]));
    assert(strings::start_trimmed(line) == line);
    let rest = line.drop_last();
    let front = b.drop_last();
    assert(rest =~= a + seq![' '] + front);
    if b.len() == 1 {
        assert(rest =~= a.push(' '));
        assert(rest.drop_last() =~= a);
        lemma_one_word(a);
        assert(words::whitespace(' '));
        assert(strings::fields(rest) == strings::fields(a));
        assert(line[line.len() - 2] == ' ');
        assert(seq![line.last()] =~= b);
        assert(strings::fields(line) =~= seq![a, b]);
    } else {
        assert forall|i: int| 0 <= i < front.len() implies !words::whitespace(
            #[trigger] front[i],
        ) by {
            assert(front[i] == b[i]);
        }
        lemma_two_words(a, front);
        assert(line[line.len() - 2] == b[b.len() - 2]);
        assert(!words::whitespace(b[b.len() - 2]));
        assert(front.push(b.last()) =~= b);
        assert(strings::fields(line) =~= seq![a, b]);
    }
}

/// A request to switch is read back from the name of its target.
pub proof fn law_switches_parse(t: BackendTarget)
    ensures
        command_of("backend"@ + " "@ + backend::target_name(t)) == Ok::<CmdKind, Seq<char>>(
            CmdKind::SetBackend(t),
        ),
{
    reveal_strlit("toggle");
    reveal_strlit("enable");
    reveal_strlit("disable");
    reveal_strlit("status");
    reveal_strlit("quit");
    reveal_strlit("backend");
    reveal_strlit(" ");
    reveal_strlit("native");
    reveal_strlit("evdev");
    let name = backend::target_name(t);
    assert(" "@ =~= seq![' ']);
    lemma_two_words("backend"@, name);
    assert(strings::lowered("backend"@) =~= "backend"@);
    assert("toggle"@[0] == 't');
    assert("enable"@[0] == 'e');
    assert("disable"@[0] == 'd');
    assert("status"@[0] == 's');
    assert("quit"@[0] == 'q');
    assert("backend"@[0] == 'b');
    backend::law_target_names_parse(t);
}

/// A command that takes no argument is read back from its word.
pub proof fn law_command_words_parse(kind: CmdKind)
    requires
        kind !is SetBackend,
    ensures
        command_of(command_word(kind)) == Ok::<CmdKind, Seq<char>>(kind),
{
    reveal_strlit("toggle");
    reveal_strlit("enable");
    reveal_strlit("disable");
    reveal_strlit("status");
    reveal_strlit("quit");
    reveal_strlit("backend");
    let w = command_word(kind);
    lemma_one_word(w);
    assert(strings::lowered(w) =~= w);
    assert("toggle"@[0] == 't');
    assert("enable"@[0] == 'e');
    assert("disable"@[0] == 'd');
    assert("status"@[0] == 's');
    assert("quit"@[0] == 'q');
    assert("backend"@[0] == 'b');
}

/// A command is what its first word says, in any case: nothing else is taken for one. A
/// switch names its target by the second word, and there is no third.
pub proof fn law_commands_are_named_by_their_words(line: Seq<char>)
    ensures
        ({
            let parts = strings::fields(strings::trimmed(line));
            &&& command_of(line) matches Ok(kind) ==> parts.len() > 0 && strings::lowered(parts[0])
                == command_word(kind)
            &&& command_of(line) matches Ok(CmdKind::SetBackend(t)) ==> parts.len() == 2
                && backend::target_named(parts[1]) == Some(t)
            &&& command_of(line) matches Ok(CmdKind::BackendStatus) ==> parts.len() == 1
            &&& parts.len() > 0 && strings::lowered(parts[0]) != "toggle"@ && strings::lowered(
                parts[0],
            ) != "enable"@ && strings::lowered(parts[0]) != "disable"@ && strings::lowered(parts[0])
                != "status"@ && strings::lowered(parts[0]) != "quit"@ && strings::lowered(parts[0])
                != "backend"@ ==> command_of(line) is Err
            &&& parts.len() == 0 ==> command_of(line) is Err
        }),
{
}

} // verus!
