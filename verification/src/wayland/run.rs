//! The loop around the compositor: what happens next, and what is let go of at
//! the end.
use vstd::prelude::*;

use crate::config;
use crate::focus::FocusEvent;

verus! {

/// A message from the supervisor: whether it is still there, and whether it
/// asks to stop.
#[derive(Debug, Clone, Copy, PartialEq, Eq, Structural)]
pub struct Shutdown {
    pub alive: bool,
    pub stop: bool,
}

/// What has come in while the loop was waiting.
#[derive(Debug)]
pub struct Ready {
    pub shutdown: Option<Shutdown>,
    pub interrupted: bool,
    pub readable: bool,
    pub repeat_due: bool,
    pub focus: Option<FocusEvent>,
}

/// What the loop does next.
#[derive(Debug)]
pub enum Turn {
    /// Leave the loop.
    Stop,
    /// Wait on.
    Wait,
    /// Read from the compositor and handle what it sent.
    Read,
    /// Repeat the key that is held.
    Repeat,
    /// End the key repeat, then tell of the focus.
    Focus(FocusEvent),
}

/// The first of the things that have come in, in the order in which they are
/// attended to.
pub open spec fn turn_of(r: Ready) -> Turn {
    match r.shutdown {
        Some(s) => if s.alive && s.stop {
            Turn::Stop
        } else {
            Turn::Wait
        },
        None => if r.interrupted {
            Turn::Stop
        } else if r.readable {
            Turn::Read
        } else if r.repeat_due {
            Turn::Repeat
        } else {
            match r.focus {
                Some(f) => Turn::Focus(f),
                None => Turn::Wait,
            }
        },
    }
}

/// What to do about the things that have come in.
pub fn next_turn(ready: Ready) -> (t: Turn)
    ensures
        t == turn_of(ready),
{
    match ready.shutdown {
        Some(s) => {
            if s.alive && s.stop {
                return Turn::Stop;
            }
            return Turn::Wait;
        },
        None => {},
    }
    if ready.interrupted {
        Turn::Stop
    } else if ready.readable {
        Turn::Read
    } else if ready.repeat_due {
        Turn::Repeat
    } else {
        match ready.focus {
            Some(f) => Turn::Focus(f),
            None => Turn::Wait,
        }
    }
}

/// What the compositor sent is handled before a repeat that is due at the same
/// time: a key that was let go of is not repeated once more.
pub proof fn law_reading_comes_before_repeating(r: Ready)
    requires
        r.readable,
    ensures
        !(turn_of(r) is Repeat),
{
}

/// The loop ends only where it is asked to.
pub proof fn law_stops_only_when_asked(r: Ready)
    ensures
        turn_of(r) is Stop <==> match r.shutdown {
            Some(s) => s.alive && s.stop,
            None => r.interrupted,
        },
{
}

/// The objects of the compositor that the loop holds.
#[derive(Debug, Clone, Copy, PartialEq, Eq, Structural)]
pub struct Held {
    pub grab: bool,
    pub input_method: bool,
    pub virtual_keyboard: bool,
}

/// One object that is let go of.
#[derive(Debug, Clone, Copy, PartialEq, Eq, Structural)]
pub enum Release {
    Grab,
    InputMethod,
    VirtualKeyboard,
}

/// `r`, where the object is held.
pub open spec fn release_if(held: bool, r: Release) -> Seq<Release> {
    if held {
        seq![r]
    } else {
        Seq::empty()
    }
}

/// What is let go of at the end, in order: the keyboard first.
pub open spec fn releases(h: Held) -> Seq<Release> {
    release_if(h.grab, Release::Grab) + release_if(h.input_method, Release::InputMethod)
        + release_if(h.virtual_keyboard, Release::VirtualKeyboard)
}

/// What is let go of at the end of the loop.
pub fn teardown(held: Held) -> (v: Vec<Release>)
    ensures
        v@ == releases(held),
{
    let mut v: Vec<Release> = Vec::new();
    if held.grab {
        v.push(Release::Grab);
    }
    if held.input_method {
        v.push(Release::InputMethod);
    }
    if held.virtual_keyboard {
        v.push(Release::VirtualKeyboard);
    }
    assert(v@ =~= releases(held));
    v
}

/// Watches which window has the focus, where the compositor does not tell.
#[derive(Debug)]
pub struct FocusPoller {
    pub last: Option<String>,
}

impl FocusPoller {
    pub fn new() -> (p: Self)
        ensures
            config::opt_text(p.last) is None,
    {
        FocusPoller { last: None }
    }

    /// Take note of the window that has the focus. Whether that is news.
    pub fn observe(&mut self, app_id: Option<String>) -> (news: bool)
        ensures
            news == (config::opt_text(app_id) != config::opt_text(old(self).last)),
            config::opt_text(final(self).last) == config::opt_text(app_id),
    {
        let news = match (&self.last, &app_id) {
            (Some(a), Some(b)) => *a.as_str() != *b.as_str(),
            (None, None) => false,
            _ => true,
        };
        if news {
            self.last = app_id;
        }
        news
    }
}

/// Where the keys of the virtual keyboard get their meaning from.
#[derive(Debug, Clone, Copy, PartialEq, Eq, Structural)]
pub enum KeymapSource {
    /// Our own keymap.
    Own,
    /// The keymap that the compositor announced.
    Compositor,
}

/// What an announced keymap leads to.
#[derive(Debug, Clone, Copy, PartialEq, Eq, Structural)]
pub struct KeymapStep {
    /// The keymap to give the virtual keyboard.
    pub send: Option<KeymapSource>,
    /// Whether to read the announced keymap.
    pub read: bool,
}

/// Which keymaps have been set up.
#[derive(Debug, Clone, Copy, PartialEq, Eq, Structural)]
pub struct KeymapSetup {
    /// The virtual keyboard has its keymap.
    pub sent: bool,
    /// The layout of the user's keyboard is known.
    pub known: bool,
}

/// What an announced keymap leads to: our own keymap goes to the virtual
/// keyboard, the compositor's where ours could not be made.
pub open spec fn keymap_step(s: KeymapSetup, has_keyboard: bool, own_made: bool) -> KeymapStep {
    KeymapStep {
        send: if s.sent || !has_keyboard {
            None
        } else if own_made {
            Some(KeymapSource::Own)
        } else {
            Some(KeymapSource::Compositor)
        },
        read: !s.known,
    }
}

impl KeymapSetup {
    pub fn new() -> (s: Self)
        ensures
            s == (KeymapSetup { sent: false, known: false }),
    {
        KeymapSetup { sent: false, known: false }
    }

    /// The compositor announced a keymap.
    pub fn announced(&mut self, has_keyboard: bool, own_made: bool) -> (step: KeymapStep)
        ensures
            step == keymap_step(*old(self), has_keyboard, own_made),
            *final(self) == (KeymapSetup {
                sent: old(self).sent || has_keyboard,
                known: old(self).known,
            }),
    {
        let mut send: Option<KeymapSource> = None;
        if !self.sent && has_keyboard {
            if own_made {
                send = Some(KeymapSource::Own);
            } else {
                send = Some(KeymapSource::Compositor);
            }
            self.sent = true;
        }
        KeymapStep { send, read: !self.known }
    }

    /// An announced keymap was read, or could not be.
    pub fn layout_read(&mut self, ok: bool)
        ensures
            *final(self) == (KeymapSetup { sent: old(self).sent, known: old(self).known || ok }),
    {
        if ok {
            self.known = true;
        }
    }
}

/// The virtual keyboard gets a keymap once, however many are announced.
pub proof fn law_keymap_is_sent_once(
    first: KeymapSetup,
    second: KeymapSetup,
    has_keyboard: bool,
    own_made: bool,
    later_keyboard: bool,
    later_made: bool,
)
    requires
        keymap_step(first, has_keyboard, own_made).send is Some,
        second.sent == (first.sent || has_keyboard),
    ensures
        keymap_step(second, later_keyboard, later_made).send is None,
{
}

/// A keymap is read until the user's layout is known. A virtual keyboard that has no keymap
/// gets one with the first that is announced: ours where it could be made, and else the
/// compositor's.
pub proof fn law_keymaps_are_read_and_sent(s: KeymapSetup, has_keyboard: bool, own_made: bool)
    ensures
        ({
            let k = keymap_step(s, has_keyboard, own_made);
            &&& k.read <==> !s.known
            &&& k.send is Some <==> has_keyboard && !s.sent
            &&& k.send is Some && own_made ==> k.send == Some(KeymapSource::Own)
            &&& k.send is Some && !own_made ==> k.send == Some(KeymapSource::Compositor)
        }),
{
}

} // verus!
