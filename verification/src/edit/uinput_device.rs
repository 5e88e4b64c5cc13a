//! Our keyboard in the kernel.
use vstd::prelude::*;

verus! {

/// How our keyboard identifies itself, so that others can leave it alone.
pub const DAKLAK_UINPUT_VENDOR: u16 = 0xdac1;

pub const DAKLAK_UINPUT_PRODUCT: u16 = 0xac01;

pub const DAKLAK_UINPUT_VERSION: u16 = 0x0001;

/// A key that our keyboard declares: all of a full keyboard, so that shortcuts of
/// the desktop work through it. The kernel drops events of keys that were not
/// declared.
pub open spec fn declared(code: u16) -> bool {
    ||| 1 <= code <= 83
    ||| code == 87 || code == 88 || code == 92
    ||| 96 <= code <= 100
    ||| 102 <= code <= 111
    ||| 113 <= code <= 115
    ||| code == 119
    ||| 125 <= code <= 127
    ||| 163 <= code <= 166
    ||| 183 <= code <= 189
    ||| code == 224 || code == 225
}

pub fn is_declared_key(code: u16) -> (b: bool)
    ensures
        b == declared(code),
{
    (1 <= code && code <= 83) || code == 87 || code == 88 || code == 92 || (96 <= code && code
        <= 100) || (102 <= code && code <= 111) || (113 <= code && code <= 115) || code == 119 || (
    125 <= code && code <= 127) || (163 <= code && code <= 166) || (183 <= code && code <= 189)
        || code == 224 || code == 225
}

/// The keys that our keyboard declares: those of a full keyboard in order, and
/// behind them the keys of our keymap that are not among them.
pub fn declared_keys(slots: &Vec<u16>) -> (v: Vec<u16>)
    ensures
        forall|c: u16| #[trigger] v@.contains(c) <==> declared(c) || slots@.contains(c),
{
    let mut v: Vec<u16> = Vec::new();
    let mut code: u16 = 0;
    while code < 256
        invariant
            code <= 256,
            forall|c: u16| #[trigger] v@.contains(c) <==> declared(c) && c < code,
        decreases 256 - code,
    {
        let ghost before = v@;
        if is_declared_key(code) {
            v.push(code);
            proof {
                lemma_contains_push(before, code);
            }
        }
        code = code + 1;
    }
    for i in 0..slots.len()
        invariant
            forall|c: u16| #[trigger]
                v@.contains(c) <==> declared(c) || slots@.take(i as int).contains(c),
    {
        let ghost before = v@;
        v.push(slots[i]);
        proof {
            lemma_contains_push(before, slots@[i as int]);
            assert(slots@.take(i + 1) =~= slots@.take(i as int).push(slots@[i as int]));
            lemma_contains_push(slots@.take(i as int), slots@[i as int]);
        }
    }
    assert(slots@.take(slots.len() as int) =~= slots@);
    v
}

proof fn lemma_contains_push(s: Seq<u16>, x: u16)
    ensures
        forall|c: u16| #[trigger] s.push(x).contains(c) <==> s.contains(c) || c == x,
{
    assert forall|c: u16| #[trigger] s.push(x).contains(c) <==> s.contains(c) || c == x by {
        if s.contains(c) {
            let k = choose|k: int| 0 <= k < s.len() && s[k] == c;
            assert(s.push(x)[k] == c);
        }
        if c == x {
            assert(s.push(x)[s.len() as int] == c);
        }
    }
}

} // verus!
