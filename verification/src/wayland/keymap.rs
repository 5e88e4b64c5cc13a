//! A keymap with a key of its own for every Vietnamese letter.
//!
//! Clients that only read a keyboard get Vietnamese text as keys of this keymap.
//! The ordinary keys stay as they are.
use vstd::prelude::*;

use crate::numbers;

verus! {

/// The code of the first key of our own.
pub const BASE_EVDEV: u32 = 200;

/// The characters that have a key of their own, in the order of their keys:
/// Vietnamese letters, and the ASCII characters that occur beside them.
pub open spec fn inventory() -> Seq<char> {
    "àáảãạâầấẩẫậăằắẳẵặèéẻẽẹêềếểễệìíỉĩịòóỏõọôồốổỗộơờớởỡợùúủũụưừứửữựỳýỷỹỵđÀÁẢÃẠÂẦẤẨẪẬĂẰẮẲẴẶÈÉẺẼẸÊỀẾỂỄỆÌÍỈĨỊÒÓỎÕỌÔỒỐỔỖỘƠỜỚỞỠỢÙÚỦŨỤƯỪỨỬỮỰỲÝỶỸỴĐabcdefghijklmnopqrstuvwxyzABCDEFGHIJKLMNOPQRSTUVWXYZ0123456789 .,;:!?'\"-_()[]/\\"@
}

/// The characters that have a key of their own, in the order of their keys.
pub fn inventory_text() -> (s: &'static str)
    ensures
        s@ == inventory(),
{
    "àáảãạâầấẩẫậăằắẳẵặèéẻẽẹêềếểễệìíỉĩịòóỏõọôồốổỗộơờớởỡợùúủũụưừứửữựỳýỷỹỵđÀÁẢÃẠÂẦẤẨẪẬĂẰẮẲẴẶÈÉẺẼẸÊỀẾỂỄỆÌÍỈĨỊÒÓỎÕỌÔỒỐỔỖỘƠỜỚỞỠỢÙÚỦŨỤƯỪỨỬỮỰỲÝỶỸỴĐabcdefghijklmnopqrstuvwxyzABCDEFGHIJKLMNOPQRSTUVWXYZ0123456789 .,;:!?'\"-_()[]/\\"
}

/// The place of `c` in `s`, counted from `from`.
pub open spec fn place_from(s: Seq<char>, c: char, from: nat) -> Option<nat>
    decreases s.len(),
{
    if s.len() == 0 {
        None
    } else if s[0] == c {
        Some(from)
    } else {
        place_from(s.drop_first(), c, from + 1)
    }
}

/// The key that types `c`.
pub open spec fn key_of(c: char) -> Option<nat> {
    match place_from(inventory(), c, 0) {
        Some(i) => Some(BASE_EVDEV as nat + i),
        None => None,
    }
}

proof fn lemma_place(s: Seq<char>, c: char, from: nat)
    ensures
        place_from(s, c, from) matches Some(i) ==> from <= i < from + s.len() && s[i - from] == c,
        place_from(s, c, from) is None ==> forall|i: int| 0 <= i < s.len() ==> s[i] != c,
    decreases s.len(),
{
    if s.len() > 0 && s[0] != c {
        lemma_place(s.drop_first(), c, from + 1);
        if place_from(s, c, from) is None {
            assert forall|i: int| 0 <= i < s.len() implies s[i] != c by {
                if i > 0 {
                    assert(s[i] == s.drop_first()[i - 1]);
                }
            }
        }
    }
}

/// The key that types `c`, if there is one.
pub fn char_to_evdev(c: char) -> (r: Option<u32>)
    ensures
        match r {
            Some(k) => key_of(c) == Some(k as nat),
            None => key_of(c) is None,
        },
{
    let s = inventory_text();
    let n: usize = inventory_len();
    let ghost all = s@;
    let mut i: u32 = 0;
    assert(all.skip(0) =~= all);
    for x in it: s.chars()
        invariant
            it.seq() == all,
            all == inventory(),
            n == all.len(),
            n <= 1000,
            i == it.index(),
            i <= n,
            place_from(all, c, 0) == place_from(all.skip(i as int), c, i as nat),
    {
        assert(all.skip(i as int)[0] == x);
        assert(all.skip(i as int).drop_first() =~= all.skip(i + 1));
        if x == c {
            return Some(BASE_EVDEV + i);
        }
        i = i + 1;
    }
    None
}

/// How many characters have a key of their own.
pub fn inventory_len() -> (n: usize)
    ensures
        n == inventory().len(),
        n == 213,
{
    proof {
        reveal_strlit("àáảãạâầấẩẫậăằắẳẵặèéẻẽẹêềếểễệìíỉĩịòóỏõọôồốổỗộơờớởỡợùúủũụưừứửữựỳýỷỹỵđÀÁẢÃẠÂẦẤẨẪẬĂẰẮẲẴẶÈÉẺẼẸÊỀẾỂỄỆÌÍỈĨỊÒÓỎÕỌÔỒỐỔỖỘƠỜỚỞỠỢÙÚỦŨỤƯỪỨỬỮỰỲÝỶỸỴĐabcdefghijklmnopqrstuvwxyzABCDEFGHIJKLMNOPQRSTUVWXYZ0123456789 .,;:!?'\"-_()[]/\\");
    }
    213
}

/// The name of key `i` of our own.
pub open spec fn key_name(i: nat) -> Seq<char> {
    "<DK"@ + numbers::zero_padded(numbers::decimal(i), 3) + ">"@
}

/// The line that gives key `i` its code; keymaps count codes from 8.
pub open spec fn code_line(i: nat) -> Seq<char> {
    "    "@ + key_name(i) + " = "@ + numbers::decimal(BASE_EVDEV as nat + i + 8) + ";\n"@
}

/// The line that gives key `i` its character.
pub open spec fn symbol_line(i: nat, c: char) -> Seq<char> {
    "    key "@ + key_name(i) + " { [ U"@ + numbers::zero_padded(numbers::hex(c as nat), 4)
        + " ] };\n"@
}

/// The code lines of the first `n` keys.
pub open spec fn code_lines(n: nat) -> Seq<char>
    decreases n,
{
    if n == 0 {
        Seq::empty()
    } else {
        code_lines((n - 1) as nat) + code_line((n - 1) as nat)
    }
}

/// The symbol lines for the characters of `s`.
pub open spec fn symbol_lines(s: Seq<char>) -> Seq<char>
    decreases s.len(),
{
    if s.len() == 0 {
        Seq::empty()
    } else {
        symbol_lines(s.drop_last()) + symbol_line((s.len() - 1) as nat, s.last())
    }
}

/// The keymap's text.
pub open spec fn keymap_of() -> Seq<char> {
    "xkb_keymap {\n  xkb_keycodes \"evdev+daklak\" {\n    include \"evdev+aliases(qwerty)\"\n    maximum = "@
        + numbers::decimal(BASE_EVDEV as nat + inventory().len() + 16) + ";\n"@ + code_lines(
        inventory().len(),
    )
        + "  };\n  xkb_types \"complete\" { include \"complete\" };\n  xkb_compat \"complete\" { include \"complete\" };\n  xkb_symbols \"pc+us+daklak\" {\n    include \"pc+us+inet(evdev)\"\n"@
        + symbol_lines(inventory()) + "  };\n};\n"@
}

fn push_key_name(s: &mut String, i: u64)
    ensures
        final(s)@ == old(s)@ + key_name(i as nat),
{
    let ghost start = s@;
    let number = numbers::to_decimal(i);
    let padded = numbers::pad_zeros(number.as_str(), 3);
    s.push_str("<DK");
    s.push_str(padded.as_str());
    s.push_str(">");
    assert(s@ =~= start + key_name(i as nat));
}

fn push_symbol_line(s: &mut String, i: u64, c: char)
    ensures
        final(s)@ == old(s)@ + symbol_line(i as nat, c),
{
    let ghost start = s@;
    s.push_str("    key ");
    push_key_name(s, i);
    s.push_str(" { [ U");
    let n: u32 = c as u32;
    let number = numbers::to_hex(n);
    let padded = numbers::pad_zeros(number.as_str(), 4);
    s.push_str(padded.as_str());
    s.push_str(" ] };\n");
    assert(n as nat == c as nat);
    assert(s@ =~= start + symbol_line(i as nat, c));
}

/// The keymap's text.
pub fn keymap_text() -> (s: String)
    ensures
        s@ == keymap_of(),
{
    let chars = inventory_text();
    let n: usize = inventory_len();
    let mut s = "xkb_keymap {\n  xkb_keycodes \"evdev+daklak\" {\n    include \"evdev+aliases(qwerty)\"\n    maximum = ".to_owned();
    let most = numbers::to_decimal(BASE_EVDEV as u64 + n as u64 + 16);
    s.push_str(most.as_str());
    s.push_str(";\n");
    let ghost front = s@;
    assert(front + Seq::<char>::empty() =~= front);
    for i in 0..n
        invariant
            n <= 1000,
            s@ == front + code_lines(i as nat),
    {
        let ghost before = s@;
        s.push_str("    ");
        push_key_name(&mut s, i as u64);
        s.push_str(" = ");
        let code = numbers::to_decimal(BASE_EVDEV as u64 + i as u64 + 8);
        s.push_str(code.as_str());
        s.push_str(";\n");
        assert(s@ =~= before + code_line(i as nat));
        assert(s@ =~= front + code_lines((i + 1) as nat));
    }
    s.push_str("  };\n  xkb_types \"complete\" { include \"complete\" };\n  xkb_compat \"complete\" { include \"complete\" };\n  xkb_symbols \"pc+us+daklak\" {\n    include \"pc+us+inet(evdev)\"\n");
    let ghost mid = s@;
    let ghost all = chars@;
    let mut i: u64 = 0;
    assert(all.take(0) =~= Seq::<char>::empty());
    assert(mid + Seq::<char>::empty() =~= mid);
    for c in it: chars.chars()
        invariant
            it.seq() == all,
            all.len() <= 1000,
            i == it.index(),
            i <= all.len(),
            s@ == mid + symbol_lines(all.take(i as int)),
    {
        proof {
            assert(all.take(i + 1).drop_last() =~= all.take(i as int));
            assert(all.take(i + 1).last() == c);
        }
        push_symbol_line(&mut s, i, c);
        assert(s@ =~= mid + symbol_lines(all.take(i + 1)));
        i = i + 1;
    }
    assert(all.take(i as int) =~= all);
    s.push_str("  };\n};\n");
    s
}

/// No two characters share a key, and all keys of our own lie in one range.
pub proof fn law_keys_are_unique(a: char, b: char)
    ensures
        key_of(a) is Some && key_of(a) == key_of(b) ==> a == b,
        key_of(a) matches Some(k) ==> BASE_EVDEV <= k < BASE_EVDEV + inventory().len(),
{
    lemma_place(inventory(), a, 0);
    lemma_place(inventory(), b, 0);
}

/// Every character of the inventory has a key.
pub proof fn law_inventory_is_typed(i: int)
    requires
        0 <= i < inventory().len(),
    ensures
        key_of(inventory()[i]) is Some,
{
    lemma_place(inventory(), inventory()[i], 0);
}

/// `part` stands somewhere in `s`.
pub open spec fn holds(s: Seq<char>, part: Seq<char>) -> bool {
    exists|a: Seq<char>, b: Seq<char>| s == #[trigger] (a + part + b)
}

proof fn lemma_code_line(n: nat, i: nat)
    requires
        i < n,
    ensures
        holds(code_lines(n), code_line(i)),
    decreases n,
{
    let m = (n - 1) as nat;
    if i == m {
        let none = Seq::<char>::empty();
        assert(code_lines(n) =~= code_lines(m) + code_line(i) + none);
    } else {
        lemma_code_line(m, i);
        let (a, b) = choose|a: Seq<char>, b: Seq<char>|
            code_lines(m) == #[trigger] (a + code_line(i) + b);
        assert(code_lines(n) =~= a + code_line(i) + (b + code_line(m)));
    }
}

proof fn lemma_symbol_line(s: Seq<char>, i: int)
    requires
        0 <= i < s.len(),
    ensures
        holds(symbol_lines(s), symbol_line(i as nat, s[i])),
    decreases s.len(),
{
    let m = s.len() - 1;
    let last = symbol_line(m as nat, s.last());
    if i == m {
        let none = Seq::<char>::empty();
        assert(symbol_lines(s) =~= symbol_lines(s.drop_last()) + last + none);
    } else {
        lemma_symbol_line(s.drop_last(), i);
        let l = symbol_line(i as nat, s[i]);
        let (a, b) = choose|a: Seq<char>, b: Seq<char>|
            symbol_lines(s.drop_last()) == #[trigger] (a + l + b);
        assert(symbol_lines(s) =~= a + l + (b + last));
    }
}

proof fn lemma_holds_within(s: Seq<char>, x: Seq<char>, m: Seq<char>, y: Seq<char>, part: Seq<char>)
    requires
        s == x + m + y,
        holds(m, part),
    ensures
        holds(s, part),
{
    let (a, b) = choose|a: Seq<char>, b: Seq<char>| m == #[trigger] (a + part + b);
    assert(s =~= (x + a) + part + (b + y));
}

/// The keymap types what the table says: the key that a character is typed with has, under
/// one name, that key's code (eight more than the kernel's) and the character as its
/// symbol.
pub proof fn law_keymap_types_the_characters(c: char, k: nat)
    requires
        key_of(c) == Some(k),
    ensures
        exists|name: Seq<char>|
            #![trigger name.len()]
            holds(keymap_of(), "    "@ + name + " = "@ + numbers::decimal(k + 8) + ";\n"@) && holds(
                keymap_of(),
                "    key "@ + name + " { [ U"@ + numbers::zero_padded(numbers::hex(c as nat), 4)
                    + " ] };\n"@,
            ),
{
    let v = inventory();
    lemma_place(v, c, 0);
    let i = (k - BASE_EVDEV) as nat;
    assert(v[i as int] == c);
    let name = key_name(i);
    lemma_code_line(v.len(), i);
    lemma_symbol_line(v, i as int);
    let head = "xkb_keymap {\n  xkb_keycodes \"evdev+daklak\" {\n    include \"evdev+aliases(qwerty)\"\n    maximum = "@
        + numbers::decimal(BASE_EVDEV as nat + v.len() + 16) + ";\n"@;
    let mid = "  };\n  xkb_types \"complete\" { include \"complete\" };\n  xkb_compat \"complete\" { include \"complete\" };\n  xkb_symbols \"pc+us+daklak\" {\n    include \"pc+us+inet(evdev)\"\n"@;
    let tail = "  };\n};\n"@;
    let codes = code_lines(v.len());
    let symbols = symbol_lines(v);
    assert(keymap_of() =~= head + codes + (mid + symbols + tail));
    assert(keymap_of() =~= (head + codes + mid) + symbols + tail);
    lemma_holds_within(keymap_of(), head, codes, mid + symbols + tail, code_line(i));
    lemma_holds_within(keymap_of(), head + codes + mid, symbols, tail, symbol_line(i, c));
    assert(BASE_EVDEV as nat + i + 8 == k + 8);
    assert(name.len() >= 0);
}

} // verus!
