//! From composed Vietnamese text back to the keys that type it.
//!
//! A composed letter is a vowel letter, an optional mark and an optional tone,
//! or `đ`. Each input method has a key for every mark and every tone, so a
//! letter turns back into its base letter, its mark key and its tone key.
use vstd::prelude::*;
use vstd::string::*;

use crate::engine::InputMethod;
use crate::text;

pub mod letters;

verus! {

/// The vowels, each in six forms: plain, then with the tones sắc, huyền, hỏi,
/// ngã and nặng.
pub open spec fn vowels() -> Seq<char> {
    "aáàảãạăắằẳẵặâấầẩẫậeéèẻẽẹêếềểễệiíìỉĩịoóòỏõọôốồổỗộơớờởỡợuúùủũụưứừửữựyýỳỷỹỵ"@
}

/// The capital vowels, in the same order.
pub open spec fn capital_vowels() -> Seq<char> {
    "AÁÀẢÃẠĂẮẰẲẴẶÂẤẦẨẪẬEÉÈẺẼẸÊẾỀỂỄỆIÍÌỈĨỊOÓÒỎÕỌÔỐỒỔỖỘƠỚỜỞỠỢUÚÙỦŨỤƯỨỪỬỮỰYÝỲỶỸỴ"@
}

/// Base letter of each of the twelve vowels.
pub open spec fn base_letters(capital: bool) -> Seq<char> {
    if capital {
        "AAAEEIOOOUUY"@
    } else {
        "aaaeeiooouuy"@
    }
}

/// Mark key of each of the twelve vowels; a blank where it has no mark.
pub open spec fn mark_keys(method: InputMethod, capital: bool) -> Seq<char> {
    if method == InputMethod::Vni {
        " 86 6  67 7 "@
    } else if capital {
        " WA E  OW W "@
    } else {
        " wa e  ow w "@
    }
}

/// Tone key of each of the six forms; a blank for the plain one.
pub open spec fn tone_keys(method: InputMethod, capital: bool) -> Seq<char> {
    if method == InputMethod::Vni {
        " 12345"@
    } else if capital {
        " SFRXJ"@
    } else {
        " sfrxj"@
    }
}

/// Where `c` first occurs in `s`.
pub open spec fn position(s: Seq<char>, c: char) -> Option<nat>
    decreases s.len(),
{
    if s.len() == 0 {
        None
    } else {
        match position(s.drop_last(), c) {
            Some(i) => Some(i),
            None => if s.last() == c {
                Some((s.len() - 1) as nat)
            } else {
                None
            },
        }
    }
}

/// A key, unless it is blank.
pub open spec fn key_or_none(c: char) -> Seq<char> {
    if c == ' ' {
        Seq::empty()
    } else {
        seq![c]
    }
}

/// The keys of form `i` in the vowel table.
pub open spec fn vowel_keys(i: nat, method: InputMethod, capital: bool) -> Seq<char> {
    seq![base_letters(capital)[(i / 6) as int]] + key_or_none(
        mark_keys(method, capital)[(i / 6) as int],
    ) + key_or_none(tone_keys(method, capital)[(i % 6) as int])
}

/// The keys that type `c`: itself for ASCII, nothing for a letter that is not
/// Vietnamese.
pub open spec fn keys_of(c: char, method: InputMethod) -> Seq<char> {
    if (c as u32) < 0x80 {
        seq![c]
    } else if c == 'đ' {
        if method == InputMethod::Vni {
            "d9"@
        } else {
            "dd"@
        }
    } else if c == 'Đ' {
        if method == InputMethod::Vni {
            "D9"@
        } else {
            "DD"@
        }
    } else {
        match position(vowels(), c) {
            Some(i) => vowel_keys(i, method, false),
            None => match position(capital_vowels(), c) {
                Some(i) => vowel_keys(i, method, true),
                None => Seq::empty(),
            },
        }
    }
}

/// The keys that type all of `s`, in order.
pub open spec fn keys_of_text(s: Seq<char>, method: InputMethod) -> Seq<char>
    decreases s.len(),
{
    if s.len() == 0 {
        Seq::empty()
    } else {
        keys_of_text(s.drop_last(), method) + keys_of(s.last(), method)
    }
}

/// How many bytes of keys each letter of `s` that has any turns into.
pub open spec fn key_widths(s: Seq<char>, method: InputMethod) -> Seq<u8>
    decreases s.len(),
{
    if s.len() == 0 {
        Seq::empty()
    } else {
        let rest = key_widths(s.drop_last(), method);
        let keys = keys_of(s.last(), method);
        if keys.len() == 0 {
            rest
        } else {
            rest.push(text::utf8_len(keys) as u8)
        }
    }
}

pub proof fn lemma_position(s: Seq<char>, c: char)
    ensures
        position(s, c) matches Some(i) ==> i < s.len() && s[i as int] == c,
        position(s, c) is None ==> !s.contains(c),
    decreases s.len(),
{
    if s.len() > 0 {
        lemma_position(s.drop_last(), c);
        if position(s, c) is None && s.contains(c) {
            let i = s.index_of(c);
            assert(s.drop_last()[i] == c);
        }
    }
}

/// Where `c` first occurs in `s`.
fn find_char(s: &str, c: char) -> (r: Option<usize>)
    ensures
        match r {
            Some(i) => position(s@, c) == Some(i as nat) && i < s@.len(),
            None => position(s@, c) is None,
        },
{
    let n: usize = s.unicode_len();
    let mut i: usize = 0;
    let mut found: Option<usize> = None;
    for x in it: s.chars()
        invariant
            it.seq() == s@,
            n == s@.len(),
            i == it.index(),
            i <= n,
            found matches Some(k) ==> k < i,
            position(s@.take(i as int), c) == match found {
                Some(k) => Some(k as nat),
                None => None,
            },
    {
        assert(s@.take(i + 1).drop_last() =~= s@.take(i as int));
        if found.is_none() && x == c {
            found = Some(i);
        }
        i = i + 1;
    }
    assert(s@.take(n as int) =~= s@);
    found
}

fn push_key(keys: &mut String, key: char)
    ensures
        final(keys)@ == old(keys)@ + key_or_none(key),
{
    if key != ' ' {
        keys.push(key);
        assert(keys@ =~= old(keys)@ + seq![key]);
    } else {
        assert(keys@ =~= old(keys)@ + key_or_none(key));
    }
}

/// The keys of form `i` in the vowel table.
fn vowel_form(i: usize, method: InputMethod, capital: bool) -> (keys: String)
    requires
        i < 72,
    ensures
        keys@ == vowel_keys(i as nat, method, capital),
{
    proof {
        reveal_strlit("AAAEEIOOOUUY");
        reveal_strlit("aaaeeiooouuy");
        reveal_strlit(" 86 6  67 7 ");
        reveal_strlit(" WA E  OW W ");
        reveal_strlit(" wa e  ow w ");
        reveal_strlit(" 12345");
        reveal_strlit(" SFRXJ");
        reveal_strlit(" sfrxj");
    }
    let (bases, marks, tones) = match (method, capital) {
        (InputMethod::Vni, true) => ("AAAEEIOOOUUY", " 86 6  67 7 ", " 12345"),
        (InputMethod::Vni, false) => ("aaaeeiooouuy", " 86 6  67 7 ", " 12345"),
        (_, true) => ("AAAEEIOOOUUY", " WA E  OW W ", " SFRXJ"),
        (_, false) => ("aaaeeiooouuy", " wa e  ow w ", " sfrxj"),
    };
    let base: char = bases.get_char(i / 6);
    let mut keys = String::new();
    keys.push(base);
    assert(keys@ =~= seq![base_letters(capital)[(i as nat / 6) as int]]);
    push_key(&mut keys, marks.get_char(i / 6));
    push_key(&mut keys, tones.get_char(i % 6));
    keys
}

/// The keys that type `ch`; empty when nothing does.
pub fn chars_from_composed(ch: char, method: InputMethod) -> (keys: String)
    ensures
        keys@ == keys_of(ch, method),
{
    proof {
        reveal_strlit(
            "aáàảãạăắằẳẵặâấầẩẫậeéèẻẽẹêếềểễệiíìỉĩịoóòỏõọôốồổỗộơớờởỡợuúùủũụưứừửữựyýỳỷỹỵ",
        );
        reveal_strlit(
            "AÁÀẢÃẠĂẮẰẲẴẶÂẤẦẨẪẬEÉÈẺẼẸÊẾỀỂỄỆIÍÌỈĨỊOÓÒỎÕỌÔỐỒỔỖỘƠỚỜỞỠỢUÚÙỦŨỤƯỨỪỬỮỰYÝỲỶỸỴ",
        );
    }
    if (ch as u32) < 0x80 {
        let mut keys = String::new();
        keys.push(ch);
        assert(keys@ =~= seq![ch]);
        return keys;
    }
    let vni = method == InputMethod::Vni;
    if ch == 'đ' {
        return if vni {
            "d9".to_owned()
        } else {
            "dd".to_owned()
        };
    }
    if ch == 'Đ' {
        return if vni {
            "D9".to_owned()
        } else {
            "DD".to_owned()
        };
    }
    if let Some(i) = find_char(
        "aáàảãạăắằẳẵặâấầẩẫậeéèẻẽẹêếềểễệiíìỉĩịoóòỏõọôốồổỗộơớờởỡợuúùủũụưứừửữựyýỳỷỹỵ",
        ch,
    ) {
        return vowel_form(i, method, false);
    }
    if let Some(i) = find_char(
        "AÁÀẢÃẠĂẮẰẲẴẶÂẤẦẨẪẬEÉÈẺẼẸÊẾỀỂỄỆIÍÌỈĨỊOÓÒỎÕỌÔỐỒỔỖỘƠỚỜỞỠỢUÚÙỦŨỤƯỨỪỬỮỰYÝỲỶỸỴ",
        ch,
    ) {
        return vowel_form(i, method, true);
    }
    String::new()
}

/// The keys that type `text`, and how many bytes of them stand for each letter.
pub fn context_from_surrounding(text: &str, method: InputMethod) -> (r: (String, Vec<u8>))
    ensures
        r.0@ == keys_of_text(text@, method),
        r.1@ == key_widths(text@, method),
{
    let mut result = String::new();
    let mut widths: Vec<u8> = Vec::new();
    let ghost mut i: int = 0;
    for ch in it: text.chars()
        invariant
            it.seq() == text@,
            i == it.index(),
            result@ == keys_of_text(text@.take(i), method),
            widths@ == key_widths(text@.take(i), method),
    {
        let keys = chars_from_composed(ch, method);
        proof {
            assert(text@.take(i + 1).drop_last() =~= text@.take(i));
            assert(result@ + Seq::<char>::empty() =~= result@);
            i = i + 1;
        }
        if !keys.as_str().is_empty() {
            widths.push(text::byte_len(keys.as_str()) as u8);
            result.push_str(keys.as_str());
        } else {
            assert(keys@ =~= Seq::<char>::empty());
        }
    }
    assert(text@.take(i) =~= text@);
    (result, widths)
}

/// The Telex keys that type `text`.
pub fn telex_context_from_surrounding(text: &str) -> (r: (String, Vec<u8>))
    ensures
        r.0@ == keys_of_text(text@, InputMethod::Telex),
        r.1@ == key_widths(text@, InputMethod::Telex),
{
    context_from_surrounding(text, InputMethod::Telex)
}

/// The VNI keys that type `text`.
pub fn vni_context_from_surrounding(text: &str) -> (r: (String, Vec<u8>))
    ensures
        r.0@ == keys_of_text(text@, InputMethod::Vni),
        r.1@ == key_widths(text@, InputMethod::Vni),
{
    context_from_surrounding(text, InputMethod::Vni)
}

/// ASCII text is its own key sequence, whatever the method.
pub proof fn law_ascii_is_its_own_keys(s: Seq<char>, method: InputMethod)
    requires
        forall|i: int| 0 <= i < s.len() ==> (#[trigger] s[i] as u32) < 0x80,
    ensures
        keys_of_text(s, method) == s,
    decreases s.len(),
{
    if s.len() > 0 {
        assert forall|i: int| 0 <= i < s.drop_last().len() implies (#[trigger] s.drop_last()[i]
            as u32) < 0x80 by {
            assert(s.drop_last()[i] == s[i]);
        }
        law_ascii_is_its_own_keys(s.drop_last(), method);
        assert((s[s.len() - 1] as u32) < 0x80);
        assert(s =~= s.drop_last() + seq![s.last()]);
    }
}

/// The keys of a text are the keys of its parts, one behind the other.
pub proof fn law_keys_concat(a: Seq<char>, b: Seq<char>, method: InputMethod)
    ensures
        keys_of_text(a + b, method) == keys_of_text(a, method) + keys_of_text(b, method),
    decreases b.len(),
{
    if b.len() == 0 {
        assert(a + b =~= a);
        assert(keys_of_text(a, method) + Seq::<char>::empty() =~= keys_of_text(a, method));
    } else {
        assert((a + b).drop_last() =~= a + b.drop_last());
        law_keys_concat(a, b.drop_last(), method);
        assert(keys_of_text(a + b, method) =~= keys_of_text(a, method) + keys_of_text(b, method));
    }
}

} // verus!
