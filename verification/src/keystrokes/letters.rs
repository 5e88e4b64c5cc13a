//! What Vietnamese letters are made of, and the keys that it takes to type them.
use vstd::prelude::*;

use crate::engine::InputMethod;
use crate::keystrokes;
use crate::text;

verus! {

/// What makes another letter of a base letter.
pub enum Mark {
    Bare,
    Breve,
    Circumflex,
    Horn,
    Stroke,
}

/// The tone that a vowel carries.
pub enum Tone {
    Level,
    Acute,
    Grave,
    Hook,
    Tilde,
    Dot,
}

/// The base letter of a vowel or of `đ`; `None` for any other character.
pub open spec fn base(c: char) -> Option<char> {
    match c {
        'a' | 'á' | 'à' | 'ả' | 'ã' | 'ạ' | 'ă' | 'ắ' | 'ằ' | 'ẳ' | 'ẵ' | 'ặ' | 'â' | 'ấ'
        | 'ầ' | 'ẩ' | 'ẫ' | 'ậ' => Some('a'),
        'e' | 'é' | 'è' | 'ẻ' | 'ẽ' | 'ẹ' | 'ê' | 'ế' | 'ề' | 'ể' | 'ễ' | 'ệ' => Some('e'),
        'i' | 'í' | 'ì' | 'ỉ' | 'ĩ' | 'ị' => Some('i'),
        'o' | 'ó' | 'ò' | 'ỏ' | 'õ' | 'ọ' | 'ô' | 'ố' | 'ồ' | 'ổ' | 'ỗ' | 'ộ' | 'ơ' | 'ớ'
        | 'ờ' | 'ở' | 'ỡ' | 'ợ' => Some('o'),
        'u' | 'ú' | 'ù' | 'ủ' | 'ũ' | 'ụ' | 'ư' | 'ứ' | 'ừ' | 'ử' | 'ữ' | 'ự' => Some('u'),
        'y' | 'ý' | 'ỳ' | 'ỷ' | 'ỹ' | 'ỵ' => Some('y'),
        'A' | 'Á' | 'À' | 'Ả' | 'Ã' | 'Ạ' | 'Ă' | 'Ắ' | 'Ằ' | 'Ẳ' | 'Ẵ' | 'Ặ' | 'Â' | 'Ấ'
        | 'Ầ' | 'Ẩ' | 'Ẫ' | 'Ậ' => Some('A'),
        'E' | 'É' | 'È' | 'Ẻ' | 'Ẽ' | 'Ẹ' | 'Ê' | 'Ế' | 'Ề' | 'Ể' | 'Ễ' | 'Ệ' => Some('E'),
        'I' | 'Í' | 'Ì' | 'Ỉ' | 'Ĩ' | 'Ị' => Some('I'),
        'O' | 'Ó' | 'Ò' | 'Ỏ' | 'Õ' | 'Ọ' | 'Ô' | 'Ố' | 'Ồ' | 'Ổ' | 'Ỗ' | 'Ộ' | 'Ơ' | 'Ớ'
        | 'Ờ' | 'Ở' | 'Ỡ' | 'Ợ' => Some('O'),
        'U' | 'Ú' | 'Ù' | 'Ủ' | 'Ũ' | 'Ụ' | 'Ư' | 'Ứ' | 'Ừ' | 'Ử' | 'Ữ' | 'Ự' => Some('U'),
        'Y' | 'Ý' | 'Ỳ' | 'Ỷ' | 'Ỹ' | 'Ỵ' => Some('Y'),
        'đ' => Some('d'),
        'Đ' => Some('D'),
        _ => None,
    }
}

/// The mark of a letter.
pub open spec fn mark(c: char) -> Mark {
    match c {
        'ă' | 'ắ' | 'ằ' | 'ẳ' | 'ẵ' | 'ặ' | 'Ă' | 'Ắ' | 'Ằ' | 'Ẳ' | 'Ẵ' | 'Ặ' => Mark::Breve,
        'â' | 'ấ' | 'ầ' | 'ẩ' | 'ẫ' | 'ậ' | 'ê' | 'ế' | 'ề' | 'ể' | 'ễ' | 'ệ' | 'ô' | 'ố'
        | 'ồ' | 'ổ' | 'ỗ' | 'ộ' | 'Â' | 'Ấ' | 'Ầ' | 'Ẩ' | 'Ẫ' | 'Ậ' | 'Ê' | 'Ế' | 'Ề' | 'Ể'
        | 'Ễ' | 'Ệ' | 'Ô' | 'Ố' | 'Ồ' | 'Ổ' | 'Ỗ' | 'Ộ' => Mark::Circumflex,
        'ơ' | 'ớ' | 'ờ' | 'ở' | 'ỡ' | 'ợ' | 'ư' | 'ứ' | 'ừ' | 'ử' | 'ữ' | 'ự' | 'Ơ' | 'Ớ'
        | 'Ờ' | 'Ở' | 'Ỡ' | 'Ợ' | 'Ư' | 'Ứ' | 'Ừ' | 'Ử' | 'Ữ' | 'Ự' => Mark::Horn,
        'đ' | 'Đ' => Mark::Stroke,
        _ => Mark::Bare,
    }
}

/// The tone of a letter.
pub open spec fn tone(c: char) -> Tone {
    match c {
        'á' | 'ắ' | 'ấ' | 'é' | 'ế' | 'í' | 'ó' | 'ố' | 'ớ' | 'ú' | 'ứ' | 'ý' | 'Á' | 'Ắ'
        | 'Ấ' | 'É' | 'Ế' | 'Í' | 'Ó' | 'Ố' | 'Ớ' | 'Ú' | 'Ứ' | 'Ý' => Tone::Acute,
        'à' | 'ằ' | 'ầ' | 'è' | 'ề' | 'ì' | 'ò' | 'ồ' | 'ờ' | 'ù' | 'ừ' | 'ỳ' | 'À' | 'Ằ'
        | 'Ầ' | 'È' | 'Ề' | 'Ì' | 'Ò' | 'Ồ' | 'Ờ' | 'Ù' | 'Ừ' | 'Ỳ' => Tone::Grave,
        'ả' | 'ẳ' | 'ẩ' | 'ẻ' | 'ể' | 'ỉ' | 'ỏ' | 'ổ' | 'ở' | 'ủ' | 'ử' | 'ỷ' | 'Ả' | 'Ẳ'
        | 'Ẩ' | 'Ẻ' | 'Ể' | 'Ỉ' | 'Ỏ' | 'Ổ' | 'Ở' | 'Ủ' | 'Ử' | 'Ỷ' => Tone::Hook,
        'ã' | 'ẵ' | 'ẫ' | 'ẽ' | 'ễ' | 'ĩ' | 'õ' | 'ỗ' | 'ỡ' | 'ũ' | 'ữ' | 'ỹ' | 'Ã' | 'Ẵ'
        | 'Ẫ' | 'Ẽ' | 'Ễ' | 'Ĩ' | 'Õ' | 'Ỗ' | 'Ỡ' | 'Ũ' | 'Ữ' | 'Ỹ' => Tone::Tilde,
        'ạ' | 'ặ' | 'ậ' | 'ẹ' | 'ệ' | 'ị' | 'ọ' | 'ộ' | 'ợ' | 'ụ' | 'ự' | 'ỵ' | 'Ạ' | 'Ặ'
        | 'Ậ' | 'Ẹ' | 'Ệ' | 'Ị' | 'Ọ' | 'Ộ' | 'Ợ' | 'Ụ' | 'Ự' | 'Ỵ' => Tone::Dot,
        _ => Tone::Level,
    }
}

/// The key of a mark on base letter `b`. Telex writes a circumflex and the stroke by the
/// letter again, and breve and horn by `w`, in the case of the letter; VNI has a digit
/// for each.
pub open spec fn mark_key(m: Mark, b: char, method: InputMethod) -> Option<char> {
    match (m, method) {
        (Mark::Bare, _) => None,
        (Mark::Circumflex, InputMethod::Vni) => Some('6'),
        (Mark::Horn, InputMethod::Vni) => Some('7'),
        (Mark::Breve, InputMethod::Vni) => Some('8'),
        (Mark::Stroke, InputMethod::Vni) => Some('9'),
        (Mark::Circumflex, _) | (Mark::Stroke, _) => Some(b),
        (Mark::Breve, _) | (Mark::Horn, _) => Some(
            if capital(b) {
                'W'
            } else {
                'w'
            },
        ),
    }
}

/// The key of a tone on base letter `b`.
pub open spec fn tone_key(t: Tone, b: char, method: InputMethod) -> Option<char> {
    match (t, method) {
        (Tone::Level, _) => None,
        (Tone::Acute, InputMethod::Vni) => Some('1'),
        (Tone::Grave, InputMethod::Vni) => Some('2'),
        (Tone::Hook, InputMethod::Vni) => Some('3'),
        (Tone::Tilde, InputMethod::Vni) => Some('4'),
        (Tone::Dot, InputMethod::Vni) => Some('5'),
        (Tone::Acute, _) => Some(cased('s', 'S', b)),
        (Tone::Grave, _) => Some(cased('f', 'F', b)),
        (Tone::Hook, _) => Some(cased('r', 'R', b)),
        (Tone::Tilde, _) => Some(cased('x', 'X', b)),
        (Tone::Dot, _) => Some(cased('j', 'J', b)),
    }
}

/// A base letter is a capital.
pub open spec fn capital(b: char) -> bool {
    'A' <= b <= 'Z'
}

/// The one or the other, as the base letter is small or a capital.
pub open spec fn cased(small: char, large: char, b: char) -> char {
    if capital(b) {
        large
    } else {
        small
    }
}

/// A key, if there is one.
pub open spec fn one_key(k: Option<char>) -> Seq<char> {
    match k {
        Some(k) => seq![k],
        None => Seq::empty(),
    }
}

/// A base letter, the key of its mark and the key of its tone.
pub open spec fn spelled(b: char, m: Mark, t: Tone, method: InputMethod) -> Seq<char> {
    seq![b] + one_key(mark_key(m, b, method)) + one_key(tone_key(t, b, method))
}

/// A Vietnamese letter that ASCII does not have.
pub open spec fn composed(c: char) -> bool {
    base(c) is Some && (c as u32) >= 0x80
}

/// The place of a vowel: twelve vowels of six forms each, first the small ones.
spec fn row_base(k: int, cap: bool) -> char {
    if cap {
        "AAAEEIOOOUUY"@[k]
    } else {
        "aaaeeiooouuy"@[k]
    }
}

spec fn row_mark(k: int) -> Mark {
    if k == 1 {
        Mark::Breve
    } else if k == 2 || k == 4 || k == 7 {
        Mark::Circumflex
    } else if k == 8 || k == 10 {
        Mark::Horn
    } else {
        Mark::Bare
    }
}

spec fn form_tone(k: int) -> Tone {
    if k == 1 {
        Tone::Acute
    } else if k == 2 {
        Tone::Grave
    } else if k == 3 {
        Tone::Hook
    } else if k == 4 {
        Tone::Tilde
    } else if k == 5 {
        Tone::Dot
    } else {
        Tone::Level
    }
}

proof fn lemma_small_vowel(i: int)
    requires
        0 <= i < keystrokes::vowels().len(),
    ensures
        keystrokes::vowels().len() == 72,
        base(keystrokes::vowels()[i]) == Some(row_base(i / 6, false)),
        mark(keystrokes::vowels()[i]) == row_mark(i / 6),
        tone(keystrokes::vowels()[i]) == form_tone(i % 6),
{
    reveal_strlit(
        "aáàảãạăắằẳẵặâấầẩẫậeéèẻẽẹêếềểễệiíìỉĩịoóòỏõọôốồổỗộơớờởỡợuúùủũụưứừửữựyýỳỷỹỵ",
    );
    reveal_strlit("aaaeeiooouuy");
    if i < 6 {
        assert(i == 0 || i == 1 || i == 2 || i == 3 || i == 4 || i == 5);
    } else if i < 12 {
        assert(i == 6 || i == 7 || i == 8 || i == 9 || i == 10 || i == 11);
    } else if i < 18 {
        assert(i == 12 || i == 13 || i == 14 || i == 15 || i == 16 || i == 17);
    } else if i < 24 {
        assert(i == 18 || i == 19 || i == 20 || i == 21 || i == 22 || i == 23);
    } else if i < 30 {
        assert(i == 24 || i == 25 || i == 26 || i == 27 || i == 28 || i == 29);
    } else if i < 36 {
        assert(i == 30 || i == 31 || i == 32 || i == 33 || i == 34 || i == 35);
    } else if i < 42 {
        assert(i == 36 || i == 37 || i == 38 || i == 39 || i == 40 || i == 41);
    } else if i < 48 {
        assert(i == 42 || i == 43 || i == 44 || i == 45 || i == 46 || i == 47);
    } else if i < 54 {
        assert(i == 48 || i == 49 || i == 50 || i == 51 || i == 52 || i == 53);
    } else if i < 60 {
        assert(i == 54 || i == 55 || i == 56 || i == 57 || i == 58 || i == 59);
    } else if i < 66 {
        assert(i == 60 || i == 61 || i == 62 || i == 63 || i == 64 || i == 65);
    } else {
        assert(i == 66 || i == 67 || i == 68 || i == 69 || i == 70 || i == 71);
    }
}

proof fn lemma_large_vowel(i: int)
    requires
        0 <= i < keystrokes::capital_vowels().len(),
    ensures
        keystrokes::capital_vowels().len() == 72,
        base(keystrokes::capital_vowels()[i]) == Some(row_base(i / 6, true)),
        mark(keystrokes::capital_vowels()[i]) == row_mark(i / 6),
        tone(keystrokes::capital_vowels()[i]) == form_tone(i % 6),
{
    reveal_strlit(
        "AÁÀẢÃẠĂẮẰẲẴẶÂẤẦẨẪẬEÉÈẺẼẸÊẾỀỂỄỆIÍÌỈĨỊOÓÒỎÕỌÔỐỒỔỖỘƠỚỜỞỠỢUÚÙỦŨỤƯỨỪỬỮỰYÝỲỶỸỴ",
    );
    reveal_strlit("AAAEEIOOOUUY");
    if i < 6 {
        assert(i == 0 || i == 1 || i == 2 || i == 3 || i == 4 || i == 5);
    } else if i < 12 {
        assert(i == 6 || i == 7 || i == 8 || i == 9 || i == 10 || i == 11);
    } else if i < 18 {
        assert(i == 12 || i == 13 || i == 14 || i == 15 || i == 16 || i == 17);
    } else if i < 24 {
        assert(i == 18 || i == 19 || i == 20 || i == 21 || i == 22 || i == 23);
    } else if i < 30 {
        assert(i == 24 || i == 25 || i == 26 || i == 27 || i == 28 || i == 29);
    } else if i < 36 {
        assert(i == 30 || i == 31 || i == 32 || i == 33 || i == 34 || i == 35);
    } else if i < 42 {
        assert(i == 36 || i == 37 || i == 38 || i == 39 || i == 40 || i == 41);
    } else if i < 48 {
        assert(i == 42 || i == 43 || i == 44 || i == 45 || i == 46 || i == 47);
    } else if i < 54 {
        assert(i == 48 || i == 49 || i == 50 || i == 51 || i == 52 || i == 53);
    } else if i < 60 {
        assert(i == 54 || i == 55 || i == 56 || i == 57 || i == 58 || i == 59);
    } else if i < 66 {
        assert(i == 60 || i == 61 || i == 62 || i == 63 || i == 64 || i == 65);
    } else {
        assert(i == 66 || i == 67 || i == 68 || i == 69 || i == 70 || i == 71);
    }
}

proof fn lemma_vowel_keys(i: nat, method: InputMethod, cap: bool)
    requires
        i < 72,
    ensures
        keystrokes::vowel_keys(i, method, cap) == spelled(
            row_base(i as int / 6, cap),
            row_mark(i as int / 6),
            form_tone(i as int % 6),
            method,
        ),
{
    reveal_strlit("AAAEEIOOOUUY");
    reveal_strlit("aaaeeiooouuy");
    reveal_strlit(" 86 6  67 7 ");
    reveal_strlit(" WA E  OW W ");
    reveal_strlit(" wa e  ow w ");
    reveal_strlit(" 12345");
    reveal_strlit(" SFRXJ");
    reveal_strlit(" sfrxj");
    let k = i as int / 6;
    let t = i as int % 6;
    assert(k == 0 || k == 1 || k == 2 || k == 3 || k == 4 || k == 5 || k == 6 || k == 7 || k == 8
        || k == 9 || k == 10 || k == 11);
    assert(t == 0 || t == 1 || t == 2 || t == 3 || t == 4 || t == 5);
    let b = row_base(k, cap);
    assert(keystrokes::key_or_none(keystrokes::mark_keys(method, cap)[k]) == one_key(
        mark_key(row_mark(k), b, method),
    ));
    assert(keystrokes::key_or_none(keystrokes::tone_keys(method, cap)[t]) == one_key(
        tone_key(form_tone(t), b, method),
    ));
}

/// Where a vowel stands among the vowels.
proof fn lemma_vowel_place(c: char) -> (r: (nat, bool))
    requires
        composed(c),
        c != 'đ' && c != 'Đ',
    ensures
        r.0 < 72,
        !r.1 ==> keystrokes::position(keystrokes::vowels(), c) == Some(r.0),
        r.1 ==> keystrokes::position(keystrokes::vowels(), c) is None && keystrokes::position(
            keystrokes::capital_vowels(),
            c,
        ) == Some(r.0),
        base(c) == Some(row_base(r.0 as int / 6, r.1)),
        mark(c) == row_mark(r.0 as int / 6),
        tone(c) == form_tone(r.0 as int % 6),
{
    keystrokes::lemma_position(keystrokes::vowels(), c);
    keystrokes::lemma_position(keystrokes::capital_vowels(), c);
    match keystrokes::position(keystrokes::vowels(), c) {
        Some(i) => {
            lemma_small_vowel(i as int);
            (i, false)
        },
        None => {
            lemma_vowels_are_listed(c);
            let i = keystrokes::position(keystrokes::capital_vowels(), c)->0;
            lemma_large_vowel(i as int);
            (i, true)
        },
    }
}

proof fn lemma_vowels_are_listed(c: char)
    requires
        composed(c),
        c != 'đ' && c != 'Đ',
    ensures
        keystrokes::vowels().contains(c) || keystrokes::capital_vowels().contains(c),
{
    reveal_strlit(
        "aáàảãạăắằẳẵặâấầẩẫậeéèẻẽẹêếềểễệiíìỉĩịoóòỏõọôốồổỗộơớờởỡợuúùủũụưứừửữựyýỳỷỹỵ",
    );
    reveal_strlit(
        "AÁÀẢÃẠĂẮẰẲẴẶÂẤẦẨẪẬEÉÈẺẼẸÊẾỀỂỄỆIÍÌỈĨỊOÓÒỎÕỌÔỐỒỔỖỘƠỚỜỞỠỢUÚÙỦŨỤƯỨỪỬỮỰYÝỲỶỸỴ",
    );
    let small = keystrokes::vowels();
    let large = keystrokes::capital_vowels();
    if !small.contains(c) && !large.contains(c) {
        assert(forall|i: int| 0 <= i < small.len() ==> #[trigger] small[i] != c);
        assert(forall|i: int| 0 <= i < large.len() ==> #[trigger] large[i] != c);
        assert(small[0] == 'a' && small[1] == 'á' && small[2] == 'à'
            && small[3] == 'ả' && small[4] == 'ã' && small[5] == 'ạ');
        assert(small[6] == 'ă' && small[7] == 'ắ' && small[8] == 'ằ'
            && small[9] == 'ẳ' && small[10] == 'ẵ' && small[11] == 'ặ');
        assert(small[12] == 'â' && small[13] == 'ấ' && small[14] == 'ầ'
            && small[15] == 'ẩ' && small[16] == 'ẫ' && small[17] == 'ậ');
        assert(small[18] == 'e' && small[19] == 'é' && small[20] == 'è'
            && small[21] == 'ẻ' && small[22] == 'ẽ' && small[23] == 'ẹ');
        assert(small[24] == 'ê' && small[25] == 'ế' && small[26] == 'ề'
            && small[27] == 'ể' && small[28] == 'ễ' && small[29] == 'ệ');
        assert(small[30] == 'i' && small[31] == 'í' && small[32] == 'ì'
            && small[33] == 'ỉ' && small[34] == 'ĩ' && small[35] == 'ị');
        assert(small[36] == 'o' && small[37] == 'ó' && small[38] == 'ò'
            && small[39] == 'ỏ' && small[40] == 'õ' && small[41] == 'ọ');
        assert(small[42] == 'ô' && small[43] == 'ố' && small[44] == 'ồ'
            && small[45] == 'ổ' && small[46] == 'ỗ' && small[47] == 'ộ');
        assert(small[48] == 'ơ' && small[49] == 'ớ' && small[50] == 'ờ'
            && small[51] == 'ở' && small[52] == 'ỡ' && small[53] == 'ợ');
        assert(small[54] == 'u' && small[55] == 'ú' && small[56] == 'ù'
            && small[57] == 'ủ' && small[58] == 'ũ' && small[59] == 'ụ');
        assert(small[60] == 'ư' && small[61] == 'ứ' && small[62] == 'ừ'
            && small[63] == 'ử' && small[64] == 'ữ' && small[65] == 'ự');
        assert(small[66] == 'y' && small[67] == 'ý' && small[68] == 'ỳ'
            && small[69] == 'ỷ' && small[70] == 'ỹ' && small[71] == 'ỵ');
        assert(large[0] == 'A' && large[1] == 'Á' && large[2] == 'À'
            && large[3] == 'Ả' && large[4] == 'Ã' && large[5] == 'Ạ');
        assert(large[6] == 'Ă' && large[7] == 'Ắ' && large[8] == 'Ằ'
            && large[9] == 'Ẳ' && large[10] == 'Ẵ' && large[11] == 'Ặ');
        assert(large[12] == 'Â' && large[13] == 'Ấ' && large[14] == 'Ầ'
            && large[15] == 'Ẩ' && large[16] == 'Ẫ' && large[17] == 'Ậ');
        assert(large[18] == 'E' && large[19] == 'É' && large[20] == 'È'
            && large[21] == 'Ẻ' && large[22] == 'Ẽ' && large[23] == 'Ẹ');
        assert(large[24] == 'Ê' && large[25] == 'Ế' && large[26] == 'Ề'
            && large[27] == 'Ể' && large[28] == 'Ễ' && large[29] == 'Ệ');
        assert(large[30] == 'I' && large[31] == 'Í' && large[32] == 'Ì'
            && large[33] == 'Ỉ' && large[34] == 'Ĩ' && large[35] == 'Ị');
        assert(large[36] == 'O' && large[37] == 'Ó' && large[38] == 'Ò'
            && large[39] == 'Ỏ' && large[40] == 'Õ' && large[41] == 'Ọ');
        assert(large[42] == 'Ô' && large[43] == 'Ố' && large[44] == 'Ồ'
            && large[45] == 'Ổ' && large[46] == 'Ỗ' && large[47] == 'Ộ');
        assert(large[48] == 'Ơ' && large[49] == 'Ớ' && large[50] == 'Ờ'
            && large[51] == 'Ở' && large[52] == 'Ỡ' && large[53] == 'Ợ');
        assert(large[54] == 'U' && large[55] == 'Ú' && large[56] == 'Ù'
            && large[57] == 'Ủ' && large[58] == 'Ũ' && large[59] == 'Ụ');
        assert(large[60] == 'Ư' && large[61] == 'Ứ' && large[62] == 'Ừ'
            && large[63] == 'Ử' && large[64] == 'Ữ' && large[65] == 'Ự');
        assert(large[66] == 'Y' && large[67] == 'Ý' && large[68] == 'Ỳ'
            && large[69] == 'Ỷ' && large[70] == 'Ỹ' && large[71] == 'Ỵ');
    }
}

/// A letter is typed by its base letter, the key of its mark and the key of its tone.
pub proof fn law_letters_are_spelled(c: char, method: InputMethod)
    requires
        composed(c),
    ensures
        keystrokes::keys_of(c, method) == spelled(base(c)->0, mark(c), tone(c), method),
{
    reveal_strlit("d9");
    reveal_strlit("dd");
    reveal_strlit("D9");
    reveal_strlit("DD");
    if c == 'đ' || c == 'Đ' {
        assert(keystrokes::keys_of(c, method) =~= spelled(base(c)->0, mark(c), tone(c), method));
    } else {
        let (i, cap) = lemma_vowel_place(c);
        lemma_vowel_keys(i, method, cap);
    }
}

/// A character that is neither ASCII nor a Vietnamese letter has no keys.
pub proof fn law_other_letters_have_no_keys(c: char, method: InputMethod)
    requires
        (c as u32) >= 0x80,
        base(c) is None,
    ensures
        keystrokes::keys_of(c, method).len() == 0,
{
    keystrokes::lemma_position(keystrokes::vowels(), c);
    keystrokes::lemma_position(keystrokes::capital_vowels(), c);
    if let Some(i) = keystrokes::position(keystrokes::vowels(), c) {
        lemma_small_vowel(i as int);
    }
    if let Some(i) = keystrokes::position(keystrokes::capital_vowels(), c) {
        lemma_large_vowel(i as int);
    }
}

/// A character that can be typed.
pub open spec fn typable(c: char) -> bool {
    (c as u32) < 0x80 || composed(c)
}

/// A composed letter takes more than one key, so it never has the keys of an ASCII
/// character.
pub proof fn law_composed_letters_take_several_keys(c: char, method: InputMethod)
    requires
        composed(c),
    ensures
        2 <= keystrokes::keys_of(c, method).len() <= 3,
{
    law_letters_are_spelled(c, method);
    lemma_something_is_added(c);
}

proof fn lemma_something_is_added(c: char)
    requires
        composed(c),
    ensures
        mark(c) !is Bare || tone(c) !is Level,
{
}

/// No two characters have the same keys.
pub proof fn law_keys_tell_letters_apart(a: char, b: char, method: InputMethod)
    requires
        typable(a) && typable(b),
        keystrokes::keys_of(a, method) == keystrokes::keys_of(b, method),
    ensures
        a == b,
{
    if composed(a) {
        law_composed_letters_take_several_keys(a, method);
        law_letters_are_spelled(a, method);
    }
    if composed(b) {
        law_composed_letters_take_several_keys(b, method);
        law_letters_are_spelled(b, method);
    }
    if composed(a) && composed(b) {
        lemma_spelling_is_unique(
            base(a)->0,
            mark(a),
            tone(a),
            base(b)->0,
            mark(b),
            tone(b),
            method,
        );
        lemma_anatomy_is_unique(a, b);
    } else {
        assert(!composed(a) ==> keystrokes::keys_of(a, method) == seq![a]);
        assert(!composed(b) ==> keystrokes::keys_of(b, method) == seq![b]);
        assert(seq![a].len() == 1 && seq![b].len() == 1);
        assert(seq![a][0] == a && seq![b][0] == b);
    }
}

/// A mark that a base letter can carry.
spec fn carries(b: char, m: Mark) -> bool {
    match m {
        Mark::Bare => b != 'd' && b != 'D',
        Mark::Breve => b == 'a' || b == 'A',
        Mark::Circumflex => b == 'a' || b == 'e' || b == 'o' || b == 'A' || b == 'E' || b == 'O',
        Mark::Horn => b == 'o' || b == 'u' || b == 'O' || b == 'U',
        Mark::Stroke => b == 'd' || b == 'D',
    }
}

proof fn lemma_carried(c: char)
    requires
        composed(c),
    ensures
        carries(base(c)->0, mark(c)),
        mark(c) is Stroke ==> tone(c) is Level,
{
}

proof fn lemma_spelling_is_unique(
    a: char,
    m: Mark,
    t: Tone,
    b: char,
    n: Mark,
    u: Tone,
    method: InputMethod,
)
    requires
        spelled(a, m, t, method) == spelled(b, n, u, method),
        exists|c: char| composed(c) && base(c) == Some(a) && #[trigger] mark(c) == m,
        exists|c: char| composed(c) && base(c) == Some(b) && #[trigger] mark(c) == n,
    ensures
        a == b,
        m == n,
        t == u,
{
    let c = choose|c: char| composed(c) && base(c) == Some(a) && #[trigger] mark(c) == m;
    let d = choose|c: char| composed(c) && base(c) == Some(b) && #[trigger] mark(c) == n;
    lemma_carried(c);
    lemma_carried(d);
    let x = spelled(a, m, t, method);
    let y = spelled(b, n, u, method);
    assert(x[0] == a && y[0] == b);
    let p = one_key(mark_key(m, a, method));
    let q = one_key(tone_key(t, a, method));
    let r = one_key(mark_key(n, b, method));
    let s = one_key(tone_key(u, b, method));
    assert(x.len() == 1 + p.len() + q.len());
    assert(y.len() == 1 + r.len() + s.len());
    assert(p.len() == 1 ==> x[1] == p[0]);
    assert(p.len() == 0 && q.len() == 1 ==> x[1] == q[0]);
    assert(p.len() == 1 && q.len() == 1 ==> x[2] == q[0]);
    assert(r.len() == 1 ==> y[1] == r[0]);
    assert(r.len() == 0 && s.len() == 1 ==> y[1] == s[0]);
    assert(r.len() == 1 && s.len() == 1 ==> y[2] == s[0]);
}

proof fn lemma_anatomy_is_unique(a: char, b: char)
    requires
        composed(a) && composed(b),
        base(a) == base(b),
        mark(a) == mark(b),
        tone(a) == tone(b),
    ensures
        a == b,
{
    if a == 'đ' || a == 'Đ' || b == 'đ' || b == 'Đ' {
        lemma_carried(a);
        lemma_carried(b);
    } else {
        reveal_strlit("AAAEEIOOOUUY");
        reveal_strlit("aaaeeiooouuy");
        let (i, cap) = lemma_vowel_place(a);
        let (j, dap) = lemma_vowel_place(b);
        lemma_place(i as int / 6, cap);
        lemma_place(j as int / 6, dap);
        lemma_form(i as int % 6);
        lemma_form(j as int % 6);
        assert(cap == dap && i as int / 6 == j as int / 6 && i as int % 6 == j as int % 6);
        assert(i == j);
        keystrokes::lemma_position(keystrokes::vowels(), a);
        keystrokes::lemma_position(keystrokes::vowels(), b);
        keystrokes::lemma_position(keystrokes::capital_vowels(), a);
        keystrokes::lemma_position(keystrokes::capital_vowels(), b);
    }
}

/// The row that a base letter and a mark belong to.
spec fn row_of(b: char, m: Mark) -> int {
    if b == 'a' || b == 'A' {
        if m is Breve {
            1
        } else if m is Circumflex {
            2
        } else {
            0
        }
    } else if b == 'e' || b == 'E' {
        if m is Circumflex {
            4
        } else {
            3
        }
    } else if b == 'i' || b == 'I' {
        5
    } else if b == 'o' || b == 'O' {
        if m is Circumflex {
            7
        } else if m is Horn {
            8
        } else {
            6
        }
    } else if b == 'u' || b == 'U' {
        if m is Horn {
            10
        } else {
            9
        }
    } else {
        11
    }
}

proof fn lemma_place(k: int, cap: bool)
    requires
        0 <= k < 12,
    ensures
        row_of(row_base(k, cap), row_mark(k)) == k,
        capital(row_base(k, cap)) == cap,
{
    reveal_strlit("AAAEEIOOOUUY");
    reveal_strlit("aaaeeiooouuy");
    assert(k == 0 || k == 1 || k == 2 || k == 3 || k == 4 || k == 5 || k == 6 || k == 7 || k == 8
        || k == 9 || k == 10 || k == 11);
}

spec fn form_of(t: Tone) -> int {
    match t {
        Tone::Level => 0,
        Tone::Acute => 1,
        Tone::Grave => 2,
        Tone::Hook => 3,
        Tone::Tilde => 4,
        Tone::Dot => 5,
    }
}

proof fn lemma_form(k: int)
    requires
        0 <= k < 6,
    ensures
        form_of(form_tone(k)) == k,
{
}

/// The sum of widths.
pub open spec fn total(widths: Seq<u8>) -> nat
    decreases widths.len(),
{
    if widths.len() == 0 {
        0
    } else {
        total(widths.drop_last()) + widths.last() as nat
    }
}

/// How many characters of a text can be typed.
pub open spec fn typable_count(s: Seq<char>) -> nat
    decreases s.len(),
{
    if s.len() == 0 {
        0
    } else {
        typable_count(s.drop_last()) + (if typable(s.last()) {
            1nat
        } else {
            0
        })
    }
}

/// The widths divide the keys among the characters that have any: there is one for
/// each, and together they are all the bytes of the keys.
pub proof fn law_widths_divide_the_keys(s: Seq<char>, method: InputMethod)
    ensures
        keystrokes::key_widths(s, method).len() == typable_count(s),
        total(keystrokes::key_widths(s, method)) == text::utf8_len(
            keystrokes::keys_of_text(s, method),
        ),
    decreases s.len(),
{
    if s.len() > 0 {
        let c = s.last();
        let keys = keystrokes::keys_of(c, method);
        let rest = keystrokes::key_widths(s.drop_last(), method);
        law_widths_divide_the_keys(s.drop_last(), method);
        if composed(c) {
            law_composed_letters_take_several_keys(c, method);
        } else if (c as u32) >= 0x80 {
            law_other_letters_have_no_keys(c, method);
            assert(keys =~= Seq::<char>::empty());
        }
        text::lemma_utf8_len_concat(keystrokes::keys_of_text(s.drop_last(), method), keys);
        lemma_keys_are_narrow(keys);
        assert(rest.push(text::utf8_len(keys) as u8).drop_last() =~= rest);
    }
}

proof fn lemma_keys_are_narrow(keys: Seq<char>)
    ensures
        keys.len() <= text::utf8_len(keys) <= 4 * keys.len(),
    decreases keys.len(),
{
    if keys.len() > 0 {
        lemma_keys_are_narrow(keys.drop_last());
    }
}

} // verus!
