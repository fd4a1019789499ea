//! That no two keys type the same byte, and that both sets of scan codes type the same bytes.

use vstd::prelude::*;

use crate::keyboard::keys;

verus! {

/// The key that means `b`, in the first set; zero where none does.
spec fn plain_key(b: u8) -> int {
    if b == 27 {
        1
    } else if b == 49 {
        2
    } else if b == 50 {
        3
    } else if b == 51 {
        4
    } else if b == 52 {
        5
    } else if b == 53 {
        6
    } else if b == 54 {
        7
    } else if b == 55 {
        8
    } else if b == 56 {
        9
    } else if b == 57 {
        10
    } else if b == 48 {
        11
    } else if b == 45 {
        12
    } else if b == 61 {
        13
    } else if b == 8 {
        14
    } else if b == 9 {
        15
    } else if b == 113 {
        16
    } else if b == 119 {
        17
    } else if b == 101 {
        18
    } else if b == 114 {
        19
    } else if b == 116 {
        20
    } else if b == 121 {
        21
    } else if b == 117 {
        22
    } else if b == 105 {
        23
    } else if b == 111 {
        24
    } else if b == 112 {
        25
    } else if b == 91 {
        26
    } else if b == 93 {
        27
    } else if b == 10 {
        28
    } else if b == 97 {
        30
    } else if b == 115 {
        31
    } else if b == 100 {
        32
    } else if b == 102 {
        33
    } else if b == 103 {
        34
    } else if b == 104 {
        35
    } else if b == 106 {
        36
    } else if b == 107 {
        37
    } else if b == 108 {
        38
    } else if b == 59 {
        39
    } else if b == 39 {
        40
    } else if b == 96 {
        41
    } else if b == 92 {
        43
    } else if b == 122 {
        44
    } else if b == 120 {
        45
    } else if b == 99 {
        46
    } else if b == 118 {
        47
    } else if b == 98 {
        48
    } else if b == 110 {
        49
    } else if b == 109 {
        50
    } else if b == 44 {
        51
    } else if b == 46 {
        52
    } else if b == 47 {
        53
    } else if b == 32 {
        57
    } else {
        0
    }
}

/// The key that means `b` with shift, in the first set; letters by their small form.
spec fn shifted_key(b: u8) -> int {
    if b == 27 {
        1
    } else if b == 33 {
        2
    } else if b == 64 {
        3
    } else if b == 35 {
        4
    } else if b == 36 {
        5
    } else if b == 37 {
        6
    } else if b == 94 {
        7
    } else if b == 38 {
        8
    } else if b == 42 {
        9
    } else if b == 40 {
        10
    } else if b == 41 {
        11
    } else if b == 95 {
        12
    } else if b == 43 {
        13
    } else if b == 8 {
        14
    } else if b == 9 {
        15
    } else if b == 113 {
        16
    } else if b == 119 {
        17
    } else if b == 101 {
        18
    } else if b == 114 {
        19
    } else if b == 116 {
        20
    } else if b == 121 {
        21
    } else if b == 117 {
        22
    } else if b == 105 {
        23
    } else if b == 111 {
        24
    } else if b == 112 {
        25
    } else if b == 123 {
        26
    } else if b == 125 {
        27
    } else if b == 10 {
        28
    } else if b == 97 {
        30
    } else if b == 115 {
        31
    } else if b == 100 {
        32
    } else if b == 102 {
        33
    } else if b == 103 {
        34
    } else if b == 104 {
        35
    } else if b == 106 {
        36
    } else if b == 107 {
        37
    } else if b == 108 {
        38
    } else if b == 58 {
        39
    } else if b == 34 {
        40
    } else if b == 126 {
        41
    } else if b == 124 {
        43
    } else if b == 122 {
        44
    } else if b == 120 {
        45
    } else if b == 99 {
        46
    } else if b == 118 {
        47
    } else if b == 98 {
        48
    } else if b == 110 {
        49
    } else if b == 109 {
        50
    } else if b == 60 {
        51
    } else if b == 62 {
        52
    } else if b == 63 {
        53
    } else if b == 32 {
        57
    } else {
        0
    }
}

/// The scan code in the first set of the key with code `b` in the second.
spec fn first_key(b: u8) -> int {
    if b == 0x76 {
        1
    } else if b == 0x16 {
        2
    } else if b == 0x1e {
        3
    } else if b == 0x26 {
        4
    } else if b == 0x25 {
        5
    } else if b == 0x2e {
        6
    } else if b == 0x36 {
        7
    } else if b == 0x3d {
        8
    } else if b == 0x3e {
        9
    } else if b == 0x46 {
        10
    } else if b == 0x45 {
        11
    } else if b == 0x4e {
        12
    } else if b == 0x55 {
        13
    } else if b == 0x66 {
        14
    } else if b == 0xd {
        15
    } else if b == 0x15 {
        16
    } else if b == 0x1d {
        17
    } else if b == 0x24 {
        18
    } else if b == 0x2d {
        19
    } else if b == 0x2c {
        20
    } else if b == 0x35 {
        21
    } else if b == 0x3c {
        22
    } else if b == 0x43 {
        23
    } else if b == 0x44 {
        24
    } else if b == 0x4d {
        25
    } else if b == 0x54 {
        26
    } else if b == 0x5b {
        27
    } else if b == 0x5a {
        28
    } else if b == 0x1c {
        30
    } else if b == 0x1b {
        31
    } else if b == 0x23 {
        32
    } else if b == 0x2b {
        33
    } else if b == 0x34 {
        34
    } else if b == 0x33 {
        35
    } else if b == 0x3b {
        36
    } else if b == 0x42 {
        37
    } else if b == 0x4b {
        38
    } else if b == 0x4c {
        39
    } else if b == 0x52 {
        40
    } else if b == 0xe {
        41
    } else if b == 0x5d {
        43
    } else if b == 0x1a {
        44
    } else if b == 0x22 {
        45
    } else if b == 0x21 {
        46
    } else if b == 0x2a {
        47
    } else if b == 0x32 {
        48
    } else if b == 0x31 {
        49
    } else if b == 0x3a {
        50
    } else if b == 0x41 {
        51
    } else if b == 0x49 {
        52
    } else if b == 0x4a {
        53
    } else if b == 0x29 {
        57
    } else {
        0
    }
}

proof fn lemma_tables(i: int)
    requires
        0 <= i < keys::KEY_CODES,
    ensures
        keys::plain_keys()[i] != 0 ==> plain_key(keys::plain_keys()[i]) == i,
        keys::shifted_keys()[i] != 0 ==> shifted_key(keys::shifted_keys()[i]) == i,
        keys::second_set()[i] != 0 ==> first_key(keys::second_set()[i]) == i,
        (keys::plain_keys()[i] != 0) == (keys::second_set()[i] != 0),
        keys::plain_keys()[i] != 0 ==> keys::shifted_keys()[i] != 0,
        keys::plain_keys()[i] != 3 && keys::shifted_keys()[i] != 3,
        97 <= keys::plain_keys()[i] <= 122 ==> keys::shifted_keys()[i] == keys::plain_keys()[i],
        !(97 <= keys::plain_keys()[i] <= 122) ==> !(97 <= keys::shifted_keys()[i] <= 122) && !(65
            <= keys::plain_keys()[i] <= 90) && !(65 <= keys::shifted_keys()[i] <= 90),
{
}

/// The key of the first set that types `b` with such modifiers.
spec fn key_of(b: u8, shift: bool, ctrl: bool) -> int {
    if ctrl && b == 3 {
        keys::CODE_C as int
    } else if 65 <= b <= 90 {
        plain_key((b + 32) as u8)
    } else if shift {
        shifted_key(b)
    } else {
        plain_key(b)
    }
}

proof fn lemma_key_of(code: u8, shift: bool, ctrl: bool, caps_lock: bool)
    ensures
        keys::meaning(code, shift, ctrl, caps_lock) matches Some(b) ==> key_of(b, shift, ctrl)
            == code && code < keys::KEY_CODES && keys::second_set()[code as int] != 0,
{
    if code < keys::KEY_CODES {
        lemma_tables(code as int);
    }
}

proof fn lemma_place_holds(codes: Seq<u8>, code: u8, from: int)
    requires
        0 <= from <= codes.len(),
    ensures
        from <= keys::place_of(codes, code, from) <= codes.len(),
        keys::place_of(codes, code, from) < codes.len() ==> codes[keys::place_of(
            codes,
            code,
            from,
        )] == code,
        forall|i: int| from <= i < codes.len() && #[trigger] codes[i] == code ==> keys::place_of(
            codes,
            code,
            from,
        ) <= i,
    decreases codes.len() - from,
{
    if from < codes.len() && codes[from] != code {
        lemma_place_holds(codes, code, from + 1);
    }
}

/// Whatever is held down, no two keys type the same byte, in neither set of scan codes.
pub proof fn law_keys_are_told_apart(a: u8, b: u8, shift: bool, ctrl: bool, caps_lock: bool)
    requires
        a != b,
    ensures
        keys::meaning(a, shift, ctrl, caps_lock) is Some ==> keys::meaning(
            a,
            shift,
            ctrl,
            caps_lock,
        ) != keys::meaning(b, shift, ctrl, caps_lock),
        keys::second_meaning(a, shift, ctrl, caps_lock) is Some ==> keys::second_meaning(
            a,
            shift,
            ctrl,
            caps_lock,
        ) != keys::second_meaning(b, shift, ctrl, caps_lock),
{
    lemma_key_of(a, shift, ctrl, caps_lock);
    lemma_key_of(b, shift, ctrl, caps_lock);
    let p = keys::place_of(keys::second_set(), a, 0);
    let q = keys::place_of(keys::second_set(), b, 0);
    lemma_place_holds(keys::second_set(), a, 0);
    lemma_place_holds(keys::second_set(), b, 0);
    lemma_key_of(p as u8, shift, ctrl, caps_lock);
    lemma_key_of(q as u8, shift, ctrl, caps_lock);
}

/// Whatever is held down, both sets of scan codes type the same bytes.
pub proof fn law_sets_type_the_same(byte: u8, shift: bool, ctrl: bool, caps_lock: bool)
    ensures
        (exists|code: u8| #[trigger] keys::meaning(code, shift, ctrl, caps_lock) == Some(byte)) == (
        exists|code: u8| #[trigger] keys::second_meaning(code, shift, ctrl, caps_lock) == Some(
            byte,
        )),
{
    let codes = keys::second_set();
    if exists|code: u8| #[trigger] keys::meaning(code, shift, ctrl, caps_lock) == Some(byte) {
        let code = choose|code: u8| #[trigger]
            keys::meaning(code, shift, ctrl, caps_lock) == Some(byte);
        lemma_key_of(code, shift, ctrl, caps_lock);
        let other = codes[code as int];
        lemma_place_holds(codes, other, 0);
        let place = keys::place_of(codes, other, 0);
        lemma_tables(code as int);
        lemma_tables(place);
        assert(place == code);
        assert(keys::second_meaning(other, shift, ctrl, caps_lock) == Some(byte));
    }
    if exists|code: u8| #[trigger]
        keys::second_meaning(code, shift, ctrl, caps_lock) == Some(byte) {
        let code = choose|code: u8| #[trigger]
            keys::second_meaning(code, shift, ctrl, caps_lock) == Some(byte);
        let place = keys::place_of(codes, code, 0);
        lemma_place_holds(codes, code, 0);
        assert(keys::meaning(place as u8, shift, ctrl, caps_lock) == Some(byte));
    }
}

/// Whether a key of the first set is a letter's.
pub open spec fn is_letter_key(code: u8) -> bool {
    code < keys::KEY_CODES && 97 <= keys::plain_keys()[code as int] <= 122
}

/// A letter is capital where just one of shift and caps lock is on, but C with control stops
/// what runs; no other key minds caps lock; and codes beyond those of the keys mean nothing.
pub proof fn law_letters_follow_caps_lock(code: u8, shift: bool, ctrl: bool, caps_lock: bool)
    ensures
        ctrl && code == keys::CODE_C ==> keys::meaning(code, shift, ctrl, caps_lock) == Some(3u8),
        is_letter_key(code) && !(ctrl && code == keys::CODE_C) ==> {
            &&& keys::meaning(code, shift, ctrl, caps_lock) matches Some(b)
            &&& (65 <= b <= 90) == (shift != caps_lock)
            &&& (97 <= b <= 122) == (shift == caps_lock)
        },
        !is_letter_key(code) ==> keys::meaning(code, shift, ctrl, caps_lock) == keys::meaning(
            code,
            shift,
            ctrl,
            !caps_lock,
        ),
        code > 0x39 ==> keys::meaning(code, shift, ctrl, caps_lock) is None,
{
}

} // verus!
