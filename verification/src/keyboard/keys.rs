//! From scan codes to bytes.

use vstd::prelude::*;

verus! {

/// How many scan codes of the first set have a meaning, with those before them.
pub const KEY_CODES: usize = 58;

/// What the keys of the first set mean, by scan code; zero is nothing.
pub open spec fn plain_keys() -> Seq<u8> {
    seq![
        0u8, 27, 49, 50, 51, 52, 53, 54, 55, 56, 57, 48, 45, 61, 8, 9,
        113, 119, 101, 114, 116, 121, 117, 105, 111, 112, 91, 93, 10, 0, 97, 115,
        100, 102, 103, 104, 106, 107, 108, 59, 39, 96, 0, 92, 122, 120, 99, 118,
        98, 110, 109, 44, 46, 47, 0, 0, 0, 32,
    ]
}

/// What they mean with shift; letters are made capital instead.
pub open spec fn shifted_keys() -> Seq<u8> {
    seq![
        0u8, 27, 33, 64, 35, 36, 37, 94, 38, 42, 40, 41, 95, 43, 8, 9,
        113, 119, 101, 114, 116, 121, 117, 105, 111, 112, 123, 125, 10, 0, 97, 115,
        100, 102, 103, 104, 106, 107, 108, 58, 34, 126, 0, 124, 122, 120, 99, 118,
        98, 110, 109, 60, 62, 63, 0, 0, 0, 32,
    ]
}

/// The scan codes of the second set, in the order of the first.
pub open spec fn second_set() -> Seq<u8> {
    seq![
        0u8, 0x76, 0x16, 0x1e, 0x26, 0x25, 0x2e, 0x36, 0x3d, 0x3e, 0x46, 0x45, 0x4e, 0x55, 0x66, 0x0d,
        0x15, 0x1d, 0x24, 0x2d, 0x2c, 0x35, 0x3c, 0x43, 0x44, 0x4d, 0x54, 0x5b, 0x5a, 0, 0x1c, 0x1b,
        0x23, 0x2b, 0x34, 0x33, 0x3b, 0x42, 0x4b, 0x4c, 0x52, 0x0e, 0, 0x5d, 0x1a, 0x22, 0x21, 0x2a,
        0x32, 0x31, 0x3a, 0x41, 0x49, 0x4a, 0, 0, 0, 0x29,
    ]
}

fn plain_table() -> (r: [u8; 58])
    ensures
        r@ == plain_keys(),
{
    let r: [u8; 58] = [
        0, 27, 49, 50, 51, 52, 53, 54, 55, 56, 57, 48, 45, 61, 8, 9,
        113, 119, 101, 114, 116, 121, 117, 105, 111, 112, 91, 93, 10, 0, 97, 115,
        100, 102, 103, 104, 106, 107, 108, 59, 39, 96, 0, 92, 122, 120, 99, 118,
        98, 110, 109, 44, 46, 47, 0, 0, 0, 32,
    ];
    assert(r@ =~= plain_keys());
    r
}

fn shifted_table() -> (r: [u8; 58])
    ensures
        r@ == shifted_keys(),
{
    let r: [u8; 58] = [
        0, 27, 33, 64, 35, 36, 37, 94, 38, 42, 40, 41, 95, 43, 8, 9,
        113, 119, 101, 114, 116, 121, 117, 105, 111, 112, 123, 125, 10, 0, 97, 115,
        100, 102, 103, 104, 106, 107, 108, 58, 34, 126, 0, 124, 122, 120, 99, 118,
        98, 110, 109, 60, 62, 63, 0, 0, 0, 32,
    ];
    assert(r@ =~= shifted_keys());
    r
}

fn second_table() -> (r: [u8; 58])
    ensures
        r@ == second_set(),
{
    let r: [u8; 58] = [
        0, 0x76, 0x16, 0x1e, 0x26, 0x25, 0x2e, 0x36, 0x3d, 0x3e, 0x46, 0x45, 0x4e, 0x55, 0x66, 0x0d,
        0x15, 0x1d, 0x24, 0x2d, 0x2c, 0x35, 0x3c, 0x43, 0x44, 0x4d, 0x54, 0x5b, 0x5a, 0, 0x1c, 0x1b,
        0x23, 0x2b, 0x34, 0x33, 0x3b, 0x42, 0x4b, 0x4c, 0x52, 0x0e, 0, 0x5d, 0x1a, 0x22, 0x21, 0x2a,
        0x32, 0x31, 0x3a, 0x41, 0x49, 0x4a, 0, 0, 0, 0x29,
    ];
    assert(r@ =~= second_set());
    r
}

/// The key of control-C, in the first set.
pub const CODE_C: u8 = 0x2e;

/// What a key means, in the first set.
pub open spec fn meaning(code: u8, shift: bool, ctrl: bool, caps_lock: bool) -> Option<u8> {
    if ctrl && code == CODE_C {
        Some(3)
    } else if code >= KEY_CODES || plain_keys()[code as int] == 0 {
        None
    } else {
        let plain = plain_keys()[code as int];
        if 97 <= plain <= 122 {
            Some(
                if shift != caps_lock {
                    (plain - 32) as u8
                } else {
                    plain
                },
            )
        } else if shift {
            Some(shifted_keys()[code as int])
        } else {
            Some(plain)
        }
    }
}

/// Decodes a key of the first set.
pub fn decode_set1(code: u8, shift: bool, ctrl: bool, caps_lock: bool) -> (r: Option<u8>)
    ensures
        r == meaning(code, shift, ctrl, caps_lock),
{
    if ctrl && code == CODE_C {
        return Some(3);
    }
    if code as usize >= KEY_CODES {
        return None;
    }
    let plain: u8 = plain_table()[code as usize];
    if plain == 0 {
        None
    } else if plain >= 97 && plain <= 122 {
        Some(
            if shift != caps_lock {
                plain - 32
            } else {
                plain
            },
        )
    } else if shift {
        Some(shifted_table()[code as usize])
    } else {
        Some(plain)
    }
}

/// The first place from `from` on where a code stands, or the length.
pub open spec fn place_of(codes: Seq<u8>, code: u8, from: int) -> int
    decreases codes.len() - from,
{
    if from >= codes.len() || codes[from] == code {
        from
    } else {
        place_of(codes, code, from + 1)
    }
}

/// What a key means, in the second set: what the same key means in the first.
pub open spec fn second_meaning(code: u8, shift: bool, ctrl: bool, caps_lock: bool) -> Option<
    u8,
> {
    let first = place_of(second_set(), code, 0);
    if first >= KEY_CODES {
        None
    } else {
        meaning(first as u8, shift, ctrl, caps_lock)
    }
}

/// Decodes a key of the second set.
pub fn decode_set2(code: u8, shift: bool, ctrl: bool, caps_lock: bool) -> (r: Option<u8>)
    ensures
        r == second_meaning(code, shift, ctrl, caps_lock),
{
    let table = second_table();
    let mut i: usize = 0;
    while i < KEY_CODES
        invariant
            i <= KEY_CODES,
            table@ == second_set(),
            place_of(second_set(), code, 0) == place_of(second_set(), code, i as int),
        decreases KEY_CODES - i,
    {
        if table[i] == code {
            return decode_set1(i as u8, shift, ctrl, caps_lock);
        }
        i = i + 1;
    }
    None
}

/// What the keyboard's keys are at.
#[derive(Clone, Copy, Debug, PartialEq, Eq, Structural)]
pub struct KeyState {
    pub left_shift: bool,
    pub right_shift: bool,
    pub ctrl: bool,
    pub caps_lock: bool,
    pub extended: bool,
    pub break_pending: bool,
    pub scan_set2: bool,
}

impl KeyState {
    /// No key is down.
    pub open spec fn idle() -> KeyState {
        KeyState {
            left_shift: false,
            right_shift: false,
            ctrl: false,
            caps_lock: false,
            extended: false,
            break_pending: false,
            scan_set2: false,
        }
    }

    /// No key is down.
    pub fn new() -> (r: KeyState)
        ensures
            r == KeyState::idle(),
    {
        KeyState {
            left_shift: false,
            right_shift: false,
            ctrl: false,
            caps_lock: false,
            extended: false,
            break_pending: false,
            scan_set2: false,
        }
    }

    pub open spec fn shift(self) -> bool {
        self.left_shift || self.right_shift
    }

    /// Shift counts for one key.
    pub open spec fn unshifted(self) -> KeyState {
        KeyState { left_shift: false, right_shift: false, ..self }
    }

    /// After a key that means something, or nothing.
    pub open spec fn after_key(self, byte: Option<u8>) -> (KeyState, Option<u8>) {
        (
            if byte is Some {
                self.unshifted()
            } else {
                self
            },
            byte,
        )
    }

    /// After a scan code of the second set.
    pub open spec fn after_set2(self, code: u8) -> (KeyState, Option<u8>) {
        let released = self.break_pending;
        let s = KeyState { break_pending: false, extended: false, ..self };
        if code == 0x12 {
            (KeyState { left_shift: !released, ..s }, None)
        } else if code == 0x59 {
            (KeyState { right_shift: !released, ..s }, None)
        } else if code == 0x14 {
            (KeyState { ctrl: !released, ..s }, None)
        } else if self.extended {
            (
                s,
                if code == 0x5a && !released {
                    Some(10)
                } else {
                    None
                },
            )
        } else if released {
            (s, None)
        } else if code == 0x58 {
            (KeyState { caps_lock: false, ..s.unshifted() }, None)
        } else {
            s.after_key(second_meaning(code, s.shift(), s.ctrl, s.caps_lock))
        }
    }

    /// After a scan code of the first set.
    pub open spec fn after_set1(self, scancode: u8) -> (KeyState, Option<u8>) {
        let released = scancode >= 0x80;
        let code = (scancode % 128) as u8;
        if self.extended {
            let s = KeyState { extended: false, ..self };
            if scancode == 0x1c {
                (s, Some(10))
            } else if scancode == 0xb6 {
                (KeyState { right_shift: false, ..s }, None)
            } else {
                (s, None)
            }
        } else if code == 0x2a {
            (KeyState { left_shift: !released, ..self }, None)
        } else if code == 0x36 {
            (KeyState { right_shift: !released, ..self }, None)
        } else if code == 0x1d {
            (KeyState { ctrl: !released, ..self }, None)
        } else if released {
            (self, None)
        } else if code == 0x3a {
            (KeyState { caps_lock: false, ..self.unshifted() }, None)
        } else {
            self.after_key(meaning(code, self.shift(), self.ctrl, self.caps_lock))
        }
    }

    /// After a scan code. Answers of the keyboard mean nothing; one code announces that a key
    /// is released, and by it the second set is known.
    pub open spec fn after(self, scancode: u8) -> (KeyState, Option<u8>) {
        if scancode == 0xfa || scancode == 0xfe || scancode == 0xaa || scancode == 0xee {
            (self, None)
        } else if scancode == 0xe0 {
            (KeyState { extended: true, ..self }, None)
        } else if scancode == 0xf0 {
            (KeyState { break_pending: true, scan_set2: true, ..self }, None)
        } else if self.scan_set2 {
            self.after_set2(scancode)
        } else {
            self.after_set1(scancode)
        }
    }

    fn take_meaning(&mut self, byte: Option<u8>) -> (r: Option<u8>)
        ensures
            (*final(self), r) == old(self).after_key(byte),
    {
        if byte.is_some() {
            self.left_shift = false;
            self.right_shift = false;
        }
        byte
    }

    fn take_set2(&mut self, code: u8) -> (r: Option<u8>)
        ensures
            (*final(self), r) == old(self).after_set2(code),
    {
        let released: bool = self.break_pending;
        let extended: bool = self.extended;
        self.break_pending = false;
        self.extended = false;
        if code == 0x12 {
            self.left_shift = !released;
            None
        } else if code == 0x59 {
            self.right_shift = !released;
            None
        } else if code == 0x14 {
            self.ctrl = !released;
            None
        } else if extended {
            if code == 0x5a && !released {
                Some(10)
            } else {
                None
            }
        } else if released {
            None
        } else if code == 0x58 {
            self.left_shift = false;
            self.right_shift = false;
            self.caps_lock = false;
            None
        } else {
            let byte = decode_set2(
                code,
                self.left_shift || self.right_shift,
                self.ctrl,
                self.caps_lock,
            );
            self.take_meaning(byte)
        }
    }

    fn take_set1(&mut self, scancode: u8) -> (r: Option<u8>)
        ensures
            (*final(self), r) == old(self).after_set1(scancode),
    {
        let released: bool = scancode >= 0x80;
        let code: u8 = scancode % 128;
        if self.extended {
            self.extended = false;
            if scancode == 0x1c {
                Some(10)
            } else {
                if scancode == 0xb6 {
                    self.right_shift = false;
                }
                None
            }
        } else if code == 0x2a {
            self.left_shift = !released;
            None
        } else if code == 0x36 {
            self.right_shift = !released;
            None
        } else if code == 0x1d {
            self.ctrl = !released;
            None
        } else if released {
            None
        } else if code == 0x3a {
            self.left_shift = false;
            self.right_shift = false;
            self.caps_lock = false;
            None
        } else {
            let byte = decode_set1(
                code,
                self.left_shift || self.right_shift,
                self.ctrl,
                self.caps_lock,
            );
            self.take_meaning(byte)
        }
    }

    /// Takes a scan code, and gives the byte that was typed, if it was one.
    pub fn decode(&mut self, scancode: u8) -> (r: Option<u8>)
        ensures
            (*final(self), r) == old(self).after(scancode),
    {
        if scancode == 0xfa || scancode == 0xfe || scancode == 0xaa || scancode == 0xee {
            None
        } else if scancode == 0xe0 {
            self.extended = true;
            None
        } else if scancode == 0xf0 {
            self.break_pending = true;
            self.scan_set2 = true;
            None
        } else if self.scan_set2 {
            self.take_set2(scancode)
        } else {
            self.take_set1(scancode)
        }
    }
}

/// Letting a key go types nothing: not in the first set, nor in the second.
pub proof fn law_releases_type_nothing(s: KeyState, scancode: u8)
    requires
        if s.scan_set2 {
            s.break_pending
        } else {
            scancode >= 0x80
        },
    ensures
        s.after(scancode).1 is None,
{
}

/// Every byte that is typed is a character, or one of escape, backspace, tab, enter and
/// control-C.
pub proof fn law_typed_bytes(s: KeyState, scancode: u8)
    ensures
        s.after(scancode).1 matches Some(b) ==> 0x20 <= b <= 0x7e || b == 3 || b == 8 || b == 9
            || b == 10 || b == 27,
{
    let m = place_of(second_set(), scancode, 0);
    lemma_place(second_set(), scancode, 0);
    lemma_meaning(m as u8, s.shift(), s.ctrl, s.caps_lock);
    lemma_meaning((scancode % 128) as u8, s.shift(), s.ctrl, s.caps_lock);
}

proof fn lemma_place(codes: Seq<u8>, code: u8, from: int)
    requires
        0 <= from <= codes.len(),
    ensures
        from <= place_of(codes, code, from) <= codes.len(),
    decreases codes.len() - from,
{
    if from < codes.len() && codes[from] != code {
        lemma_place(codes, code, from + 1);
    }
}

proof fn lemma_meaning(code: u8, shift: bool, ctrl: bool, caps_lock: bool)
    ensures
        meaning(code, shift, ctrl, caps_lock) matches Some(b) ==> 0x20 <= b <= 0x7e || b == 3 || b
            == 8 || b == 9 || b == 10 || b == 27,
{
    if code < KEY_CODES {
        let p = plain_keys()[code as int];
        let q = shifted_keys()[code as int];
        assert(p == 0 || 0x20 <= p <= 0x7e || p == 8 || p == 9 || p == 10 || p == 27);
        assert(p != 0 ==> 0x20 <= q <= 0x7e || q == 8 || q == 9 || q == 10 || q == 27);
    }
}

} // verus!
