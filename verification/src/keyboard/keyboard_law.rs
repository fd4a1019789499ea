//! What the keyboard types, and how it is switched on, in plain numbers.

use vstd::prelude::*;

use crate::keyboard::keyboard::Poll;
use crate::keyboard::keyboard::PollRequest;
use crate::keyboard::keyboard::Ps2Keyboard;
use crate::keyboard::keys;
use crate::keyboard::keys::KeyState;
use crate::keyboard::probe::Probe;
use crate::keyboard::probe::ProbePhase;
use crate::keyboard::probe::ProbeRequest;
use crate::keyboard::probe::ProbeStep;

verus! {

/// What is printed on the keys of a row from key `first` on, and what is printed above it.
pub open spec fn printed(code: int, first: int, lower: Seq<char>, upper: Seq<char>, shift: bool) -> int {
    if shift {
        upper[code - first] as int
    } else {
        lower[code - first] as int
    }
}

proof fn lemma_digits(code: u8)
    requires
        2 <= code <= 13,
    ensures
        keys::plain_keys()[code as int] == "1234567890-="@[code - 2] as int,
        keys::shifted_keys()[code as int] == "!@#$%^&*()_+"@[code - 2] as int,
{
    reveal_strlit("1234567890-=");
    reveal_strlit("!@#$%^&*()_+");
}

proof fn lemma_first_row(code: u8)
    requires
        16 <= code <= 27,
    ensures
        keys::plain_keys()[code as int] == "qwertyuiop[]"@[code - 16] as int,
        keys::shifted_keys()[code as int] == "qwertyuiop{}"@[code - 16] as int,
{
    reveal_strlit("qwertyuiop[]");
    reveal_strlit("qwertyuiop{}");
}

proof fn lemma_second_row(code: u8)
    requires
        30 <= code <= 41,
    ensures
        keys::plain_keys()[code as int] == "asdfghjkl;'`"@[code - 30] as int,
        keys::shifted_keys()[code as int] == "asdfghjkl:\"~"@[code - 30] as int,
{
    reveal_strlit("asdfghjkl;'`");
    reveal_strlit("asdfghjkl:\"~");
}

proof fn lemma_third_row(code: u8)
    requires
        43 <= code <= 53,
    ensures
        keys::plain_keys()[code as int] == "\\zxcvbnm,./"@[code - 43] as int,
        keys::shifted_keys()[code as int] == "|zxcvbnm<>?"@[code - 43] as int,
{
    reveal_strlit("\\zxcvbnm,./");
    reveal_strlit("|zxcvbnm<>?");
}

/// A key types what is printed on it. With shift it types what is printed above; a letter is
/// capital where just one of shift and caps lock is on. Escape, backspace, tab, enter and
/// space type their own bytes, control-C the byte three, and no other key types anything.
pub proof fn law_keys_type_what_is_printed(code: u8, shift: bool, ctrl: bool, caps_lock: bool)
    ensures
        ({
            let typed = keys::meaning(code, shift, ctrl, caps_lock);
            if ctrl && code == 46 {
                typed == Some(3u8)
            } else if code == 1 {
                typed == Some(27u8)
            } else if 2 <= code <= 13 {
                typed is Some && typed->0 == printed(
                    code as int,
                    2,
                    "1234567890-="@,
                    "!@#$%^&*()_+"@,
                    shift,
                )
            } else if code == 14 {
                typed == Some(8u8)
            } else if code == 15 {
                typed == Some(9u8)
            } else if 16 <= code <= 25 {
                typed is Some && typed->0 == "qwertyuiop[]"@[code - 16] as int - (if shift
                    == caps_lock {
                    0int
                } else {
                    32
                })
            } else if 26 <= code <= 27 {
                typed is Some && typed->0 == printed(
                    code as int,
                    16,
                    "qwertyuiop[]"@,
                    "qwertyuiop{}"@,
                    shift,
                )
            } else if code == 28 {
                typed == Some(10u8)
            } else if 30 <= code <= 38 {
                typed is Some && typed->0 == "asdfghjkl;'`"@[code - 30] as int - (if shift
                    == caps_lock {
                    0int
                } else {
                    32
                })
            } else if 39 <= code <= 41 {
                typed is Some && typed->0 == printed(
                    code as int,
                    30,
                    "asdfghjkl;'`"@,
                    "asdfghjkl:\"~"@,
                    shift,
                )
            } else if 44 <= code <= 50 {
                typed is Some && typed->0 == "\\zxcvbnm,./"@[code - 43] as int - (if shift
                    == caps_lock {
                    0int
                } else {
                    32
                })
            } else if code == 43 || 51 <= code <= 53 {
                typed is Some && typed->0 == printed(
                    code as int,
                    43,
                    "\\zxcvbnm,./"@,
                    "|zxcvbnm<>?"@,
                    shift,
                )
            } else if code == 57 {
                typed == Some(32u8)
            } else {
                typed is None
            }
        }),
{
    reveal_strlit("1234567890-=");
    reveal_strlit("qwertyuiop[]");
    reveal_strlit("asdfghjkl;'`");
    reveal_strlit("\\zxcvbnm,./");
    if 2 <= code <= 13 {
        lemma_digits(code);
    } else if 16 <= code <= 27 {
        lemma_first_row(code);
    } else if 30 <= code <= 41 {
        lemma_second_row(code);
    } else if 43 <= code <= 53 {
        lemma_third_row(code);
    }
}

/// Whether a code is an answer of the keyboard, and no key.
pub open spec fn is_answer(code: u8) -> bool {
    code == 0xfa || code == 0xfe || code == 0xaa || code == 0xee
}

/// In the first set, a key that is pressed has a code below 128, and the same code with 128
/// added when it is released. Control is down from its press to its release, and shift at
/// most to the next key that types something. A key types what it means with the modifiers
/// that are down; what is released, and a modifier, types nothing.
pub proof fn law_first_set(s: KeyState, code: u8)
    requires
        !s.scan_set2,
        !s.extended,
        !is_answer(code),
        code != 0xe0,
        code != 0xf0,
    ensures
        ({
            let (t, typed) = s.after(code);
            let shift = s.left_shift || s.right_shift;
            &&& typed == (if code >= 128 || code == 42 || code == 54 || code == 29 || code == 58 {
                None
            } else {
                keys::meaning(code, shift, s.ctrl, s.caps_lock)
            })
            &&& t.ctrl == (code == 29 || s.ctrl && code != 157)
            &&& t.left_shift == (code == 42 || s.left_shift && typed is None && code != 58)
            &&& t.right_shift == (code == 54 || s.right_shift && typed is None && code != 58
                && code != 182)
            &&& t.caps_lock == (s.caps_lock && code != 58)
            &&& !t.scan_set2 && !t.extended && t.break_pending == s.break_pending
        }),
{
}

/// In the second set, a key that is released has its code announced by another. Modifiers
/// count as in the first set, and a key means what the same key means there.
pub proof fn law_second_set(s: KeyState, code: u8)
    requires
        s.scan_set2,
        !is_answer(code),
        code != 0xe0,
        code != 0xf0,
    ensures
        ({
            let (t, typed) = s.after(code);
            let shift = s.left_shift || s.right_shift;
            let down = !s.break_pending;
            let modifier = code == 0x12 || code == 0x59 || code == 0x14;
            &&& typed == (if s.break_pending || modifier {
                None
            } else if s.extended {
                if code == 0x5a {
                    Some(10u8)
                } else {
                    None
                }
            } else if code == 0x58 {
                None
            } else {
                keys::second_meaning(code, shift, s.ctrl, s.caps_lock)
            })
            &&& t.ctrl == (if code == 0x14 {
                down
            } else {
                s.ctrl
            })
            &&& t.left_shift == (if code == 0x12 {
                down
            } else {
                s.left_shift && (s.extended || !down || typed is None && code != 0x58 || modifier)
            })
            &&& t.right_shift == (if code == 0x59 {
                down
            } else {
                s.right_shift && (s.extended || !down || typed is None && code != 0x58 || modifier)
            })
            &&& t.caps_lock == (s.caps_lock && !(code == 0x58 && down && !s.extended))
            &&& t.scan_set2 && !t.extended && !t.break_pending
        }),
{
}

/// Of the keys that a code announces, only enter types something in the first set, and
/// letting go of the right shift key counts. The code itself types nothing, nor does that
/// which announces a release, by which the second set is known; an answer changes nothing.
pub proof fn law_announced_keys(s: KeyState, code: u8)
    ensures
        is_answer(code) ==> s.after(code) == (s, None::<u8>),
        code == 0xe0 ==> s.after(code) == (KeyState { extended: true, ..s }, None::<u8>),
        code == 0xf0 ==> s.after(code) == (
            KeyState { break_pending: true, scan_set2: true, ..s },
            None::<u8>,
        ),
        s.extended && !s.scan_set2 && !is_answer(code) && code != 0xe0 && code != 0xf0
            ==> s.after(code) == (
            KeyState { extended: false, right_shift: s.right_shift && code != 182, ..s },
            if code == 28 {
                Some(10u8)
            } else {
                None
            },
        ),
{
}

/// The keyboard keeps up to 127 bytes that were typed, in the order in which they were; what
/// is typed beyond that is lost.
pub proof fn law_typed_bytes_are_kept(k: Ps2Keyboard, code: u8)
    ensures
        k.keys.after(code).1 is None ==> k.typed(code) == k@,
        k.keys.after(code).1 is Some && k@.len() < 127 ==> k.typed(code) == k@.push(
            k.keys.after(code).1->0,
        ),
        k@.len() >= 127 ==> k.typed(code) == k@,
{
}

/// The states that a poll goes through.
pub open spec fn poll_run(p: Seq<Poll>, values: Seq<u8>) -> bool {
    &&& p.len() == values.len() + 1
    &&& p[0] == Poll::begin(true)
    &&& forall|i: int|
        #![trigger p[i + 1]]
        0 <= i < values.len() ==> p[i + 1] == p[i].after(values[i])
}

/// As long as the status has its lowest bit set, status and scan code are read in turn, up to
/// 32 scan codes. A status without it ends it at once; so does a keyboard that is not there.
pub proof fn law_poll_takes_what_waits(p: Seq<Poll>, values: Seq<u8>, n: int)
    requires
        poll_run(p, values),
        0 <= n <= values.len(),
        forall|i: int| 0 <= i < n && i % 2 == 0 ==> #[trigger] values[i] % 2 == 1,
    ensures
        n < 64 && n % 2 == 0 ==> p[n].request() == PollRequest::ReadStatus,
        n < 64 && n % 2 == 1 ==> p[n].request() == PollRequest::ReadData,
        n >= 64 ==> p[n].request() == PollRequest::Done,
        n < 64 && n % 2 == 0 && n < values.len() && values[n] % 2 == 0 ==> p[n + 1].request()
            == PollRequest::Done,
        Poll::begin(false).request() == PollRequest::Done,
    decreases n,
{
    lemma_poll(p, values, n);
    if n < values.len() {
        assert(p[n + 1] == p[n].after(values[n]));
    }
}

proof fn lemma_poll(p: Seq<Poll>, values: Seq<u8>, n: int)
    requires
        poll_run(p, values),
        0 <= n <= values.len(),
        forall|i: int| 0 <= i < n && i % 2 == 0 ==> #[trigger] values[i] % 2 == 1,
    ensures
        n < 64 ==> p[n].left == 32 - n / 2 && p[n].waits == (n % 2 == 1),
        n >= 64 ==> p[n].left == 0,
    decreases n,
{
    if n > 0 {
        lemma_poll(p, values, n - 1);
        assert(p[n - 1 + 1] == p[n - 1].after(values[n - 1]));
        if (n - 1) % 2 == 0 {
            assert(values[n - 1] % 2 == 1);
        }
    }
}

proof fn lemma_status(v: u8)
    ensures
        (v & 1 == 0) == (v % 2 == 0),
        (v & 2 == 0) == (v / 2 % 2 == 0),
{
    assert((v & 1 == 0) == (v % 2 == 0) && (v & 2 == 0) == (v / 2 % 2 == 0)) by (bit_vector);
}

/// The states that switching on goes through.
pub open spec fn probe_run(p: Seq<Probe>, values: Seq<u8>) -> bool {
    &&& p.len() == values.len() + 1
    &&& forall|i: int|
        #![trigger p[i + 1]]
        0 <= i < values.len() ==> p[i + 1] == p[i].after(values[i])
}

/// Where nothing waits and the controller takes what it is sent, the configuration is read,
/// the first port is enabled, the first set of scan codes is chosen and the keyboard is told
/// to scan: it is there where it says yes to that.
#[verifier::rlimit(60)]
pub proof fn law_keyboard_is_switched_on(p: Seq<Probe>, values: Seq<u8>)
    requires
        probe_run(p, values),
        values.len() == 20,
        p[0] == Probe::begin(),
        values[0] % 2 == 0,
        values[1] / 2 % 2 == 0,
        values[3] % 2 == 1,
        values[5] / 2 % 2 == 0,
        values[7] / 2 % 2 == 0,
        values[9] % 2 == 1,
        values[10] == 0xfa,
        values[11] / 2 % 2 == 0,
        values[13] % 2 == 1,
        values[16] / 2 % 2 == 0,
        values[18] % 2 == 1,
    ensures
        p[0].request() == ProbeRequest::ReadStatus,
        p[1].request() == ProbeRequest::ReadStatus,
        p[2].request() == ProbeRequest::WriteCommand(32),
        p[3].request() == ProbeRequest::ReadStatus,
        p[4].request() == ProbeRequest::ReadData,
        p[5].request() == ProbeRequest::ReadStatus,
        p[6].request() == ProbeRequest::WriteCommand(174),
        p[7].request() == ProbeRequest::ReadStatus,
        p[8].request() == ProbeRequest::WriteData(240),
        p[9].request() == ProbeRequest::ReadStatus,
        p[10].request() == ProbeRequest::ReadData,
        p[11].request() == ProbeRequest::ReadStatus,
        p[12].request() == ProbeRequest::WriteData(1),
        p[13].request() == ProbeRequest::ReadStatus,
        p[14].request() == ProbeRequest::ReadData,
        p[15].request() == ProbeRequest::Restart,
        p[16].request() == ProbeRequest::ReadStatus,
        p[17].request() == ProbeRequest::WriteData(244),
        p[18].request() == ProbeRequest::ReadStatus,
        p[19].request() == ProbeRequest::ReadData,
        p[20].request() == ProbeRequest::Done,
        p[20].phase == ProbePhase::Done,
        p[20].present == (values[19] == 0xfa),
{
    lemma_status(values[0]);
    lemma_status(values[1]);
    lemma_status(values[3]);
    lemma_status(values[5]);
    lemma_status(values[7]);
    lemma_status(values[9]);
    lemma_status(values[11]);
    lemma_status(values[13]);
    lemma_status(values[16]);
    lemma_status(values[18]);
    assert(p[0int + 1] == p[0].after(values[0]));
    assert(p[1int + 1] == p[1].after(values[1]));
    assert(p[2int + 1] == p[2].after(values[2]));
    assert(p[3int + 1] == p[3].after(values[3]));
    assert(p[4int + 1] == p[4].after(values[4]));
    assert(p[5int + 1] == p[5].after(values[5]));
    assert(p[6int + 1] == p[6].after(values[6]));
    assert(p[7int + 1] == p[7].after(values[7]));
    assert(p[8int + 1] == p[8].after(values[8]));
    assert(p[9int + 1] == p[9].after(values[9]));
    assert(p[10int + 1] == p[10].after(values[10]));
    assert(p[11int + 1] == p[11].after(values[11]));
    assert(p[12int + 1] == p[12].after(values[12]));
    assert(p[13int + 1] == p[13].after(values[13]));
    assert(p[14int + 1] == p[14].after(values[14]));
    assert(p[15int + 1] == p[15].after(values[15]));
    assert(p[16int + 1] == p[16].after(values[16]));
    assert(p[17int + 1] == p[17].after(values[17]));
    assert(p[18int + 1] == p[18].after(values[18]));
    assert(p[19int + 1] == p[19].after(values[19]));
}

/// A status is read up to 100000 times in vain. As long as the controller is busy nothing is
/// sent to it, and as long as it has nothing, nothing is read from it.
pub proof fn law_probe_is_patient(p: Seq<Probe>, values: Seq<u8>, n: int)
    requires
        probe_run(p, values),
        0 <= n <= values.len(),
        p[0].polls == 0,
        p[0].phase == ProbePhase::WaitInput || p[0].phase == ProbePhase::WaitOutput,
        p[0].phase == ProbePhase::WaitInput ==> forall|i: int|
            0 <= i < n ==> #[trigger] values[i] / 2 % 2 == 1,
        p[0].phase == ProbePhase::WaitOutput ==> forall|i: int|
            0 <= i < n ==> #[trigger] values[i] % 2 == 0,
    ensures
        n < 100000 ==> p[n] == (Probe { polls: n as u32, ..p[0] }) && p[n].request()
            == ProbeRequest::ReadStatus,
        n == 100000 ==> p[n].polls == 0 && (p[n].phase != p[0].phase || p[n].step != p[0].step),
        n == 100000 && p[0].phase == ProbePhase::WaitInput && p[0].step == ProbeStep::EnablePort
            ==> p[n].phase == ProbePhase::Done && p[n].present == p[0].present,
        n == 100000 && p[0].step == ProbeStep::Scan ==> p[n].phase == ProbePhase::Done
            && !p[n].present,
    decreases n,
{
    if 0 < n <= 100000 {
        law_probe_is_patient(p, values, n - 1);
        assert(p[n - 1 + 1] == p[n - 1].after(values[n - 1]));
        lemma_status(values[n - 1]);
    }
}

/// What waits is thrown away first: up to 32 bytes, each once the status tells of it.
pub proof fn law_probe_throws_away(p: Seq<Probe>, values: Seq<u8>, n: int)
    requires
        probe_run(p, values),
        p[0] == Probe::begin(),
        0 <= n <= values.len(),
        forall|i: int| 0 <= i < n && i % 2 == 0 ==> #[trigger] values[i] % 2 == 1,
    ensures
        n < 64 && n % 2 == 0 ==> p[n].phase == ProbePhase::FlushStatus && p[n].request()
            == ProbeRequest::ReadStatus && p[n].polls == n / 2,
        n < 64 && n % 2 == 1 ==> p[n].phase == ProbePhase::FlushData && p[n].request()
            == ProbeRequest::ReadData && p[n].polls == n / 2,
        n <= 64 ==> !p[n].present,
        n == 64 ==> p[n].phase == ProbePhase::WaitInput && p[n].step == ProbeStep::Config
            && p[n].polls == 0,
        n < 64 && n % 2 == 0 && n < values.len() && values[n] % 2 == 0 ==> p[n + 1].phase
            == ProbePhase::WaitInput && p[n + 1].step == ProbeStep::Config && p[n + 1].polls == 0,
    decreases n,
{
    if 0 < n <= 64 {
        law_probe_throws_away(p, values, n - 1);
        assert(p[n - 1 + 1] == p[n - 1].after(values[n - 1]));
        lemma_status(values[n - 1]);
        if (n - 1) % 2 == 0 {
            assert(values[n - 1] % 2 == 1);
        }
    }
    if n < values.len() {
        assert(p[n + 1] == p[n].after(values[n]));
        lemma_status(values[n]);
    }
}

/// A keyboard that does not say yes when it is asked for a set of scan codes is told to scan
/// all the same.
pub proof fn law_sets_are_optional(m: Probe, value: u8)
    requires
        m.phase == ProbePhase::Receive,
        m.step == ProbeStep::ChooseSet,
    ensures
        value == 0xfa ==> m.after(value).step == ProbeStep::FirstSet,
        value != 0xfa ==> m.after(value).request() == ProbeRequest::Restart,
        m.after(value).request() == ProbeRequest::Restart ==> m.after(value).after(value).step
            == ProbeStep::Scan && m.after(value).after(value).phase == ProbePhase::WaitInput,
{
}

/// At first no key is down, nothing is announced, and the first set is in use: letters are
/// small.
pub proof fn law_keyboard_begins_idle(code: u8)
    ensures
        ({
            let s = KeyState::idle();
            &&& !s.left_shift && !s.right_shift && !s.ctrl && !s.caps_lock
            &&& !s.extended && !s.break_pending && !s.scan_set2
            &&& code < 128 && code != 42 && code != 54 && code != 29 && code != 58 ==> s.after(
                code,
            ).1 == keys::meaning(code, false, false, false)
        }),
{
}

} // verus!
