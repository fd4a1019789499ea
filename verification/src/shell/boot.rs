//! Boot-time figures and settings of the application.

use vstd::prelude::*;
use vstd::arithmetic::power2;

use crate::bytes;
use crate::shell::codec;

verus! {

/// Milliseconds between two timer readings in microseconds; none where `end` lies before.
pub fn elapsed_ms(start: u64, end: u64) -> (r: u64)
    ensures
        r == (if end >= start {
            (end - start) / 1000
        } else {
            0
        }),
{
    end.saturating_sub(start) / 1000
}

/// Milliseconds since boot.
pub fn boot_ms(now: u64) -> (r: u64)
    ensures
        r == now / 1000,
{
    elapsed_ms(0, now)
}

/// Whole seconds since boot.
pub fn boot_seconds(now: u64) -> (r: u64)
    ensures
        r == now / 1_000_000,
{
    now / 1_000_000
}

/// Milliseconds beyond the whole seconds since boot.
pub fn boot_milliseconds(now: u64) -> (r: u64)
    ensures
        r == (now % 1_000_000) / 1000,
        r < 1000,
{
    (now % 1_000_000) / 1000
}

/// Three decimal digits of a number below a thousand.
pub open spec fn three_digits(n: int) -> Seq<u8> {
    seq![(0x30 + n / 100) as u8, (0x30 + n / 10 % 10) as u8, (0x30 + n % 10) as u8]
}

/// The line that reports a boot event.
pub open spec fn boot_event_line(now: u64, event: Seq<u8>, delta_ms: Option<u64>) -> Seq<u8> {
    bytes::ascii("[ "@) + codec::decimal((now / 1_000_000) as nat) + bytes::ascii("."@)
        + three_digits((now % 1_000_000) as int / 1000) + bytes::ascii(
        " ] bitapp: boot_timer event="@,
    ) + event + bytes::ascii(" boot_ms="@) + codec::decimal((now / 1000) as nat) + (match delta_ms {
        Some(d) => bytes::ascii(" delta_ms="@) + codec::decimal(d as nat),
        None => Seq::empty(),
    }) + seq![0x0au8]
}

fn append_decimal_u64(target: &mut Vec<u8>, value: u64)
    ensures
        final(target)@ == old(target)@ + codec::decimal(value as nat),
    decreases value,
{
    if value >= 10 {
        append_decimal_u64(target, value / 10);
    }
    target.push(0x30 + (value % 10) as u8);
}

fn event_line(now: u64, event: &[u8], delta_ms: Option<u64>) -> (r: Vec<u8>)
    ensures
        r@ == boot_event_line(now, event@, delta_ms),
{
    proof {
        reveal_strlit("[ ");
        reveal_strlit(".");
        reveal_strlit(" ] bitapp: boot_timer event=");
        reveal_strlit(" boot_ms=");
        reveal_strlit(" delta_ms=");
    }
    let mut out = bytes::to_vec(bytes::lit("[ "));
    append_decimal_u64(&mut out, boot_seconds(now));
    out.extend_from_slice(bytes::lit("."));
    let ms: u64 = boot_milliseconds(now);
    out.push(0x30 + (ms / 100) as u8);
    out.push(0x30 + (ms / 10 % 10) as u8);
    out.push(0x30 + (ms % 10) as u8);
    out.extend_from_slice(bytes::lit(" ] bitapp: boot_timer event="));
    out.extend_from_slice(event);
    out.extend_from_slice(bytes::lit(" boot_ms="));
    append_decimal_u64(&mut out, boot_ms(now));
    match delta_ms {
        Some(d) => {
            out.extend_from_slice(bytes::lit(" delta_ms="));
            append_decimal_u64(&mut out, d);
        },
        None => {},
    }
    out.push(0x0a);
    assert(out@ =~= boot_event_line(now, event@, delta_ms));
    out
}

/// The line that reports a boot event at `now`.
pub fn log_boot_event(now: u64, event: &[u8]) -> (r: Vec<u8>)
    ensures
        r@ == boot_event_line(now, event@, None),
{
    event_line(now, event, None)
}

/// The line that reports a boot event at `now`, with the time that passed since `since`.
pub fn log_boot_delta(now: u64, event: &[u8], since: u64) -> (r: Vec<u8>)
    ensures
        r@ == boot_event_line(
            now,
            event@,
            Some(
                if now >= since {
                    ((now - since) / 1000) as u64
                } else {
                    0
                },
            ),
        ),
{
    event_line(now, event, Some(elapsed_ms(since, now)))
}

/// The thread count that a setting asks for: a positive decimal number, perhaps with a
/// plus sign, that fits; otherwise one.
pub open spec fn threads_in(setting: Seq<u8>) -> int {
    let digits = if setting.len() > 0 && setting[0] == 0x2b {
        setting.subrange(1, setting.len() as int)
    } else {
        setting
    };
    match codec::parsed_decimal(digits) {
        Some(n) => if 0 < n <= i32::MAX {
            n as int
        } else {
            1
        },
        None => 1,
    }
}

/// Picks the number of threads: one, unless threading is switched on and a count is set.
pub fn n_threads(smp: Option<&[u8]>, count: Option<&[u8]>) -> (r: i32)
    ensures
        r == (match (smp, count) {
            (Some(s), Some(c)) => if s@ == bytes::ascii("1"@) {
                threads_in(c@)
            } else {
                1
            },
            _ => 1,
        }),
{
    proof {
        reveal_strlit("1");
    }
    match (smp, count) {
        (Some(s), Some(c)) => {
            if !bytes::same_bytes(s, bytes::lit("1")) {
                return 1;
            }
            let parsed: Option<usize> = if c.len() > 0 && c[0] == 0x2b {
                codec::parse_decimal(&c[1..c.len()])
            } else {
                codec::parse_decimal(c)
            };
            match parsed {
                Some(n) => if 0 < n && n <= 0x7fff_ffff {
                    n as i32
                } else {
                    1
                },
                None => 1,
            }
        },
        _ => 1,
    }
}

/// The alignment of a machine word.
pub const WORD_ALIGN: usize = 8;

/// `p` is the smallest power of two that is not below `n`.
pub open spec fn is_power_above(p: int, n: int) -> bool {
    &&& p >= n
    &&& exists|k: nat| #[trigger] power2::pow2(k) == p && (k == 0 || power2::pow2((k - 1) as nat) < n)
}

/// The size and alignment that an allocation is made with.
pub fn allocation_layout(size: usize, align: usize) -> (r: (usize, usize))
    requires
        align <= usize::MAX / 2 + 1,
    ensures
        r.0 == (if size == 0 {
            1
        } else {
            size
        }),
        is_power_above(
            r.1 as int,
            if align < WORD_ALIGN {
                WORD_ALIGN as int
            } else {
                align as int
            },
        ),
{
    let size: usize = if size == 0 {
        1
    } else {
        size
    };
    let least: usize = if align < WORD_ALIGN {
        WORD_ALIGN
    } else {
        align
    };
    let mut p: usize = 1;
    let ghost mut k: nat = 0;
    proof {
        power2::lemma2_to64();
    }
    while p < least
        invariant
            p == power2::pow2(k),
            k == 0 || power2::pow2((k - 1) as nat) < least,
            least <= usize::MAX / 2 + 1,
            p >= 1,
        decreases usize::MAX - p,
    {
        proof {
            power2::lemma_pow2_unfold((k + 1) as nat);
        }
        p = p * 2;
        proof {
            k = k + 1;
        }
    }
    assert(power2::pow2(k) == p && (k == 0 || power2::pow2((k - 1) as nat) < least));
    (size, p)
}

} // verus!
