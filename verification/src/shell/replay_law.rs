//! How a stored log is read, and how room is made, in plain bytes and numbers.

use vstd::prelude::*;

use crate::bytes;
use crate::shell::boot;
use crate::shell::codec;
use crate::shell::codec::Entry;
use crate::shell::history;
use crate::shell::history::Qa;
use crate::shell::session;
use crate::shell::session_law;
use crate::shell::text;

verus! {

/// Whether `t` stands in `b` at `at`.
pub open spec fn stands(b: Seq<u8>, t: Seq<u8>, at: int) -> bool {
    &&& 0 <= at && at + t.len() <= b.len()
    &&& forall|i: int| 0 <= i < t.len() ==> b[at + i] == #[trigger] t[i]
}

/// Whether a byte stands nowhere in a text.
pub open spec fn lacks(b: Seq<u8>, x: u8) -> bool {
    forall|i: int| 0 <= i < b.len() ==> #[trigger] b[i] != x
}

/// `Q: `
pub open spec fn q_mark() -> Seq<u8> {
    seq![81u8, 58, 32]
}

/// `A: `
pub open spec fn a_mark() -> Seq<u8> {
    seq![65u8, 58, 32]
}

/// `[RAMQA v1 q=`
pub open spec fn remember_mark() -> Seq<u8> {
    seq![91u8, 82, 65, 77, 81, 65, 32, 118, 49, 32, 113, 61]
}

/// `[RAMDEL v1 k=`
pub open spec fn forget_mark() -> Seq<u8> {
    seq![91u8, 82, 65, 77, 68, 69, 76, 32, 118, 49, 32, 107, 61]
}

/// A line with a question in the older form, with what stands before and behind.
pub open spec fn older_question(before: Seq<u8>, question: Seq<u8>, rest: Seq<u8>) -> Seq<u8> {
    before + q_mark() + question + seq![10u8] + rest
}

proof fn lemma_stands(b: Seq<u8>, t: Seq<u8>, at: int)
    requires
        0 <= at,
        at + t.len() <= b.len(),
    ensures
        stands(b, t, at) == (b.subrange(at, at + t.len()) == t),
{
    let s = b.subrange(at, at + t.len());
    if stands(b, t, at) {
        assert(s =~= t);
    } else if s == t {
        assert forall|i: int| 0 <= i < t.len() implies b[at + i] == #[trigger] t[i] by {
            assert(s[i] == b[at + i]);
        }
    }
}

/// A search gives the first place, from where it begins, at which the text stands, and none
/// only where there is none.
pub proof fn law_first_place_is_found(b: Seq<u8>, t: Seq<u8>, from: int)
    requires
        0 <= from,
        t.len() > 0,
    ensures
        codec::text_from(b, t, from) matches Some(p) ==> from <= p && stands(b, t, p) && forall|i: int|
            from <= i < p ==> !#[trigger] stands(b, t, i),
        codec::text_from(b, t, from) is None ==> forall|i: int|
            from <= i ==> !#[trigger] stands(b, t, i),
    decreases b.len() - from,
{
    if from + t.len() <= b.len() {
        lemma_stands(b, t, from);
        if !stands(b, t, from) {
            law_first_place_is_found(b, t, from + 1);
        }
    }
}

/// A search for a byte gives the first place at which it is.
pub proof fn law_first_byte_is_found(b: Seq<u8>, x: u8, from: int)
    requires
        0 <= from,
    ensures
        codec::byte_from(b, x, from) matches Some(p) ==> from <= p < b.len() && b[p] == x && forall|
            i: int,
        |
            from <= i < p ==> #[trigger] b[i] != x,
        codec::byte_from(b, x, from) is None ==> forall|i: int|
            from <= i < b.len() ==> #[trigger] b[i] != x,
    decreases b.len() - from,
{
    if from < b.len() && b[from] != x {
        law_first_byte_is_found(b, x, from + 1);
    }
}

proof fn lemma_question_mark()
    ensures
        bytes::ascii("Q: "@) == q_mark(),
        bytes::ascii("A: "@) == a_mark(),
        codec::qa_mark().len() == 12,
        codec::forget_mark().len() == 13,
        codec::qa_mark() == remember_mark(),
        codec::forget_mark() == forget_mark(),
{
    reveal_strlit("Q: ");
    reveal_strlit("A: ");
    reveal_strlit("[RAMQA v1 q=");
    reveal_strlit("[RAMDEL v1 k=");
    assert(bytes::ascii("Q: "@) =~= q_mark());
    assert(bytes::ascii("A: "@) =~= a_mark());
    assert(codec::qa_mark() =~= remember_mark());
    assert(codec::forget_mark() =~= forget_mark());
}

proof fn lemma_question_found(before: Seq<u8>, question: Seq<u8>, rest: Seq<u8>)
    requires
        lacks(question, 10),
        forall|i: int|
            0 <= i < before.len() ==> !#[trigger] stands(
                older_question(before, question, rest),
                q_mark(),
                i,
            ),
    ensures
        ({
            let all = older_question(before, question, rest);
            let line = all.subrange(before.len() + 3int, all.len() as int);
            &&& codec::text_from(all, bytes::ascii("Q: "@), 0) == Some(before.len() as int)
            &&& codec::byte_from(line, 10, 0) == Some(question.len() as int)
            &&& line.subrange(0, question.len() as int) == question
            &&& line.subrange(question.len() + 1int, line.len() as int) == rest
        }),
{
    let all = older_question(before, question, rest);
    lemma_line_of(before, question, rest);
    lemma_first_stands(all, q_mark(), before.len() as int);
    lemma_question_mark();
    lemma_line_found(all.subrange(before.len() + 3int, all.len() as int), question, rest);
}

proof fn lemma_first_stands(all: Seq<u8>, t: Seq<u8>, p: int)
    requires
        t.len() > 0,
        stands(all, t, p),
        forall|i: int| 0 <= i < p ==> !#[trigger] stands(all, t, i),
    ensures
        codec::text_from(all, t, 0) == Some(p),
{
    law_first_place_is_found(all, t, 0);
}

proof fn lemma_line_of(before: Seq<u8>, question: Seq<u8>, rest: Seq<u8>)
    ensures
        ({
            let all = older_question(before, question, rest);
            &&& stands(all, q_mark(), before.len() as int)
            &&& all.subrange(before.len() + 3int, all.len() as int) == question + seq![10u8] + rest
        }),
{
    let all = older_question(before, question, rest);
    let p = before.len() as int;
    assert forall|i: int| 0 <= i < 3 implies all[p + i] == #[trigger] q_mark()[i] by {}
    assert(all.subrange(p + 3, all.len() as int) =~= question + seq![10u8] + rest);
}

proof fn lemma_line_found(line: Seq<u8>, first: Seq<u8>, rest: Seq<u8>)
    requires
        lacks(first, 10),
        line =~= first + seq![10u8] + rest,
    ensures
        codec::byte_from(line, 10, 0) == Some(first.len() as int),
        line.subrange(0, first.len() as int) == first,
        line.subrange(first.len() + 1int, line.len() as int) == rest,
{
    let e = first.len() as int;
    assert(line[e] == 10);
    assert forall|i: int| 0 <= i < e implies #[trigger] line[i] != 10 by {
        assert(line[i] == first[i]);
    }
    codec::lemma_byte_from_is(line, 10, 0, e);
    assert(line.subrange(0, e) =~= first);
    assert(line.subrange(e + 1, line.len() as int) =~= rest);
}

proof fn lemma_answer_found(after: Seq<u8>, answer: Seq<u8>, rest: Seq<u8>)
    requires
        lacks(answer, 10),
        after == a_mark() + answer + seq![10u8] + rest,
    ensures
        codec::starts_with(after, bytes::ascii("A: "@)),
        ({
            let tail = after.subrange(3, after.len() as int);
            &&& codec::byte_from(tail, 10, 0) == Some(answer.len() as int)
            &&& tail.subrange(0, answer.len() as int) == answer
            &&& tail.subrange(answer.len() + 1int, tail.len() as int) == rest
        }),
{
    lemma_question_mark();
    assert(after.subrange(0, 3) =~= a_mark());
    let tail = after.subrange(3, after.len() as int);
    lemma_line_found(tail, answer, rest);
}

/// A line `Q: ...` that is followed by a line `A: ...` is a question with its answer, without
/// the blanks at their ends; it is remembered unless one of them is blank, and reading goes on
/// behind it. What stands before the first `Q: ` means nothing.
pub proof fn law_older_form_is_read(
    before: Seq<u8>,
    question: Seq<u8>,
    answer: Seq<u8>,
    rest: Seq<u8>,
    h: Seq<Qa>,
)
    requires
        lacks(question, 10),
        lacks(answer, 10),
        forall|i: int|
            0 <= i < before.len() ==> !#[trigger] stands(
                older_question(before, question, a_mark() + answer + seq![10u8] + rest),
                q_mark(),
                i,
            ),
    ensures
        ({
            let q = text::trimmed(question);
            let a = text::trimmed(answer);
            codec::legacy(
                older_question(before, question, a_mark() + answer + seq![10u8] + rest),
                h,
            ) == codec::legacy(
                rest,
                if q.len() == 0 || a.len() == 0 {
                    h
                } else {
                    history::upserted(h, Qa { question: q, answer: a })
                },
            )
        }),
{
    let after = a_mark() + answer + seq![10u8] + rest;
    lemma_question_found(before, question, after);
    lemma_answer_found(after, answer, rest);
}

/// A line `Q: ...` that no `A: ...` follows is passed over.
pub proof fn law_question_without_answer(
    before: Seq<u8>,
    question: Seq<u8>,
    rest: Seq<u8>,
    h: Seq<Qa>,
)
    requires
        lacks(question, 10),
        !stands(rest, a_mark(), 0),
        forall|i: int|
            0 <= i < before.len() ==> !#[trigger] stands(
                older_question(before, question, rest),
                q_mark(),
                i,
            ),
    ensures
        codec::legacy(older_question(before, question, rest), h) == codec::legacy(rest, h),
{
    lemma_question_found(before, question, rest);
    lemma_question_mark();
    if rest.len() >= 3 {
        lemma_stands(rest, a_mark(), 0);
    }
}

/// Where neither of the marks of an entry stands in a log, it is read as the older form; and
/// where neither that nor `Q: ` stands in it, it means nothing.
pub proof fn law_log_without_entries(b: Seq<u8>, h: Seq<Qa>)
    requires
        forall|i: int| #![trigger b[i]]
            0 <= i < b.len() ==> !stands(
                b,
                remember_mark(),
                i,
            ) && !stands(b, forget_mark(), i),
    ensures
        codec::replayed(b, h) == codec::legacy(b, h),
        (forall|i: int| 0 <= i < b.len() ==> !#[trigger] stands(b, q_mark(), i))
            ==> codec::replayed(b, h) == h,
{
    lemma_question_mark();
    law_first_place_is_found(b, codec::qa_mark(), 0);
    law_first_place_is_found(b, codec::forget_mark(), 0);
    law_first_place_is_found(b, q_mark(), 0);
    if b.len() > 0 {
        if codec::text_from(b, codec::qa_mark(), 0) is Some {
            let p = codec::text_from(b, codec::qa_mark(), 0)->0;
            assert(b[p] == 91);
        }
        if codec::text_from(b, codec::forget_mark(), 0) is Some {
            let p = codec::text_from(b, codec::forget_mark(), 0)->0;
            assert(b[p] == 91);
        }
        assert(b.subrange(0, b.len() as int) =~= b);
    }
}

/// An entry whose first line does not end, at the end of a log, is passed over: what stands
/// before it is all that is read.
pub proof fn law_unfinished_entry_is_passed_over(b: Seq<u8>, start: int, h: Seq<Qa>)
    requires
        0 <= start,
        stands(b, remember_mark(), start),
        forall|i: int| #![trigger b[i]]
            0 <= i < start ==> b[i] != 91,
        forall|i: int| start < i < b.len() ==> #[trigger] b[i] != 10 && b[i] != 91,
    ensures
        codec::replayed(b, h) == codec::legacy(b.subrange(0, start), h),
{
    lemma_question_mark();
    law_first_place_is_found(b, codec::qa_mark(), 0);
    law_first_place_is_found(b, codec::forget_mark(), 0);
    let q = codec::text_from(b, codec::qa_mark(), 0);
    if q is Some {
        assert(b[q->0] == codec::qa_mark()[0]);
    }
    assert(q == Some(start));
    let d = codec::text_from(b, codec::forget_mark(), 0);
    if d is Some {
        assert(b[d->0 + 0] == codec::forget_mark()[0]);
        assert(d->0 == start);
        assert(b[start + 4] == codec::forget_mark()[4]);
        assert(b[start + 4] == codec::qa_mark()[4]);
    }
    law_first_byte_is_found(b, 10, start + 12);
}

/// What an entry does: what is remembered is the newest of its topic, and what is forgotten is
/// gone.
pub proof fn law_entries_do_what_they_say(h: Seq<Qa>, qa: Qa, key: Seq<u8>)
    ensures
        codec::applied(h, Entry::Remember(qa)).last() == qa,
        forall|i: int|
            0 <= i < codec::applied(h, Entry::Forget(key)).len() ==> !history::is_about(
                #[trigger] codec::applied(h, Entry::Forget(key))[i],
                text::trimmed(key),
            ),
        forall|i: int|
            0 <= i < h.len() && !history::is_about(h[i], text::trimmed(key)) ==> codec::applied(
                h,
                Entry::Forget(key),
            ).contains(#[trigger] h[i]),
{
    history::law_forget_is_complete(h, text::trimmed(key));
}

proof fn lemma_value(s: Seq<u8>)
    requires
        forall|i: int| 0 <= i < s.len() ==> 48 <= #[trigger] s[i] <= 57,
    ensures
        codec::decimal_value(s) == session_law::number(s),
        session_law::number(s) >= 0,
    decreases s.len(),
{
    if s.len() > 0 {
        assert forall|i: int| 0 <= i < s.drop_last().len() implies 48 <= #[trigger] s.drop_last()[i]
            <= 57 by {
            assert(s.drop_last()[i] == s[i]);
        }
        lemma_value(s.drop_last());
        assert(48 <= s[s.len() - 1] <= 57);
    }
}

/// A number is read where there are digits and nothing else, and it fits.
pub proof fn law_number_is_read(s: Seq<u8>)
    ensures
        codec::parsed_decimal(s) is Some <==> s.len() > 0 && (forall|i: int|
            0 <= i < s.len() ==> 48 <= #[trigger] s[i] <= 57) && session_law::number(s)
            <= usize::MAX,
        codec::parsed_decimal(s) matches Some(n) ==> n == session_law::number(s),
{
    if codec::all_digits(s) {
        assert forall|i: int| 0 <= i < s.len() implies 48 <= #[trigger] s[i] <= 57 by {
            assert(codec::is_digit(s[i]));
        }
        lemma_value(s);
    } else if forall|i: int| 0 <= i < s.len() ==> 48 <= #[trigger] s[i] <= 57 {
        assert forall|i: int| 0 <= i < s.len() implies codec::is_digit(#[trigger] s[i]) by {}
    }
}

/// A setting without the plus sign in front, if it has one.
pub open spec fn unsigned(s: Seq<u8>) -> Seq<u8> {
    if s.len() > 0 && s[0] == 43 {
        s.skip(1)
    } else {
        s
    }
}

/// Whether a text is digits alone.
pub open spec fn only_digits(d: Seq<u8>) -> bool {
    d.len() > 0 && forall|i: int| 0 <= i < d.len() ==> 48 <= #[trigger] d[i] <= 57
}

/// The count of threads is the number that is set, with or without a plus sign, where it is a
/// positive number of 31 bits; else it is one.
pub proof fn law_threads_are_counted(s: Seq<u8>)
    ensures
        ({
            let d = unsigned(s);
            let good = only_digits(d) && 0 < session_law::number(d) <= 0x7fff_ffff;
            boot::threads_in(s) == (if good {
                session_law::number(d)
            } else {
                1
            })
        }),
{
    if s.len() > 0 && s[0] == 43 {
        assert(s.subrange(1, s.len() as int) =~= s.skip(1));
        law_number_is_read(s.skip(1));
    } else {
        law_number_is_read(s);
    }
}

/// The line of a boot event begins with the seconds since boot and three digits of
/// milliseconds, and names the event and the milliseconds.
pub proof fn law_boot_event_is_told(now: u64, event: Seq<u8>, delta: Option<u64>) -> (d: (
    Seq<u8>,
    Seq<u8>,
    Seq<u8>,
    Seq<u8>,
))
    ensures
        session_law::writes(d.0, (now / 1_000_000) as nat),
        d.1.len() == 3,
        forall|i: int| 0 <= i < 3 ==> 48 <= #[trigger] d.1[i] <= 57,
        session_law::number(d.1) == now / 1000 % 1000,
        session_law::writes(d.2, (now / 1000) as nat),
        delta matches Some(n) ==> session_law::writes(d.3, n as nat),
        boot::boot_event_line(now, event, delta) == bytes::ascii("[ "@) + d.0 + bytes::ascii("."@)
            + d.1 + bytes::ascii(" ] bitapp: boot_timer event="@) + event + bytes::ascii(
            " boot_ms="@,
        ) + d.2 + (if delta is Some {
            bytes::ascii(" delta_ms="@) + d.3
        } else {
            Seq::empty()
        }) + bytes::ascii("\n"@),
{
    let ms = (now % 1_000_000) as int / 1000;
    let t = boot::three_digits(ms);
    assert(ms == now / 1000 % 1000);
    lemma_three(ms);
    session_law::lemma_writes((now / 1_000_000) as nat);
    session_law::lemma_writes((now / 1000) as nat);
    let last = match delta {
        Some(n) => {
            session_law::lemma_writes(n as nat);
            codec::decimal(n as nat)
        },
        None => Seq::empty(),
    };
    reveal_strlit("\n");
    assert(bytes::ascii("\n"@) =~= seq![10u8]);
    (codec::decimal((now / 1_000_000) as nat), t, codec::decimal((now / 1000) as nat), last)
}

proof fn lemma_three(n: int)
    requires
        0 <= n < 1000,
    ensures
        session_law::number(boot::three_digits(n)) == n,
        forall|i: int| 0 <= i < 3 ==> 48 <= #[trigger] boot::three_digits(n)[i] <= 57,
{
    let t = boot::three_digits(n);
    let t2 = t.drop_last();
    let t1 = t2.drop_last();
    assert(session_law::number(t1.drop_last()) == 0);
    assert(session_law::number(t1) == t[0] - 48);
    assert(session_law::number(t2) == 10 * (t[0] - 48) + (t[1] - 48));
    assert(n == 100 * (n / 100) + 10 * (n / 10 % 10) + n % 10);
}

/// A record counts for its question, its answer and eight bytes.
pub proof fn law_history_is_counted(h: Seq<Qa>, qa: Qa)
    ensures
        history::total_payload(Seq::empty()) == 0,
        history::total_payload(h.push(qa)) == history::total_payload(h) + qa.question.len()
            + qa.answer.len() + 8,
{
    assert(h.push(qa).drop_last() =~= h);
}

/// As few of the oldest records go as it takes for the rest to fit into 64 KiB with what is
/// needed: the rest fits, or is nothing, and with one record more it would not fit.
pub proof fn law_no_more_is_dropped_than_needed(h: Seq<Qa>, needed: int)
    ensures
        ({
            let kept = history::shrunk(h, needed);
            let gone = h.len() - kept.len();
            &&& 0 <= gone
            &&& kept == h.skip(gone)
            &&& kept.len() == 0 || history::total_payload(kept) + needed <= 65536
            &&& gone > 0 ==> history::total_payload(h.skip(gone - 1)) + needed > 65536
        }),
    decreases h.len(),
{
    history::law_shrink_makes_room(h, needed);
    let kept = history::shrunk(h, needed);
    let gone = h.len() - kept.len();
    if gone > 0 {
        let rest = h.drop_first();
        law_no_more_is_dropped_than_needed(rest, needed);
        assert(kept == history::shrunk(rest, needed));
        if gone > 1 {
            assert(rest.skip(gone - 2) =~= h.skip(gone - 1));
        } else {
            assert(h.skip(0) =~= h);
        }
    }
}

/// Of bytes, the last are kept that fit into 64 KiB with what is needed.
pub proof fn law_last_bytes_are_kept(b: Seq<u8>, needed: int)
    requires
        0 <= needed,
    ensures
        ({
            let kept = history::shrunk_bytes(b, needed);
            let room: int = if needed > 65536 {
                0
            } else {
                65536 - needed
            };
            &&& kept.len() == (if b.len() <= room {
                b.len() as int
            } else {
                room
            })
            &&& kept == b.skip(b.len() - kept.len())
        }),
{
    assert(history::shrunk_bytes(b, needed) =~= b.skip(
        b.len() - history::shrunk_bytes(b, needed).len(),
    ));
}

/// A failure is told with its negative number; where there is none, nothing is told.
pub proof fn law_failures_are_told(t: Seq<u8>, ret: int) -> (d: Seq<u8>)
    ensures
        ret < 0 ==> session_law::writes(d, (-ret) as nat) && session::failure_text(t, ret) == t
            + seq![45u8] + d + seq![10u8],
        ret >= 0 ==> session::failure_text(t, ret).len() == 0,
{
    if ret < 0 {
        session_law::lemma_writes((-ret) as nat);
        let d = codec::decimal((-ret) as nat);
        assert(t + (seq![45u8] + d) + seq![10u8] =~= t + seq![45u8] + d + seq![10u8]);
        d
    } else {
        Seq::empty()
    }
}

/// At start, what the database gave is read as a log: as many bytes as it says, or as there
/// are; of what is remembered, the newest is kept that fits. Where it gave nothing, or failed,
/// nothing is remembered.
pub proof fn law_history_is_loaded(ret: i32, scratch: Seq<u8>)
    ensures
        ret <= 0 ==> session::loaded(ret, scratch).len() == 0,
        0 < ret <= scratch.len() ==> session::loaded(ret, scratch) == history::shrunk(
            codec::replayed(scratch.take(ret as int), Seq::empty()),
            0,
        ),
        0 < ret && ret > scratch.len() ==> session::loaded(ret, scratch) == history::shrunk(
            codec::replayed(scratch, Seq::empty()),
            0,
        ),
{
    if 0 < ret <= scratch.len() {
        assert(scratch.subrange(0, ret as int) =~= scratch.take(ret as int));
    } else if 0 < ret {
        assert(scratch.subrange(0, scratch.len() as int) =~= scratch);
    }
}

} // verus!
