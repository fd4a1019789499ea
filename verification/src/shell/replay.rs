//! Reading a stored log gives back what was stored.

use vstd::prelude::*;

use crate::bytes;
use crate::shell::codec;
use crate::shell::codec::Entry;
use crate::shell::codec::Found;
use crate::shell::history;
use crate::shell::history::Qa;
use crate::shell::text;

verus! {

/// The bytes of an entry, with a line feed in front where `separated`.
pub open spec fn piece(separated: bool, e: Entry) -> Seq<u8> {
    if separated {
        seq![0x0au8] + codec::entry_bytes(e)
    } else {
        codec::entry_bytes(e)
    }
}

/// The bytes of a log of entries, each with or without a line feed in front.
pub open spec fn stored(es: Seq<(bool, Entry)>) -> Seq<u8>
    decreases es.len(),
{
    if es.len() == 0 {
        Seq::empty()
    } else {
        stored(es.drop_last()) + piece(es.last().0, es.last().1)
    }
}

/// What the entries of a log, in order, do to a history.
pub open spec fn applied_all(h: Seq<Qa>, es: Seq<(bool, Entry)>) -> Seq<Qa>
    decreases es.len(),
{
    if es.len() == 0 {
        h
    } else {
        codec::applied(applied_all(h, es.drop_last()), es.last().1)
    }
}

proof fn lemma_qa_mark(b: Seq<u8>, start: int)
    requires
        0 <= start,
        start + 12 <= b.len(),
        b.subrange(start, start + 12) == codec::qa_mark(),
    ensures
        codec::qa_mark().len() == 12,
        codec::forget_mark().len() == 13,
        codec::text_from(b, codec::qa_mark(), start) == Some(start),
        codec::text_from(b, codec::forget_mark(), start) != Some(start),
        b[start] != 0x0a,
{
    reveal_strlit("[RAMQA v1 q=");
    reveal_strlit("[RAMDEL v1 k=");
    let q = codec::qa_mark();
    let d = codec::forget_mark();
    let s = b.subrange(start, start + 12);
    assert(q[0] == 0x5b && q[4] == 0x51 && d[4] == 0x44);
    assert(s[4] == b[start + 4] && s[0] == b[start]);
    if start + 13 <= b.len() {
        let t = b.subrange(start, start + 13);
        assert(t[4] == b[start + 4]);
        assert(t != d);
    }
    codec::lemma_text_from(b, d, start + 1);
}

proof fn lemma_forget_mark(b: Seq<u8>, start: int)
    requires
        0 <= start,
        start + 13 <= b.len(),
        b.subrange(start, start + 13) == codec::forget_mark(),
    ensures
        codec::qa_mark().len() == 12,
        codec::forget_mark().len() == 13,
        codec::text_from(b, codec::forget_mark(), start) == Some(start),
        codec::text_from(b, codec::qa_mark(), start) != Some(start),
        b[start] != 0x0a,
{
    reveal_strlit("[RAMQA v1 q=");
    reveal_strlit("[RAMDEL v1 k=");
    let q = codec::qa_mark();
    let d = codec::forget_mark();
    let s = b.subrange(start, start + 13);
    assert(q[4] == 0x51 && d[4] == 0x44 && d[0] == 0x5b);
    assert(s[4] == b[start + 4] && s[0] == b[start]);
    let t = b.subrange(start, start + 12);
    assert(t[4] == b[start + 4]);
    assert(t != q);
    codec::lemma_text_from(b, q, start + 1);
}

proof fn lemma_no_mark_at_line_feed(b: Seq<u8>, at: int)
    requires
        0 <= at < b.len(),
        b[at] == 0x0a,
    ensures
        codec::text_from(b, codec::qa_mark(), at) == codec::text_from(b, codec::qa_mark(), at + 1),
        codec::text_from(b, codec::forget_mark(), at) == codec::text_from(
            b,
            codec::forget_mark(),
            at + 1,
        ),
{
    reveal_strlit("[RAMQA v1 q=");
    reveal_strlit("[RAMDEL v1 k=");
    let q = codec::qa_mark();
    let d = codec::forget_mark();
    assert(q[0] == 0x5b && d[0] == 0x5b);
    if at + 12 <= b.len() {
        assert(b.subrange(at, at + 12)[0] == b[at]);
    }
    if at + 13 <= b.len() {
        assert(b.subrange(at, at + 13)[0] == b[at]);
    }
}

proof fn lemma_legacy_of_line_feed(h: Seq<Qa>, b: Seq<u8>)
    requires
        b.len() < 3,
    ensures
        codec::legacy(b, h) == h,
{
    reveal_strlit("Q: ");
}

/// The end of the header line of a stored question and answer.
proof fn lemma_answer_mark_in_header(header: Seq<u8>, q: Seq<u8>, a: Seq<u8>)
    requires
        header == q + codec::answer_mark() + a + seq![0x5du8],
        codec::all_digits(q),
    ensures
        codec::text_from(header, codec::answer_mark(), 0) == Some(q.len() as int),
        header.subrange(0, q.len() as int) == q,
        header.subrange(q.len() + 3int, header.len() - 1) == a,
        header.last() == 0x5d,
{
    reveal_strlit(" a=");
    let m = codec::answer_mark();
    assert(m.len() == 3);
    assert(m[0] == 0x20);
    assert(header.subrange(q.len() as int, q.len() + 3int) =~= m);
    lemma_text_after_digits(header, m, 0, q.len() as int);
    assert(header.subrange(0, q.len() as int) =~= q);
    assert(header.subrange(q.len() + 3int, header.len() - 1) =~= a);
}

proof fn lemma_text_after_digits(b: Seq<u8>, needle: Seq<u8>, from: int, at: int)
    requires
        0 <= from <= at,
        needle.len() > 0,
        !codec::is_digit(needle[0]),
        at + needle.len() <= b.len(),
        b.subrange(at, at + needle.len()) == needle,
        forall|i: int| from <= i < at ==> codec::is_digit(#[trigger] b[i]),
    ensures
        codec::text_from(b, needle, from) == Some(at),
    decreases at - from,
{
    if from < at {
        assert(b.subrange(from, from + needle.len())[0] == b[from]);
        assert(codec::is_digit(b[from]));
        lemma_text_after_digits(b, needle, from + 1, at);
    }
}

proof fn lemma_qa_found(b: Seq<u8>, start: int, qa: Qa)
    requires
        0 <= start,
        start + codec::qa_bytes(qa).len() <= b.len(),
        b.subrange(start, start + codec::qa_bytes(qa).len()) == codec::qa_bytes(qa),
        codec::qa_bytes(qa).len() <= usize::MAX,
    ensures
        codec::qa_at(b, start) == (Found::Complete {
            entry: Entry::Remember(qa),
            end: start + codec::qa_bytes(qa).len() - 1,
        }),
        b.subrange(start, start + 12) == codec::qa_mark(),
        start + 12 <= b.len(),
{
    reveal_strlit("[RAMQA v1 q=");
    reveal_strlit(" a=");
    let mark = codec::qa_mark();
    let am = codec::answer_mark();
    assert(mark.len() == 12 && am.len() == 3);
    let s = codec::qa_bytes(qa);
    let q = qa.question;
    let a = qa.answer;
    let dq = codec::decimal(q.len());
    let da = codec::decimal(a.len());
    codec::law_decimal_round_trip(q.len());
    codec::law_decimal_round_trip(a.len());
    let head = start + 12;
    let eol = head + dq.len() + 3 + da.len() + 1;
    let header = dq + am + da + seq![0x5du8];
    assert(s =~= mark + header + seq![0x0au8] + q + seq![0x0au8] + a + seq![0x0au8]);
    assert forall|i: int| 0 <= i < s.len() implies b[start + i] == #[trigger] s[i] by {
        assert(b.subrange(start, start + s.len())[i] == b[start + i]);
    }
    assert(b.subrange(start, start + 12) =~= mark);
    assert(b.subrange(head, eol) =~= header) by {
        assert forall|i: int| 0 <= i < header.len() implies b[head + i] == #[trigger] header[i] by {
            assert(s[12 + i] == header[i]);
        }
    }
    assert(b[eol] == 0x0a) by {
        assert(s[eol - start] == 0x0a);
    }
    assert forall|i: int| head <= i < eol implies b[i] != 0x0a by {
        let k = i - head;
        assert(b.subrange(head, eol)[k] == b[i]);
        assert(header[k] != 0x0a) by {
            if k < dq.len() {
                assert(codec::is_digit(dq[k]));
                assert(header[k] == dq[k]);
            } else if k < dq.len() + 3 {
                assert(header[k] == am[k - dq.len()]);
                assert(am[0] == 0x20 && am[1] == 0x61 && am[2] == 0x3d);
            } else if k < dq.len() + 3 + da.len() {
                assert(codec::is_digit(da[k - dq.len() - 3]));
                assert(header[k] == da[k - dq.len() - 3]);
            } else {
                assert(header[k] == 0x5d);
            }
        }
    }
    codec::lemma_byte_from_is(b, 0x0a, head, eol);
    lemma_answer_mark_in_header(header, dq, da);
    let q_end = eol + 1 + q.len();
    let a_end = q_end + 1 + a.len();
    assert(b.subrange(eol + 1, q_end) =~= q) by {
        assert forall|i: int| 0 <= i < q.len() implies b[eol + 1 + i] == #[trigger] q[i] by {
            assert(s[eol + 1 - start + i] == q[i]);
        }
    }
    assert(b.subrange(q_end + 1, a_end) =~= a) by {
        assert forall|i: int| 0 <= i < a.len() implies b[q_end + 1 + i] == #[trigger] a[i] by {
            assert(s[q_end + 1 - start + i] == a[i]);
        }
    }
}

proof fn lemma_forget_found(b: Seq<u8>, start: int, key: Seq<u8>)
    requires
        0 <= start,
        start + codec::forget_bytes(key).len() <= b.len(),
        b.subrange(start, start + codec::forget_bytes(key).len()) == codec::forget_bytes(key),
        codec::forget_bytes(key).len() <= usize::MAX,
    ensures
        codec::forget_at(b, start) == (Found::Complete {
            entry: Entry::Forget(key),
            end: start + codec::forget_bytes(key).len() - 1,
        }),
        b.subrange(start, start + 13) == codec::forget_mark(),
        start + 13 <= b.len(),
{
    reveal_strlit("[RAMDEL v1 k=");
    let mark = codec::forget_mark();
    assert(mark.len() == 13);
    let s = codec::forget_bytes(key);
    let dk = codec::decimal(key.len());
    codec::law_decimal_round_trip(key.len());
    let head = start + 13;
    let eol = head + dk.len() + 1;
    let header = dk + seq![0x5du8];
    assert(s =~= mark + header + seq![0x0au8] + key + seq![0x0au8]);
    assert forall|i: int| 0 <= i < s.len() implies b[start + i] == #[trigger] s[i] by {
        assert(b.subrange(start, start + s.len())[i] == b[start + i]);
    }
    assert(b.subrange(start, start + 13) =~= mark);
    assert(b.subrange(head, eol) =~= header) by {
        assert forall|i: int| 0 <= i < header.len() implies b[head + i] == #[trigger] header[i] by {
            assert(s[13 + i] == header[i]);
        }
    }
    assert(b[eol] == 0x0a) by {
        assert(s[eol - start] == 0x0a);
    }
    assert forall|i: int| head <= i < eol implies b[i] != 0x0a by {
        let k = i - head;
        assert(b.subrange(head, eol)[k] == b[i]);
        if k < dk.len() {
            assert(codec::is_digit(dk[k]));
            assert(header[k] == dk[k]);
        } else {
            assert(header[k] == 0x5d);
        }
    }
    codec::lemma_byte_from_is(b, 0x0a, head, eol);
    assert(header.subrange(0, header.len() - 1) =~= dk);
    let k_end = eol + 1 + key.len();
    assert(b.subrange(eol + 1, k_end) =~= key) by {
        assert forall|i: int| 0 <= i < key.len() implies b[eol + 1 + i] == #[trigger] key[i] by {
            assert(s[eol + 1 - start + i] == key[i]);
        }
    }
}

/// Reading at an entry applies it and goes on behind it.
proof fn lemma_replay_step(b: Seq<u8>, from: int, separated: bool, e: Entry, h: Seq<Qa>)
    requires
        0 <= from,
        b.len() <= usize::MAX,
        from + piece(separated, e).len() <= b.len(),
        b.subrange(from, from + piece(separated, e).len()) == piece(separated, e),
    ensures
        codec::replayed_from(b, from, h) == codec::replayed_from(
            b,
            from + piece(separated, e).len(),
            codec::applied(h, e),
        ),
{
    let p = piece(separated, e);
    let body = codec::entry_bytes(e);
    let start = if separated {
        from + 1
    } else {
        from
    };
    assert(b.subrange(start, start + body.len()) =~= body) by {
        assert forall|i: int| 0 <= i < body.len() implies b[start + i] == #[trigger] body[i] by {
            assert(b.subrange(from, from + p.len())[start - from + i] == b[start + i]);
            assert(p[start - from + i] == body[i]);
        }
    }
    if separated {
        assert(p[0] == 0x0a);
        assert(b.subrange(from, from + p.len())[0] == b[from]);
        lemma_no_mark_at_line_feed(b, from);
    }
    let gap = b.subrange(from, start);
    lemma_legacy_of_line_feed(h, gap);
    match e {
        Entry::Remember(qa) => {
            lemma_qa_found(b, start, qa);
            lemma_qa_mark(b, start);
            codec::lemma_text_from(b, codec::forget_mark(), start);
            assert(codec::next_mark(b, from) == Some((start, false)));
        },
        Entry::Forget(key) => {
            lemma_forget_found(b, start, key);
            lemma_forget_mark(b, start);
            codec::lemma_text_from(b, codec::qa_mark(), start);
            assert(codec::next_mark(b, from) == Some((start, true)));
        },
    }
}

proof fn lemma_stored_prefix(es: Seq<(bool, Entry)>, k: int)
    requires
        0 <= k <= es.len(),
    ensures
        stored(es.take(k)).len() <= stored(es).len(),
        stored(es).subrange(0, stored(es.take(k)).len() as int) == stored(es.take(k)),
    decreases es.len() - k,
{
    if k == es.len() {
        assert(es.take(k) =~= es);
        assert(stored(es).subrange(0, stored(es).len() as int) =~= stored(es));
    } else {
        lemma_stored_prefix(es.drop_last(), k);
        assert(es.drop_last().take(k) =~= es.take(k));
        let n = stored(es.take(k)).len() as int;
        assert(stored(es).subrange(0, n) =~= stored(es.drop_last()).subrange(0, n));
    }
}

proof fn lemma_replay_suffix(es: Seq<(bool, Entry)>, k: int, h: Seq<Qa>)
    requires
        0 <= k <= es.len(),
        stored(es).len() <= usize::MAX,
    ensures
        codec::replayed_from(
            stored(es),
            stored(es.take(k)).len() as int,
            applied_all(h, es.take(k)),
        ) == applied_all(h, es),
    decreases es.len() - k,
{
    let b = stored(es);
    lemma_stored_prefix(es, k);
    if k == es.len() {
        assert(es.take(k) =~= es);
    } else {
        let next = es.take(k + 1);
        assert(next.drop_last() =~= es.take(k));
        assert(next.last() == es[k]);
        lemma_stored_prefix(es, k + 1);
        let from = stored(es.take(k)).len() as int;
        let p = piece(es[k].0, es[k].1);
        assert(stored(next) == stored(es.take(k)) + p);
        assert(b.subrange(from, from + p.len()) =~= p) by {
            assert forall|i: int| 0 <= i < p.len() implies b[from + i] == #[trigger] p[i] by {
                assert(b.subrange(0, stored(next).len() as int)[from + i] == b[from + i]);
                assert(stored(next)[from + i] == p[i]);
            }
        }
        lemma_replay_step(b, from, es[k].0, es[k].1, applied_all(h, es.take(k)));
        lemma_replay_suffix(es, k + 1, h);
    }
}

/// Reading a stored log applies its entries, in order, whatever bytes the questions,
/// answers and phrases in them hold.
pub proof fn law_replay_applies_entries(es: Seq<(bool, Entry)>, h: Seq<Qa>)
    requires
        stored(es).len() <= usize::MAX,
    ensures
        codec::replayed(stored(es), h) == applied_all(h, es),
{
    assert(es.take(0) =~= Seq::empty());
    assert(stored(es.take(0)).len() == 0);
    lemma_replay_suffix(es, 0, h);
}

proof fn lemma_stored_concat(a: Seq<(bool, Entry)>, b: Seq<(bool, Entry)>, h: Seq<Qa>)
    ensures
        stored(a + b) == stored(a) + stored(b),
        applied_all(h, a + b) == applied_all(applied_all(h, a), b),
    decreases b.len(),
{
    if b.len() == 0 {
        assert(a + b =~= a);
        assert(stored(a) + stored(b) =~= stored(a));
    } else {
        assert((a + b).drop_last() =~= a + b.drop_last());
        lemma_stored_concat(a, b.drop_last(), h);
        assert(stored(a + b) =~= stored(a) + stored(b));
    }
}

/// Reading two stored logs put end to end is reading one after the other.
pub proof fn law_replay_of_joined_logs(
    a: Seq<(bool, Entry)>,
    b: Seq<(bool, Entry)>,
    h: Seq<Qa>,
)
    requires
        stored(a).len() + stored(b).len() <= usize::MAX,
    ensures
        codec::replayed(stored(a) + stored(b), h) == codec::replayed(
            stored(b),
            codec::replayed(stored(a), h),
        ),
{
    lemma_stored_concat(a, b, h);
    law_replay_applies_entries(a + b, h);
    law_replay_applies_entries(a, h);
    law_replay_applies_entries(b, codec::replayed(stored(a), h));
}

/// Adding an entry to a stored log gives a stored log, and reading it does what reading
/// the log did and then what the entry does.
pub proof fn law_replay_after_adding(es: Seq<(bool, Entry)>, e: Entry, h: Seq<Qa>)
    requires
        codec::with_entry(stored(es), e).len() <= usize::MAX,
    ensures
        codec::with_entry(stored(es), e) == stored(es.push((stored(es).len() > 0, e))),
        codec::replayed(codec::with_entry(stored(es), e), h) == codec::applied(
            codec::replayed(stored(es), h),
            e,
        ),
{
    let next = es.push((stored(es).len() > 0, e));
    assert(next.drop_last() =~= es);
    assert(stored(next) =~= codec::with_entry(stored(es), e));
    law_replay_applies_entries(es, h);
    law_replay_applies_entries(next, h);
}

/// What is forgotten in a session is also forgotten when the log of the session is read.
pub proof fn law_forget_key_is_trimmed(phrase: Seq<u8>)
    ensures
        text::trimmed(codec::forget_key(phrase)) == codec::forget_key(phrase),
        forall|h: Seq<Qa>| #[trigger]
            codec::applied(h, Entry::Forget(codec::forget_key(phrase))) == history::forgotten(
                h,
                codec::forget_key(phrase),
            ),
{
    text::law_trim_idempotent(phrase);
    reveal_strlit("secure phrase");
    reveal_strlit("secret phrase");
    reveal_strlit("memory test phrase");
    reveal_strlit("codename");
    text::lemma_trimmed_fixed(bytes::ascii("secure phrase"@));
    text::lemma_trimmed_fixed(bytes::ascii("secret phrase"@));
    text::lemma_trimmed_fixed(bytes::ascii("memory test phrase"@));
    text::lemma_trimmed_fixed(bytes::ascii("codename"@));
}

} // verus!
