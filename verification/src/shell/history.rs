//! The questions and answers that the shell remembers.

use vstd::prelude::*;

use crate::bytes;
use crate::shell::text;

verus! {

/// What the remembered questions and answers may take up, in bytes.
pub const RAM_SHELL_HISTORY_CAP_BYTES: usize = 65536;

/// One remembered question with its answer.
pub struct QaRecord {
    pub question: Vec<u8>,
    pub answer: Vec<u8>,
}

/// A question and its answer as byte strings.
pub struct Qa {
    pub question: Seq<u8>,
    pub answer: Seq<u8>,
}

impl View for QaRecord {
    type V = Qa;

    open spec fn view(&self) -> Qa {
        Qa { question: self.question@, answer: self.answer@ }
    }
}

/// The remembered questions and answers, oldest first.
pub open spec fn qas(history: Seq<QaRecord>) -> Seq<Qa> {
    history.map_values(|r: QaRecord| r@)
}

/// What one record counts for against the capacity.
pub open spec fn payload(qa: Qa) -> int {
    qa.question.len() + qa.answer.len() + 8int
}

/// What a history counts for against the capacity.
pub open spec fn total_payload(h: Seq<Qa>) -> int
    decreases h.len(),
{
    if h.len() == 0 {
        0
    } else {
        total_payload(h.drop_last()) + payload(h.last())
    }
}

/// `v`, or the largest `usize` where `v` is beyond it.
pub open spec fn saturated(v: int) -> int {
    if v > usize::MAX {
        usize::MAX as int
    } else {
        v
    }
}

/// What one record counts for, saturating.
pub fn qa_record_payload_len(record: &QaRecord) -> (r: usize)
    ensures
        r == saturated(payload(record@)),
{
    record.question.len().saturating_add(record.answer.len()).saturating_add(8)
}

proof fn lemma_total_payload_nonnegative(h: Seq<Qa>)
    ensures
        total_payload(h) >= 0,
    decreases h.len(),
{
    if h.len() > 0 {
        lemma_total_payload_nonnegative(h.drop_last());
    }
}

/// What a history counts for, saturating.
pub fn history_payload_len(history: &[QaRecord]) -> (r: usize)
    ensures
        r == saturated(total_payload(qas(history@))),
{
    let mut sum: usize = 0;
    let mut i: usize = 0;
    let ghost h = qas(history@);
    assert(h.take(0) =~= Seq::empty());
    while i < history.len()
        invariant
            i <= history.len(),
            h == qas(history@),
            sum == saturated(total_payload(h.take(i as int))),
        decreases history.len() - i,
    {
        proof {
            lemma_total_payload_nonnegative(h.take(i as int));
            assert(h.take(i + 1).drop_last() =~= h.take(i as int));
            assert(h.take(i + 1).last() == history@[i as int]@);
        }
        sum = sum.saturating_add(qa_record_payload_len(&history[i]));
        i += 1;
    }
    assert(h.take(i as int) =~= h);
    sum
}

/// `h` without as many of its oldest records as it takes for `needed` more bytes to fit.
pub open spec fn shrunk(h: Seq<Qa>, needed: int) -> Seq<Qa>
    decreases h.len(),
{
    if h.len() == 0 || total_payload(h) + needed <= RAM_SHELL_HISTORY_CAP_BYTES {
        h
    } else {
        shrunk(h.drop_first(), needed)
    }
}

/// Drops the oldest records until `needed` more bytes fit, or none is left.
pub fn shrink_records(history: &mut Vec<QaRecord>, needed: usize)
    ensures
        qas(final(history)@) == shrunk(qas(old(history)@), needed as int),
{
    let ghost before = qas(history@);
    while history.len() != 0 && history_payload_len(history.as_slice()).saturating_add(needed)
        > RAM_SHELL_HISTORY_CAP_BYTES
        invariant
            shrunk(qas(history@), needed as int) == shrunk(before, needed as int),
        decreases history.len(),
    {
        proof {
            lemma_total_payload_nonnegative(qas(history@));
            assert(qas(history@.remove(0)) =~= qas(history@).drop_first());
        }
        let _ = history.remove(0);
    }
    proof {
        lemma_total_payload_nonnegative(qas(history@));
    }
}

/// Where more is needed than the capacity, nothing is kept.
pub proof fn lemma_shrunk_to_nothing(h: Seq<Qa>, n: int, m: int)
    ensures
        n == m || (n > RAM_SHELL_HISTORY_CAP_BYTES && m > RAM_SHELL_HISTORY_CAP_BYTES) ==> shrunk(
            h,
            n,
        ) == shrunk(h, m),
    decreases h.len(),
{
    lemma_total_payload_nonnegative(h);
    if h.len() > 0 {
        lemma_shrunk_to_nothing(h.drop_first(), n, m);
    }
}

/// `b` without as many of its first bytes as it takes for `needed` more to fit.
pub open spec fn shrunk_bytes(b: Seq<u8>, needed: int) -> Seq<u8> {
    if b.len() + needed <= RAM_SHELL_HISTORY_CAP_BYTES {
        b
    } else if needed >= RAM_SHELL_HISTORY_CAP_BYTES {
        Seq::empty()
    } else {
        b.subrange(b.len() + needed - RAM_SHELL_HISTORY_CAP_BYTES, b.len() as int)
    }
}

/// Drops the oldest bytes until `needed` more fit, or none is left.
pub fn shrink_bytes(buf: &mut Vec<u8>, needed: usize)
    ensures
        final(buf)@ == shrunk_bytes(old(buf)@, needed as int),
{
    let required: usize = buf.len().saturating_add(needed);
    if required <= RAM_SHELL_HISTORY_CAP_BYTES {
        return;
    }
    if needed >= RAM_SHELL_HISTORY_CAP_BYTES {
        buf.clear();
        return;
    }
    let drop_len: usize = buf.len() - (RAM_SHELL_HISTORY_CAP_BYTES - needed);
    let kept = buf.split_off(drop_len);
    *buf = kept;
}

/// The topic that a question with its answer is filed under.
pub open spec fn qa_key(qa: Qa) -> Option<Seq<u8>> {
    if !text::is_question(qa.question) && text::memory_key(qa.question) is Some {
        text::memory_key(qa.question)
    } else {
        text::memory_key(qa.answer)
    }
}

/// Finds the topic that a record is filed under.
pub fn qa_record_key(record: &QaRecord) -> (r: Option<Vec<u8>>)
    ensures
        text::text_option(r) == qa_key(record@),
{
    if !text::looks_like_question(record.question.as_slice()) {
        match text::memory_key_from_text(record.question.as_slice()) {
            Some(key) => {
                return Some(key);
            },
            None => {},
        }
    }
    text::memory_key_from_text(record.answer.as_slice())
}

fn is_key(found: &Option<Vec<u8>>, key: &[u8]) -> (r: bool)
    ensures
        r == (text::text_option(*found) == Some(key@)),
{
    match found {
        Some(k) => bytes::same_bytes(k.as_slice(), key),
        None => false,
    }
}

/// Holds of the records that are not filed under `key`.
pub open spec fn filed_elsewhere(key: Seq<u8>) -> spec_fn(Qa) -> bool {
    |qa: Qa| qa_key(qa) != Some(key)
}

/// `h` with `qa` added; where `qa` has a topic, older records on it are dropped.
pub open spec fn upserted(h: Seq<Qa>, qa: Qa) -> Seq<Qa> {
    match qa_key(qa) {
        Some(key) => h.filter(filed_elsewhere(key)).push(qa),
        None => h.push(qa),
    }
}

proof fn lemma_filter_step(full: Seq<Qa>, j: int, p: spec_fn(Qa) -> bool)
    requires
        0 <= j < full.len(),
    ensures
        full.take(j + 1).filter(p) == if p(full[j]) {
            full.take(j).filter(p).push(full[j])
        } else {
            full.take(j).filter(p)
        },
{
    reveal(Seq::filter);
    assert(full.take(j + 1).drop_last() =~= full.take(j));
    assert(full.take(j + 1).last() == full[j]);
}

/// Adds a record; where it has a topic, older records on that topic are dropped.
pub fn upsert_history_record(history: &mut Vec<QaRecord>, record: QaRecord)
    ensures
        qas(final(history)@) == upserted(qas(old(history)@), record@),
{
    let ghost full = qas(history@);
    match qa_record_key(&record) {
        Some(key) => {
            let ghost p = filed_elsewhere(key@);
            let ghost mut j: int = 0;
            let mut i: usize = 0;
            proof {
                reveal(Seq::filter);
                assert(full.take(0) =~= Seq::empty());
                assert(full.skip(0) =~= full);
            }
            while i < history.len()
                invariant
                    0 <= j <= full.len(),
                    i <= history.len(),
                    p == filed_elsewhere(key@),
                    i == full.take(j).filter(p).len(),
                    qas(history@) == full.take(j).filter(p) + full.skip(j),
                decreases history.len() - i,
            {
                proof {
                    assert(history@.len() == qas(history@).len());
                    assert(j < full.len());
                    assert(qas(history@)[i as int] == history@[i as int]@);
                    assert(history@[i as int]@ == full[j]);
                    lemma_filter_step(full, j, p);
                }
                let found = qa_record_key(&history[i]);
                if is_key(&found, key.as_slice()) {
                    let ghost h = history@;
                    let _ = history.remove(i);
                    proof {
                        assert(qas(h.remove(i as int)) =~= full.take(j + 1).filter(p) + full.skip(
                            j + 1,
                        )) by {
                            assert(qas(h.remove(i as int)) =~= qas(h).remove(i as int));
                        }
                    }
                } else {
                    i += 1;
                    assert(qas(history@) =~= full.take(j + 1).filter(p) + full.skip(j + 1));
                }
                proof {
                    j = j + 1;
                }
            }
            proof {
                assert(qas(history@).len() == i);
                assert(full.skip(j).len() == 0);
                assert(full.take(j) =~= full);
                assert(qas(history@) =~= full.filter(p));
            }
        },
        None => {},
    }
    let ghost h = history@;
    history.push(record);
    assert(qas(history@) =~= qas(h).push(record@));
}

/// Whether the question or the answer speaks of the topic `key`.
pub open spec fn mentions_key(qa: Qa, key: Seq<u8>) -> bool {
    text::memory_key(qa.question) == Some(key) || text::memory_key(qa.answer) == Some(key)
}

/// Whether a record speaks of a topic.
pub fn record_mentions_key(record: &QaRecord, key: &[u8]) -> (r: bool)
    ensures
        r == mentions_key(record@, key@),
{
    let q = text::memory_key_from_text(record.question.as_slice());
    let a = text::memory_key_from_text(record.answer.as_slice());
    is_key(&q, key) || is_key(&a, key)
}

/// Whether a request to forget `phrase` is about `qa`.
pub open spec fn is_about(qa: Qa, phrase: Seq<u8>) -> bool {
    let p = text::trimmed(phrase);
    &&& p.len() > 0
    &&& {
        ||| text::memory_key(p) matches Some(key) && (qa_key(qa) == Some(key) || mentions_key(
            qa,
            key,
        ))
        ||| text::mentions(qa.question, p)
        ||| text::mentions(qa.answer, p)
    }
}

/// Whether a request to forget a phrase is about a record.
pub fn record_matches_forget_phrase(record: &QaRecord, phrase: &[u8]) -> (r: bool)
    ensures
        r == is_about(record@, phrase@),
{
    let phrase = text::trim_ascii(phrase);
    if phrase.len() == 0 {
        return false;
    }
    match text::memory_key_from_text(phrase) {
        Some(key) => {
            let own = qa_record_key(record);
            if is_key(&own, key.as_slice()) || record_mentions_key(record, key.as_slice()) {
                return true;
            }
        },
        None => {},
    }
    text::contains_case_insensitive(record.question.as_slice(), phrase)
        || text::contains_case_insensitive(record.answer.as_slice(), phrase)
}

/// Holds of the records that a request to forget `phrase` is not about.
pub open spec fn is_kept(phrase: Seq<u8>) -> spec_fn(Qa) -> bool {
    |qa: Qa| !is_about(qa, phrase)
}

/// `h` without the records that a request to forget `phrase` is about.
pub open spec fn forgotten(h: Seq<Qa>, phrase: Seq<u8>) -> Seq<Qa> {
    h.filter(is_kept(phrase))
}

/// Drops the records that a request is about, and says how many there were.
pub fn forget_history_records(history: &mut Vec<QaRecord>, phrase: &[u8]) -> (removed: usize)
    ensures
        qas(final(history)@) == forgotten(qas(old(history)@), phrase@),
        removed == old(history)@.len() - final(history)@.len(),
{
    let ghost full = qas(history@);
    let ghost p = is_kept(phrase@);
    let before: usize = history.len();
    let ghost mut j: int = 0;
    let mut i: usize = 0;
    proof {
        reveal(Seq::filter);
        assert(full.take(0) =~= Seq::empty());
        assert(full.skip(0) =~= full);
    }
    while i < history.len()
        invariant
            0 <= j <= full.len(),
            i <= history.len(),
            history.len() <= before == full.len(),
            p == is_kept(phrase@),
            i == full.take(j).filter(p).len(),
            qas(history@) == full.take(j).filter(p) + full.skip(j),
        decreases history.len() - i,
    {
        proof {
            assert(history@.len() == qas(history@).len());
            assert(j < full.len());
            assert(qas(history@)[i as int] == history@[i as int]@);
            assert(history@[i as int]@ == full[j]);
            lemma_filter_step(full, j, p);
        }
        if record_matches_forget_phrase(&history[i], phrase) {
            let ghost h = history@;
            let _ = history.remove(i);
            proof {
                assert(qas(h.remove(i as int)) =~= full.take(j + 1).filter(p) + full.skip(j + 1))
                    by {
                    assert(qas(h.remove(i as int)) =~= qas(h).remove(i as int));
                }
            }
        } else {
            i += 1;
            assert(qas(history@) =~= full.take(j + 1).filter(p) + full.skip(j + 1));
        }
        proof {
            j = j + 1;
        }
    }
    proof {
        assert(qas(history@).len() == i);
        assert(full.skip(j).len() == 0);
        assert(full.take(j) =~= full);
        assert(qas(history@) =~= full.filter(p));
    }
    before - history.len()
}

/// No two records are filed under one topic.
pub open spec fn topics_unique(h: Seq<Qa>) -> bool {
    forall|i: int, j: int|
        0 <= i < j < h.len() && #[trigger] qa_key(h[i]) is Some ==> qa_key(h[i]) != #[trigger] qa_key(
            h[j],
        )
}

proof fn lemma_filter_subsequence(h: Seq<Qa>, p: spec_fn(Qa) -> bool)
    ensures
        h.filter(p).len() <= h.len(),
        forall|i: int|
            0 <= i < h.filter(p).len() ==> p(#[trigger] h.filter(p)[i]) && h.contains(
                h.filter(p)[i],
            ),
        total_payload(h.filter(p)) <= total_payload(h),
    decreases h.len(),
{
    reveal(Seq::filter);
    if h.len() > 0 {
        let front = h.drop_last();
        lemma_filter_subsequence(front, p);
        let f = h.filter(p);
        if p(h.last()) {
            assert(f.drop_last() =~= front.filter(p));
        }
        assert forall|i: int| 0 <= i < f.len() implies p(#[trigger] f[i]) && h.contains(f[i]) by {
            if i < front.filter(p).len() {
                let g = front.filter(p);
                assert(f[i] == g[i]);
                assert(front.contains(g[i]));
                let k = choose|k: int| 0 <= k < front.len() && front[k] == g[i];
                assert(h[k] == f[i]);
            } else {
                assert(h[h.len() - 1] == f[i]);
            }
        }
    }
}

proof fn lemma_filter_keeps_unique(h: Seq<Qa>, p: spec_fn(Qa) -> bool)
    requires
        topics_unique(h),
    ensures
        topics_unique(h.filter(p)),
    decreases h.len(),
{
    reveal(Seq::filter);
    if h.len() > 0 {
        let front = h.drop_last();
        assert forall|i: int, j: int|
            0 <= i < j < front.len() && #[trigger] qa_key(front[i]) is Some implies qa_key(front[i])
            != #[trigger] qa_key(front[j]) by {
            assert(front[i] == h[i] && front[j] == h[j]);
        }
        lemma_filter_keeps_unique(front, p);
        lemma_filter_subsequence(front, p);
        let f = h.filter(p);
        let g = front.filter(p);
        assert forall|i: int, j: int|
            0 <= i < j < f.len() && #[trigger] qa_key(f[i]) is Some implies qa_key(f[i])
            != #[trigger] qa_key(f[j]) by {
            assert(f[i] == g[i]);
            if j < g.len() {
                assert(f[j] == g[j]);
            } else {
                assert(front.contains(g[i]));
                let k = choose|k: int| 0 <= k < front.len() && front[k] == g[i];
                assert(h[k] == f[i]);
                assert(f[j] == h[h.len() - 1]);
            }
        }
    }
}

/// Remembering keeps at most one record on each topic.
pub proof fn law_upsert_keeps_topics_unique(h: Seq<Qa>, qa: Qa)
    requires
        topics_unique(h),
    ensures
        topics_unique(upserted(h, qa)),
        upserted(h, qa).last() == qa,
{
    let r = upserted(h, qa);
    match qa_key(qa) {
        Some(key) => {
            let g = h.filter(filed_elsewhere(key));
            lemma_filter_keeps_unique(h, filed_elsewhere(key));
            lemma_filter_subsequence(h, filed_elsewhere(key));
            assert forall|i: int, j: int|
                0 <= i < j < r.len() && #[trigger] qa_key(r[i]) is Some implies qa_key(r[i])
                != #[trigger] qa_key(r[j]) by {
                assert(r[i] == g[i]);
                if j < g.len() {
                    assert(r[j] == g[j]);
                } else {
                    assert(filed_elsewhere(key)(g[i]));
                }
            }
        },
        None => {
            assert forall|i: int, j: int|
                0 <= i < j < r.len() && #[trigger] qa_key(r[i]) is Some implies qa_key(r[i])
                != #[trigger] qa_key(r[j]) by {
                assert(r[i] == h[i]);
                if j < h.len() {
                    assert(r[j] == h[j]);
                }
            }
        },
    }
}

/// Forgetting keeps at most one record on each topic.
pub proof fn law_forget_keeps_topics_unique(h: Seq<Qa>, phrase: Seq<u8>)
    requires
        topics_unique(h),
    ensures
        topics_unique(forgotten(h, phrase)),
{
    lemma_filter_keeps_unique(h, is_kept(phrase));
}

/// After a request to forget, no record that it is about is left, every other one is
/// kept, and asking again changes nothing.
pub proof fn law_forget_is_complete(h: Seq<Qa>, phrase: Seq<u8>)
    ensures
        forall|i: int|
            0 <= i < forgotten(h, phrase).len() ==> !is_about(
                #[trigger] forgotten(h, phrase)[i],
                phrase,
            ),
        forall|i: int|
            0 <= i < h.len() && !is_about(h[i], phrase) ==> forgotten(h, phrase).contains(
                #[trigger] h[i],
            ),
        forgotten(forgotten(h, phrase), phrase) == forgotten(h, phrase),
    decreases h.len(),
{
    let p = is_kept(phrase);
    lemma_filter_subsequence(h, p);
    let f = forgotten(h, phrase);
    assert forall|i: int| 0 <= i < f.len() implies !is_about(#[trigger] f[i], phrase) by {
        assert(p(f[i]));
    }
    lemma_filter_contains(h, p);
    lemma_filter_all(f, p);
}

proof fn lemma_filter_contains(h: Seq<Qa>, p: spec_fn(Qa) -> bool)
    ensures
        forall|i: int| 0 <= i < h.len() && p(h[i]) ==> h.filter(p).contains(#[trigger] h[i]),
    decreases h.len(),
{
    reveal(Seq::filter);
    if h.len() > 0 {
        let front = h.drop_last();
        lemma_filter_contains(front, p);
        let g = front.filter(p);
        let f = h.filter(p);
        assert forall|i: int| 0 <= i < h.len() && p(h[i]) implies f.contains(#[trigger] h[i]) by {
            if i < front.len() {
                assert(front[i] == h[i]);
                assert(g.contains(front[i]));
                let k = choose|k: int| 0 <= k < g.len() && g[k] == front[i];
                assert(f[k] == h[i]);
            } else {
                assert(f[f.len() - 1] == h[i]);
            }
        }
    }
}

proof fn lemma_filter_all(h: Seq<Qa>, p: spec_fn(Qa) -> bool)
    requires
        forall|i: int| 0 <= i < h.len() ==> p(#[trigger] h[i]),
    ensures
        h.filter(p) == h,
    decreases h.len(),
{
    reveal(Seq::filter);
    if h.len() > 0 {
        let front = h.drop_last();
        assert forall|i: int| 0 <= i < front.len() implies p(#[trigger] front[i]) by {
            assert(front[i] == h[i]);
        }
        lemma_filter_all(front, p);
        assert(h =~= front.push(h.last()));
    }
}

/// Making room keeps the newest records, and makes the room unless all have to go.
pub proof fn law_shrink_makes_room(h: Seq<Qa>, needed: int)
    ensures
        shrunk(h, needed).len() <= h.len(),
        shrunk(h, needed) == h.skip(h.len() - shrunk(h, needed).len()),
        shrunk(h, needed).len() == 0 || total_payload(shrunk(h, needed)) + needed
            <= RAM_SHELL_HISTORY_CAP_BYTES,
    decreases h.len(),
{
    if h.len() == 0 || total_payload(h) + needed <= RAM_SHELL_HISTORY_CAP_BYTES {
        assert(h.skip(0) =~= h);
    } else {
        let rest = h.drop_first();
        law_shrink_makes_room(rest, needed);
        let s = shrunk(h, needed);
        assert(rest.skip(rest.len() - s.len()) =~= h.skip(h.len() - s.len()));
    }
}

/// Once room was made for a question and its answer and they were added, the history
/// is within its capacity.
pub proof fn law_history_stays_within_capacity(h: Seq<Qa>, qa: Qa)
    requires
        qa.question.len() + qa.answer.len() + 64 <= RAM_SHELL_HISTORY_CAP_BYTES,
    ensures
        total_payload(
            upserted(shrunk(h, qa.question.len() + qa.answer.len() + 64int), qa),
        ) <= RAM_SHELL_HISTORY_CAP_BYTES,
{
    let needed = qa.question.len() + qa.answer.len() + 64int;
    let s = shrunk(h, needed);
    law_shrink_makes_room(h, needed);
    let r = upserted(s, qa);
    match qa_key(qa) {
        Some(key) => {
            lemma_filter_subsequence(s, filed_elsewhere(key));
            assert(r.drop_last() =~= s.filter(filed_elsewhere(key)));
        },
        None => {
            assert(r.drop_last() =~= s);
        },
    }
    assert(s.len() == 0 ==> total_payload(s) == 0);
    assert(total_payload(r) == total_payload(r.drop_last()) + payload(qa));
}

} // verus!
