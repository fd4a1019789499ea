//! The text format in which remembered questions and answers are stored.
//!
//! A stored log is a sequence of entries. An entry that remembers is a line
//! `[RAMQA v1 q=<n> a=<m>]` followed by `n` bytes of question, a line feed, `m` bytes
//! of answer and a line feed. An entry that forgets is a line `[RAMDEL v1 k=<n>]`
//! followed by `n` bytes and a line feed. What stands between entries is searched for
//! the older form, a line `Q: ...` followed by a line `A: ...`.

use vstd::prelude::*;

use crate::bytes;
use crate::shell::history;
use crate::shell::history::QaRecord;
use crate::shell::history::Qa;
use crate::shell::text;

verus! {

/// The decimal digits of `n`.
pub open spec fn decimal(n: nat) -> Seq<u8>
    decreases n,
{
    if n < 10 {
        seq![(0x30 + n) as u8]
    } else {
        decimal(n / 10).push((0x30 + n % 10) as u8)
    }
}

/// Appends the decimal digits of `value`.
pub fn append_decimal(target: &mut Vec<u8>, value: usize)
    ensures
        final(target)@ == old(target)@ + decimal(value as nat),
    decreases value,
{
    if value >= 10 {
        append_decimal(target, value / 10);
    }
    target.push(0x30 + (value % 10) as u8);
}

/// Whether `b` is a decimal digit.
pub open spec fn is_digit(b: u8) -> bool {
    0x30 <= b <= 0x39
}

/// Whether `s` is made of decimal digits alone.
pub open spec fn all_digits(s: Seq<u8>) -> bool {
    forall|i: int| 0 <= i < s.len() ==> is_digit(#[trigger] s[i])
}

/// The number that the digits `s` write.
pub open spec fn decimal_value(s: Seq<u8>) -> nat
    decreases s.len(),
{
    if s.len() == 0 {
        0
    } else {
        (10 * decimal_value(s.drop_last()) + (s.last() - 0x30)) as nat
    }
}

/// The number that `s` writes, where it is one or more digits and fits.
pub open spec fn parsed_decimal(s: Seq<u8>) -> Option<nat> {
    if s.len() > 0 && all_digits(s) && decimal_value(s) <= usize::MAX {
        Some(decimal_value(s))
    } else {
        None
    }
}

proof fn lemma_decimal_value_grows(s: Seq<u8>, k: int)
    requires
        all_digits(s),
        0 <= k <= s.len(),
    ensures
        decimal_value(s.take(k)) <= decimal_value(s),
    decreases s.len(),
{
    if k < s.len() {
        assert(all_digits(s.drop_last())) by {
            assert forall|i: int| 0 <= i < s.drop_last().len() implies is_digit(
                #[trigger] s.drop_last()[i],
            ) by {
                assert(s.drop_last()[i] == s[i]);
            }
        }
        lemma_decimal_value_grows(s.drop_last(), k);
        assert(s.drop_last().take(k) =~= s.take(k));
        assert(is_digit(s[s.len() - 1]));
    } else {
        assert(s.take(k) =~= s);
    }
}

/// The view of an optional length.
pub open spec fn nat_option(v: Option<usize>) -> Option<nat> {
    match v {
        Some(x) => Some(x as nat),
        None => None,
    }
}

/// Reads a decimal number.
pub fn parse_decimal(bytes: &[u8]) -> (r: Option<usize>)
    ensures
        nat_option(r) == parsed_decimal(bytes@),
{
    if bytes.len() == 0 {
        return None;
    }
    let mut value: usize = 0;
    let mut i: usize = 0;
    assert(bytes@.take(0) =~= Seq::empty());
    while i < bytes.len()
        invariant
            i <= bytes.len(),
            all_digits(bytes@.take(i as int)),
            value == decimal_value(bytes@.take(i as int)),
        decreases bytes.len() - i,
    {
        let byte = bytes[i];
        proof {
            assert(bytes@.take(i + 1).drop_last() =~= bytes@.take(i as int));
            assert(bytes@.take(i + 1).last() == byte);
        }
        if byte < 0x30 || byte > 0x39 {
            assert(!is_digit(bytes@[i as int]));
            return None;
        }
        assert forall|k: int| 0 <= k < i + 1 implies is_digit(
            #[trigger] bytes@.take(i + 1)[k],
        ) by {
            if k < i {
                assert(is_digit(bytes@.take(i as int)[k]));
            }
        }
        match value.checked_mul(10) {
            None => {
                proof {
                    if all_digits(bytes@) {
                        lemma_decimal_value_grows(bytes@, i + 1);
                    }
                }
                return None;
            },
            Some(tens) => match tens.checked_add((byte - 0x30) as usize) {
                None => {
                    proof {
                        if all_digits(bytes@) {
                            lemma_decimal_value_grows(bytes@, i + 1);
                        }
                    }
                    return None;
                },
                Some(next) => {
                    value = next;
                },
            },
        }
        i += 1;
    }
    assert(bytes@.take(i as int) =~= bytes@);
    Some(value)
}

/// Writing a number and reading it back gives the number.
pub proof fn law_decimal_round_trip(n: nat)
    ensures
        decimal(n).len() > 0,
        all_digits(decimal(n)),
        decimal_value(decimal(n)) == n,
        n <= usize::MAX ==> parsed_decimal(decimal(n)) == Some(n),
    decreases n,
{
    let d = decimal(n);
    if n >= 10 {
        law_decimal_round_trip(n / 10);
        let p = decimal(n / 10);
        assert(d.drop_last() =~= p);
        assert forall|i: int| 0 <= i < d.len() implies is_digit(#[trigger] d[i]) by {
            if i < p.len() {
                assert(d[i] == p[i]);
            }
        }
    } else {
        assert(d.drop_last() =~= Seq::empty());
        assert(decimal_value(d.drop_last()) == 0);
    }
}

/// Where `x` first stands in `b` at or after `from`.
pub open spec fn byte_from(b: Seq<u8>, x: u8, from: int) -> Option<int>
    decreases b.len() - from,
{
    if from < 0 || from >= b.len() {
        None
    } else if b[from] == x {
        Some(from)
    } else {
        byte_from(b, x, from + 1)
    }
}

/// What `byte_from` finds is there.
pub proof fn lemma_byte_from(b: Seq<u8>, x: u8, from: int)
    requires
        0 <= from,
    ensures
        byte_from(b, x, from) matches Some(at) ==> from <= at < b.len() && b[at] == x,
    decreases b.len() - from,
{
    if from < b.len() && b[from] != x {
        lemma_byte_from(b, x, from + 1);
    }
}

/// The first place of a byte.
pub proof fn lemma_byte_from_is(b: Seq<u8>, x: u8, from: int, at: int)
    requires
        0 <= from <= at < b.len(),
        b[at] == x,
        forall|i: int| from <= i < at ==> b[i] != x,
    ensures
        byte_from(b, x, from) == Some(at),
    decreases at - from,
{
    if from < at {
        lemma_byte_from_is(b, x, from + 1, at);
    }
}

/// The view of an optional position.
pub open spec fn position(v: Option<usize>) -> Option<int> {
    match v {
        Some(x) => Some(x as int),
        None => None,
    }
}

/// Finds a byte at or after `from`.
pub fn find_byte(bytes: &[u8], needle: u8, from: usize) -> (r: Option<usize>)
    ensures
        position(r) == byte_from(bytes@, needle, from as int),
        r matches Some(at) ==> from <= at < bytes.len() && bytes@[at as int] == needle,
{
    let mut i: usize = from;
    while i < bytes.len()
        invariant
            from <= i,
            byte_from(bytes@, needle, from as int) == byte_from(bytes@, needle, i as int),
        decreases bytes.len() - i,
    {
        if bytes[i] == needle {
            return Some(i);
        }
        i += 1;
    }
    None
}

/// Where `needle`, if not empty, first stands in `b` at or after `from`.
pub open spec fn text_from(b: Seq<u8>, needle: Seq<u8>, from: int) -> Option<int>
    decreases b.len() - from,
{
    if from < 0 || needle.len() == 0 || from + needle.len() > b.len() {
        None
    } else if b.subrange(from, from + needle.len()) == needle {
        Some(from)
    } else {
        text_from(b, needle, from + 1)
    }
}

/// What `text_from` finds is there.
pub proof fn lemma_text_from(b: Seq<u8>, needle: Seq<u8>, from: int)
    requires
        0 <= from,
    ensures
        text_from(b, needle, from) matches Some(at) ==> {
            &&& from <= at
            &&& needle.len() > 0
            &&& at + needle.len() <= b.len()
            &&& b.subrange(at, at + needle.len()) == needle
        },
    decreases b.len() - from,
{
    if needle.len() > 0 && from + needle.len() <= b.len() && b.subrange(from, from + needle.len())
        != needle {
        lemma_text_from(b, needle, from + 1);
    }
}

/// Finds a non-empty byte string at or after `from`.
pub fn find_subslice(bytes: &[u8], needle: &[u8], from: usize) -> (r: Option<usize>)
    ensures
        position(r) == text_from(bytes@, needle@, from as int),
        r matches Some(at) ==> from <= at && at + needle@.len() <= bytes@.len() && bytes@.subrange(
            at as int,
            at + needle@.len(),
        ) == needle@,
{
    if needle.len() == 0 || needle.len() > bytes.len() {
        return None;
    }
    let mut i: usize = from;
    let last: usize = bytes.len() - needle.len();
    while i <= last
        invariant
            from <= i,
            0 < needle.len(),
            last + needle.len() == bytes.len(),
            text_from(bytes@, needle@, from as int) == text_from(bytes@, needle@, i as int),
        decreases bytes.len() - i,
    {
        if bytes::same_bytes(&bytes[i..i + needle.len()], needle) {
            return Some(i);
        }
        i += 1;
    }
    None
}

/// `[RAMQA v1 q=`
pub open spec fn qa_mark() -> Seq<u8> {
    bytes::ascii("[RAMQA v1 q="@)
}

/// `[RAMDEL v1 k=`
pub open spec fn forget_mark() -> Seq<u8> {
    bytes::ascii("[RAMDEL v1 k="@)
}

/// ` a=`
pub open spec fn answer_mark() -> Seq<u8> {
    bytes::ascii(" a="@)
}

/// One entry of a stored log.
pub enum Entry {
    Remember(Qa),
    Forget(Seq<u8>),
}

/// The bytes of an entry that remembers.
pub open spec fn qa_bytes(qa: Qa) -> Seq<u8> {
    qa_mark() + decimal(qa.question.len()) + answer_mark() + decimal(qa.answer.len()) + seq![
        0x5du8,
        0x0au8,
    ] + qa.question + seq![0x0au8] + qa.answer + seq![0x0au8]
}

/// The bytes of an entry that forgets.
pub open spec fn forget_bytes(key: Seq<u8>) -> Seq<u8> {
    forget_mark() + decimal(key.len()) + seq![0x5du8, 0x0au8] + key + seq![0x0au8]
}

/// The bytes of an entry.
pub open spec fn entry_bytes(e: Entry) -> Seq<u8> {
    match e {
        Entry::Remember(qa) => qa_bytes(qa),
        Entry::Forget(key) => forget_bytes(key),
    }
}

/// What separates an entry from what is stored before it.
pub open spec fn separator(log: Seq<u8>) -> Seq<u8> {
    if log.len() == 0 {
        Seq::empty()
    } else {
        seq![0x0au8]
    }
}

/// `log` with an entry added.
pub open spec fn with_entry(log: Seq<u8>, e: Entry) -> Seq<u8> {
    log + separator(log) + entry_bytes(e)
}

/// Appends an entry that remembers a question and its answer.
pub fn append_serialized_qa(target: &mut Vec<u8>, prompt: &[u8], answer: &[u8])
    ensures
        final(target)@ == with_entry(
            old(target)@,
            Entry::Remember(Qa { question: prompt@, answer: answer@ }),
        ),
{
    let ghost before = target@;
    if target.len() != 0 {
        target.push(0x0a);
    }
    proof {
        reveal_strlit("[RAMQA v1 q=");
        reveal_strlit(" a=");
        reveal_strlit("]\n");
        assert(bytes::ascii("]\n"@) =~= seq![0x5du8, 0x0au8]);
    }
    assert(target@ =~= before + separator(before));
    target.extend_from_slice(bytes::lit("[RAMQA v1 q="));
    append_decimal(target, prompt.len());
    target.extend_from_slice(bytes::lit(" a="));
    append_decimal(target, answer.len());
    target.extend_from_slice(bytes::lit("]\n"));
    target.extend_from_slice(prompt);
    target.push(0x0a);
    target.extend_from_slice(answer);
    target.push(0x0a);
    assert(target@ =~= before + separator(before) + qa_bytes(
        Qa { question: prompt@, answer: answer@ },
    ));
}

/// Appends an entry that forgets.
pub fn append_serialized_forget(target: &mut Vec<u8>, key: &[u8])
    ensures
        final(target)@ == with_entry(old(target)@, Entry::Forget(key@)),
{
    let ghost before = target@;
    if target.len() != 0 {
        target.push(0x0a);
    }
    proof {
        reveal_strlit("[RAMDEL v1 k=");
        reveal_strlit("]\n");
        assert(bytes::ascii("]\n"@) =~= seq![0x5du8, 0x0au8]);
    }
    assert(target@ =~= before + separator(before));
    target.extend_from_slice(bytes::lit("[RAMDEL v1 k="));
    append_decimal(target, key.len());
    target.extend_from_slice(bytes::lit("]\n"));
    target.extend_from_slice(key);
    target.push(0x0a);
    assert(target@ =~= before + separator(before) + forget_bytes(key@));
}

/// What an answered question does to the history and to the log of this session.
pub fn append_to_history(
    history: &mut Vec<QaRecord>,
    session_delta: &mut Vec<u8>,
    prompt: &[u8],
    answer: &[u8],
)
    ensures
        ({
            let qa = Qa { question: prompt@, answer: answer@ };
            let needed = prompt@.len() + answer@.len() + 64int;
            &&& history::qas(final(history)@) == history::upserted(
                history::shrunk(history::qas(old(history)@), needed),
                qa,
            )
            &&& final(session_delta)@ == with_entry(
                history::shrunk_bytes(old(session_delta)@, needed),
                Entry::Remember(qa),
            )
        }),
{
    let needed: usize = prompt.len().saturating_add(answer.len()).saturating_add(64);
    proof {
        history::lemma_shrunk_to_nothing(
            history::qas(history@),
            needed as int,
            prompt@.len() + answer@.len() + 64int,
        );
    }
    history::shrink_records(history, needed);
    history::shrink_bytes(session_delta, needed);
    let record = QaRecord { question: bytes::to_vec(prompt), answer: bytes::to_vec(answer) };
    history::upsert_history_record(history, record);
    append_serialized_qa(session_delta, prompt, answer);
}

/// What a request to forget `phrase` is about: its topic, or else the phrase itself.
pub open spec fn forget_key(phrase: Seq<u8>) -> Seq<u8> {
    match text::memory_key(text::trimmed(phrase)) {
        Some(key) => key,
        None => text::trimmed(phrase),
    }
}

/// What a request to forget does to the history and to the log of this session.
/// Returns how many records were dropped.
pub fn append_forget_to_history(
    history: &mut Vec<QaRecord>,
    session_delta: &mut Vec<u8>,
    phrase: &[u8],
) -> (removed: usize)
    ensures
        removed == old(history)@.len() - final(history)@.len(),
        text::trimmed(phrase@).len() == 0 ==> *final(history) == *old(history)
            && *final(session_delta) == *old(session_delta),
        text::trimmed(phrase@).len() > 0 ==> {
            let key = forget_key(phrase@);
            &&& history::qas(final(history)@) == history::forgotten(
                history::qas(old(history)@),
                key,
            )
            &&& final(session_delta)@ == with_entry(
                history::shrunk_bytes(old(session_delta)@, key.len() + 64int),
                Entry::Forget(key),
            )
        },
{
    let phrase = text::trim_ascii(phrase);
    if phrase.len() == 0 {
        return 0;
    }
    let key = match text::memory_key_from_text(phrase) {
        Some(key) => key,
        None => bytes::to_vec(phrase),
    };
    proof {
        reveal_strlit("secure phrase");
        reveal_strlit("secret phrase");
        reveal_strlit("memory test phrase");
        reveal_strlit("codename");
    }
    let needed: usize = key.len().saturating_add(64);
    history::shrink_bytes(session_delta, needed);
    let removed: usize = history::forget_history_records(history, key.as_slice());
    append_serialized_forget(session_delta, key.as_slice());
    removed
}

/// What reading the older form does to `h`.
pub open spec fn legacy(b: Seq<u8>, h: Seq<Qa>) -> Seq<Qa>
    decreases b.len(),
{
    proof {
        lemma_text_from(b, bytes::ascii("Q: "@), 0);
        reveal_strlit("Q: ");
        reveal_strlit("A: ");
    }
    match text_from(b, bytes::ascii("Q: "@), 0) {
        None => h,
        Some(p) => {
            let line = b.subrange(p + 3, b.len() as int);
            proof {
                lemma_byte_from(line, 0x0a, 0);
            }
            match byte_from(line, 0x0a, 0) {
                None => h,
                Some(e) => {
                    let question = text::trimmed(line.subrange(0, e));
                    let rest = line.subrange(e + 1, line.len() as int);
                    if !starts_with(rest, bytes::ascii("A: "@)) {
                        legacy(rest, h)
                    } else {
                        let tail = rest.subrange(3, rest.len() as int);
                        proof {
                            lemma_byte_from(tail, 0x0a, 0);
                        }
                        match byte_from(tail, 0x0a, 0) {
                            None => legacy_pair(h, question, text::trimmed(tail)),
                            Some(a) => legacy(
                                tail.subrange(a + 1, tail.len() as int),
                                legacy_pair(h, question, text::trimmed(tail.subrange(0, a))),
                            ),
                        }
                    }
                },
            }
        },
    }
}

/// `h` with a question and its answer added, unless either is empty.
pub open spec fn legacy_pair(h: Seq<Qa>, question: Seq<u8>, answer: Seq<u8>) -> Seq<Qa> {
    if question.len() > 0 && answer.len() > 0 {
        history::upserted(h, Qa { question, answer })
    } else {
        h
    }
}

/// Whether `b` starts with `prefix`.
pub open spec fn starts_with(b: Seq<u8>, prefix: Seq<u8>) -> bool {
    prefix.len() <= b.len() && b.subrange(0, prefix.len() as int) == prefix
}

/// Whether `b` starts with `prefix`.
pub fn has_prefix(b: &[u8], prefix: &[u8]) -> (r: bool)
    ensures
        r == starts_with(b@, prefix@),
{
    prefix.len() <= b.len() && bytes::same_bytes(&b[0..prefix.len()], prefix)
}

/// Reads questions and answers in the older form.
pub fn parse_legacy_qa_records(bytes: &[u8], history: &mut Vec<QaRecord>)
    ensures
        history::qas(final(history)@) == legacy(bytes@, history::qas(old(history)@)),
{
    proof {
        reveal_strlit("Q: ");
        reveal_strlit("A: ");
    }
    let mut b: &[u8] = bytes;
    let ghost goal = legacy(bytes@, history::qas(history@));
    loop
        invariant_except_break
            goal == legacy(b@, history::qas(history@)),
        invariant
            "Q: "@.len() == 3,
            "A: "@.len() == 3,
            vstd::string::is_ascii("Q: "),
            vstd::string::is_ascii("A: "),
        ensures
            goal == history::qas(history@),
        decreases b.len(),
    {
        let q_pos: usize = match find_subslice(b, bytes::lit("Q: "), 0) {
            None => {
                break;
            },
            Some(p) => p,
        };
        let line = &b[q_pos + 3..b.len()];
        let q_end: usize = match find_byte(line, 0x0a, 0) {
            None => {
                break;
            },
            Some(e) => e,
        };
        let question = text::trim_ascii(&line[0..q_end]);
        let rest = &line[q_end + 1..line.len()];
        if !has_prefix(rest, bytes::lit("A: ")) {
            b = rest;
            continue;
        }
        let tail = &rest[3..rest.len()];
        let found: Option<usize> = find_byte(tail, 0x0a, 0);
        let a_end: usize = match found {
            None => tail.len(),
            Some(a) => a,
        };
        let answer = text::trim_ascii(&tail[0..a_end]);
        assert(found is None ==> tail@.subrange(0, a_end as int) =~= tail@);
        if question.len() != 0 && answer.len() != 0 {
            let record = QaRecord { question: bytes::to_vec(question), answer: bytes::to_vec(answer) };
            history::upsert_history_record(history, record);
        }
        if a_end >= tail.len() {
            break;
        }
        b = &tail[a_end + 1..tail.len()];
    }
}

/// What is found where an entry seems to start.
pub enum Found {
    /// The log ends inside the entry.
    CutOff,
    /// It only looked like an entry.
    Malformed,
    /// An entry, and where it ends.
    Complete { entry: Entry, end: int },
}

/// What stands at `start`, where the mark of an entry that remembers was found.
pub open spec fn qa_at(b: Seq<u8>, start: int) -> Found {
    let head = start + qa_mark().len();
    match byte_from(b, 0x0a, head) {
        None => Found::CutOff,
        Some(eol) => {
            let header = b.subrange(head, eol);
            match text_from(header, answer_mark(), 0) {
                None => Found::Malformed,
                Some(m) => if header.last() != 0x5d {
                    Found::Malformed
                } else {
                    match (
                        parsed_decimal(header.subrange(0, m)),
                        parsed_decimal(header.subrange(m + 3, header.len() - 1)),
                    ) {
                        (Some(q_len), Some(a_len)) => {
                            let q_end = eol + 1 + q_len;
                            let a_end = q_end + 1 + a_len;
                            if a_end > b.len() {
                                Found::CutOff
                            } else {
                                Found::Complete {
                                    entry: Entry::Remember(
                                        Qa {
                                            question: b.subrange(eol + 1, q_end),
                                            answer: b.subrange(q_end + 1, a_end),
                                        },
                                    ),
                                    end: a_end,
                                }
                            }
                        },
                        _ => Found::Malformed,
                    }
                },
            }
        },
    }
}

/// What stands at `start`, where the mark of an entry that forgets was found.
pub open spec fn forget_at(b: Seq<u8>, start: int) -> Found {
    let head = start + forget_mark().len();
    match byte_from(b, 0x0a, head) {
        None => Found::CutOff,
        Some(eol) => {
            let header = b.subrange(head, eol);
            if header.len() == 0 || header.last() != 0x5d {
                Found::Malformed
            } else {
                match parsed_decimal(header.subrange(0, header.len() - 1)) {
                    None => Found::Malformed,
                    Some(k_len) => {
                        let k_end = eol + 1 + k_len;
                        if k_end > b.len() {
                            Found::CutOff
                        } else {
                            Found::Complete {
                                entry: Entry::Forget(b.subrange(eol + 1, k_end)),
                                end: k_end,
                            }
                        }
                    },
                }
            }
        },
    }
}

/// Where the next entry seems to start, and whether it seems to be one that forgets.
pub open spec fn next_mark(b: Seq<u8>, from: int) -> Option<(int, bool)> {
    match (text_from(b, qa_mark(), from), text_from(b, forget_mark(), from)) {
        (None, None) => None,
        (Some(q), None) => Some((q, false)),
        (None, Some(d)) => Some((d, true)),
        (Some(q), Some(d)) => if d < q {
            Some((d, true))
        } else {
            Some((q, false))
        },
    }
}

/// What an entry does to a history.
pub open spec fn applied(h: Seq<Qa>, e: Entry) -> Seq<Qa> {
    match e {
        Entry::Remember(qa) => history::upserted(h, qa),
        Entry::Forget(key) => history::forgotten(h, text::trimmed(key)),
    }
}

/// Where reading goes on after an entry: behind the line feed that ends it, if any.
pub open spec fn past_line_feed(b: Seq<u8>, end: int) -> int {
    if end < b.len() {
        end + 1
    } else {
        end
    }
}

/// What reading `b` from `from` on does to `h`.
pub open spec fn replayed_from(b: Seq<u8>, from: int, h: Seq<Qa>) -> Seq<Qa>
    decreases b.len() - from,
{
    if from < 0 || from >= b.len() {
        h
    } else {
        proof {
            lemma_next_mark(b, from);
        }
        match next_mark(b, from) {
            None => legacy(b.subrange(from, b.len() as int), h),
            Some((start, forgets)) => {
                let h1 = legacy(b.subrange(from, start), h);
                let found = if forgets {
                    forget_at(b, start)
                } else {
                    qa_at(b, start)
                };
                proof {
                    lemma_found_end(b, start);
                }
                match found {
                    Found::CutOff => h1,
                    Found::Malformed => replayed_from(b, start + 1, h1),
                    Found::Complete { entry, end } => replayed_from(
                        b,
                        past_line_feed(b, end),
                        applied(h1, entry),
                    ),
                }
            },
        }
    }
}

/// What reading the stored log `b` does to `h`.
pub open spec fn replayed(b: Seq<u8>, h: Seq<Qa>) -> Seq<Qa> {
    replayed_from(b, 0, h)
}

/// A mark is found inside the log.
pub proof fn lemma_next_mark(b: Seq<u8>, from: int)
    requires
        0 <= from,
    ensures
        next_mark(b, from) matches Some((start, forgets)) ==> from <= start < b.len(),
{
    lemma_text_from(b, qa_mark(), from);
    lemma_text_from(b, forget_mark(), from);
}

/// An entry ends behind its start, inside the log.
pub proof fn lemma_found_end(b: Seq<u8>, start: int)
    requires
        0 <= start < b.len(),
    ensures
        qa_at(b, start) matches Found::Complete { entry, end } ==> start < end <= b.len(),
        forget_at(b, start) matches Found::Complete { entry, end } ==> start < end <= b.len(),
{
    lemma_byte_from(b, 0x0a, start + qa_mark().len());
    lemma_byte_from(b, 0x0a, start + forget_mark().len());
}

proof fn lemma_legacy_of_nothing(h: Seq<Qa>)
    ensures
        legacy(Seq::empty(), h) == h,
{
    reveal_strlit("Q: ");
}

/// A complete entry, or what else was found, with the bytes copied out.
pub enum FoundEntry {
    CutOff,
    Malformed,
    Remember { record: QaRecord, end: usize },
    Forget { key: Vec<u8>, end: usize },
}

impl View for FoundEntry {
    type V = Found;

    open spec fn view(&self) -> Found {
        match self {
            FoundEntry::CutOff => Found::CutOff,
            FoundEntry::Malformed => Found::Malformed,
            FoundEntry::Remember { record, end } => Found::Complete {
                entry: Entry::Remember(record@),
                end: *end as int,
            },
            FoundEntry::Forget { key, end } => Found::Complete {
                entry: Entry::Forget(key@),
                end: *end as int,
            },
        }
    }
}

fn read_qa_entry(b: &[u8], start: usize) -> (r: FoundEntry)
    requires
        start + qa_mark().len() <= b.len(),
    ensures
        r@ == qa_at(b@, start as int),
        r !is Forget,
{
    proof {
        reveal_strlit("[RAMQA v1 q=");
        reveal_strlit(" a=");
    }
    assert(qa_mark().len() == 12);
    let head: usize = start + 12;
    let eol: usize = match find_byte(b, 0x0a, head) {
        None => {
            return FoundEntry::CutOff;
        },
        Some(e) => e,
    };
    let header = &b[head..eol];
    let m: usize = match find_subslice(header, bytes::lit(" a="), 0) {
        None => {
            return FoundEntry::Malformed;
        },
        Some(m) => m,
    };
    let ghost mark = header@.subrange(m as int, m + 3);
    assert(mark[2] == 0x3d);
    if header[header.len() - 1] != 0x5d {
        return FoundEntry::Malformed;
    }
    assert(header@[m + 2] == mark[2]);
    let q_len: usize = match parse_decimal(&header[0..m]) {
        None => {
            return FoundEntry::Malformed;
        },
        Some(n) => n,
    };
    let a_len: usize = match parse_decimal(&header[m + 3..header.len() - 1]) {
        None => {
            return FoundEntry::Malformed;
        },
        Some(n) => n,
    };
    let left: usize = b.len() - (eol + 1);
    if q_len >= left {
        return FoundEntry::CutOff;
    }
    let q_end: usize = eol + 1 + q_len;
    if a_len > b.len() - (q_end + 1) {
        return FoundEntry::CutOff;
    }
    let a_end: usize = q_end + 1 + a_len;
    FoundEntry::Remember {
        record: QaRecord {
            question: bytes::to_vec(&b[eol + 1..q_end]),
            answer: bytes::to_vec(&b[q_end + 1..a_end]),
        },
        end: a_end,
    }
}

fn read_forget_entry(b: &[u8], start: usize) -> (r: FoundEntry)
    requires
        start + forget_mark().len() <= b.len(),
    ensures
        r@ == forget_at(b@, start as int),
        r !is Remember,
{
    proof {
        reveal_strlit("[RAMDEL v1 k=");
    }
    assert(forget_mark().len() == 13);
    let head: usize = start + 13;
    let eol: usize = match find_byte(b, 0x0a, head) {
        None => {
            return FoundEntry::CutOff;
        },
        Some(e) => e,
    };
    let header = &b[head..eol];
    if header.len() == 0 || header[header.len() - 1] != 0x5d {
        return FoundEntry::Malformed;
    }
    let k_len: usize = match parse_decimal(&header[0..header.len() - 1]) {
        None => {
            return FoundEntry::Malformed;
        },
        Some(n) => n,
    };
    if k_len > b.len() - (eol + 1) {
        return FoundEntry::CutOff;
    }
    let k_end: usize = eol + 1 + k_len;
    FoundEntry::Forget { key: bytes::to_vec(&b[eol + 1..k_end]), end: k_end }
}

/// Reads a stored log into a history.
pub fn parse_structured_qa_records(bytes: &[u8], history: &mut Vec<QaRecord>)
    ensures
        history::qas(final(history)@) == replayed(bytes@, history::qas(old(history)@)),
{
    proof {
        reveal_strlit("[RAMQA v1 q=");
        reveal_strlit("[RAMDEL v1 k=");
    }
    let ghost goal = replayed(bytes@, history::qas(history@));
    let mut offset: usize = 0;
    while offset < bytes.len()
        invariant_except_break
            goal == replayed_from(bytes@, offset as int, history::qas(history@)),
        invariant
            vstd::string::is_ascii("[RAMQA v1 q="),
            vstd::string::is_ascii("[RAMDEL v1 k="),
        ensures
            goal == history::qas(history@),
        decreases bytes.len() - offset,
    {
        let rel_qa: Option<usize> = find_subslice(bytes, bytes::lit("[RAMQA v1 q="), offset);
        let rel_del: Option<usize> = find_subslice(bytes, bytes::lit("[RAMDEL v1 k="), offset);
        let (start, forgets): (usize, bool) = match (rel_qa, rel_del) {
            (None, None) => {
                parse_legacy_qa_records(&bytes[offset..bytes.len()], history);
                break;
            },
            (Some(q), None) => (q, false),
            (None, Some(d)) => (d, true),
            (Some(q), Some(d)) => if d < q {
                (d, true)
            } else {
                (q, false)
            },
        };
        proof {
            lemma_next_mark(bytes@, offset as int);
            lemma_found_end(bytes@, start as int);
            lemma_legacy_of_nothing(history::qas(history@));
            assert(next_mark(bytes@, offset as int) == Some((start as int, forgets)));
            if start == offset {
                assert(bytes@.subrange(offset as int, start as int) =~= Seq::empty());
            }
        }
        if start > offset {
            parse_legacy_qa_records(&bytes[offset..start], history);
        }
        let found = if forgets {
            read_forget_entry(bytes, start)
        } else {
            read_qa_entry(bytes, start)
        };
        match found {
            FoundEntry::CutOff => {
                break;
            },
            FoundEntry::Malformed => {
                offset = start + 1;
            },
            FoundEntry::Remember { record, end } => {
                history::upsert_history_record(history, record);
                offset = if end < bytes.len() {
                    end + 1
                } else {
                    end
                };
            },
            FoundEntry::Forget { key, end } => {
                let key = text::trim_ascii(key.as_slice());
                let _ = history::forget_history_records(history, key);
                offset = if end < bytes.len() {
                    end + 1
                } else {
                    end
                };
            },
        }
    }
}

} // verus!
