//! From what the model generated to the answer that is shown and remembered.

use vstd::prelude::*;

use crate::bytes;
use crate::shell::text;

verus! {

/// How many bytes the shell keeps of one line.
pub const RAM_SHELL_LINE_LEN: usize = 256;

/// The size of the buffer that a prompt is handed over in.
pub const PROMPT_BUF_LEN: usize = 257;

/// The text before the first NUL byte of `b`.
pub open spec fn c_string(b: Seq<u8>) -> Seq<u8>
    decreases b.len(),
{
    if b.len() == 0 || b[0] == 0 {
        Seq::empty()
    } else {
        seq![b[0]] + c_string(b.drop_first())
    }
}

proof fn lemma_c_string(b: Seq<u8>, n: int)
    requires
        0 <= n <= b.len(),
        forall|k: int| 0 <= k < n ==> b[k] != 0,
        n == b.len() || b[n] == 0,
    ensures
        c_string(b) == b.subrange(0, n),
    decreases b.len(),
{
    if n > 0 {
        assert forall|k: int| 0 <= k < n - 1 implies b.drop_first()[k] != 0 by {
            assert(b.drop_first()[k] == b[k + 1]);
        }
        lemma_c_string(b.drop_first(), n - 1);
    }
    assert(c_string(b) =~= b.subrange(0, n));
}

/// The length of the text before the first NUL byte.
pub fn c_string_len(buf: &[u8]) -> (r: usize)
    ensures
        r <= buf.len(),
        buf@.subrange(0, r as int) == c_string(buf@),
{
    let mut i: usize = 0;
    while i < buf.len() && buf[i] != 0
        invariant
            i <= buf.len(),
            forall|k: int| 0 <= k < i ==> buf@[k] != 0,
        decreases buf.len() - i,
    {
        i += 1;
    }
    proof {
        lemma_c_string(buf@, i as int);
    }
    i
}

/// Puts a NUL-terminated copy of a prompt into a buffer and returns the prompt's length.
/// A prompt that does not fit leaves the buffer alone and gives zero.
pub fn build_raw_prompt(prompt_buf: &mut Vec<u8>, prompt: &[u8]) -> (r: usize)
    ensures
        prompt@.len() >= old(prompt_buf)@.len() ==> r == 0 && *final(prompt_buf) == *old(
            prompt_buf,
        ),
        prompt@.len() < old(prompt_buf)@.len() ==> r == prompt@.len() && final(prompt_buf)@
            == bytes::spliced(old(prompt_buf)@, 0, prompt@.push(0)),
{
    if prompt.len() >= prompt_buf.len() {
        return 0;
    }
    let ghost before = prompt_buf@;
    bytes::splice(prompt_buf, 0, prompt);
    let n: usize = prompt.len();
    prompt_buf[n] = 0;
    assert(prompt_buf@ =~= bytes::spliced(before, 0, prompt@.push(0)));
    n
}

/// Whether a text can be handed to the model, and how.
pub enum PromptCheck {
    Empty,
    TooLong,
    Ready(Vec<u8>),
}

/// What is handed over for a prompt that fits: its text, filled up with NUL bytes.
pub open spec fn prompt_buffer(prompt: Seq<u8>) -> Seq<u8> {
    bytes::spliced(bytes::zeros(PROMPT_BUF_LEN as int), 0, prompt)
}

/// Prepares a text for the model: white space at its ends is left out.
pub fn check_prompt(text: &[u8]) -> (r: PromptCheck)
    ensures
        match r {
            PromptCheck::Empty => text::stripped(text@).len() == 0,
            PromptCheck::TooLong => text::stripped(text@).len() >= PROMPT_BUF_LEN,
            PromptCheck::Ready(buf) => 0 < text::stripped(text@).len() < PROMPT_BUF_LEN && buf@
                == prompt_buffer(text::stripped(text@)),
        },
{
    let prompt = text::trim(text);
    if prompt.len() == 0 {
        return PromptCheck::Empty;
    }
    let mut buf = bytes::zeroed(PROMPT_BUF_LEN);
    let len: usize = build_raw_prompt(&mut buf, prompt);
    if len == 0 || len >= buf.len() {
        return PromptCheck::TooLong;
    }
    assert(buf@ =~= prompt_buffer(prompt@));
    PromptCheck::Ready(buf)
}

/// The model reads back the prompt that it was handed.
pub proof fn law_prompt_buffer_holds_prompt(prompt: Seq<u8>)
    requires
        prompt.len() < PROMPT_BUF_LEN,
        forall|i: int| 0 <= i < prompt.len() ==> prompt[i] != 0,
    ensures
        c_string(prompt_buffer(prompt)) == prompt,
{
    lemma_c_string(prompt_buffer(prompt), prompt.len() as int);
    assert(prompt_buffer(prompt).subrange(0, prompt.len() as int) =~= prompt);
}

/// What follows `prefix` in `b`, letter case aside, without blanks at its ends.
pub open spec fn after_prefix(b: Seq<u8>, prefix: Seq<u8>) -> Option<Seq<u8>> {
    if prefix.len() <= b.len() && text::same_text(b.subrange(0, prefix.len() as int), prefix) {
        Some(text::trimmed(b.subrange(prefix.len() as int, b.len() as int)))
    } else {
        None
    }
}

/// The view of an optional slice.
pub open spec fn slice_option(v: Option<&[u8]>) -> Option<Seq<u8>> {
    match v {
        Some(x) => Some(x@),
        None => None,
    }
}

/// Drops a prefix, letter case aside, and the blanks round what follows.
pub fn strip_prefix_once<'a>(bytes: &'a [u8], prefix: &[u8]) -> (r: Option<&'a [u8]>)
    ensures
        slice_option(r) == after_prefix(bytes@, prefix@),
{
    if prefix.len() <= bytes.len() && text::eq_ignore_ascii_case_slice(
        &bytes[0..prefix.len()],
        prefix,
    ) {
        Some(text::trim_ascii(&bytes[prefix.len()..bytes.len()]))
    } else {
        None
    }
}

/// How many bytes of `b` are no blanks.
pub open spec fn count_nonblank(b: Seq<u8>) -> int
    decreases b.len(),
{
    if b.len() == 0 {
        0
    } else {
        count_nonblank(b.drop_last()) + if text::is_blank(b.last()) {
            0int
        } else {
            1int
        }
    }
}

/// Where a `1` or `1.` at the end of `a` starts.
pub open spec fn orphan_start(a: Seq<u8>) -> Option<int> {
    if a.last() == 0x31 {
        Some(a.len() - 1)
    } else if a.last() == 0x2e && a[a.len() - 2] == 0x31 {
        Some(a.len() - 2)
    } else {
        None
    }
}

/// `b` without blanks at its ends, and without a `1` or `1.` that stands alone at its end
/// after enough other text.
pub open spec fn without_orphan(b: Seq<u8>) -> Seq<u8> {
    let a = text::trimmed(b);
    if a.len() < 4 {
        a
    } else {
        match orphan_start(a) {
            Some(at) => {
                let kept = text::trimmed(a.subrange(0, at));
                if text::is_blank(a[at - 1]) && count_nonblank(kept) >= 8 {
                    kept
                } else {
                    a
                }
            },
            None => a,
        }
    }
}

fn count_nonblank_bytes(b: &[u8]) -> (r: usize)
    ensures
        r == count_nonblank(b@),
{
    let mut n: usize = 0;
    let mut i: usize = 0;
    assert(b@.take(0) =~= Seq::empty());
    while i < b.len()
        invariant
            i <= b.len(),
            n == count_nonblank(b@.take(i as int)),
            n <= i,
        decreases b.len() - i,
    {
        proof {
            assert(b@.take(i + 1).drop_last() =~= b@.take(i as int));
        }
        if !text::blank(b[i]) {
            n += 1;
        }
        i += 1;
    }
    assert(b@.take(i as int) =~= b@);
    n
}

/// Drops the beginning of a numbered list that the model broke off.
pub fn trim_trailing_orphan_one(bytes: &[u8]) -> (r: &[u8])
    ensures
        r@ == without_orphan(bytes@),
{
    let answer = text::trim_ascii(bytes);
    let n: usize = answer.len();
    if n < 4 {
        return answer;
    }
    let marker_start: usize = if answer[n - 1] == 0x31 {
        n - 1
    } else if answer[n - 1] == 0x2e && answer[n - 2] == 0x31 {
        n - 2
    } else {
        return answer;
    };
    if !text::blank(answer[marker_start - 1]) {
        return answer;
    }
    let prefix = text::trim_ascii(&answer[0..marker_start]);
    if count_nonblank_bytes(prefix) >= 8 {
        prefix
    } else {
        answer
    }
}

/// The answer in what the model generated.
pub open spec fn answer_of(generated: Seq<u8>) -> Seq<u8> {
    let g = text::trimmed(generated);
    without_orphan(
        match after_prefix(g, bytes::ascii("Answer:"@)) {
            Some(a) => a,
            None => match after_prefix(g, bytes::ascii("Final answer:"@)) {
                Some(a) => a,
                None => match after_prefix(g, bytes::ascii("A:"@)) {
                    Some(a) => a,
                    None => g,
                },
            },
        },
    )
}

/// Picks the answer out of what the model generated.
pub fn ram_shell_answer_bytes(generated: &[u8]) -> (r: &[u8])
    ensures
        r@ == answer_of(generated@),
{
    proof {
        reveal_strlit("Answer:");
        reveal_strlit("Final answer:");
        reveal_strlit("A:");
    }
    let g = text::trim_ascii(generated);
    let answer = match strip_prefix_once(g, bytes::lit("Answer:")) {
        Some(a) => a,
        None => match strip_prefix_once(g, bytes::lit("Final answer:")) {
            Some(a) => a,
            None => match strip_prefix_once(g, bytes::lit("A:")) {
                Some(a) => a,
                None => g,
            },
        },
    };
    trim_trailing_orphan_one(answer)
}

/// An answer has no blank at either end.
pub proof fn law_answer_is_trimmed(generated: Seq<u8>)
    ensures
        text::trimmed(answer_of(generated)) == answer_of(generated),
{
    let g = text::trimmed(generated);
    let a = match after_prefix(g, bytes::ascii("Answer:"@)) {
        Some(a) => a,
        None => match after_prefix(g, bytes::ascii("Final answer:"@)) {
            Some(a) => a,
            None => match after_prefix(g, bytes::ascii("A:"@)) {
                Some(a) => a,
                None => g,
            },
        },
    };
    text::law_trim_idempotent(a);
    let t = text::trimmed(a);
    if t.len() >= 4 {
        match orphan_start(t) {
            Some(at) => {
                text::law_trim_idempotent(t.subrange(0, at));
            },
            None => {},
        }
    }
}

/// What a byte read while the model generates means.
#[derive(Clone, Copy, PartialEq, Eq, Structural)]
pub enum AbortCheck {
    /// Look at the next byte.
    ReadOn,
    /// Nothing more was typed: go on generating.
    Proceed,
    /// Ctrl-C was typed: stop generating.
    Abort,
}

/// Decides on what was typed while the model generates; `None` where nothing was, or
/// where reading failed.
pub fn generation_check(typed: Option<u8>) -> (r: AbortCheck)
    ensures
        r == (match typed {
            None => AbortCheck::Proceed,
            Some(b) => if b == 3 {
                AbortCheck::Abort
            } else {
                AbortCheck::ReadOn
            },
        }),
{
    match typed {
        None => AbortCheck::Proceed,
        Some(b) => if b == 3 {
            AbortCheck::Abort
        } else {
            AbortCheck::ReadOn
        },
    }
}

} // verus!
