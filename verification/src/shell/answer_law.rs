//! That an answer is all of the text that the model generated, but for its wrapping.

use vstd::prelude::*;

use crate::bytes;
use crate::shell::answer;
use crate::shell::text;

verus! {

/// Space, tab, carriage return and line feed.
pub open spec fn blank(b: u8) -> bool {
    b == 0x20 || b == 9 || b == 13 || b == 10
}

proof fn lemma_trimmed_start(s: Seq<u8>) -> (i: int)
    ensures
        0 <= i <= s.len(),
        text::trimmed_start(s) == s.subrange(i, s.len() as int),
        forall|k: int| 0 <= k < i ==> blank(#[trigger] s[k]),
        i < s.len() ==> !blank(s[i]),
    decreases s.len(),
{
    if s.len() > 0 && text::is_blank(s[0]) {
        let i = lemma_trimmed_start(s.drop_first());
        assert(s.drop_first().subrange(i, s.len() - 1) =~= s.subrange(i + 1, s.len() as int));
        assert forall|k: int| 0 <= k < i + 1 implies blank(#[trigger] s[k]) by {
            if k > 0 {
                assert(s.drop_first()[k - 1] == s[k]);
            }
        }
        i + 1
    } else {
        assert(s.subrange(0, s.len() as int) =~= s);
        0
    }
}

proof fn lemma_trimmed_end(s: Seq<u8>) -> (j: int)
    ensures
        0 <= j <= s.len(),
        text::trimmed_end(s) == s.subrange(0, j),
        forall|k: int| j <= k < s.len() ==> blank(#[trigger] s[k]),
        j > 0 ==> !blank(s[j - 1]),
    decreases s.len(),
{
    if s.len() > 0 && text::is_blank(s.last()) {
        let j = lemma_trimmed_end(s.drop_last());
        assert(s.drop_last().subrange(0, j) =~= s.subrange(0, j));
        assert forall|k: int| j <= k < s.len() implies blank(#[trigger] s[k]) by {
            if k < s.len() - 1 {
                assert(s.drop_last()[k] == s[k]);
            }
        }
        j
    } else {
        assert(s.subrange(0, s.len() as int) =~= s);
        s.len() as int
    }
}

/// Whether `r` is what is left of `s` when the blanks at its ends, and nothing else, are left
/// out.
pub open spec fn is_trimmed(s: Seq<u8>, r: Seq<u8>) -> bool {
    exists|i: int, j: int|
        {
            &&& 0 <= i <= j <= s.len()
            &&& r == #[trigger] s.subrange(i, j)
            &&& forall|k: int| 0 <= k < i || j <= k < s.len() ==> blank(#[trigger] s[k])
            &&& i < j ==> !blank(s[i]) && !blank(s[j - 1])
        }
}

/// Trimming leaves out the blanks at the ends of a text, and nothing else.
pub proof fn law_trim_drops_only_blanks(s: Seq<u8>)
    ensures
        is_trimmed(s, text::trimmed(s)),
{
    let i = lemma_trimmed_start(s);
    let t = text::trimmed_start(s);
    let n = lemma_trimmed_end(t);
    let j = i + n;
    assert(t.subrange(0, n) =~= s.subrange(i, j));
    assert forall|k: int| 0 <= k < i || j <= k < s.len() implies blank(#[trigger] s[k]) by {
        if k >= j {
            assert(t[k - i] == s[k]);
        }
    }
    if i < j {
        assert(t[0] == s[i] && t[n - 1] == s[j - 1]);
    }
}

/// A letter in its small form, any other byte as it is.
pub open spec fn small(b: u8) -> int {
    if 65 <= b <= 90 {
        b + 32
    } else {
        b as int
    }
}

/// Whether a text begins with letters and signs, given in their small form.
pub open spec fn begins(s: Seq<u8>, p: Seq<u8>) -> bool {
    p.len() <= s.len() && forall|i: int| 0 <= i < p.len() ==> small(s[i]) == #[trigger] p[i]
}

/// `answer:`
pub open spec fn answer_word() -> Seq<u8> {
    seq![0x61u8, 0x6e, 0x73, 0x77, 0x65, 0x72, 0x3a]
}

/// `final answer:`
pub open spec fn final_word() -> Seq<u8> {
    seq![0x66u8, 0x69, 0x6e, 0x61, 0x6c, 0x20, 0x61, 0x6e, 0x73, 0x77, 0x65, 0x72, 0x3a]
}

/// `a:`
pub open spec fn short_word() -> Seq<u8> {
    seq![0x61u8, 0x3a]
}

/// What follows a word at the start that says that an answer follows; all where there is none.
pub open spec fn behind_word(g: Seq<u8>) -> Seq<u8> {
    if begins(g, answer_word()) {
        g.skip(7)
    } else if begins(g, final_word()) {
        g.skip(13)
    } else if begins(g, short_word()) {
        g.skip(2)
    } else {
        g
    }
}

proof fn lemma_prefix(g: Seq<u8>, literal: Seq<u8>, p: Seq<u8>)
    requires
        literal.len() == p.len(),
        forall|i: int| 0 <= i < p.len() ==> small(literal[i]) == #[trigger] p[i],
    ensures
        answer::after_prefix(g, literal) == (if begins(g, p) {
            Some(text::trimmed(g.skip(p.len() as int)))
        } else {
            None::<Seq<u8>>
        }),
{
    if literal.len() <= g.len() {
        let head = g.subrange(0, literal.len() as int);
        assert(g.subrange(literal.len() as int, g.len() as int) =~= g.skip(p.len() as int));
        assert forall|i: int| 0 <= i < p.len() implies small(g[i]) == text::lower(
            #[trigger] head[i],
        ) && small(literal[i]) == text::lower(literal[i]) by {}
        if begins(g, p) {
            assert forall|i: int| 0 <= i < head.len() implies text::lower(#[trigger] head[i])
                == text::lower(literal[i]) by {
                assert(small(g[i]) == p[i]);
            }
        }
        if text::same_text(head, literal) {
            assert forall|i: int| 0 <= i < p.len() implies small(g[i]) == #[trigger] p[i] by {
                assert(text::lower(head[i]) == text::lower(literal[i]));
            }
        }
    }
}

proof fn lemma_words(g: Seq<u8>)
    ensures
        answer::after_prefix(g, bytes::ascii("Answer:"@)) == (if begins(g, answer_word()) {
            Some(text::trimmed(g.skip(7)))
        } else {
            None::<Seq<u8>>
        }),
        answer::after_prefix(g, bytes::ascii("Final answer:"@)) == (if begins(g, final_word()) {
            Some(text::trimmed(g.skip(13)))
        } else {
            None::<Seq<u8>>
        }),
        answer::after_prefix(g, bytes::ascii("A:"@)) == (if begins(g, short_word()) {
            Some(text::trimmed(g.skip(2)))
        } else {
            None::<Seq<u8>>
        }),
{
    reveal_strlit("Answer:");
    reveal_strlit("Final answer:");
    reveal_strlit("A:");
    lemma_prefix(g, bytes::ascii("Answer:"@), answer_word());
    lemma_prefix(g, bytes::ascii("Final answer:"@), final_word());
    lemma_prefix(g, bytes::ascii("A:"@), short_word());
}

proof fn lemma_count(b: Seq<u8>)
    ensures
        answer::count_nonblank(b) == b.filter(|x: u8| !blank(x)).len(),
    decreases b.len(),
{
    reveal(Seq::filter);
    if b.len() > 0 {
        lemma_count(b.drop_last());
    }
}

/// Where a `1` or `1.` begins that stands behind a blank at the end of `b`, with at least eight
/// bytes before it that are no blanks.
pub open spec fn lone_one(b: Seq<u8>, at: int) -> bool {
    &&& b.len() >= 4
    &&& b[at] == 0x31
    &&& at == b.len() - 1 || at == b.len() - 2 && b[at + 1] == 0x2e
    &&& blank(b[at - 1])
    &&& b.take(at).filter(|x: u8| !blank(x)).len() >= 8
}

proof fn lemma_filter_trimmed(s: Seq<u8>)
    ensures
        text::trimmed(s).filter(|x: u8| !blank(x)).len() == s.filter(|x: u8| !blank(x)).len(),
{
    lemma_count_start(s);
    lemma_count_end(text::trimmed_start(s));
}

proof fn lemma_count_start(s: Seq<u8>)
    ensures
        text::trimmed_start(s).filter(|x: u8| !blank(x)).len() == s.filter(
            |x: u8| !blank(x),
        ).len(),
    decreases s.len(),
{
    if s.len() > 0 && text::is_blank(s[0]) {
        lemma_count_start(s.drop_first());
        let p = |x: u8| !blank(x);
        let one = seq![s[0]];
        assert(one + s.drop_first() =~= s);
        Seq::filter_distributes_over_add(one, s.drop_first(), p);
        assert(one.filter(p).len() == 0) by {
            reveal(Seq::filter);
            assert(one.drop_last() =~= Seq::empty());
            assert(one.drop_last().filter(p).len() == 0);
        }
    }
}

proof fn lemma_count_end(s: Seq<u8>)
    ensures
        text::trimmed_end(s).filter(|x: u8| !blank(x)).len() == s.filter(
            |x: u8| !blank(x),
        ).len(),
    decreases s.len(),
{
    if s.len() > 0 && text::is_blank(s.last()) {
        lemma_count_end(s.drop_last());
        reveal(Seq::filter);
    }
}

/// An answer is all of the generated text behind a word that announces it, without the blanks
/// at its ends; only the beginning of a numbered list at its very end, a lone `1` or `1.`
/// behind enough other text, is left out, and the blanks before it.
pub proof fn law_answer_is_all_of_the_text(generated: Seq<u8>)
    ensures
        ({
            let b = text::trimmed(behind_word(text::trimmed(generated)));
            let a = answer::answer_of(generated);
            &&& (forall|at: int| 0 < at < b.len() ==> !#[trigger] lone_one(b, at)) ==> a == b
            &&& forall|at: int|
                0 < at < b.len() && #[trigger] lone_one(b, at) ==> a == text::trimmed(b.take(at))
        }),
{
    let g = text::trimmed(generated);
    lemma_words(g);
    let inner = behind_word(g);
    let b = text::trimmed(inner);
    let a = answer::answer_of(generated);
    text::law_trim_idempotent(inner);
    text::law_trim_idempotent(generated);
    assert(a == answer::without_orphan(b));
    if b.len() >= 4 {
        match answer::orphan_start(b) {
            Some(at) => {
                let kept = text::trimmed(b.subrange(0, at));
                assert(b.subrange(0, at) =~= b.take(at));
                lemma_count(kept);
                lemma_filter_trimmed(b.take(at));
                assert(0 < at < b.len());
                if text::is_blank(b[at - 1]) && answer::count_nonblank(kept) >= 8 {
                    assert(lone_one(b, at));
                    assert forall|k: int| 0 < k < b.len() && #[trigger] lone_one(b, k) implies k
                        == at by {}
                } else {
                    assert forall|k: int| 0 < k < b.len() implies !#[trigger] lone_one(b, k) by {
                        if lone_one(b, k) {
                            assert(k == at);
                        }
                    }
                }
            },
            None => {},
        }
    }
}

/// What the model reads of a buffer, and what is read of what it generated, are the bytes
/// before the first zero.
pub proof fn law_text_ends_at_first_zero(b: Seq<u8>)
    ensures
        answer::c_string(b).len() <= b.len(),
        answer::c_string(b) == b.take(answer::c_string(b).len() as int),
        forall|k: int| 0 <= k < answer::c_string(b).len() ==> #[trigger] b[k] != 0,
        answer::c_string(b).len() < b.len() ==> b[answer::c_string(b).len() as int] == 0,
    decreases b.len(),
{
    if b.len() > 0 && b[0] != 0 {
        let rest = b.drop_first();
        law_text_ends_at_first_zero(rest);
        let n = answer::c_string(b).len() as int;
        assert(answer::c_string(b) =~= b.take(n));
        assert forall|k: int| 0 <= k < n implies #[trigger] b[k] != 0 by {
            if k > 0 {
                assert(rest[k - 1] == b[k]);
            }
        }
        if n < b.len() {
            assert(rest[n - 1] == b[n]);
        }
    } else {
        assert(answer::c_string(b) =~= b.take(0));
    }
}

/// A prompt that is handed over has a buffer of fixed size to itself: the prompt, and then
/// zeros.
pub proof fn law_prompt_is_handed_over_whole(prompt: Seq<u8>)
    requires
        prompt.len() < 257,
    ensures
        answer::prompt_buffer(prompt).len() == 257,
        answer::prompt_buffer(prompt).take(prompt.len() as int) == prompt,
        forall|k: int|
            prompt.len() <= k < 257 ==> #[trigger] answer::prompt_buffer(prompt)[k] == 0,
{
    assert(answer::prompt_buffer(prompt).take(prompt.len() as int) =~= prompt);
}

} // verus!
