//! What words, phrases and topics are, byte by byte.

use vstd::prelude::*;

use crate::bytes;
use crate::shell::history;
use crate::shell::history::Qa;
use crate::shell::text;

verus! {

/// Whether two bytes are the same, or the same letter in both cases.
pub open spec fn alike(a: u8, b: u8) -> bool {
    ||| a == b
    ||| 65 <= a <= 90 && b == a + 32
    ||| 65 <= b <= 90 && a == b + 32
}

/// Whether a byte is a letter or a digit.
pub open spec fn in_word(b: u8) -> bool {
    48 <= b <= 57 || 65 <= b <= 90 || 97 <= b <= 122
}

/// Letters compare alike in both cases, and nothing else does.
pub proof fn law_letters_are_alike(a: u8, b: u8)
    ensures
        (text::lower(a) == text::lower(b)) == alike(a, b),
        text::is_word(a) == in_word(a),
{
}

/// Texts are the same where they are as long and alike byte by byte.
pub proof fn law_same_text(a: Seq<u8>, b: Seq<u8>)
    ensures
        text::same_text(a, b) == (a.len() == b.len() && forall|i: int|
            0 <= i < a.len() ==> alike(#[trigger] a[i], b[i])),
{
    if text::same_text(a, b) {
        assert forall|i: int| 0 <= i < a.len() implies alike(#[trigger] a[i], b[i]) by {
            law_letters_are_alike(a[i], b[i]);
        }
    } else if a.len() == b.len() && forall|i: int|
        0 <= i < a.len() ==> alike(#[trigger] a[i], b[i]) {
        assert forall|i: int| 0 <= i < a.len() implies text::lower(#[trigger] a[i]) == text::lower(
            b[i],
        ) by {
            law_letters_are_alike(a[i], b[i]);
        }
    }
}

/// Whether a text stands in another at a place, letter case aside.
pub open spec fn stands_in(h: Seq<u8>, n: Seq<u8>, at: int) -> bool {
    &&& 0 <= at
    &&& at + n.len() <= h.len()
    &&& forall|i: int| 0 <= i < n.len() ==> alike(h[at + i], #[trigger] n[i])
}

/// A text mentions another that is not empty where that stands in it somewhere.
pub proof fn law_mention(h: Seq<u8>, n: Seq<u8>)
    ensures
        text::mentions(h, n) == (n.len() > 0 && exists|at: int| stands_in(h, n, at)),
{
    assert forall|at: int| #[trigger] text::occurs_nocase(h, n, at) == stands_in(h, n, at) by {
        if 0 <= at && at + n.len() <= h.len() {
            let s = h.subrange(at, at + n.len());
            law_same_text(s, n);
            if text::same_text(s, n) {
                assert forall|i: int| 0 <= i < n.len() implies alike(h[at + i], #[trigger] n[i]) by {
                    assert(alike(s[i], n[i]));
                }
            } else if stands_in(h, n, at) {
                assert forall|i: int| 0 <= i < s.len() implies alike(#[trigger] s[i], n[i]) by {
                    assert(alike(h[at + i], n[i]));
                }
            }
        }
    }
    if text::mentions(h, n) {
        let at = choose|at: int| text::occurs_nocase(h, n, at);
        assert(stands_in(h, n, at));
    }
    if n.len() > 0 && exists|at: int| stands_in(h, n, at) {
        let at = choose|at: int| stands_in(h, n, at);
        assert(text::occurs_nocase(h, n, at));
    }
}

/// Whether the bytes from `i` up to `j` of a text are a word: letters and digits, with neither
/// right before nor right behind them.
pub open spec fn is_word_at(t: Seq<u8>, i: int, j: int) -> bool {
    &&& 0 <= i < j <= t.len()
    &&& forall|k: int| i <= k < j ==> in_word(#[trigger] t[k])
    &&& i > 0 ==> !in_word(t[i - 1])
    &&& j < t.len() ==> !in_word(t[j])
}

/// Where the words of a text are.
pub open spec fn are_words(t: Seq<u8>, places: Seq<(int, int)>, words: Seq<Seq<u8>>, from: int) -> bool {
    &&& places.len() == words.len()
    &&& forall|w: int|
        0 <= w < words.len() ==> {
            &&& is_word_at(t, (#[trigger] places[w]).0, places[w].1)
            &&& words[w] == t.subrange(places[w].0, places[w].1)
            &&& from <= places[w].0
        }
    &&& forall|w: int, x: int|
        0 <= w < x < words.len() ==> (#[trigger] places[w]).1 < (#[trigger] places[x]).0
    &&& forall|k: int|
        from <= k < t.len() && in_word(#[trigger] t[k]) ==> exists|w: int|
            0 <= w < places.len() && (#[trigger] places[w]).0 <= k < places[w].1
}

/// The words of a text are the longest runs of letters and digits in it, each of them, in their
/// order.
pub proof fn law_words_are_runs(t: Seq<u8>) -> (places: Seq<(int, int)>)
    ensures
        are_words(t, places, text::words_from(t, 0), 0),
{
    lemma_words(t, 0)
}

proof fn lemma_words(t: Seq<u8>, i: int) -> (places: Seq<(int, int)>)
    requires
        0 <= i <= t.len(),
        i == 0 || i >= t.len() || !in_word(t[i - 1]) || !in_word(t[i]),
    ensures
        are_words(t, places, text::words_from(t, i), i),
    decreases t.len() - i,
{
    let none: Seq<(int, int)> = Seq::empty();
    if i >= t.len() {
        none
    } else if !text::is_word(t[i]) {
        law_letters_are_alike(t[i], t[i]);
        let places = lemma_words(t, i + 1);
        places
    } else {
        text::lemma_word_end(t, i);
        text::lemma_word_end(t, i + 1);
        let e = text::word_end(t, i);
        let rest = lemma_words(t, e);
        let places = seq![(i, e)] + rest;
        let words = text::words_from(t, i);
        let tail = text::words_from(t, e);
        assert(words == seq![t.subrange(i, e)] + tail);
        assert forall|w: int| 0 <= w < words.len() implies {
            &&& is_word_at(t, (#[trigger] places[w]).0, places[w].1)
            &&& words[w] == t.subrange(places[w].0, places[w].1)
            &&& i <= places[w].0
        } by {
            if w > 0 {
                assert(places[w] == rest[w - 1]);
                assert(words[w] == tail[w - 1]);
            } else {
                assert forall|k: int| i <= k < e implies in_word(#[trigger] t[k]) by {
                    assert(text::is_word(t[k]));
                }
            }
        }
        assert forall|w: int, x: int| 0 <= w < x < words.len() implies (#[trigger] places[w]).1 < (
        #[trigger] places[x]).0 by {
            assert(places[x] == rest[x - 1]);
            if w > 0 {
                assert(places[w] == rest[w - 1]);
            } else {
                assert(is_word_at(t, rest[x - 1].0, rest[x - 1].1));
                assert(!in_word(t[e]) || e == t.len());
            }
        }
        assert forall|k: int| i <= k < t.len() && in_word(#[trigger] t[k]) implies exists|w: int|
            0 <= w < places.len() && (#[trigger] places[w]).0 <= k < places[w].1 by {
            if k < e {
                assert(places[0].0 <= k < places[0].1);
            } else {
                let w = choose|w: int| 0 <= w < rest.len() && (#[trigger] rest[w]).0 <= k < rest[w].1;
                assert(places[w + 1] == rest[w]);
            }
        }
        places
    }
}

/// The words of a phrase.
pub open spec fn phrase2(a: Seq<char>, b: Seq<char>) -> Seq<Seq<u8>> {
    seq![bytes::ascii(a), bytes::ascii(b)]
}

/// The words of a phrase.
pub open spec fn phrase3(a: Seq<char>, b: Seq<char>, c: Seq<char>) -> Seq<Seq<u8>> {
    seq![bytes::ascii(a), bytes::ascii(b), bytes::ascii(c)]
}

/// Whether a text has a phrase: its words one behind the other.
pub open spec fn has(t: Seq<u8>, words: Seq<Seq<u8>>) -> bool {
    exists|at: int| text::stands_at(text::words_from(t, 0), words, at)
}

/// A text is filed under the first of these topics that it names, and under none where it names
/// none of them.
pub proof fn law_topics(t: Seq<u8>)
    ensures
        text::memory_key(t) == (if has(t, phrase2("secure"@, "phrase"@)) || has(
            t,
            phrase3("secured"@, "stored"@, "phrase"@),
        ) {
            Some(bytes::ascii("secure phrase"@))
        } else if has(t, phrase2("secret"@, "phrase"@)) || has(t, phrase2("secret"@, "key"@)) {
            Some(bytes::ascii("secret phrase"@))
        } else if has(t, phrase3("memory"@, "test"@, "phrase"@)) {
            Some(bytes::ascii("memory test phrase"@))
        } else if has(t, phrase2("code"@, "name"@)) || has(t, seq![bytes::ascii("codename"@)]) {
            Some(bytes::ascii("codename"@))
        } else {
            None
        }),
{
    let tw = text::words_from(t, 0);
    lemma_distinct();
    text::law_phrase_is_adjacent_words(t, phrase2("secure"@, "phrase"@));
    text::law_phrase_is_adjacent_words(t, phrase3("stored"@, "secure"@, "phrase"@));
    text::law_phrase_is_adjacent_words(t, phrase3("secured"@, "stored"@, "phrase"@));
    text::law_phrase_is_adjacent_words(t, phrase2("secret"@, "phrase"@));
    text::law_phrase_is_adjacent_words(t, phrase2("secret"@, "key"@));
    text::law_phrase_is_adjacent_words(t, phrase3("memory"@, "test"@, "phrase"@));
    text::law_phrase_is_adjacent_words(t, phrase2("project"@, "codename"@));
    text::law_phrase_is_adjacent_words(t, phrase2("code"@, "name"@));
    text::law_phrase_is_adjacent_words(t, seq![bytes::ascii("codename"@)]);
    let long = phrase3("stored"@, "secure"@, "phrase"@);
    if has(t, long) {
        let at = choose|at: int| text::stands_at(tw, long, at);
        let p = phrase2("secure"@, "phrase"@);
        assert(text::stands_at(tw, p, at + 1)) by {
            assert(text::same_text(tw[at + 1], long[1]));
            assert(text::same_text(tw[at + 2], long[2]));
            assert forall|i: int| 0 <= i < p.len() implies text::same_text(
                tw[at + 1 + i],
                #[trigger] p[i],
            ) by {
                if i == 0 {
                    assert(p[i] == long[1]);
                } else {
                    assert(p[i] == long[2]);
                }
            }
        }
    }
    let named = phrase2("project"@, "codename"@);
    if has(t, named) {
        let at = choose|at: int| text::stands_at(tw, named, at);
        let p = seq![bytes::ascii("codename"@)];
        assert(text::stands_at(tw, p, at + 1)) by {
            assert(text::same_text(tw[at + 1], named[1]));
            assert forall|i: int| 0 <= i < p.len() implies text::same_text(
                tw[at + 1 + i],
                #[trigger] p[i],
            ) by {
                assert(p[i] == named[1]);
            }
        }
    }
}

proof fn lemma_distinct()
    ensures
        forall|i: int|
            0 < i < 2 ==> !text::same_text(
                phrase2("secure"@, "phrase"@)[0],
                #[trigger] phrase2("secure"@, "phrase"@)[i],
            ),
        forall|i: int|
            0 < i < 3 ==> !text::same_text(
                phrase3("stored"@, "secure"@, "phrase"@)[0],
                #[trigger] phrase3("stored"@, "secure"@, "phrase"@)[i],
            ),
        forall|i: int|
            0 < i < 3 ==> !text::same_text(
                phrase3("secured"@, "stored"@, "phrase"@)[0],
                #[trigger] phrase3("secured"@, "stored"@, "phrase"@)[i],
            ),
        forall|i: int|
            0 < i < 2 ==> !text::same_text(
                phrase2("secret"@, "phrase"@)[0],
                #[trigger] phrase2("secret"@, "phrase"@)[i],
            ),
        forall|i: int|
            0 < i < 2 ==> !text::same_text(
                phrase2("secret"@, "key"@)[0],
                #[trigger] phrase2("secret"@, "key"@)[i],
            ),
        forall|i: int|
            0 < i < 3 ==> !text::same_text(
                phrase3("memory"@, "test"@, "phrase"@)[0],
                #[trigger] phrase3("memory"@, "test"@, "phrase"@)[i],
            ),
        forall|i: int|
            0 < i < 2 ==> !text::same_text(
                phrase2("project"@, "codename"@)[0],
                #[trigger] phrase2("project"@, "codename"@)[i],
            ),
        forall|i: int|
            0 < i < 2 ==> !text::same_text(
                phrase2("code"@, "name"@)[0],
                #[trigger] phrase2("code"@, "name"@)[i],
            ),
{
    reveal_strlit("secure");
    reveal_strlit("secured");
    reveal_strlit("stored");
    reveal_strlit("phrase");
    reveal_strlit("secret");
    reveal_strlit("key");
    reveal_strlit("memory");
    reveal_strlit("test");
    reveal_strlit("project");
    reveal_strlit("codename");
    reveal_strlit("code");
    reveal_strlit("name");
    let secure = bytes::ascii("secure"@);
    let stored = bytes::ascii("stored"@);
    let secret = bytes::ascii("secret"@);
    let memory = bytes::ascii("memory"@);
    let code = bytes::ascii("code"@);
    assert(text::lower(secure[0]) == 115 && text::lower(stored[0]) == 115);
    assert(text::lower(secret[0]) == 115 && text::lower(memory[0]) == 109);
    assert(text::lower(code[0]) == 99);
    assert(text::lower(stored[1]) == 116 && text::lower(secure[1]) == 101);
}

/// Whether a text begins with a word.
pub open spec fn opens_with(t: Seq<u8>, w: Seq<char>) -> bool {
    &&& w.len() <= t.len()
    &&& forall|i: int| 0 <= i < w.len() ==> alike(#[trigger] t[i], w[i] as u8)
    &&& w.len() < t.len() ==> !in_word(t[w.len() as int])
}

/// A text reads as a question where there is a question mark in it, or where it begins, blanks
/// aside, with a word that asks.
pub proof fn law_questions(t: Seq<u8>)
    ensures
        ({
            let b = text::trimmed(t);
            text::is_question(t) == ((exists|i: int| 0 <= i < t.len() && #[trigger] t[i] == 63)
                || opens_with(b, "what"@) || opens_with(b, "which"@) || opens_with(b, "who"@)
                || opens_with(b, "when"@) || opens_with(b, "where"@) || opens_with(b, "why"@)
                || opens_with(b, "how"@) || opens_with(b, "do"@) || opens_with(b, "does"@)
                || opens_with(b, "did"@) || opens_with(b, "is"@) || opens_with(b, "are"@)
                || opens_with(b, "can"@) || opens_with(b, "will"@))
        }),
{
    let b = text::trimmed(t);
    reveal_strlit("what");
    reveal_strlit("which");
    reveal_strlit("who");
    reveal_strlit("when");
    reveal_strlit("where");
    reveal_strlit("why");
    reveal_strlit("how");
    reveal_strlit("do");
    reveal_strlit("does");
    reveal_strlit("did");
    reveal_strlit("is");
    reveal_strlit("are");
    reveal_strlit("can");
    reveal_strlit("will");
    lemma_opens(b, "what"@);
    lemma_opens(b, "which"@);
    lemma_opens(b, "who"@);
    lemma_opens(b, "when"@);
    lemma_opens(b, "where"@);
    lemma_opens(b, "why"@);
    lemma_opens(b, "how"@);
    lemma_opens(b, "do"@);
    lemma_opens(b, "does"@);
    lemma_opens(b, "did"@);
    lemma_opens(b, "is"@);
    lemma_opens(b, "are"@);
    lemma_opens(b, "can"@);
    lemma_opens(b, "will"@);
    if exists|i: int| 0 <= i < t.len() && #[trigger] t[i] == 63 {
        assert(t.contains(63));
    }
}

proof fn lemma_opens(b: Seq<u8>, w: Seq<char>)
    requires
        w.len() > 0,
        forall|i: int| 0 <= i < w.len() ==> 97 <= #[trigger] w[i] as int <= 122,
    ensures
        opens_with(b, w) == text::same_text(
            b.subrange(0, text::word_end(b, 0)),
            bytes::ascii(w),
        ),
{
    text::lemma_word_end(b, 0);
    let e = text::word_end(b, 0);
    let s = b.subrange(0, e);
    let a = bytes::ascii(w);
    let n = w.len() as int;
    law_same_text(s, a);
    if opens_with(b, w) {
        assert forall|i: int| 0 <= i < n implies text::is_word(#[trigger] b[i]) by {
            assert(alike(b[i], w[i] as u8));
            assert(97 <= w[i] as int <= 122);
        }
        assert(e >= n) by {
            if e < n {
                assert(text::is_word(b[e]));
            }
        }
        assert(e == n) by {
            if e > n {
                assert(text::is_word(b[n]));
            }
        }
        assert forall|i: int| 0 <= i < s.len() implies alike(#[trigger] s[i], a[i]) by {
            assert(alike(b[i], w[i] as u8));
        }
    } else if text::same_text(s, a) {
        assert(e == n);
        assert forall|i: int| 0 <= i < n implies alike(#[trigger] b[i], w[i] as u8) by {
            assert(alike(s[i], a[i]));
        }
    }
}

/// A record is filed under the topic of its question if that is no question, and of its answer
/// else; a request to forget is about a record where both are of one topic, or where the
/// question or the answer mentions what is to be forgotten.
pub proof fn law_what_a_request_is_about(qa: Qa, phrase: Seq<u8>)
    ensures
        history::qa_key(qa) == (if !text::is_question(qa.question) && text::memory_key(qa.question)
            is Some {
            text::memory_key(qa.question)
        } else {
            text::memory_key(qa.answer)
        }),
        ({
            let p = text::trimmed(phrase);
            let k = text::memory_key(p);
            history::is_about(qa, phrase) == (p.len() > 0 && (k is Some && (k == text::memory_key(
                qa.question,
            ) || k == text::memory_key(qa.answer)) || text::mentions(qa.question, p)
                || text::mentions(qa.answer, p)))
        }),
{
}

} // verus!
