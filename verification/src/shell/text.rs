//! Words, phrases and blanks in byte strings.

use vstd::prelude::*;

use crate::bytes;

verus! {

/// Blanks that are trimmed: space, tab, carriage return, line feed.
pub open spec fn is_blank(b: u8) -> bool {
    b == 0x20 || b == 0x09 || b == 0x0d || b == 0x0a
}

/// Whether a byte is a blank.
pub fn blank(b: u8) -> (r: bool)
    ensures
        r == is_blank(b),
{
    b == 0x20 || b == 0x09 || b == 0x0d || b == 0x0a
}

/// `s` without the blanks at its end.
pub open spec fn trimmed_end(s: Seq<u8>) -> Seq<u8>
    decreases s.len(),
{
    if s.len() > 0 && is_blank(s.last()) {
        trimmed_end(s.drop_last())
    } else {
        s
    }
}

/// `s` without the blanks at its start.
pub open spec fn trimmed_start(s: Seq<u8>) -> Seq<u8>
    decreases s.len(),
{
    if s.len() > 0 && is_blank(s[0]) {
        trimmed_start(s.drop_first())
    } else {
        s
    }
}

/// `s` without the blanks at either end.
pub open spec fn trimmed(s: Seq<u8>) -> Seq<u8> {
    trimmed_end(trimmed_start(s))
}

/// Drops blanks at both ends.
pub fn trim_ascii(bytes: &[u8]) -> (r: &[u8])
    ensures
        r@ == trimmed(bytes@),
        r@.len() <= bytes@.len(),
{
    let mut start: usize = 0;
    assert(bytes@.subrange(0, bytes@.len() as int) =~= bytes@);
    while start < bytes.len() && blank(bytes[start])
        invariant
            start <= bytes.len(),
            trimmed_start(bytes@.subrange(start as int, bytes@.len() as int)) == trimmed_start(
                bytes@,
            ),
        decreases bytes.len() - start,
    {
        proof {
            let s = bytes@.subrange(start as int, bytes@.len() as int);
            assert(s.drop_first() =~= bytes@.subrange(start + 1, bytes@.len() as int));
        }
        start += 1;
    }
    let mut end: usize = bytes.len();
    let ghost front = bytes@.subrange(start as int, bytes@.len() as int);
    assert(trimmed_start(bytes@) == front);
    while end > start && blank(bytes[end - 1])
        invariant
            start <= end <= bytes.len(),
            front == bytes@.subrange(start as int, bytes@.len() as int),
            trimmed_end(bytes@.subrange(start as int, end as int)) == trimmed_end(front),
        decreases end,
    {
        proof {
            let s = bytes@.subrange(start as int, end as int);
            assert(s.drop_last() =~= bytes@.subrange(start as int, end - 1));
        }
        end -= 1;
    }
    &bytes[start..end]
}

/// A text that neither starts nor ends with a blank is left alone.
pub proof fn lemma_trimmed_fixed(s: Seq<u8>)
    requires
        s.len() == 0 || (!is_blank(s[0]) && !is_blank(s.last())),
    ensures
        trimmed(s) == s,
{
}

proof fn lemma_trimmed_start_shape(s: Seq<u8>)
    ensures
        trimmed_start(s).len() <= s.len(),
        trimmed_start(s).len() > 0 ==> !is_blank(trimmed_start(s)[0]) && trimmed_start(s).last()
            == s.last(),
    decreases s.len(),
{
    if s.len() > 0 && is_blank(s[0]) {
        lemma_trimmed_start_shape(s.drop_first());
    }
}

proof fn lemma_trimmed_end_shape(s: Seq<u8>)
    ensures
        trimmed_end(s).len() <= s.len(),
        trimmed_end(s).len() > 0 ==> !is_blank(trimmed_end(s).last()) && trimmed_end(s)[0] == s[0],
    decreases s.len(),
{
    if s.len() > 0 && is_blank(s.last()) {
        lemma_trimmed_end_shape(s.drop_last());
    }
}

/// Trimming twice is trimming once, and a trimmed text has no blank at its ends.
pub proof fn law_trim_idempotent(s: Seq<u8>)
    ensures
        trimmed(trimmed(s)) == trimmed(s),
        trimmed(s).len() > 0 ==> !is_blank(trimmed(s)[0]) && !is_blank(trimmed(s).last()),
        trimmed(s).len() <= s.len(),
{
    lemma_trimmed_start_shape(s);
    lemma_trimmed_end_shape(trimmed_start(s));
    lemma_trimmed_fixed(trimmed(s));
}

/// Whether a byte alone is white space.
pub open spec fn is_white_byte(a: u8) -> bool {
    9 <= a <= 13 || a == 0x20
}

/// Whether two bytes are a white space character: a next line or a blank that does not break.
pub open spec fn is_white_pair(a: u8, b: u8) -> bool {
    a == 0xc2 && (b == 0x85 || b == 0xa0)
}

/// Whether three bytes are a white space character: one of the blanks of different widths, or
/// one that ends a line or a paragraph.
pub open spec fn is_white_triple(a: u8, b: u8, c: u8) -> bool {
    ||| a == 0xe1 && b == 0x9a && c == 0x80
    ||| a == 0xe2 && b == 0x80 && (0x80 <= c <= 0x8a || c == 0xa8 || c == 0xa9 || c == 0xaf)
    ||| a == 0xe2 && b == 0x81 && c == 0x9f
    ||| a == 0xe3 && b == 0x80 && c == 0x80
}

/// How many bytes of the text `s` a white space character at its start takes; none where it
/// starts with another.
pub open spec fn white_start(s: Seq<u8>) -> int {
    if s.len() >= 1 && is_white_byte(s[0]) {
        1
    } else if s.len() >= 2 && is_white_pair(s[0], s[1]) {
        2
    } else if s.len() >= 3 && is_white_triple(s[0], s[1], s[2]) {
        3
    } else {
        0
    }
}

/// How many bytes of the text `s` a white space character at its end takes; none where it ends
/// with another.
pub open spec fn white_end(s: Seq<u8>) -> int {
    let n = s.len() as int;
    if n >= 1 && is_white_byte(s[n - 1]) {
        1
    } else if n >= 2 && is_white_pair(s[n - 2], s[n - 1]) {
        2
    } else if n >= 3 && is_white_triple(s[n - 3], s[n - 2], s[n - 1]) {
        3
    } else {
        0
    }
}

/// `s` without the white space at its start.
pub open spec fn stripped_start(s: Seq<u8>) -> Seq<u8>
    decreases s.len(),
{
    if white_start(s) > 0 {
        stripped_start(s.skip(white_start(s)))
    } else {
        s
    }
}

/// `s` without the white space at its end.
pub open spec fn stripped_end(s: Seq<u8>) -> Seq<u8>
    decreases s.len(),
{
    if white_end(s) > 0 {
        stripped_end(s.take(s.len() - white_end(s)))
    } else {
        s
    }
}

/// The text `s`, in UTF-8, without white space at either end: all characters that Unicode has
/// for it, not just the blanks of [`trimmed`].
pub open spec fn stripped(s: Seq<u8>) -> Seq<u8> {
    stripped_end(stripped_start(s))
}

fn white_byte(a: u8) -> (r: bool)
    ensures
        r == is_white_byte(a),
{
    (9 <= a && a <= 13) || a == 0x20
}

fn white_pair(a: u8, b: u8) -> (r: bool)
    ensures
        r == is_white_pair(a, b),
{
    a == 0xc2 && (b == 0x85 || b == 0xa0)
}

fn white_triple(a: u8, b: u8, c: u8) -> (r: bool)
    ensures
        r == is_white_triple(a, b, c),
{
    (a == 0xe1 && b == 0x9a && c == 0x80) || (a == 0xe2 && b == 0x80 && ((0x80 <= c && c <= 0x8a)
        || c == 0xa8 || c == 0xa9 || c == 0xaf)) || (a == 0xe2 && b == 0x81 && c == 0x9f) || (a
        == 0xe3 && b == 0x80 && c == 0x80)
}

fn white_at(s: &[u8]) -> (r: usize)
    ensures
        r == white_start(s@),
{
    if s.len() >= 1 && white_byte(s[0]) {
        1
    } else if s.len() >= 2 && white_pair(s[0], s[1]) {
        2
    } else if s.len() >= 3 && white_triple(s[0], s[1], s[2]) {
        3
    } else {
        0
    }
}

fn white_before(s: &[u8]) -> (r: usize)
    ensures
        r == white_end(s@),
{
    let n: usize = s.len();
    if n >= 1 && white_byte(s[n - 1]) {
        1
    } else if n >= 2 && white_pair(s[n - 2], s[n - 1]) {
        2
    } else if n >= 3 && white_triple(s[n - 3], s[n - 2], s[n - 1]) {
        3
    } else {
        0
    }
}

/// Drops white space at both ends of a text in UTF-8.
pub fn trim(text: &[u8]) -> (r: &[u8])
    ensures
        r@ == stripped(text@),
        r@.len() <= text@.len(),
{
    let mut s: &[u8] = text;
    let mut n: usize = white_at(s);
    while n > 0
        invariant
            n == white_start(s@),
            s@.len() <= text@.len(),
            stripped_start(s@) == stripped_start(text@),
        decreases s@.len(),
    {
        let rest: &[u8] = vstd::slice::slice_subrange(s, n, s.len());
        assert(rest@ =~= s@.skip(n as int));
        s = rest;
        n = white_at(s);
    }
    let ghost front = s@;
    n = white_before(s);
    while n > 0
        invariant
            n == white_end(s@),
            s@.len() <= text@.len(),
            stripped_end(s@) == stripped_end(front),
        decreases s@.len(),
    {
        let rest: &[u8] = vstd::slice::slice_subrange(s, 0, s.len() - n);
        assert(rest@ =~= s@.take(s@.len() - n));
        s = rest;
        n = white_before(s);
    }
    s
}

proof fn lemma_stripped_start_shape(s: Seq<u8>)
    ensures
        stripped_start(s).len() <= s.len(),
        white_start(stripped_start(s)) == 0,
    decreases s.len(),
{
    if white_start(s) > 0 {
        lemma_stripped_start_shape(s.skip(white_start(s)));
    }
}

proof fn lemma_stripped_end_shape(s: Seq<u8>)
    ensures
        stripped_end(s).len() <= s.len(),
        stripped_end(s) == s.take(stripped_end(s).len() as int),
        white_end(stripped_end(s)) == 0,
    decreases s.len(),
{
    if white_end(s) > 0 {
        let t = s.take(s.len() - white_end(s));
        lemma_stripped_end_shape(t);
        assert(t.take(stripped_end(t).len() as int) =~= s.take(stripped_end(t).len() as int));
    } else {
        assert(s.take(s.len() as int) =~= s);
    }
}

/// A text without white space at its ends has none of the blanks there either, and dropping
/// white space twice is dropping it once.
pub proof fn law_strip_idempotent(s: Seq<u8>)
    ensures
        stripped(stripped(s)) == stripped(s),
        trimmed(stripped(s)) == stripped(s),
        stripped(s).len() <= s.len(),
{
    let f = stripped_start(s);
    let t = stripped_end(f);
    lemma_stripped_start_shape(s);
    lemma_stripped_end_shape(f);
    assert(white_start(t) == 0);
    assert(stripped_start(t) == t);
    lemma_trimmed_fixed(t);
}

/// Letters and digits.
pub open spec fn is_word(b: u8) -> bool {
    0x30 <= b <= 0x39 || 0x41 <= b <= 0x5a || 0x61 <= b <= 0x7a
}

/// Whether a byte is a letter or a digit.
pub fn is_word_byte(byte: u8) -> (r: bool)
    ensures
        r == is_word(byte),
{
    (0x30 <= byte && byte <= 0x39) || (0x41 <= byte && byte <= 0x5a) || (0x61 <= byte && byte
        <= 0x7a)
}

/// The lower-case form of a byte.
pub open spec fn lower(b: u8) -> u8 {
    if 0x41 <= b <= 0x5a {
        (b + 0x20) as u8
    } else {
        b
    }
}

/// The lower-case form of a byte.
pub fn to_lower(b: u8) -> (r: u8)
    ensures
        r == lower(b),
{
    if 0x41 <= b && b <= 0x5a {
        b + 0x20
    } else {
        b
    }
}

/// Compares two bytes, letter case aside.
pub fn eq_ignore_ascii_case_byte(left: u8, right: u8) -> (r: bool)
    ensures
        r == (lower(left) == lower(right)),
{
    to_lower(left) == to_lower(right)
}

/// Equality of byte strings, letter case aside.
pub open spec fn same_text(a: Seq<u8>, b: Seq<u8>) -> bool {
    &&& a.len() == b.len()
    &&& forall|i: int| 0 <= i < a.len() ==> lower(#[trigger] a[i]) == lower(b[i])
}

/// Compares two byte strings, letter case aside.
pub fn eq_ignore_ascii_case_slice(left: &[u8], right: &[u8]) -> (r: bool)
    ensures
        r == same_text(left@, right@),
{
    if left.len() != right.len() {
        return false;
    }
    let mut i: usize = 0;
    while i < left.len()
        invariant
            i <= left.len(),
            left.len() == right.len(),
            forall|k: int| 0 <= k < i ==> lower(#[trigger] left@[k]) == lower(right@[k]),
        decreases left.len() - i,
    {
        if !eq_ignore_ascii_case_byte(left[i], right[i]) {
            return false;
        }
        i += 1;
    }
    true
}

/// `needle` occurs in `haystack` at `at`, letter case aside.
pub open spec fn occurs_nocase(haystack: Seq<u8>, needle: Seq<u8>, at: int) -> bool {
    &&& 0 <= at
    &&& at + needle.len() <= haystack.len()
    &&& same_text(haystack.subrange(at, at + needle.len()), needle)
}

/// A non-empty `needle` occurs somewhere in `haystack`, letter case aside.
pub open spec fn mentions(haystack: Seq<u8>, needle: Seq<u8>) -> bool {
    needle.len() > 0 && exists|at: int| occurs_nocase(haystack, needle, at)
}

/// Searches for a non-empty byte string, letter case aside.
pub fn contains_case_insensitive(haystack: &[u8], needle: &[u8]) -> (r: bool)
    ensures
        r == mentions(haystack@, needle@),
{
    if needle.len() == 0 || needle.len() > haystack.len() {
        return false;
    }
    let mut at: usize = 0;
    while at <= haystack.len() - needle.len()
        invariant
            0 < needle.len() <= haystack.len(),
            at <= haystack.len() - needle.len() + 1,
            forall|k: int| 0 <= k < at ==> !occurs_nocase(haystack@, needle@, k),
        decreases haystack.len() - needle.len() + 1 - at,
    {
        if eq_ignore_ascii_case_slice(&haystack[at..at + needle.len()], needle) {
            assert(occurs_nocase(haystack@, needle@, at as int));
            return true;
        }
        at += 1;
    }
    false
}

/// The end of the run of letters and digits that starts at `i`.
pub open spec fn word_end(text: Seq<u8>, i: int) -> int
    decreases text.len() - i,
{
    if 0 <= i < text.len() && is_word(text[i]) {
        word_end(text, i + 1)
    } else {
        i
    }
}

/// A run of letters and digits ends inside the text, where no such byte follows.
pub proof fn lemma_word_end(text: Seq<u8>, i: int)
    requires
        0 <= i <= text.len(),
    ensures
        i <= word_end(text, i) <= text.len(),
        forall|k: int| i <= k < word_end(text, i) ==> is_word(#[trigger] text[k]),
        word_end(text, i) < text.len() ==> !is_word(text[word_end(text, i)]),
    decreases text.len() - i,
{
    if i < text.len() && is_word(text[i]) {
        lemma_word_end(text, i + 1);
    }
}

/// The words of `text` from `i` on: its maximal runs of letters and digits.
pub open spec fn words_from(text: Seq<u8>, i: int) -> Seq<Seq<u8>>
    decreases text.len() - i,
{
    if i < 0 || i >= text.len() {
        Seq::empty()
    } else if !is_word(text[i]) {
        words_from(text, i + 1)
    } else {
        proof {
            lemma_word_end(text, i);
            lemma_word_end(text, i + 1);
        }
        let e = word_end(text, i);
        if e <= i {
            Seq::empty()
        } else {
            seq![text.subrange(i, e)] + words_from(text, e)
        }
    }
}

/// How far into the phrase `words` a search is after one more word.
pub open spec fn phrase_progress(words: Seq<Seq<u8>>, done: int, word: Seq<u8>) -> int {
    if same_text(word, words[done]) {
        done + 1
    } else if same_text(word, words[0]) {
        1
    } else {
        0
    }
}

/// Whether a search that is `done` words into the phrase completes on `text_words`.
pub open spec fn phrase_completes(
    text_words: Seq<Seq<u8>>,
    words: Seq<Seq<u8>>,
    done: int,
) -> bool
    decreases text_words.len(),
{
    if text_words.len() == 0 {
        false
    } else {
        let now = phrase_progress(words, done, text_words[0]);
        now == words.len() || phrase_completes(text_words.drop_first(), words, now)
    }
}

/// Whether the phrase `words` is found in `text`.
pub open spec fn has_phrase(text: Seq<u8>, words: Seq<Seq<u8>>) -> bool {
    words.len() > 0 && phrase_completes(words_from(text, 0), words, 0)
}

/// The byte strings of a list of slices.
pub open spec fn texts(words: Seq<&[u8]>) -> Seq<Seq<u8>> {
    words.map_values(|w: &[u8]| w@)
}

/// Searches `text` for a sequence of words, letter case and punctuation aside.
pub fn contains_word_sequence(text: &[u8], words: &[&[u8]]) -> (r: bool)
    ensures
        r == has_phrase(text@, texts(words@)),
{
    if words.len() == 0 {
        return false;
    }
    let ghost ws = texts(words@);
    let mut word_index: usize = 0;
    let mut start: usize = 0;
    while start < text.len()
        invariant
            start <= text.len(),
            ws == texts(words@),
            ws.len() == words@.len(),
            0 <= word_index < words.len(),
            has_phrase(text@, ws) == phrase_completes(
                words_from(text@, start as int),
                ws,
                word_index as int,
            ),
        decreases text.len() - start,
    {
        if !is_word_byte(text[start]) {
            start += 1;
        } else {
            let mut end: usize = start;
            proof {
                lemma_word_end(text@, start as int);
            }
            while end < text.len() && is_word_byte(text[end])
                invariant
                    start <= end <= text.len(),
                    word_end(text@, start as int) == word_end(text@, end as int),
                decreases text.len() - end,
            {
                end += 1;
            }
            let ghost rest = words_from(text@, start as int);
            assert(end == word_end(text@, start as int));
            assert(rest == seq![text@.subrange(start as int, end as int)] + words_from(
                text@,
                end as int,
            ));
            assert(rest.drop_first() =~= words_from(text@, end as int));
            assert(ws[word_index as int] == words@[word_index as int]@);
            assert(ws[0] == words@[0]@);
            let word = &text[start..end];
            assert(rest[0] == word@);
            if eq_ignore_ascii_case_slice(word, words[word_index]) {
                word_index += 1;
                if word_index == words.len() {
                    return true;
                }
            } else if eq_ignore_ascii_case_slice(word, words[0]) {
                word_index = 1;
            } else {
                word_index = 0;
            }
            start = end;
        }
    }
    false
}

fn has_phrase1(text: &[u8], a: &'static str) -> (r: bool)
    requires
        vstd::string::is_ascii(a),
    ensures
        r == has_phrase(text@, seq![bytes::ascii(a@)]),
{
    let words: Vec<&[u8]> = vec![bytes::lit(a)];
    assert(texts(words@) =~= seq![bytes::ascii(a@)]);
    contains_word_sequence(text, words.as_slice())
}

fn has_phrase2(text: &[u8], a: &'static str, b: &'static str) -> (r: bool)
    requires
        vstd::string::is_ascii(a),
        vstd::string::is_ascii(b),
    ensures
        r == has_phrase(text@, seq![bytes::ascii(a@), bytes::ascii(b@)]),
{
    let words: Vec<&[u8]> = vec![bytes::lit(a), bytes::lit(b)];
    assert(texts(words@) =~= seq![bytes::ascii(a@), bytes::ascii(b@)]);
    contains_word_sequence(text, words.as_slice())
}

fn has_phrase3(text: &[u8], a: &'static str, b: &'static str, c: &'static str) -> (r: bool)
    requires
        vstd::string::is_ascii(a),
        vstd::string::is_ascii(b),
        vstd::string::is_ascii(c),
    ensures
        r == has_phrase(text@, seq![bytes::ascii(a@), bytes::ascii(b@), bytes::ascii(c@)]),
{
    let words: Vec<&[u8]> = vec![bytes::lit(a), bytes::lit(b), bytes::lit(c)];
    assert(texts(words@) =~= seq![bytes::ascii(a@), bytes::ascii(b@), bytes::ascii(c@)]);
    contains_word_sequence(text, words.as_slice())
}

/// Whether `text` speaks of the secure phrase.
pub open spec fn names_secure_phrase(text: Seq<u8>) -> bool {
    ||| has_phrase(text, seq![bytes::ascii("secure"@), bytes::ascii("phrase"@)])
    ||| has_phrase(
        text,
        seq![bytes::ascii("stored"@), bytes::ascii("secure"@), bytes::ascii("phrase"@)],
    )
    ||| has_phrase(
        text,
        seq![bytes::ascii("secured"@), bytes::ascii("stored"@), bytes::ascii("phrase"@)],
    )
}

/// Whether `text` speaks of the secret phrase.
pub open spec fn names_secret_phrase(text: Seq<u8>) -> bool {
    ||| has_phrase(text, seq![bytes::ascii("secret"@), bytes::ascii("phrase"@)])
    ||| has_phrase(text, seq![bytes::ascii("secret"@), bytes::ascii("key"@)])
}

/// Whether `text` speaks of the memory test phrase.
pub open spec fn names_memory_test_phrase(text: Seq<u8>) -> bool {
    has_phrase(
        text,
        seq![bytes::ascii("memory"@), bytes::ascii("test"@), bytes::ascii("phrase"@)],
    )
}

/// Whether `text` speaks of a code name.
pub open spec fn names_codename(text: Seq<u8>) -> bool {
    ||| has_phrase(text, seq![bytes::ascii("project"@), bytes::ascii("codename"@)])
    ||| has_phrase(text, seq![bytes::ascii("code"@), bytes::ascii("name"@)])
    ||| has_phrase(text, seq![bytes::ascii("codename"@)])
}

/// The topic that `text` is filed under.
pub open spec fn memory_key(text: Seq<u8>) -> Option<Seq<u8>> {
    if names_secure_phrase(text) {
        Some(bytes::ascii("secure phrase"@))
    } else if names_secret_phrase(text) {
        Some(bytes::ascii("secret phrase"@))
    } else if names_memory_test_phrase(text) {
        Some(bytes::ascii("memory test phrase"@))
    } else if names_codename(text) {
        Some(bytes::ascii("codename"@))
    } else {
        None
    }
}

/// The view of an optional byte string.
pub open spec fn text_option(v: Option<Vec<u8>>) -> Option<Seq<u8>> {
    match v {
        Some(x) => Some(x@),
        None => None,
    }
}

/// Finds the topic that a text is filed under.
pub fn memory_key_from_text(text: &[u8]) -> (r: Option<Vec<u8>>)
    ensures
        text_option(r) == memory_key(text@),
{
    proof {
        reveal_strlit("secure");
        reveal_strlit("phrase");
        reveal_strlit("stored");
        reveal_strlit("secured");
        reveal_strlit("secret");
        reveal_strlit("key");
        reveal_strlit("memory");
        reveal_strlit("test");
        reveal_strlit("project");
        reveal_strlit("codename");
        reveal_strlit("code");
        reveal_strlit("name");
        reveal_strlit("secure phrase");
        reveal_strlit("secret phrase");
        reveal_strlit("memory test phrase");
    }
    if has_phrase2(text, "secure", "phrase") || has_phrase3(text, "stored", "secure", "phrase")
        || has_phrase3(text, "secured", "stored", "phrase") {
        return Some(bytes::to_vec(bytes::lit("secure phrase")));
    }
    if has_phrase2(text, "secret", "phrase") || has_phrase2(text, "secret", "key") {
        return Some(bytes::to_vec(bytes::lit("secret phrase")));
    }
    if has_phrase3(text, "memory", "test", "phrase") {
        return Some(bytes::to_vec(bytes::lit("memory test phrase")));
    }
    if has_phrase2(text, "project", "codename") || has_phrase2(text, "code", "name")
        || has_phrase1(text, "codename") {
        return Some(bytes::to_vec(bytes::lit("codename")));
    }
    None
}

/// The words that open a question.
pub open spec fn is_question_word(w: Seq<u8>) -> bool {
    ||| same_text(w, bytes::ascii("what"@))
    ||| same_text(w, bytes::ascii("which"@))
    ||| same_text(w, bytes::ascii("who"@))
    ||| same_text(w, bytes::ascii("when"@))
    ||| same_text(w, bytes::ascii("where"@))
    ||| same_text(w, bytes::ascii("why"@))
    ||| same_text(w, bytes::ascii("how"@))
    ||| same_text(w, bytes::ascii("do"@))
    ||| same_text(w, bytes::ascii("does"@))
    ||| same_text(w, bytes::ascii("did"@))
    ||| same_text(w, bytes::ascii("is"@))
    ||| same_text(w, bytes::ascii("are"@))
    ||| same_text(w, bytes::ascii("can"@))
    ||| same_text(w, bytes::ascii("will"@))
}

/// Whether the text, blanks aside, opens with a question word.
pub open spec fn opens_question(text: Seq<u8>) -> bool {
    let t = trimmed(text);
    is_question_word(t.subrange(0, word_end(t, 0)))
}

/// Whether a text opens with a question word.
pub fn starts_with_question_word(text: &[u8]) -> (r: bool)
    ensures
        r == opens_question(text@),
{
    let text = trim_ascii(text);
    let mut end: usize = 0;
    while end < text.len() && is_word_byte(text[end])
        invariant
            end <= text.len(),
            word_end(text@, 0) == word_end(text@, end as int),
        decreases text.len() - end,
    {
        end += 1;
    }
    proof {
        reveal_strlit("what");
        reveal_strlit("which");
        reveal_strlit("who");
        reveal_strlit("when");
        reveal_strlit("where");
        reveal_strlit("why");
        reveal_strlit("how");
        reveal_strlit("do");
        reveal_strlit("does");
        reveal_strlit("did");
        reveal_strlit("is");
        reveal_strlit("are");
        reveal_strlit("can");
        reveal_strlit("will");
    }
    let first = &text[0..end];
    eq_ignore_ascii_case_slice(first, bytes::lit("what")) || eq_ignore_ascii_case_slice(
        first,
        bytes::lit("which"),
    ) || eq_ignore_ascii_case_slice(first, bytes::lit("who")) || eq_ignore_ascii_case_slice(
        first,
        bytes::lit("when"),
    ) || eq_ignore_ascii_case_slice(first, bytes::lit("where")) || eq_ignore_ascii_case_slice(
        first,
        bytes::lit("why"),
    ) || eq_ignore_ascii_case_slice(first, bytes::lit("how")) || eq_ignore_ascii_case_slice(
        first,
        bytes::lit("do"),
    ) || eq_ignore_ascii_case_slice(first, bytes::lit("does")) || eq_ignore_ascii_case_slice(
        first,
        bytes::lit("did"),
    ) || eq_ignore_ascii_case_slice(first, bytes::lit("is")) || eq_ignore_ascii_case_slice(
        first,
        bytes::lit("are"),
    ) || eq_ignore_ascii_case_slice(first, bytes::lit("can")) || eq_ignore_ascii_case_slice(
        first,
        bytes::lit("will"),
    )
}

/// Whether a text reads as a question.
pub open spec fn is_question(text: Seq<u8>) -> bool {
    text.contains(0x3f) || opens_question(text)
}

/// Whether a text reads as a question.
pub fn looks_like_question(text: &[u8]) -> (r: bool)
    ensures
        r == is_question(text@),
{
    let mut i: usize = 0;
    while i < text.len()
        invariant
            i <= text.len(),
            forall|k: int| 0 <= k < i ==> text@[k] != 0x3f,
        decreases text.len() - i,
    {
        if text[i] == 0x3f {
            assert(text@[i as int] == 0x3f);
            return true;
        }
        i += 1;
    }
    starts_with_question_word(text)
}

/// The words `words` stand next to each other in `text_words`, from `at` on.
pub open spec fn stands_at(text_words: Seq<Seq<u8>>, words: Seq<Seq<u8>>, at: int) -> bool {
    &&& 0 <= at
    &&& at + words.len() <= text_words.len()
    &&& forall|i: int| 0 <= i < words.len() ==> same_text(text_words[at + i], #[trigger] words[i])
}

/// The last `done` words before `upto` are the first `done` words of the phrase.
spec fn partly_seen(tw: Seq<Seq<u8>>, words: Seq<Seq<u8>>, upto: int, done: int) -> bool {
    &&& 0 <= done < words.len()
    &&& done <= upto <= tw.len()
    &&& forall|i: int|
        0 <= i < done ==> same_text(tw[upto - done + i], #[trigger] words[i])
}

/// No proper prefix of the phrase longer than `done` ends at `upto`.
spec fn none_longer(tw: Seq<Seq<u8>>, words: Seq<Seq<u8>>, upto: int, done: int) -> bool {
    forall|d: int| done < d < words.len() ==> !#[trigger] partly_seen(tw, words, upto, d)
}

proof fn lemma_phrase_scan(tw: Seq<Seq<u8>>, words: Seq<Seq<u8>>, upto: int, done: int)
    requires
        words.len() > 0,
        forall|i: int| 0 < i < words.len() ==> !same_text(words[0], #[trigger] words[i]),
        partly_seen(tw, words, upto, done),
        none_longer(tw, words, upto, done),
        forall|at: int| #[trigger] stands_at(tw, words, at) ==> upto < at + words.len(),
    ensures
        phrase_completes(tw.subrange(upto, tw.len() as int), words, done) <==> exists|at: int|
            stands_at(tw, words, at),
    decreases tw.len() - upto,
{
    let rest = tw.subrange(upto, tw.len() as int);
    if rest.len() == 0 {
        assert forall|at: int| !#[trigger] stands_at(tw, words, at) by {}
    } else {
        let word = rest[0];
        let now = phrase_progress(words, done, word);
        assert(rest.drop_first() =~= tw.subrange(upto + 1, tw.len() as int));
        if now == words.len() {
            assert(same_text(word, words[done])) by {
                if !same_text(word, words[done]) {
                    assert(words.len() == 1);
                }
            }
            assert(stands_at(tw, words, upto - done)) by {
                assert forall|i: int| 0 <= i < words.len() implies same_text(
                    tw[upto - done + i],
                    #[trigger] words[i],
                ) by {
                    if i == done {
                        assert(tw[upto] == word);
                    }
                }
            }
        } else {
            assert(partly_seen(tw, words, upto + 1, now)) by {
                assert forall|i: int| 0 <= i < now implies same_text(
                    tw[upto + 1 - now + i],
                    #[trigger] words[i],
                ) by {
                    if i == now - 1 {
                        assert(tw[upto] == word);
                    }
                }
            }
            assert(none_longer(tw, words, upto + 1, now)) by {
                assert forall|d: int| now < d < words.len() implies !#[trigger] partly_seen(
                    tw,
                    words,
                    upto + 1,
                    d,
                ) by {
                    if partly_seen(tw, words, upto + 1, d) {
                        lemma_no_longer(tw, words, upto, done, d);
                    }
                }
            }
            assert forall|at: int| #[trigger] stands_at(tw, words, at) implies upto + 1 < at
                + words.len() by {
                if at + words.len() == upto + 1 {
                    assert(partly_seen(tw, words, upto, words.len() - 1)) by {
                        assert forall|i: int| 0 <= i < words.len() - 1 implies same_text(
                            tw[upto - (words.len() - 1) + i],
                            #[trigger] words[i],
                        ) by {
                            assert(tw[at + i] == tw[upto - (words.len() - 1) + i]);
                        }
                    }
                    assert(done == words.len() - 1);
                    assert(same_text(tw[at + done], words[done]));
                    assert(tw[at + done] == word);
                }
            }
            lemma_phrase_scan(tw, words, upto + 1, now);
        }
    }
}

proof fn lemma_no_longer(tw: Seq<Seq<u8>>, words: Seq<Seq<u8>>, upto: int, done: int, d: int)
    requires
        upto < tw.len(),
        forall|i: int| 0 < i < words.len() ==> !same_text(words[0], #[trigger] words[i]),
        partly_seen(tw, words, upto, done),
        none_longer(tw, words, upto, done),
        0 < d < words.len(),
        partly_seen(tw, words, upto + 1, d),
    ensures
        d <= phrase_progress(words, done, tw[upto]),
{
    assert(partly_seen(tw, words, upto, d - 1)) by {
        assert forall|i: int| 0 <= i < d - 1 implies same_text(
            tw[upto - (d - 1) + i],
            #[trigger] words[i],
        ) by {
            assert(tw[upto + 1 - d + i] == tw[upto - (d - 1) + i]);
        }
    }
    assert(same_text(tw[upto + 1 - d + (d - 1)], words[d - 1]));
    assert(same_text(tw[upto], words[d - 1]));
    assert(d - 1 <= done);
    if d - 1 < done {
        // The first word of the longer stretch lies inside the shorter one.
        let j = done - (d - 1);
        if d - 1 >= 1 {
            let first = tw[upto - (d - 1)];
            assert(same_text(tw[upto - done + j], words[j]));
            assert(same_text(tw[upto - (d - 1) + 0], words[0]));
            assert forall|i: int| 0 <= i < words[0].len() implies lower(#[trigger] words[0][i])
                == lower(words[j][i]) by {
                assert(lower(first[i]) == lower(words[0][i]));
                assert(lower(first[i]) == lower(words[j][i]));
            }
            assert(same_text(words[0], words[j]));
        }
    }
}

/// A phrase whose first word does not come again inside it is found exactly where its
/// words stand next to each other, letter case and punctuation aside.
pub proof fn law_phrase_is_adjacent_words(text: Seq<u8>, words: Seq<Seq<u8>>)
    requires
        words.len() > 0,
        forall|i: int| 0 < i < words.len() ==> !same_text(words[0], #[trigger] words[i]),
    ensures
        has_phrase(text, words) <==> exists|at: int| stands_at(words_from(text, 0), words, at),
{
    let tw = words_from(text, 0);
    assert(tw.subrange(0, tw.len() as int) =~= tw);
    lemma_phrase_scan(tw, words, 0, 0);
}

} // verus!
