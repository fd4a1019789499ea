//! Dropping white space from a text is dropping characters, not bytes.

use vstd::prelude::*;
use vstd::utf8;

use crate::shell::text;

verus! {

/// The characters that Unicode has for white space.
pub open spec fn is_white(c: char) -> bool {
    is_white_scalar(c as u32)
}

/// The numbers of those characters.
pub open spec fn is_white_scalar(v: u32) -> bool {
    ||| 9 <= v <= 13
    ||| v == 0x20
    ||| v == 0x85
    ||| v == 0xa0
    ||| v == 0x1680
    ||| 0x2000 <= v <= 0x200a
    ||| v == 0x2028
    ||| v == 0x2029
    ||| v == 0x202f
    ||| v == 0x205f
    ||| v == 0x3000
}

/// Characters without the white space at their start.
pub open spec fn without_start(cs: Seq<char>) -> Seq<char>
    decreases cs.len(),
{
    if cs.len() > 0 && is_white(cs[0]) {
        without_start(cs.drop_first())
    } else {
        cs
    }
}

/// Characters without the white space at their end.
pub open spec fn without_end(cs: Seq<char>) -> Seq<char>
    decreases cs.len(),
{
    if cs.len() > 0 && is_white(cs.last()) {
        without_end(cs.drop_last())
    } else {
        cs
    }
}

proof fn lemma_width_1(v: u32)
    requires
        utf8::has_width_1_encoding(v),
    ensures
        utf8::leading_byte_width_1(v) == v,
{
    assert(v <= 0x7f ==> (v & 0x7f) as u8 == v) by (bit_vector);
}

proof fn lemma_width_2(v: u32)
    requires
        utf8::has_width_2_encoding(v),
    ensures
        0xc0 <= utf8::leading_byte_width_2(v) <= 0xdf,
        0x80 <= utf8::last_continuation_byte(v) <= 0xbf,
        text::is_white_pair(utf8::leading_byte_width_2(v), utf8::last_continuation_byte(v))
            == is_white_scalar(v),
{
    let a = 0xC0u8 | ((v >> 6) & 0x1F) as u8;
    let b = 0x80u8 | (v & 0x3F) as u8;
    assert(0x80 <= v <= 0x7ff && a == (0xC0u8 | ((v >> 6) & 0x1F) as u8) && b == (0x80u8 | (v
        & 0x3F) as u8) ==> {
        &&& 0xc0 <= a <= 0xdf
        &&& 0x80 <= b <= 0xbf
        &&& (a == 0xc2 && (b == 0x85 || b == 0xa0)) == (v == 0x85 || v == 0xa0)
    }) by (bit_vector);
}

proof fn lemma_width_3(v: u32)
    requires
        utf8::has_width_3_encoding(v),
    ensures
        0xe0 <= utf8::leading_byte_width_3(v) <= 0xef,
        0x80 <= utf8::second_last_continuation_byte(v) <= 0xbf,
        0x80 <= utf8::last_continuation_byte(v) <= 0xbf,
        text::is_white_triple(
            utf8::leading_byte_width_3(v),
            utf8::second_last_continuation_byte(v),
            utf8::last_continuation_byte(v),
        ) == is_white_scalar(v),
{
    let a = 0xE0u8 | ((v >> 12) & 0x0F) as u8;
    let b = 0x80u8 | ((v >> 6) & 0x3F) as u8;
    let c = 0x80u8 | (v & 0x3F) as u8;
    assert(0x800 <= v <= 0xffff && a == (0xE0u8 | ((v >> 12) & 0x0F) as u8) && b == (0x80u8 | ((v
        >> 6) & 0x3F) as u8) && c == (0x80u8 | (v & 0x3F) as u8) ==> {
        &&& 0xe0 <= a <= 0xef
        &&& 0x80 <= b <= 0xbf
        &&& 0x80 <= c <= 0xbf
        &&& (a == 0xe1 && b == 0x9a && c == 0x80) == (v == 0x1680)
        &&& (a == 0xe2 && b == 0x80 && 0x80 <= c <= 0x8a) == (0x2000 <= v <= 0x200a)
        &&& (a == 0xe2 && b == 0x80 && (c == 0xa8 || c == 0xa9 || c == 0xaf)) == (v == 0x2028 || v
            == 0x2029 || v == 0x202f)
        &&& (a == 0xe2 && b == 0x81 && c == 0x9f) == (v == 0x205f)
        &&& (a == 0xe3 && b == 0x80 && c == 0x80) == (v == 0x3000)
    }) by (bit_vector);
}

proof fn lemma_width_4(v: u32)
    ensures
        0xf0 <= utf8::leading_byte_width_4(v) <= 0xf7,
        0x80 <= utf8::third_last_continuation_byte(v) <= 0xbf,
        0x80 <= utf8::second_last_continuation_byte(v) <= 0xbf,
        0x80 <= utf8::last_continuation_byte(v) <= 0xbf,
{
    let a = 0xF0u8 | ((v >> 18) & 0x7) as u8;
    let b = 0x80u8 | ((v >> 12) & 0x3F) as u8;
    let c = 0x80u8 | ((v >> 6) & 0x3F) as u8;
    let d = 0x80u8 | (v & 0x3F) as u8;
    assert(a == (0xF0u8 | ((v >> 18) & 0x7) as u8) && b == (0x80u8 | ((v >> 12) & 0x3F) as u8) && c
        == (0x80u8 | ((v >> 6) & 0x3F) as u8) && d == (0x80u8 | (v & 0x3F) as u8) ==> {
        &&& 0xf0 <= a <= 0xf7
        &&& 0x80 <= b <= 0xbf
        &&& 0x80 <= c <= 0xbf
        &&& 0x80 <= d <= 0xbf
    }) by (bit_vector);
}

/// What white space takes at an end of a text is the character there, if it is white space.
proof fn lemma_end_character(c: char, other: Seq<u8>)
    ensures
        ({
            let e = utf8::encode_scalar(c as u32);
            let n = if is_white(c) {
                e.len() as int
            } else {
                0
            };
            &&& e.len() > 0
            &&& text::white_start(e + other) == n
            &&& text::white_end(other + e) == n
        }),
{
    let v = c as u32;
    let e = utf8::encode_scalar(v);
    let s = e + other;
    let t = other + e;
    let k = other.len() as int;
    utf8::char_is_scalar(c);
    assert(forall|i: int| 0 <= i < e.len() ==> s[i] == e[i] && t[k + i] == e[i]);
    if utf8::has_width_1_encoding(v) {
        lemma_width_1(v);
        assert(t[k] == v);
    } else if utf8::has_width_2_encoding(v) {
        lemma_width_2(v);
        assert(t[k] == e[0] && t[k + 1] == e[1]);
    } else if utf8::has_width_3_encoding(v) {
        lemma_width_3(v);
        assert(t[k] == e[0] && t[k + 1] == e[1] && t[k + 2] == e[2]);
    } else {
        lemma_width_4(v);
        assert(t[k + 1] == e[1] && t[k + 2] == e[2] && t[k + 3] == e[3]);
    }
}

proof fn lemma_encode_last(cs: Seq<char>)
    requires
        cs.len() > 0,
    ensures
        utf8::encode_utf8(cs) == utf8::encode_utf8(cs.drop_last()) + utf8::encode_scalar(
            cs.last() as u32,
        ),
    decreases cs.len(),
{
    let rest = cs.drop_first();
    if rest.len() > 0 {
        lemma_encode_last(rest);
        assert(rest.drop_last() =~= cs.drop_last().drop_first());
        let a = utf8::encode_scalar(cs[0] as u32);
        let b = utf8::encode_utf8(rest.drop_last());
        let c = utf8::encode_scalar(cs.last() as u32);
        assert(a + (b + c) =~= (a + b) + c);
    } else {
        assert(rest =~= Seq::empty());
        assert(cs.drop_last() =~= Seq::empty());
        let a = utf8::encode_scalar(cs[0] as u32);
        let none: Seq<u8> = Seq::empty();
        assert(utf8::encode_utf8(rest) =~= none);
        assert(utf8::encode_utf8(cs.drop_last()) =~= none);
        assert(a + none =~= none + a);
    }
}

proof fn lemma_start(cs: Seq<char>)
    ensures
        text::stripped_start(utf8::encode_utf8(cs)) == utf8::encode_utf8(without_start(cs)),
    decreases cs.len(),
{
    if cs.len() > 0 {
        let e = utf8::encode_scalar(cs[0] as u32);
        let rest = utf8::encode_utf8(cs.drop_first());
        lemma_end_character(cs[0], rest);
        if is_white(cs[0]) {
            assert((e + rest).skip(e.len() as int) =~= rest);
            lemma_start(cs.drop_first());
        }
    }
}

proof fn lemma_end(cs: Seq<char>)
    ensures
        text::stripped_end(utf8::encode_utf8(cs)) == utf8::encode_utf8(without_end(cs)),
    decreases cs.len(),
{
    if cs.len() > 0 {
        let e = utf8::encode_scalar(cs.last() as u32);
        let rest = utf8::encode_utf8(cs.drop_last());
        lemma_encode_last(cs);
        lemma_end_character(cs.last(), rest);
        if is_white(cs.last()) {
            assert((rest + e).take(rest.len() as int) =~= rest);
            lemma_end(cs.drop_last());
        }
    }
}

/// Of a text in UTF-8, the white space characters at its start and at its end are dropped, and
/// no others.
pub proof fn law_trim_drops_white_characters(cs: Seq<char>)
    ensures
        text::stripped(utf8::encode_utf8(cs)) == utf8::encode_utf8(without_end(without_start(cs))),
{
    lemma_start(cs);
    lemma_end(without_start(cs));
}

} // verus!
