//! What is to be seen on the screen after text was written.

use vstd::prelude::*;

use crate::console::gop;
use crate::console::gop::FramebufferFormat;
use crate::console::gop::GopConsole;
use crate::console::gop::Rect;

verus! {

/// Whether a rectangle covers a pixel.
pub open spec fn covers(r: Rect, x: int, y: int) -> bool {
    r.x <= x < r.x + r.width && r.y <= y < r.y + r.height
}

/// A screen after rectangles were filled, one after the other.
pub open spec fn painted(screen: spec_fn(int, int) -> u32, rects: Seq<Rect>) -> spec_fn(
    int,
    int,
) -> u32
    decreases rects.len(),
{
    if rects.len() == 0 {
        screen
    } else {
        |x: int, y: int|
            if covers(rects.last(), x, y) {
                rects.last().value
            } else {
                painted(screen, rects.drop_last())(x, y)
            }
    }
}

/// Whether bit `7 - k` of a byte is set.
pub open spec fn bit_from_left(b: u8, k: int) -> bool {
    if k == 0 {
        b / 128 % 2 == 1
    } else if k == 1 {
        b / 64 % 2 == 1
    } else if k == 2 {
        b / 32 % 2 == 1
    } else if k == 3 {
        b / 16 % 2 == 1
    } else if k == 4 {
        b / 8 % 2 == 1
    } else if k == 5 {
        b / 4 % 2 == 1
    } else if k == 6 {
        b / 2 % 2 == 1
    } else {
        b % 2 == 1
    }
}

proof fn lemma_column(b: u8, k: int)
    requires
        0 <= k < 8,
    ensures
        (b & gop::column_bit(k) != 0) == bit_from_left(b, k),
{
    assert({
        &&& (b & 0x80 != 0) == (b / 128 % 2 == 1)
        &&& (b & 0x40 != 0) == (b / 64 % 2 == 1)
        &&& (b & 0x20 != 0) == (b / 32 % 2 == 1)
        &&& (b & 0x10 != 0) == (b / 16 % 2 == 1)
        &&& (b & 8 != 0) == (b / 8 % 2 == 1)
        &&& (b & 4 != 0) == (b / 4 % 2 == 1)
        &&& (b & 2 != 0) == (b / 2 % 2 == 1)
        &&& (b & 1 != 0) == (b % 2 == 1)
    }) by (bit_vector);
}

/// How text is shown: yellow, whichever way the pixels are laid out.
pub open spec fn text_value(format: FramebufferFormat) -> u32 {
    if format == FramebufferFormat::Rgb {
        0x0000_ffff
    } else {
        0x00ff_ff00
    }
}

/// The dots of a glyph are painted where they stand, whatever was there, and nothing else is.
proof fn lemma_dots(
    c: GopConsole,
    font: Seq<u8>,
    byte: u8,
    screen: spec_fn(int, int) -> u32,
    n: int,
    x: int,
    y: int,
)
    requires
        c.wf(),
        c.cursor_col < c.cols,
        0 <= n <= 128,
    ensures
        ({
            let dx = x - c.cursor_col * 17;
            let dy = y - c.cursor_row * 32;
            let i = dy / 2 * 8 + dx / 2;
            painted(screen, c.glyph_dots(font, byte).take(n))(x, y) == if 0 <= dx < 16 && 0 <= dy
                < 32 && i < n {
                c.glyph_dots(font, byte)[i].value
            } else {
                screen(x, y)
            }
        }),
    decreases n,
{
    let dots = c.glyph_dots(font, byte);
    let part = dots.take(n);
    if n > 0 {
        lemma_dots(c, font, byte, screen, n - 1, x, y);
        assert(part.drop_last() =~= dots.take(n - 1));
        assert(part.last() == dots[n - 1]);
        let dx = x - c.cursor_col * 17;
        let dy = y - c.cursor_row * 32;
        let k = n - 1;
        let d = dots[k];
        assert(0 <= k / 8 < 16 && 0 <= k % 8 < 8);
        assert(d.x == c.cursor_col * 17 + k % 8 * 2);
        assert(d.y == c.cursor_row * 32 + k / 8 * 2);
        assert(covers(d, x, y) == (k % 8 * 2 <= dx < k % 8 * 2 + 2 && k / 8 * 2 <= dy < k / 8 * 2
            + 2));
        if covers(d, x, y) {
            assert(dx / 2 == k % 8 && dy / 2 == k / 8);
        } else if 0 <= dx < 16 && 0 <= dy < 32 {
            assert(dy / 2 * 8 + dx / 2 != k) by {
                assert(0 <= dx / 2 < 8);
            }
        }
    }
}

/// A character is drawn in the cell of the cursor: each dot of its glyph as a square of two by
/// two pixels, yellow where the font has a bit and black elsewhere. Nothing but that is drawn,
/// and the cursor goes on by one cell.
pub proof fn law_character_is_shown(
    c: GopConsole,
    font: Seq<u8>,
    byte: u8,
    screen: spec_fn(int, int) -> u32,
    x: int,
    y: int,
)
    requires
        c.wf(),
        c.cursor_col < c.cols,
        0x20 <= byte <= 0x7e,
        font.len() >= 16 * (byte - 0x1f),
    ensures
        ({
            let (d, rects) = c.after_byte(font, byte);
            let dx = x - c.cursor_col * 17;
            let dy = y - c.cursor_row * 32;
            &&& d == (GopConsole { cursor_col: (c.cursor_col + 1) as u64, ..c })
            &&& painted(screen, rects)(x, y) == if 0 <= dx < 16 && 0 <= dy < 32 {
                if bit_from_left(font[16 * (byte - 0x20) + dy / 2], dx / 2) {
                    text_value(c.info.format)
                } else {
                    0
                }
            } else {
                screen(x, y)
            }
        }),
{
    let dots = c.glyph_dots(font, byte);
    let dx = x - c.cursor_col * 17;
    let dy = y - c.cursor_row * 32;
    lemma_dots(c, font, byte, screen, 128, x, y);
    assert(dots.take(128) =~= dots);
    assert(Seq::<Rect>::empty() + dots =~= dots);
    if 0 <= dx < 16 && 0 <= dy < 32 {
        let i = dy / 2 * 8 + dx / 2;
        assert(0 <= dx / 2 < 8 && 0 <= dy / 2 < 16);
        assert(i / 8 == dy / 2 && i % 8 == dx / 2);
        assert(gop::glyph_start(font, byte) == 16 * (byte - 0x20));
        lemma_column(font[16 * (byte - 0x20) + dy / 2], dx / 2);
    }
}

/// A line feed goes to the start of the next row and draws nothing; in the last row it clears
/// the whole screen and goes to its start.
pub proof fn law_line_feed(
    c: GopConsole,
    font: Seq<u8>,
    screen: spec_fn(int, int) -> u32,
    x: int,
    y: int,
)
    requires
        c.wf(),
        0 <= x < c.info.width,
        0 <= y < c.info.height,
    ensures
        ({
            let (d, rects) = c.after_byte(font, 0x0a);
            &&& d.info == c.info && d.cols == c.cols && d.rows == c.rows && d.cursor_col == 0
            &&& c.cursor_row + 1 < c.info.height / 32 ==> d.cursor_row == c.cursor_row + 1
                && rects.len() == 0
            &&& c.cursor_row + 1 == c.info.height / 32 ==> d.cursor_row == 0 && painted(
                screen,
                rects,
            )(x, y) == 0
        }),
{
    let all = seq![c.cleared()];
    assert(all.drop_last() =~= Seq::empty());
    assert(all.last() == c.cleared());
}

/// A form feed clears the whole screen and goes to its start; a carriage return goes to the
/// start of the row and draws nothing; a backspace, and so delete, goes back by one cell and
/// clears it, and nothing else, but does nothing at the start of a row.
pub proof fn law_control_characters(
    c: GopConsole,
    font: Seq<u8>,
    screen: spec_fn(int, int) -> u32,
    x: int,
    y: int,
)
    requires
        c.wf(),
        0 <= x < c.info.width,
        0 <= y < c.info.height,
    ensures
        ({
            let (d, rects) = c.after_byte(font, 12);
            &&& d == (GopConsole { cursor_col: 0, cursor_row: 0, ..c })
            &&& painted(screen, rects)(x, y) == 0
        }),
        c.after_byte(font, 13) == (GopConsole { cursor_col: 0, ..c }, Seq::<Rect>::empty()),
        ({
            let (d, rects) = c.after_byte(font, 8);
            let dx = x - (c.cursor_col - 1) * 17;
            let dy = y - c.cursor_row * 32;
            &&& c.cursor_col == 0 ==> d == c && rects.len() == 0
            &&& c.cursor_col > 0 ==> d == (GopConsole {
                cursor_col: (c.cursor_col - 1) as u64,
                ..c
            }) && painted(screen, rects)(x, y) == if 0 <= dx < 17 && 0 <= dy < 32 {
                0
            } else {
                screen(x, y)
            }
        }),
        c.after_byte(font, 127) == c.after_byte(font, 8),
{
    let all = seq![c.cleared()];
    assert(all.drop_last() =~= Seq::empty());
    assert(all.last() == c.cleared());
    if c.cursor_col > 0 {
        let cell = c.cleared_cell(c.cursor_col - 1, c.cursor_row as int);
        let one = seq![cell];
        assert(one.drop_last() =~= Seq::empty());
        assert(one.last() == cell);
        assert(c.after_byte(font, 8).1 =~= one);
        assert(cell.x == (c.cursor_col - 1) * 17 && cell.y == c.cursor_row * 32);
        assert(cell.value == 0);
        assert(painted(screen, one.drop_last()) == screen);
        assert(painted(screen, one)(x, y) == if covers(cell, x, y) {
            0
        } else {
            screen(x, y)
        });
    }
}

/// Writing is writing piece by piece.
pub proof fn law_pieces_are_written_in_order(
    c: GopConsole,
    font: Seq<u8>,
    a: Seq<u8>,
    b: Seq<u8>,
    byte: u8,
)
    ensures
        ({
            let (d, first) = c.after_bytes(font, a);
            let (e, second) = d.after_bytes(font, b);
            c.after_bytes(font, a + b) == (e, first + second)
        }),
        c.after_bytes(font, seq![byte]) == c.after_byte(font, byte),
    decreases b.len(),
{
    let one = seq![byte];
    let none = Seq::<Rect>::empty();
    assert(one.drop_last() =~= Seq::empty());
    assert(c.after_bytes(font, one.drop_last()) == (c, none));
    assert(one.last() == byte);
    assert(none + c.after_byte(font, byte).1 =~= c.after_byte(font, byte).1);
    let (d, first) = c.after_bytes(font, a);
    if b.len() == 0 {
        assert(a + b =~= a);
        assert(first + Seq::<Rect>::empty() =~= first);
    } else {
        law_pieces_are_written_in_order(c, font, a, b.drop_last(), byte);
        assert((a + b).drop_last() =~= a + b.drop_last());
        let (e, second) = d.after_bytes(font, b.drop_last());
        let third = e.after_byte(font, b.last()).1;
        assert((first + second) + third =~= first + (second + third));
    }
}

/// A row that is full is left by the next character, as if a line feed came before it; a tab
/// is four blanks; and a byte that is no character is shown as a question mark.
pub proof fn law_other_bytes(c: GopConsole, font: Seq<u8>, byte: u8)
    requires
        c.wf(),
    ensures
        c.cursor_col == c.cols && 0x20 <= byte <= 0x7e ==> c.after_byte(font, byte)
            == c.after_bytes(font, seq![0x0au8, byte]),
        c.after_byte(font, 9) == c.after_bytes(font, seq![0x20u8, 0x20u8, 0x20u8, 0x20u8]),
        byte != 8 && byte != 9 && byte != 10 && byte != 12 && byte != 13 && !(0x20 <= byte <= 0x7f)
            ==> c.after_byte(font, byte) == c.after_byte(font, 0x3f),
{
    let pair = seq![0x0au8, byte];
    law_pieces_are_written_in_order(c, font, seq![0x0au8], seq![byte], 0x0a);
    assert(seq![0x0au8] + seq![byte] =~= pair);
    let d = c.after_newline().0;
    law_pieces_are_written_in_order(d, font, Seq::empty(), Seq::empty(), byte);
    if c.cursor_col == c.cols && 0x20 <= byte <= 0x7e {
        let e = Seq::<Rect>::empty();
        let dots = d.glyph_dots(font, byte);
        assert(e + dots =~= dots);
    }
    let s1 = seq![0x20u8];
    let s2 = seq![0x20u8, 0x20u8];
    let s3 = seq![0x20u8, 0x20u8, 0x20u8];
    let s4 = seq![0x20u8, 0x20u8, 0x20u8, 0x20u8];
    assert(s4.drop_last() =~= s3 && s3.drop_last() =~= s2 && s2.drop_last() =~= s1
        && s1.drop_last() =~= Seq::empty());
    reveal_with_fuel(GopConsole::after_blanks, 5);
    reveal_with_fuel(GopConsole::after_bytes, 5);
}

/// The number of a cell, row by row, with one more place behind the end of each row.
pub open spec fn place(c: GopConsole) -> int {
    c.cursor_row * (c.cols + 1) + c.cursor_col
}

/// The number of the cell that a rectangle begins in.
pub open spec fn cell_of(c: GopConsole, r: Rect) -> int {
    r.y as int / 32 * (c.cols + 1) + r.x as int / 17
}

/// Whether a rectangle clears the whole screen.
pub open spec fn clears(c: GopConsole, r: Rect) -> bool {
    r.x == 0 && r.y == 0 && r.width == c.info.width && r.height == c.info.height
}

/// Whether what a byte draws lies between the cursor before and the cursor after it.
spec fn between(c: GopConsole, d: GopConsole, rects: Seq<Rect>) -> bool {
    &&& d.wf()
    &&& d.info == c.info
    &&& place(c) <= place(d)
    &&& forall|i: int| 0 <= i < rects.len() ==> place(c) <= #[trigger] cell_of(c, rects[i])
        < place(d)
}

spec fn clears_none(c: GopConsole, rects: Seq<Rect>) -> bool {
    forall|i: int| 0 <= i < rects.len() ==> !clears(c, #[trigger] rects[i])
}

proof fn lemma_glyph_between(c: GopConsole, font: Seq<u8>, byte: u8)
    requires
        c.wf(),
        clears_none(c, c.after_glyph(font, byte).1),
    ensures
        between(c, c.after_glyph(font, byte).0, c.after_glyph(font, byte).1),
{
    let (d, before) = if c.cursor_col >= c.cols {
        c.after_newline()
    } else {
        (c, Seq::empty())
    };
    let dots = d.glyph_dots(font, byte);
    let all = c.after_glyph(font, byte).1;
    assert(all =~= before + dots);
    if before.len() > 0 {
        assert(all[0] == c.cleared());
        assert(clears(c, all[0]));
    }
    let w = c.cols + 1;
    let r = c.cursor_row as int;
    assert((r + 1) * w == r * w + w) by (nonlinear_arith);
    assert(place(c) <= place(d));
    assert forall|i: int| 0 <= i < all.len() implies place(c) <= #[trigger] cell_of(c, all[i])
        < place(c.after_glyph(font, byte).0) by {
        let dot = dots[i];
        assert(all[i] == dot);
        assert(0 <= i / 8 < 16 && 0 <= i % 8 < 8);
        assert(dot.x == d.cursor_col * 17 + i % 8 * 2);
        assert(dot.y == d.cursor_row * 32 + i / 8 * 2);
        assert(dot.x as int / 17 == d.cursor_col);
        assert(dot.y as int / 32 == d.cursor_row);
    }
}

proof fn lemma_join(c: GopConsole, d: GopConsole, e: GopConsole, a: Seq<Rect>, b: Seq<Rect>)
    requires
        c.wf(),
        between(c, d, a),
        between(d, e, b),
    ensures
        between(c, e, a + b),
{
    assert forall|i: int| 0 <= i < (a + b).len() implies place(c) <= #[trigger] cell_of(
        c,
        (a + b)[i],
    ) < place(e) by {
        if i < a.len() {
            assert(cell_of(c, a[i]) < place(d));
        } else {
            assert(cell_of(d, b[i - a.len()]) >= place(d));
        }
    }
}

proof fn lemma_blanks_between(c: GopConsole, font: Seq<u8>, n: nat)
    requires
        c.wf(),
        clears_none(c, c.after_blanks(font, n).1),
    ensures
        between(c, c.after_blanks(font, n).0, c.after_blanks(font, n).1),
    decreases n,
{
    if n > 0 {
        let (d, before) = c.after_blanks(font, (n - 1) as nat);
        let (e, more) = d.after_glyph(font, 0x20);
        let all = before + more;
        assert forall|i: int| 0 <= i < before.len() implies !clears(c, #[trigger] before[i]) by {
            assert(all[i] == before[i]);
        }
        lemma_blanks_between(c, font, (n - 1) as nat);
        assert forall|i: int| 0 <= i < more.len() implies !clears(d, #[trigger] more[i]) by {
            assert(all[before.len() + i] == more[i]);
        }
        lemma_glyph_between(d, font, 0x20);
        lemma_join(c, d, e, before, more);
    }
}

/// Whether no byte goes back: no backspace, no delete, no carriage return, no form feed.
pub open spec fn goes_on(bytes: Seq<u8>) -> bool {
    forall|i: int|
        0 <= i < bytes.len() ==> #[trigger] bytes[i] != 8 && bytes[i] != 127 && bytes[i] != 13
            && bytes[i] != 12
}

proof fn lemma_bytes_between(c: GopConsole, font: Seq<u8>, b: Seq<u8>)
    requires
        c.wf(),
        goes_on(b),
        clears_none(c, c.after_bytes(font, b).1),
    ensures
        between(c, c.after_bytes(font, b).0, c.after_bytes(font, b).1),
    decreases b.len(),
{
    if b.len() > 0 {
        let (d, before) = c.after_bytes(font, b.drop_last());
        let byte = b.last();
        let (e, more) = d.after_byte(font, byte);
        let all = before + more;
        assert(b[b.len() - 1] == byte);
        assert(goes_on(b.drop_last())) by {
            assert forall|i: int| 0 <= i < b.drop_last().len() implies #[trigger] b.drop_last()[i]
                != 8 && b.drop_last()[i] != 127 && b.drop_last()[i] != 13 && b.drop_last()[i]
                != 12 by {
                assert(b[i] == b.drop_last()[i]);
            }
        }
        assert forall|i: int| 0 <= i < before.len() implies !clears(c, #[trigger] before[i]) by {
            assert(all[i] == before[i]);
        }
        lemma_bytes_between(c, font, b.drop_last());
        assert forall|i: int| 0 <= i < more.len() implies !clears(d, #[trigger] more[i]) by {
            assert(all[before.len() + i] == more[i]);
        }
        if byte == 0x0a {
            let w = d.cols + 1;
            let r = d.cursor_row as int;
            assert((r + 1) * w == r * w + w) by (nonlinear_arith);
            if more.len() > 0 {
                assert(clears(d, more[0]));
            }
        } else if byte == 9 {
            lemma_blanks_between(d, font, 4);
        } else if 0x20 <= byte <= 0x7e {
            lemma_glyph_between(d, font, byte);
        } else {
            lemma_glyph_between(d, font, 0x3f);
        }
        lemma_join(c, d, e, before, more);
    }
}

/// As long as no byte goes back and the screen is not cleared, no cell is drawn twice: all that
/// is drawn for the first bytes stands in cells before the cursor behind them, and all that is
/// drawn later in cells from there on. Behind a line feed, that is in the rows below.
pub proof fn law_no_cell_is_drawn_twice(c: GopConsole, font: Seq<u8>, a: Seq<u8>, b: Seq<u8>)
    requires
        c.wf(),
        goes_on(a),
        goes_on(b),
        forall|i: int|
            0 <= i < c.after_bytes(font, a + b).1.len() ==> !clears(
                c,
                #[trigger] c.after_bytes(font, a + b).1[i],
            ),
    ensures
        ({
            let (d, first) = c.after_bytes(font, a);
            let (e, second) = d.after_bytes(font, b);
            &&& c.after_bytes(font, a + b) == (e, first + second)
            &&& place(c) <= place(d) <= place(e)
            &&& forall|i: int| 0 <= i < first.len() ==> #[trigger] cell_of(c, first[i]) < place(d)
            &&& forall|i: int|
                0 <= i < second.len() ==> place(d) <= #[trigger] cell_of(c, second[i])
            &&& a.len() > 0 && a.last() == 0x0a ==> d.cursor_col == 0 && d.cursor_row
                == c.after_bytes(font, a.drop_last()).0.cursor_row + 1
        }),
{
    law_pieces_are_written_in_order(c, font, a, b, 0);
    let (d, first) = c.after_bytes(font, a);
    let (e, second) = d.after_bytes(font, b);
    let all = first + second;
    assert(c.after_bytes(font, a + b).1 == all);
    assert forall|i: int| 0 <= i < first.len() implies !clears(c, #[trigger] first[i]) by {
        assert(c.after_bytes(font, a + b).1[i] == first[i]);
    }
    lemma_bytes_between(c, font, a);
    assert forall|i: int| 0 <= i < second.len() implies !clears(d, #[trigger] second[i]) by {
        assert(c.after_bytes(font, a + b).1[first.len() + i] == second[i]);
    }
    lemma_bytes_between(d, font, b);
    assert forall|i: int| 0 <= i < second.len() implies place(d) <= #[trigger] cell_of(
        c,
        second[i],
    ) by {
        assert(place(d) <= cell_of(d, second[i]));
    }
    if a.len() > 0 && a.last() == 0x0a {
        let (f, before) = c.after_bytes(font, a.drop_last());
        let more = f.after_byte(font, 0x0a).1;
        assert forall|i: int| 0 <= i < before.len() implies !clears(c, #[trigger] before[i]) by {
            assert(first[i] == before[i]);
        }
        assert(goes_on(a.drop_last())) by {
            assert forall|i: int| 0 <= i < a.drop_last().len() implies #[trigger] a.drop_last()[i]
                != 8 && a.drop_last()[i] != 127 && a.drop_last()[i] != 13 && a.drop_last()[i]
                != 12 by {
                assert(a[i] == a.drop_last()[i]);
            }
        }
        lemma_bytes_between(c, font, a.drop_last());
        if more.len() > 0 {
            assert(first[before.len() as int] == more[0]);
            assert(clears(f, more[0]));
        }
    }
}

/// The color of a pixel is that of its value, read the way the pixels are laid out: with blue
/// first the value is the color, with red first its outer bytes change places.
pub proof fn law_pixels_have_their_color(color: u32)
    requires
        color < 0x100_0000,
    ensures
        gop::pixel(FramebufferFormat::Bgr, color) == Some(color),
        gop::pixel(FramebufferFormat::Rgb, color) matches Some(v) && v % 256 == color / 0x1_0000
            && v / 256 % 256 == color / 256 % 256 && v / 0x1_0000 == color % 256,
        gop::pixel(FramebufferFormat::Unknown, color) is None,
{
}

} // verus!
