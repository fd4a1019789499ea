//! The console on the screen.

use vstd::prelude::*;

verus! {

pub const GLYPH_WIDTH: u64 = 8;

pub const FONT_HEIGHT: u64 = 16;

/// How often each pixel of a glyph is repeated, both ways.
pub const FONT_SCALE: u64 = 2;

pub const CELL_WIDTH: u64 = 17;

pub const CELL_HEIGHT: u64 = 32;

pub const FG_COLOR: u32 = 0x00ff_ff00;

pub const BG_COLOR: u32 = 0;

/// How pixels are laid out.
#[derive(Clone, Copy, Debug, PartialEq, Eq, Structural)]
pub enum FramebufferFormat {
    Rgb,
    Bgr,
    Unknown,
}

/// The memory of the screen.
#[derive(Clone, Copy, Debug, PartialEq, Eq, Structural)]
pub struct FramebufferInfo {
    pub address: u64,
    pub width: u64,
    pub height: u64,
    /// How many pixels lie between two rows.
    pub stride: u64,
    pub format: FramebufferFormat,
}

/// A rectangle to fill with a pixel's value.
#[derive(Clone, Copy, Debug, PartialEq, Eq, Structural)]
pub struct Rect {
    pub x: u64,
    pub y: u64,
    pub width: u64,
    pub height: u64,
    pub value: u32,
}

/// The value of a pixel of a color.
pub open spec fn pixel(format: FramebufferFormat, color: u32) -> Option<u32> {
    match format {
        FramebufferFormat::Rgb => Some(
            (color % 256 * 0x1_0000 + color / 256 % 256 * 256 + color / 0x1_0000 % 256) as u32,
        ),
        FramebufferFormat::Bgr => Some(color),
        FramebufferFormat::Unknown => None,
    }
}

/// Encodes a color.
pub fn encode_pixel(format: FramebufferFormat, color: u32) -> (r: Option<u32>)
    ensures
        r == pixel(format, color),
{
    match format {
        FramebufferFormat::Rgb => Some(
            color % 256 * 0x1_0000 + color / 256 % 256 * 256 + color / 0x1_0000 % 256,
        ),
        FramebufferFormat::Bgr => Some(color),
        FramebufferFormat::Unknown => None,
    }
}

/// The console on the screen: cells, and the cursor.
#[derive(Clone, Copy, Debug, PartialEq, Eq, Structural)]
pub struct GopConsole {
    pub info: FramebufferInfo,
    pub cursor_col: u64,
    pub cursor_row: u64,
    pub cols: u64,
    pub rows: u64,
}

/// Where the glyph of a byte begins in a font that begins with the blank.
pub open spec fn glyph_start(font: Seq<u8>, byte: u8) -> int {
    let wanted = if byte < 0x20 {
        0
    } else {
        byte - 0x20
    };
    let last = font.len() as int / FONT_HEIGHT as int - 1;
    (if wanted < last {
        wanted
    } else {
        last
    }) * FONT_HEIGHT
}

/// The bit of a column of a glyph's row.
pub open spec fn column_bit(col: int) -> u8 {
    if col == 0 {
        0x80
    } else if col == 1 {
        0x40
    } else if col == 2 {
        0x20
    } else if col == 3 {
        0x10
    } else if col == 4 {
        8
    } else if col == 5 {
        4
    } else if col == 6 {
        2
    } else {
        1
    }
}

fn bit_of_column(col: u64) -> (r: u8)
    requires
        col < 8,
    ensures
        r == column_bit(col as int),
{
    if col == 0 {
        0x80
    } else if col == 1 {
        0x40
    } else if col == 2 {
        0x20
    } else if col == 3 {
        0x10
    } else if col == 4 {
        8
    } else if col == 5 {
        4
    } else if col == 6 {
        2
    } else {
        1
    }
}

impl GopConsole {
    /// The cells fit on the screen, and the cursor is in them or behind a row's end.
    pub open spec fn wf(self) -> bool {
        &&& self.cols == self.info.width / CELL_WIDTH
        &&& self.rows == self.info.height / CELL_HEIGHT
        &&& self.cols >= 1
        &&& self.rows >= 1
        &&& self.cursor_row < self.rows
        &&& self.cursor_col <= self.cols
        &&& pixel(self.info.format, 0) is Some
    }

    /// The value of a pixel of a color.
    pub open spec fn value_of(self, color: u32) -> u32 {
        pixel(self.info.format, color)->0
    }

    pub open spec fn at(self, col: int, row: int) -> GopConsole {
        GopConsole { cursor_col: col as u64, cursor_row: row as u64, ..self }
    }

    /// The whole screen, cleared.
    pub open spec fn cleared(self) -> Rect {
        Rect {
            x: 0,
            y: 0,
            width: self.info.width,
            height: self.info.height,
            value: self.value_of(BG_COLOR),
        }
    }

    /// A cell, cleared.
    pub open spec fn cleared_cell(self, col: int, row: int) -> Rect {
        Rect {
            x: (col * CELL_WIDTH) as u64,
            y: (row * CELL_HEIGHT) as u64,
            width: CELL_WIDTH,
            height: CELL_HEIGHT,
            value: self.value_of(BG_COLOR),
        }
    }

    /// A pixel of a glyph in the cell of the cursor.
    pub open spec fn glyph_dot(self, bits: u8, row: int, col: int) -> Rect {
        Rect {
            x: (self.cursor_col * CELL_WIDTH + col * FONT_SCALE) as u64,
            y: (self.cursor_row * CELL_HEIGHT + row * FONT_SCALE) as u64,
            width: FONT_SCALE,
            height: FONT_SCALE,
            value: self.value_of(
                if bits & column_bit(col) != 0 {
                    FG_COLOR
                } else {
                    BG_COLOR
                },
            ),
        }
    }

    /// The pixels of a byte's glyph, row by row.
    pub open spec fn glyph_dots(self, font: Seq<u8>, byte: u8) -> Seq<Rect> {
        Seq::new(
            128,
            |i: int| self.glyph_dot(font[glyph_start(font, byte) + i / 8], i / 8, i % 8),
        )
    }

    /// After a new line: the screen is cleared when the last row was left.
    pub open spec fn after_newline(self) -> (GopConsole, Seq<Rect>) {
        if self.cursor_row + 1 >= self.rows {
            (self.at(0, 0), seq![self.cleared()])
        } else {
            (self.at(0, self.cursor_row + 1), Seq::empty())
        }
    }

    /// After a glyph was drawn: on a new line if the cursor was behind the end of one.
    pub open spec fn after_glyph(self, font: Seq<u8>, byte: u8) -> (GopConsole, Seq<Rect>) {
        let (c, before) = if self.cursor_col >= self.cols {
            self.after_newline()
        } else {
            (self, Seq::empty())
        };
        (
            c.at(c.cursor_col + 1, c.cursor_row as int),
            before + c.glyph_dots(font, byte),
        )
    }

    /// After as many blanks.
    pub open spec fn after_blanks(self, font: Seq<u8>, n: nat) -> (GopConsole, Seq<Rect>)
        decreases n,
    {
        if n == 0 {
            (self, Seq::empty())
        } else {
            let (c, before) = self.after_blanks(font, (n - 1) as nat);
            let (d, more) = c.after_glyph(font, 0x20);
            (d, before + more)
        }
    }

    /// After a byte was written.
    pub open spec fn after_byte(self, font: Seq<u8>, byte: u8) -> (GopConsole, Seq<Rect>) {
        if byte == 0x0c {
            (self.at(0, 0), seq![self.cleared()])
        } else if byte == 0x0a {
            self.after_newline()
        } else if byte == 0x0d {
            (self.at(0, self.cursor_row as int), Seq::empty())
        } else if byte == 0x08 || byte == 0x7f {
            if self.cursor_col > 0 {
                let c = self.at(self.cursor_col - 1, self.cursor_row as int);
                (c, seq![c.cleared_cell(c.cursor_col as int, c.cursor_row as int)])
            } else {
                (self, Seq::empty())
            }
        } else if byte == 0x09 {
            self.after_blanks(font, 4)
        } else if 0x20 <= byte <= 0x7e {
            self.after_glyph(font, byte)
        } else {
            self.after_glyph(font, 0x3f)
        }
    }

    /// After bytes were written.
    pub open spec fn after_bytes(self, font: Seq<u8>, bytes: Seq<u8>) -> (GopConsole, Seq<Rect>)
        decreases bytes.len(),
    {
        if bytes.len() == 0 {
            (self, Seq::empty())
        } else {
            let (c, before) = self.after_bytes(font, bytes.drop_last());
            let (d, more) = c.after_byte(font, bytes.last());
            (d, before + more)
        }
    }

    /// A console on a screen that is large enough and whose pixels are understood, and what is
    /// drawn when it is made: every pixel of the screen is cleared.
    pub fn new(info: Option<FramebufferInfo>) -> (r: Option<(GopConsole, Rect)>)
        ensures
            match info {
                Some(i) => if i.width >= CELL_WIDTH && i.height >= CELL_HEIGHT && i.format
                    != FramebufferFormat::Unknown {
                    r matches Some((c, rect)) && c.wf() && c.info == i && c.cols == i.width
                        / CELL_WIDTH && c.rows == i.height / CELL_HEIGHT && c.cursor_col == 0
                        && c.cursor_row == 0 && rect == c.cleared() && rect == (Rect {
                        x: 0,
                        y: 0,
                        width: i.width,
                        height: i.height,
                        value: 0,
                    })
                } else {
                    r is None
                },
                None => r is None,
            },
    {
        match info {
            Some(info) => {
                if info.width < CELL_WIDTH || info.height < CELL_HEIGHT {
                    return None;
                }
                match info.format {
                    FramebufferFormat::Unknown => None,
                    _ => {
                        let c = GopConsole {
                            cols: info.width / CELL_WIDTH,
                            rows: info.height / CELL_HEIGHT,
                            info,
                            cursor_col: 0,
                            cursor_row: 0,
                        };
                        let rect = c.clear_screen();
                        Some((c, rect))
                    },
                }
            },
            None => None,
        }
    }

    fn value(&self, color: u32) -> (r: u32)
        requires
            self.wf(),
        ensures
            r == self.value_of(color),
    {
        match encode_pixel(self.info.format, color) {
            Some(v) => v,
            None => 0,
        }
    }

    /// What clears the screen.
    pub fn clear_screen(&self) -> (r: Rect)
        requires
            self.wf(),
        ensures
            r == self.cleared(),
    {
        Rect {
            x: 0,
            y: 0,
            width: self.info.width,
            height: self.info.height,
            value: self.value(BG_COLOR),
        }
    }

    fn newline(&mut self, out: &mut Vec<Rect>)
        requires
            old(self).wf(),
        ensures
            *final(self) == old(self).after_newline().0,
            final(self).wf(),
            final(out)@ == old(out)@ + old(self).after_newline().1,
            final(self).cursor_col == 0,
    {
        self.cursor_col = 0;
        if self.cursor_row + 1 >= self.rows {
            out.push(self.clear_screen());
            self.cursor_row = 0;
        } else {
            self.cursor_row = self.cursor_row + 1;
        }
        assert(out@ =~= old(out)@ + old(self).after_newline().1);
    }

    fn draw_glyph(&mut self, font: &[u8], byte: u8, out: &mut Vec<Rect>)
        requires
            old(self).wf(),
            font@.len() >= FONT_HEIGHT,
        ensures
            *final(self) == old(self).after_glyph(font@, byte).0,
            final(self).wf(),
            final(out)@ == old(out)@ + old(self).after_glyph(font@, byte).1,
    {
        if self.cursor_col >= self.cols {
            self.newline(out);
        }
        let ghost start = out@;
        let ghost c = *self;
        assert(start =~= old(out)@ + (if old(self).cursor_col >= old(self).cols {
            old(self).after_newline().1
        } else {
            Seq::empty()
        }));
        let wanted: usize = if byte < 0x20 {
            0
        } else {
            (byte - 0x20) as usize
        };
        let last: usize = font.len() / 16 - 1;
        let index: usize = if wanted < last {
            wanted
        } else {
            last
        };
        let base: usize = index * 16;
        let x0: u64 = self.cursor_col * CELL_WIDTH;
        let y0: u64 = self.cursor_row * CELL_HEIGHT;
        let fg: u32 = self.value(FG_COLOR);
        let bg: u32 = self.value(BG_COLOR);
        let mut i: u64 = 0;
        while i < 128
            invariant
                i <= 128,
                self.wf(),
                *self == c,
                self.cursor_col < self.cols,
                x0 == self.cursor_col * CELL_WIDTH,
                y0 == self.cursor_row * CELL_HEIGHT,
                fg == self.value_of(FG_COLOR),
                bg == self.value_of(BG_COLOR),
                base == glyph_start(font@, byte),
                base + 16 <= font.len(),
                out@ == start + c.glyph_dots(font@, byte).take(i as int),
            decreases 128 - i,
        {
            let row: u64 = i / 8;
            let col: u64 = i % 8;
            let bits: u8 = font[base + row as usize];
            out.push(
                Rect {
                    x: x0 + col * FONT_SCALE,
                    y: y0 + row * FONT_SCALE,
                    width: FONT_SCALE,
                    height: FONT_SCALE,
                    value: if bits & bit_of_column(col) != 0 {
                        fg
                    } else {
                        bg
                    },
                },
            );
            proof {
                let dots = c.glyph_dots(font@, byte);
                assert(dots[i as int] == c.glyph_dot(bits, row as int, col as int));
                assert(out@ =~= start + dots.take(i + 1));
            }
            i = i + 1;
        }
        assert(c.glyph_dots(font@, byte).take(128) =~= c.glyph_dots(font@, byte));
        self.cursor_col = self.cursor_col + 1;
        assert(out@ =~= old(out)@ + old(self).after_glyph(font@, byte).1);
    }

    fn tab(&mut self, font: &[u8], out: &mut Vec<Rect>)
        requires
            old(self).wf(),
            font@.len() >= FONT_HEIGHT,
        ensures
            *final(self) == old(self).after_blanks(font@, 4).0,
            final(self).wf(),
            final(out)@ == old(out)@ + old(self).after_blanks(font@, 4).1,
    {
        let mut n: u32 = 0;
        assert(out@ =~= old(out)@ + old(self).after_blanks(font@, 0).1);
        while n < 4
            invariant
                n <= 4,
                self.wf(),
                font@.len() >= FONT_HEIGHT,
                *self == old(self).after_blanks(font@, n as nat).0,
                out@ == old(out)@ + old(self).after_blanks(font@, n as nat).1,
            decreases 4 - n,
        {
            self.draw_glyph(font, 0x20, out);
            n = n + 1;
            assert(out@ =~= old(out)@ + old(self).after_blanks(font@, n as nat).1);
        }
    }

    /// Writes a byte, and adds what is to be drawn.
    pub fn write_byte(&mut self, font: &[u8], byte: u8, out: &mut Vec<Rect>)
        requires
            old(self).wf(),
            font@.len() >= FONT_HEIGHT,
        ensures
            *final(self) == old(self).after_byte(font@, byte).0,
            final(self).wf(),
            final(out)@ == old(out)@ + old(self).after_byte(font@, byte).1,
    {
        if byte == 0x0c {
            out.push(self.clear_screen());
            self.cursor_col = 0;
            self.cursor_row = 0;
        } else if byte == 0x0a {
            self.newline(out);
        } else if byte == 0x0d {
            self.cursor_col = 0;
        } else if byte == 0x08 || byte == 0x7f {
            if self.cursor_col > 0 {
                self.cursor_col = self.cursor_col - 1;
                out.push(
                    Rect {
                        x: self.cursor_col * CELL_WIDTH,
                        y: self.cursor_row * CELL_HEIGHT,
                        width: CELL_WIDTH,
                        height: CELL_HEIGHT,
                        value: self.value(BG_COLOR),
                    },
                );
            }
        } else if byte == 0x09 {
            self.tab(font, out);
        } else if byte >= 0x20 && byte <= 0x7e {
            self.draw_glyph(font, byte, out);
        } else {
            self.draw_glyph(font, 0x3f, out);
        }
        assert(out@ =~= old(out)@ + old(self).after_byte(font@, byte).1);
    }

    /// Writes bytes, and gives what is to be drawn, in its order.
    pub fn write(&mut self, font: &[u8], buf: &[u8]) -> (r: Vec<Rect>)
        requires
            old(self).wf(),
            font@.len() >= FONT_HEIGHT,
        ensures
            *final(self) == old(self).after_bytes(font@, buf@).0,
            final(self).wf(),
            r@ == old(self).after_bytes(font@, buf@).1,
    {
        let mut out: Vec<Rect> = Vec::new();
        let mut i: usize = 0;
        assert(buf@.take(0) =~= Seq::<u8>::empty());
        while i < buf.len()
            invariant
                i <= buf.len(),
                self.wf(),
                font@.len() >= FONT_HEIGHT,
                *self == old(self).after_bytes(font@, buf@.take(i as int)).0,
                out@ == old(self).after_bytes(font@, buf@.take(i as int)).1,
            decreases buf.len() - i,
        {
            self.write_byte(font, buf[i], &mut out);
            i = i + 1;
            assert(buf@.take(i as int).drop_last() =~= buf@.take(i - 1));
        }
        assert(buf@.take(i as int) =~= buf@);
        out
    }
}

/// Writes bytes to the console, if there is one, and gives what is to be drawn.
pub fn write_bytes(console: &mut Option<GopConsole>, font: &[u8], buf: &[u8]) -> (r: Vec<Rect>)
    requires
        *old(console) matches Some(c) ==> c.wf(),
        font@.len() >= FONT_HEIGHT,
    ensures
        match *old(console) {
            Some(c) => *final(console) == Some(c.after_bytes(font@, buf@).0) && r@
                == c.after_bytes(font@, buf@).1,
            None => *final(console) is None && r@.len() == 0,
        },
        *final(console) matches Some(c) ==> c.wf(),
{
    match *console {
        Some(mut c) => {
            let r = c.write(font, buf);
            *console = Some(c);
            r
        },
        None => Vec::new(),
    }
}

/// The square that marks how far the kernel has come.
pub fn kernel_gop_marker(info: Option<FramebufferInfo>, index: u32, color: u32) -> (r: Option<Rect>)
    ensures
        r == (match info {
            Some(i) => match pixel(i.format, color) {
                Some(value) => Some(
                    Rect { x: (index * 40) as u64, y: 0, width: 32, height: 32, value },
                ),
                None => None,
            },
            None => None::<Rect>,
        }),
{
    match info {
        Some(i) => match encode_pixel(i.format, color) {
            Some(value) => Some(
                Rect { x: index as u64 * 40, y: 0, width: 32, height: 32, value },
            ),
            None => None,
        },
        None => None,
    }
}

/// Whether a rectangle lies on the screen.
pub open spec fn on_screen(info: FramebufferInfo, r: Rect) -> bool {
    r.x + r.width <= info.width && r.y + r.height <= info.height
}

proof fn lemma_newline_stays(c: GopConsole)
    requires
        c.wf(),
    ensures
        c.after_newline().0.wf(),
        c.after_newline().0.info == c.info,
        forall|i: int|
            0 <= i < c.after_newline().1.len() ==> on_screen(
                c.info,
                #[trigger] c.after_newline().1[i],
            ),
{
}

proof fn lemma_glyph_stays(c: GopConsole, font: Seq<u8>, byte: u8)
    requires
        c.wf(),
    ensures
        c.after_glyph(font, byte).0.wf(),
        c.after_glyph(font, byte).0.info == c.info,
        forall|i: int|
            0 <= i < c.after_glyph(font, byte).1.len() ==> on_screen(
                c.info,
                #[trigger] c.after_glyph(font, byte).1[i],
            ),
{
    lemma_newline_stays(c);
    let (d, before) = if c.cursor_col >= c.cols {
        c.after_newline()
    } else {
        (c, Seq::empty())
    };
    let dots = d.glyph_dots(font, byte);
    assert forall|i: int| 0 <= i < dots.len() implies on_screen(c.info, #[trigger] dots[i]) by {
        assert(0 <= i / 8 < 16 && 0 <= i % 8 < 8);
    }
    let all = c.after_glyph(font, byte).1;
    assert(all =~= before + dots);
    assert forall|i: int| 0 <= i < all.len() implies on_screen(c.info, #[trigger] all[i]) by {
        if i >= before.len() {
            assert(all[i] == dots[i - before.len()]);
        }
    }
}

proof fn lemma_blanks_stay(c: GopConsole, font: Seq<u8>, n: nat)
    requires
        c.wf(),
    ensures
        c.after_blanks(font, n).0.wf(),
        c.after_blanks(font, n).0.info == c.info,
        forall|i: int|
            0 <= i < c.after_blanks(font, n).1.len() ==> on_screen(
                c.info,
                #[trigger] c.after_blanks(font, n).1[i],
            ),
    decreases n,
{
    if n > 0 {
        lemma_blanks_stay(c, font, (n - 1) as nat);
        let (d, before) = c.after_blanks(font, (n - 1) as nat);
        lemma_glyph_stays(d, font, 0x20);
        let more = d.after_glyph(font, 0x20).1;
        let all = c.after_blanks(font, n).1;
        assert(all =~= before + more);
        assert forall|i: int| 0 <= i < all.len() implies on_screen(c.info, #[trigger] all[i]) by {
            if i >= before.len() {
                assert(all[i] == more[i - before.len()]);
            }
        }
    }
}

/// Whatever is written, nothing is drawn beside the screen, and the cursor stays in it.
pub proof fn law_drawing_stays_on_screen(c: GopConsole, font: Seq<u8>, byte: u8)
    requires
        c.wf(),
    ensures
        c.after_byte(font, byte).0.wf(),
        c.after_byte(font, byte).0.info == c.info,
        forall|i: int|
            0 <= i < c.after_byte(font, byte).1.len() ==> on_screen(
                c.info,
                #[trigger] c.after_byte(font, byte).1[i],
            ),
{
    lemma_newline_stays(c);
    lemma_blanks_stay(c, font, 4);
    lemma_glyph_stays(c, font, byte);
    lemma_glyph_stays(c, font, 0x3f);
}

} // verus!
