//! The framebuffer text console: 8x8 glyphs on a pixel buffer, with wrapping,
//! scrolling and backspace.

use vstd::prelude::*;
use font8x8::UnicodeFonts;

verus! {

pub const CHAR_WIDTH: usize = 8;
pub const CHAR_HEIGHT: usize = 8;

/// How the bytes of a pixel are laid out.
#[derive(Debug, Clone, Copy, PartialEq, Eq, Structural)]
pub enum PixelFormat {
    Rgb,
    Bgr,
    U8,
    Unknown,
}

/// The geometry of a framebuffer.
#[derive(Debug, Clone, Copy, PartialEq, Eq, Structural)]
pub struct FrameBufferInfo {
    pub byte_len: usize,
    pub width: usize,
    pub height: usize,
    pub pixel_format: PixelFormat,
    pub bytes_per_pixel: usize,
    pub stride: usize,
}

/// Geometry under which the console's index arithmetic cannot overflow and every
/// known pixel format has at least one byte per pixel.
pub open spec fn info_wf(info: FrameBufferInfo) -> bool {
    &&& (info.bytes_per_pixel >= 1 || info.pixel_format == PixelFormat::Unknown)
    &&& info.height * info.stride + info.width <= usize::MAX
    &&& (info.height * info.stride + info.width) * info.bytes_per_pixel <= usize::MAX
    &&& info.stride * info.bytes_per_pixel * CHAR_HEIGHT <= usize::MAX
}

pub open spec fn max_columns(info: FrameBufferInfo) -> nat {
    info.width as nat / CHAR_WIDTH as nat
}

pub open spec fn max_rows(info: FrameBufferInfo) -> nat {
    info.height as nat / CHAR_HEIGHT as nat
}

/// The buffer after one pixel is set (`on`: white, else black).
pub open spec fn pixel_written(buf: Seq<u8>, info: FrameBufferInfo, x: int, y: int, on: bool) -> Seq<u8> {
    let bpp = info.bytes_per_pixel as int;
    let offset = (y * info.stride + x) * bpp;
    if x >= info.width || y >= info.height || offset + bpp > buf.len() {
        buf
    } else {
        let color: u8 = if on { 0xff } else { 0x00 };
        match info.pixel_format {
            PixelFormat::Rgb | PixelFormat::Bgr => {
                let b1 = buf.update(offset, color);
                let b2 = if bpp > 1 { b1.update(offset + 1, color) } else { b1 };
                let b3 = if bpp > 2 { b2.update(offset + 2, color) } else { b2 };
                if bpp > 3 { b3.update(offset + 3, 0) } else { b3 }
            },
            PixelFormat::U8 => buf.update(offset, color),
            PixelFormat::Unknown => Seq::new(buf.len(), |i: int| if offset <= i < offset + bpp { 0u8 } else { buf[i] }),
        }
    }
}

/// Bit `bit` of a glyph row.
pub open spec fn glyph_bit(row_bits: u8, bit: int) -> bool {
    row_bits & (1u8 << (bit as u8)) != 0
}

/// The buffer after the first `k` pixels of a glyph (row by row, left to right) are
/// drawn with its top-left corner at (`ox`, `oy`).
pub open spec fn glyph_drawn(buf: Seq<u8>, info: FrameBufferInfo, ox: int, oy: int, glyph: Seq<u8>, k: int) -> Seq<u8>
    decreases k,
{
    if k <= 0 {
        buf
    } else {
        let j = k - 1;
        pixel_written(glyph_drawn(buf, info, ox, oy, glyph, j), info, ox + j % 8, oy + j / 8, glyph_bit(glyph[j / 8], j % 8))
    }
}

/// The buffer moved up by one text row, the freed bottom row black; all black when
/// a text row is not smaller than the buffer.
pub open spec fn scrolled(buf: Seq<u8>, info: FrameBufferInfo) -> Seq<u8> {
    let char_row = info.stride * info.bytes_per_pixel * CHAR_HEIGHT;
    if char_row == 0 || char_row >= buf.len() {
        Seq::new(buf.len(), |i: int| 0u8)
    } else {
        Seq::new(buf.len(), |i: int| if i < buf.len() - char_row { buf[i + char_row] } else { 0u8 })
    }
}

/// The number of buffer bytes that one text row takes.
pub open spec fn text_row_bytes(info: FrameBufferInfo) -> int {
    info.stride * info.bytes_per_pixel * CHAR_HEIGHT
}

/// Scrolling keeps the buffer's length, moves every byte up by one text row, and
/// leaves the freed last text row black; when a text row is empty or at least as
/// large as the buffer, the whole buffer goes black.
pub proof fn lemma_scroll_frees_last_text_row(buf: Seq<u8>, info: FrameBufferInfo)
    ensures
        scrolled(buf, info).len() == buf.len(),
        forall|i: int| 0 <= i < buf.len() && i + text_row_bytes(info) >= buf.len()
            ==> #[trigger] scrolled(buf, info)[i] == 0,
        text_row_bytes(info) > 0 ==> forall|i: int| 0 <= i && i + text_row_bytes(info) < buf.len()
            ==> #[trigger] scrolled(buf, info)[i] == buf[i + text_row_bytes(info)],
        text_row_bytes(info) == 0 ==> forall|i: int| 0 <= i < buf.len() ==> #[trigger] scrolled(buf, info)[i] == 0,
{
}

/// The console: the framebuffer's geometry and the text cursor.
pub struct FrameBufferWriter {
    info: FrameBufferInfo,
    column: usize,
    row: usize,
}

/// What the console shows and where it writes next.
pub ghost struct Screen {
    pub buf: Seq<u8>,
    pub column: nat,
    pub row: nat,
}

/// `font8x8::BASIC_FONTS.get(c)`: the 8x8 glyph of a character.
pub uninterp spec fn basic_font_glyph(c: char) -> Option<[u8; 8]>;

/// `font8x8::BASIC_FONTS.get`: the glyph (eight rows, bit 0 leftmost) of a
/// character; the table covers exactly U+0000..U+007F.
#[verifier::external_body]
fn basic_font(c: char) -> (r: Option<[u8; 8]>)
    ensures
        r == basic_font_glyph(c),
        r is Some <==> (c as u32) < 128,
{
    font8x8::BASIC_FONTS.get(c)
}

/// The glyph drawn for a character: its font glyph, blank without one.
pub open spec fn glyph_of(c: char) -> Seq<u8> {
    match basic_font_glyph(c) {
        Some(g) => g@,
        None => Seq::new(8, |i: int| 0u8),
    }
}

/// The screen after a line feed.
pub open spec fn after_new_line(s: Screen, info: FrameBufferInfo) -> Screen {
    if s.row + 1 >= max_rows(info) {
        Screen { buf: scrolled(s.buf, info), column: 0, row: if max_rows(info) > 0 { (max_rows(info) - 1) as nat } else { 0 } }
    } else {
        Screen { buf: s.buf, column: 0, row: s.row + 1 }
    }
}

/// The screen after a printable character.
pub open spec fn after_renderable(s: Screen, info: FrameBufferInfo, c: char) -> Screen {
    if max_columns(info) == 0 || max_rows(info) == 0 {
        s
    } else {
        let s1 = if s.column >= max_columns(info) { after_new_line(s, info) } else { s };
        let s2 = if s1.row >= max_rows(info) {
            Screen { buf: scrolled(s1.buf, info), column: s1.column, row: (max_rows(info) - 1) as nat }
        } else {
            s1
        };
        Screen {
            buf: glyph_drawn(s2.buf, info, s2.column * CHAR_WIDTH, s2.row * CHAR_HEIGHT, glyph_of(c), 64),
            column: s2.column + 1,
            row: s2.row,
        }
    }
}

/// The screen after a backspace: the cursor steps back (to the end of the previous
/// row at the start of a row) and that cell is blanked.
pub open spec fn after_backspace(s: Screen, info: FrameBufferInfo) -> Screen {
    if max_columns(info) == 0 || max_rows(info) == 0 || (s.column == 0 && s.row == 0) {
        s
    } else {
        let (column, row) = if s.column > 0 {
            ((s.column - 1) as nat, s.row)
        } else {
            ((max_columns(info) - 1) as nat, (s.row - 1) as nat)
        };
        Screen {
            buf: glyph_drawn(s.buf, info, column * CHAR_WIDTH, row * CHAR_HEIGHT, Seq::new(8, |i: int| 0u8), 64),
            column,
            row,
        }
    }
}

/// The screen after one character of text: line feed, carriage return, backspace,
/// a tab as four spaces, a printable character (non-ASCII shown as `?`).
pub open spec fn after_char(s: Screen, info: FrameBufferInfo, c: char) -> Screen {
    if c == '\n' {
        after_new_line(s, info)
    } else if c == '\r' {
        Screen { column: 0, ..s }
    } else if c == '\u{8}' {
        after_backspace(s, info)
    } else if c == '\t' {
        after_renderable(after_renderable(after_renderable(after_renderable(s, info, ' '), info, ' '), info, ' '), info, ' ')
    } else {
        after_renderable(s, info, if (c as u32) < 128 { c } else { '?' })
    }
}

/// The screen after a text.
pub open spec fn after_text(s: Screen, info: FrameBufferInfo, text: Seq<char>) -> Screen
    decreases text.len(),
{
    if text.len() == 0 { s } else { after_char(after_text(s, info, text.drop_last()), info, text.last()) }
}

/// A line feed on the bottom text row scrolls: the cursor goes to the start of the
/// bottom row, and that row is left black for the text that follows.
pub proof fn lemma_line_feed_at_bottom_leaves_blank_row(s: Screen, info: FrameBufferInfo)
    requires
        max_rows(info) > 0,
        s.row + 1 >= max_rows(info),
    ensures
        after_char(s, info, '\n').row == max_rows(info) - 1,
        after_char(s, info, '\n').column == 0,
        after_char(s, info, '\n').buf.len() == s.buf.len(),
        forall|i: int| 0 <= i < s.buf.len() && i + text_row_bytes(info) >= s.buf.len()
            ==> #[trigger] after_char(s, info, '\n').buf[i] == 0,
{
    lemma_scroll_frees_last_text_row(s.buf, info);
}

impl FrameBufferWriter {
    #[verifier::type_invariant]
    spec fn inv(self) -> bool {
        &&& info_wf(self.info)
        &&& self.column <= max_columns(self.info)
        &&& self.row <= max_rows(self.info)
        &&& (max_rows(self.info) > 0 ==> self.row < max_rows(self.info))
    }

    pub closed spec fn info_spec(&self) -> FrameBufferInfo {
        self.info
    }

    /// The screen of a buffer under this writer's cursor.
    pub closed spec fn screen(&self, buf: Seq<u8>) -> Screen {
        Screen { buf, column: self.column as nat, row: self.row as nat }
    }

    /// The screen pairs the given buffer with a cursor that does not depend on it.
    pub proof fn lemma_screen_shows_buffer(&self, buf: Seq<u8>)
        ensures
            self.screen(buf).buf == buf,
            self.screen(buf).column == self.screen(Seq::empty()).column,
            self.screen(buf).row == self.screen(Seq::empty()).row,
    {
    }

    /// A console at the top-left corner.
    pub fn new(info: FrameBufferInfo) -> (r: Self)
        requires
            info_wf(info),
        ensures
            r.info_spec() == info,
            r.screen(Seq::empty()).column == 0,
            r.screen(Seq::empty()).row == 0,
    {
        Self { info, column: 0, row: 0 }
    }

    /// Blacks out the buffer and moves the cursor to the top-left corner.
    pub fn clear(&mut self, buffer: &mut [u8])
        ensures
            final(self).info_spec() == old(self).info_spec(),
            final(self).screen(final(buffer)@) == (Screen {
                buf: Seq::new(old(buffer)@.len(), |i: int| 0u8),
                column: 0,
                row: 0,
            }),
    {
        proof { use_type_invariant(&*self); }
        fill_zero(buffer, 0);
        self.column = 0;
        self.row = 0;
        proof {
            assert(final(buffer)@ =~= Seq::new(old(buffer)@.len(), |i: int| 0u8));
        }
    }

    pub fn max_columns(&self) -> (r: usize)
        ensures
            r == max_columns(self.info_spec()),
    {
        self.info.width / CHAR_WIDTH
    }

    pub fn max_rows(&self) -> (r: usize)
        ensures
            r == max_rows(self.info_spec()),
    {
        self.info.height / CHAR_HEIGHT
    }

    /// Writes a text.
    pub fn write_str(&mut self, buffer: &mut [u8], text: &str)
        ensures
            final(self).info_spec() == old(self).info_spec(),
            final(self).screen(final(buffer)@) == after_text(old(self).screen(old(buffer)@), old(self).info_spec(), text@),
    {
        broadcast use vstd::string::axiom_spec_iter, vstd::string::next_postcondition;

        for character in it: text.chars()
            invariant
                self.info_spec() == old(self).info_spec(),
                it.seq() == text@,
                self.screen(buffer@) == after_text(old(self).screen(old(buffer)@), old(self).info_spec(), it.seq().take(it.index() as int)),
        {
            proof {
                let k = it.index() as int;
                assert(it.seq().take(k + 1).drop_last() =~= it.seq().take(k));
            }
            self.write_char(buffer, character);
        }
        proof {
            assert(text@.take(text@.len() as int) =~= text@);
        }
    }

    fn write_char(&mut self, buffer: &mut [u8], character: char)
        ensures
            final(self).info_spec() == old(self).info_spec(),
            final(self).screen(final(buffer)@) == after_char(old(self).screen(old(buffer)@), old(self).info_spec(), character),
    {
        if character == '\n' {
            self.new_line(buffer);
        } else if character == '\r' {
            proof { use_type_invariant(&*self); }
            self.column = 0;
        } else if character == '\u{8}' {
            self.backspace(buffer);
        } else if character == '\t' {
            self.write_renderable(buffer, ' ');
            self.write_renderable(buffer, ' ');
            self.write_renderable(buffer, ' ');
            self.write_renderable(buffer, ' ');
        } else {
            let printable = if (character as u32) < 128 { character } else { '?' };
            self.write_renderable(buffer, printable);
        }
    }

    fn write_renderable(&mut self, buffer: &mut [u8], character: char)
        ensures
            final(self).info_spec() == old(self).info_spec(),
            final(self).screen(final(buffer)@) == after_renderable(old(self).screen(old(buffer)@), old(self).info_spec(), character),
    {
        proof { use_type_invariant(&*self); }
        if self.max_columns() == 0 || self.max_rows() == 0 {
            return;
        }
        if self.column >= self.max_columns() {
            self.new_line(buffer);
        }
        proof { use_type_invariant(&*self); }
        if self.row >= self.max_rows() {
            self.scroll_one_row(buffer);
            self.row = self.max_rows() - 1;
        }
        let glyph = match basic_font(character) {
            Some(g) => g,
            None => [0u8, 0u8, 0u8, 0u8, 0u8, 0u8, 0u8, 0u8],
        };
        proof {
            if basic_font_glyph(character) is None {
                assert(glyph@ =~= Seq::new(8, |i: int| 0u8));
            }
        }
        proof {
            let c = self.column as int;
            let w = self.info.width as int;
            let rr = self.row as int;
            let h = self.info.height as int;
            assert(c * 8 + 8 <= w) by (nonlinear_arith)
                requires
                    c < w / 8,
                    c >= 0,
            ;
            assert(rr * 8 + 8 <= h) by (nonlinear_arith)
                requires
                    rr < h / 8,
                    rr >= 0,
            ;
        }
        let pixel_x = self.column * CHAR_WIDTH;
        let pixel_y = self.row * CHAR_HEIGHT;
        self.draw_glyph(buffer, pixel_x, pixel_y, glyph);
        self.column = self.column + 1;
    }

    fn new_line(&mut self, buffer: &mut [u8])
        ensures
            final(self).info_spec() == old(self).info_spec(),
            final(self).screen(final(buffer)@) == after_new_line(old(self).screen(old(buffer)@), old(self).info_spec()),
    {
        proof { use_type_invariant(&*self); }
        let next_row = self.row + 1;
        if next_row >= self.max_rows() {
            self.scroll_one_row(buffer);
            let rows = self.max_rows();
            let last = if rows > 0 { rows - 1 } else { 0 };
            self.column = 0;
            self.row = last;
        } else {
            self.column = 0;
            self.row = next_row;
        }
    }

    fn scroll_one_row(&self, buffer: &mut [u8])
        ensures
            final(buffer)@ == scrolled(old(buffer)@, self.info_spec()),
            final(buffer)@.len() == old(buffer)@.len(),
            forall|i: int| 0 <= i < old(buffer)@.len() && i + text_row_bytes(self.info_spec()) >= old(buffer)@.len()
                ==> #[trigger] final(buffer)@[i] == 0,
    {
        proof { use_type_invariant(self); }
        let row_bytes = self.info.stride * self.info.bytes_per_pixel;
        let char_row_bytes = row_bytes * CHAR_HEIGHT;
        let len = buffer.len();
        if char_row_bytes == 0 || char_row_bytes >= len {
            fill_zero(buffer, 0);
            proof {
                assert(final(buffer)@ =~= scrolled(old(buffer)@, self.info_spec()));
            }
            return;
        }
        let ghost old_buf = buffer@;
        let mut i: usize = char_row_bytes;
        while i < len
            invariant
                char_row_bytes <= i <= len,
                len == buffer@.len(),
                old_buf.len() == len,
                forall|j: int| 0 <= j < i - char_row_bytes ==> buffer@[j] == old_buf[j + char_row_bytes],
                forall|j: int| i - char_row_bytes <= j < len ==> buffer@[j] == old_buf[j],
            decreases len - i,
        {
            buffer[i - char_row_bytes] = buffer[i];
            i += 1;
        }
        let start = len - char_row_bytes;
        fill_zero(buffer, start);
        proof {
            assert(final(buffer)@ =~= scrolled(old_buf, self.info_spec()));
        }
    }

    /// Draws an 8x8 glyph (eight rows, bit 0 leftmost) with its top-left corner at
    /// (`origin_x`, `origin_y`): set bits white, clear bits black, pixels off the
    /// screen left alone.
    pub fn draw_glyph(&self, buffer: &mut [u8], origin_x: usize, origin_y: usize, glyph: [u8; 8])
        ensures
            final(buffer)@ == glyph_drawn(old(buffer)@, self.info_spec(), origin_x as int, origin_y as int, glyph@, 64),
    {
        let mut glyph_y: usize = 0;
        while glyph_y < 8
            invariant
                glyph_y <= 8,
                buffer@ == glyph_drawn(old(buffer)@, self.info_spec(), origin_x as int, origin_y as int, glyph@, glyph_y * 8),
            decreases 8 - glyph_y,
        {
            let row_bits = glyph[glyph_y];
            let mut glyph_x: usize = 0;
            while glyph_x < 8
                invariant
                    glyph_x <= 8,
                    glyph_y < 8,
                    row_bits == glyph@[glyph_y as int],
                    buffer@ == glyph_drawn(old(buffer)@, self.info_spec(), origin_x as int, origin_y as int, glyph@, glyph_y * 8 + glyph_x),
                decreases 8 - glyph_x,
            {
                let on = row_bits & (1u8 << glyph_x as u8) != 0;
                let ghost j = glyph_y * 8 + glyph_x;
                assert(j % 8 == glyph_x && j / 8 == glyph_y);
                if origin_x <= usize::MAX - glyph_x && origin_y <= usize::MAX - glyph_y {
                    self.set_pixel(buffer, origin_x + glyph_x, origin_y + glyph_y, on);
                }
                glyph_x += 1;
            }
            glyph_y += 1;
        }
    }

    fn set_pixel(&self, buffer: &mut [u8], x: usize, y: usize, on: bool)
        ensures
            final(buffer)@ == pixel_written(old(buffer)@, self.info_spec(), x as int, y as int, on),
    {
        proof { use_type_invariant(self); }
        if x >= self.info.width || y >= self.info.height {
            return;
        }
        let bytes_per_pixel = self.info.bytes_per_pixel;
        proof {
            let info = self.info;
            assert((y * info.stride + x) * bytes_per_pixel <= (info.height * info.stride + info.width) * bytes_per_pixel) by (nonlinear_arith)
                requires
                    y < info.height,
                    x < info.width,
            ;
        }
        proof {
            let info = self.info;
            assert(y * info.stride + x <= info.height * info.stride + info.width) by (nonlinear_arith)
                requires
                    y < info.height,
                    x < info.width,
            ;
        }
        let offset = (y * self.info.stride + x) * bytes_per_pixel;
        if offset > buffer.len() || bytes_per_pixel > buffer.len() - offset {
            return;
        }
        let color: u8 = if on { 0xff } else { 0x00 };
        match self.info.pixel_format {
            PixelFormat::Rgb | PixelFormat::Bgr => {
                buffer[offset] = color;
                if bytes_per_pixel > 1 {
                    buffer[offset + 1] = color;
                }
                if bytes_per_pixel > 2 {
                    buffer[offset + 2] = color;
                }
                if bytes_per_pixel > 3 {
                    buffer[offset + 3] = 0x00;
                }
            },
            PixelFormat::U8 => {
                buffer[offset] = color;
            },
            PixelFormat::Unknown => {
                let ghost old_buf = buffer@;
                let mut k: usize = 0;
                while k < bytes_per_pixel
                    invariant
                        k <= bytes_per_pixel,
                        offset + bytes_per_pixel <= buffer@.len(),
                        offset + bytes_per_pixel <= usize::MAX,
                        buffer@.len() == old_buf.len(),
                        forall|i: int| 0 <= i < buffer@.len() ==> buffer@[i] == if offset <= i < offset + k { 0u8 } else { old_buf[i] },
                    decreases bytes_per_pixel - k,
                {
                    buffer[offset + k] = 0x00;
                    k += 1;
                }
                proof {
                    assert(buffer@ =~= pixel_written(old_buf, self.info_spec(), x as int, y as int, on));
                }
            },
        }
    }

    /// Steps the cursor back one cell (to the end of the previous row at the start of
    /// a row) and blanks that cell.
    pub fn backspace(&mut self, buffer: &mut [u8])
        ensures
            final(self).info_spec() == old(self).info_spec(),
            final(self).screen(final(buffer)@) == after_backspace(old(self).screen(old(buffer)@), old(self).info_spec()),
    {
        proof { use_type_invariant(&*self); }
        if self.max_columns() == 0 || self.max_rows() == 0 {
            return;
        }
        if self.column > 0 {
            self.column = self.column - 1;
        } else if self.row > 0 {
            self.row = self.row - 1;
            self.column = self.max_columns() - 1;
        } else {
            return;
        }
        proof {
            let c = self.column as int;
            let w = self.info.width as int;
            let rr = self.row as int;
            let h = self.info.height as int;
            assert(c * 8 + 8 <= w) by (nonlinear_arith)
                requires
                    c < w / 8,
                    c >= 0,
            ;
            assert(rr * 8 + 8 <= h) by (nonlinear_arith)
                requires
                    rr < h / 8,
                    rr >= 0,
            ;
        }
        let pixel_x = self.column * CHAR_WIDTH;
        let pixel_y = self.row * CHAR_HEIGHT;
        let blank: [u8; 8] = [0u8, 0u8, 0u8, 0u8, 0u8, 0u8, 0u8, 0u8];
        assert(blank@ =~= Seq::new(8, |i: int| 0u8));
        self.draw_glyph(buffer, pixel_x, pixel_y, blank);
    }
}

/// Blacks out the buffer from `start` on.
fn fill_zero(buffer: &mut [u8], start: usize)
    requires
        start <= old(buffer)@.len(),
    ensures
        final(buffer)@.len() == old(buffer)@.len(),
        forall|i: int| 0 <= i < start ==> final(buffer)@[i] == old(buffer)@[i],
        forall|i: int| start <= i < old(buffer)@.len() ==> final(buffer)@[i] == 0,
{
    let mut i = start;
    while i < buffer.len()
        invariant
            start <= i <= buffer@.len(),
            buffer@.len() == old(buffer)@.len(),
            forall|j: int| 0 <= j < start ==> buffer@[j] == old(buffer)@[j],
            forall|j: int| start <= j < i ==> buffer@[j] == 0,
        decreases buffer@.len() - i,
    {
        buffer[i] = 0;
        i += 1;
    }
}

} // verus!
