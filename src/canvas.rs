use vstd::prelude::*;

use crate::color::Color;
use crate::error::TraceError;
use crate::scalar::{Scalar, ZERO_BITS};

verus! {

/// A pixel in 8-bit channels, as an image file stores it.
pub type Rgb8 = (u8, u8, u8);

/// The longest line that the encoder writes, newline not counted.
pub const MAX_LINE: usize = 70;

/// The longest text of one pixel: three numbers of three digits, each
/// followed by a space, and a newline that may come before them.
pub const PIXEL_TEXT: usize = 13;

/// The ASCII decimal digits of `n`, without leading zeros.
pub open spec fn decimal(n: nat) -> Seq<u8>
    decreases n,
{
    if n < 10 {
        seq![(48 + n) as u8]
    } else {
        decimal(n / 10).push((48 + n % 10) as u8)
    }
}

/// The text of one pixel: its three channels, each followed by a space.
pub open spec fn pixel_text(p: Rgb8) -> Seq<u8> {
    decimal(p.0 as nat) + seq![32u8] + decimal(p.1 as nat) + seq![32u8] + decimal(p.2 as nat) + seq![32u8]
}

/// The text of a row of pixels before it is trimmed, with the length of its
/// last line. A line is broken before a pixel when its text could take the
/// line to `MAX_LINE` characters.
pub open spec fn row_text(px: Seq<Rgb8>) -> (Seq<u8>, nat)
    decreases px.len(),
{
    if px.len() == 0 {
        (Seq::empty(), 0)
    } else {
        let (text, last) = row_text(px.drop_last());
        let t = pixel_text(px.last());
        if last + PIXEL_TEXT >= MAX_LINE {
            (text + seq![10u8] + t, t.len())
        } else {
            (text + t, last + t.len())
        }
    }
}

/// A row of the image: its text without the closing space, and a newline.
pub open spec fn row_line(px: Seq<Rgb8>) -> Seq<u8> {
    let text = row_text(px).0;
    (if text.len() == 0 { text } else { text.drop_last() }) + seq![10u8]
}

/// The rows of the image, one after the other.
pub open spec fn rows_text(rows: Seq<Seq<Rgb8>>) -> Seq<u8>
    decreases rows.len(),
{
    if rows.len() == 0 {
        Seq::empty()
    } else {
        rows_text(rows.drop_last()) + row_line(rows.last())
    }
}

/// The plain PPM header: magic number, size, and largest channel value.
pub open spec fn ppm_header(width: nat, height: nat) -> Seq<u8> {
    seq![80u8, 51u8, 10u8] + decimal(width) + seq![32u8] + decimal(height) + seq![10u8, 50u8, 53u8, 53u8, 10u8]
}

/// `text` with every colon turned into a hyphen.
pub open spec fn colons_to_hyphens(text: Seq<u8>) -> Seq<u8> {
    text.map_values(|b: u8| if b == 58 { 45u8 } else { b })
}

/// The name under which a rendering made at `stamp` is saved.
pub open spec fn render_file_name(stamp: Seq<u8>) -> Seq<u8> {
    seq![114u8, 101u8, 110u8, 100u8, 101u8, 114u8, 45u8] + colons_to_hyphens(stamp) + seq![46u8, 112u8, 112u8, 109u8]
}

/// A `width × height` grid of colors, black where nothing was written; row
/// `y` holds the pixels whose second coordinate is `y`.
#[derive(Debug)]
pub struct Canvas {
    width: usize,
    height: usize,
    pixels: Vec<Vec<Color>>,
}

impl View for Canvas {
    type V = Seq<Seq<Color>>;

    closed spec fn view(&self) -> Seq<Seq<Color>> {
        self.pixels@.map_values(|row: Vec<Color>| row@)
    }
}

impl Canvas {
    pub closed spec fn spec_width(&self) -> nat {
        self.width as nat
    }

    pub closed spec fn spec_height(&self) -> nat {
        self.height as nat
    }

    /// There are `height` rows of `width` pixels.
    pub closed spec fn wf(&self) -> bool {
        &&& self.pixels@.len() == self.height
        &&& forall|y: int| 0 <= y < self.height ==> #[trigger] self.pixels@[y]@.len() == self.width
    }

    /// A black canvas of `width × height` pixels.
    pub fn new(width: usize, height: usize) -> (r: Canvas)
        ensures
            r.wf(),
            r.spec_width() == width,
            r.spec_height() == height,
            r@ == Seq::new(height as nat, |y: int| Seq::new(width as nat, |x: int| Color::spec_black())),
    {
        let mut pixels: Vec<Vec<Color>> = Vec::new();
        let mut y: usize = 0;
        while y < height
            invariant
                y <= height,
                pixels@.len() == y,
                forall|k: int| 0 <= k < y ==> #[trigger] pixels@[k]@ == Seq::new(width as nat, |x: int| Color::spec_black()),
            decreases height - y,
        {
            let mut row: Vec<Color> = Vec::new();
            let mut x: usize = 0;
            while x < width
                invariant
                    x <= width,
                    row@ == Seq::new(x as nat, |i: int| Color::spec_black()),
                decreases width - x,
            {
                row.push(Color::black());
                x += 1;
                assert(row@ =~= Seq::new(x as nat, |i: int| Color::spec_black()));
            }
            pixels.push(row);
            y += 1;
        }
        let c = Canvas { width, height, pixels };
        assert(c@ =~= Seq::new(height as nat, |y: int| Seq::new(width as nat, |x: int| Color::spec_black())));
        c
    }

    pub fn get_width(&self) -> (r: usize)
        ensures
            r == self.spec_width(),
    {
        self.width
    }

    pub fn get_height(&self) -> (r: usize)
        ensures
            r == self.spec_height(),
    {
        self.height
    }

    /// Paints the pixel `(x, y)`; `OutOfBounds`, and the canvas unchanged,
    /// when it lies outside the canvas.
    pub fn write_pixel(&mut self, x: usize, y: usize, color: Color) -> (r: Result<(), TraceError>)
        requires
            old(self).wf(),
        ensures
            final(self).wf(),
            r is Ok <==> x < old(self).spec_width() && y < old(self).spec_height(),
            r is Err ==> r == Err::<(), TraceError>(TraceError::OutOfBounds),
            r is Ok ==> final(self)@ == old(self)@.update(y as int, old(self)@[y as int].update(x as int, color)),
            r is Err ==> final(self)@ == old(self)@,
            final(self).spec_width() == old(self).spec_width(),
            final(self).spec_height() == old(self).spec_height(),
    {
        if x >= self.width || y >= self.height {
            return Err(TraceError::OutOfBounds);
        }
        assert(self@[y as int] == self.pixels@[y as int]@);
        let mut row = self.pixels.remove(y);
        row.set(x, color);
        self.pixels.insert(y, row);
        assert(self@ =~= old(self)@.update(y as int, old(self)@[y as int].update(x as int, color)));
        Ok(())
    }

    /// The color of the pixel `(x, y)`; `OutOfBounds` when it lies outside
    /// the canvas.
    pub fn pixel_at(&self, x: usize, y: usize) -> (r: Result<Color, TraceError>)
        requires
            self.wf(),
        ensures
            r is Ok <==> x < self.spec_width() && y < self.spec_height(),
            r is Err ==> r == Err::<Color, TraceError>(TraceError::OutOfBounds),
            r matches Ok(c) ==> c == self@[y as int][x as int],
    {
        if x >= self.width || y >= self.height {
            return Err(TraceError::OutOfBounds);
        }
        assert(self@[y as int] == self.pixels@[y as int]@);
        Ok(self.pixels[y][x])
    }
}

/// No character of `text` in `[i, j)` is a newline.
pub open spec fn no_newline(text: Seq<u8>, i: int, j: int) -> bool {
    forall|k: int| i <= k < j ==> #[trigger] text[k] != 10
}

/// No line of `text` is longer than `MAX_LINE`, its newline not counted.
pub open spec fn lines_fit(text: Seq<u8>) -> bool {
    forall|i: int, j: int| 0 <= i <= j <= text.len() && #[trigger] no_newline(text, i, j) ==> j - i <= MAX_LINE
}

/// `text` is empty or ends with a newline.
pub open spec fn ends_line(text: Seq<u8>) -> bool {
    text.len() == 0 || text.last() == 10
}

/// `10^k`.
spec fn ten_to(k: nat) -> nat
    decreases k,
{
    if k == 0 {
        1
    } else {
        10 * ten_to((k - 1) as nat)
    }
}

/// Decimal digits are the characters `0` to `9`; a number below `10^k` has
/// at most `k` of them.
proof fn lemma_decimal_digits(n: nat, k: nat)
    requires
        k >= 1,
        n < ten_to(k),
    ensures
        decimal(n).len() <= k,
        forall|c: int| 0 <= c < decimal(n).len() ==> 48 <= #[trigger] decimal(n)[c] <= 57,
    decreases n,
{
    if n >= 10 {
        let p = ten_to((k - 1) as nat);
        assert(k >= 2) by {
            if k == 1 {
                assert(ten_to(0) == 1);
            }
        }
        assert(n / 10 < p) by (nonlinear_arith)
            requires
                n < 10 * p,
        ;
        lemma_decimal_digits(n / 10, (k - 1) as nat);
    }
}

/// The text of a pixel has at most twelve characters and no newline.
proof fn lemma_pixel_text(p: Rgb8)
    ensures
        pixel_text(p).len() <= 12,
        no_newline(pixel_text(p), 0, pixel_text(p).len() as int),
{
    reveal_with_fuel(ten_to, 4);
    lemma_decimal_digits(p.0 as nat, 3);
    lemma_decimal_digits(p.1 as nat, 3);
    lemma_decimal_digits(p.2 as nat, 3);
    let t = pixel_text(p);
    let (a, b, c) = (decimal(p.0 as nat), decimal(p.1 as nat), decimal(p.2 as nat));
    assert forall|k: int| 0 <= k < t.len() implies #[trigger] t[k] != 10 by {
        if k < a.len() {
            assert(t[k] == a[k]);
        } else if k == a.len() {
        } else if k < a.len() + 1 + b.len() {
            assert(t[k] == b[k - a.len() - 1]);
        } else if k == a.len() + 1 + b.len() {
        } else if k < a.len() + 2 + b.len() + c.len() {
            assert(t[k] == c[k - a.len() - 2 - b.len()]);
        }
    }
}

/// The unbroken text of a row has short lines, the last of which is `last`
/// characters long.
proof fn lemma_row_text_fits(px: Seq<Rgb8>)
    ensures
        ({
            let (text, last) = row_text(px);
            &&& lines_fit(text)
            &&& last < MAX_LINE
            &&& forall|i: int| 0 <= i <= text.len() && #[trigger] no_newline(text, i, text.len() as int) ==> text.len() - i <= last
        }),
    decreases px.len(),
{
    if px.len() > 0 {
        lemma_row_text_fits(px.drop_last());
        let (text, last) = row_text(px.drop_last());
        let t = pixel_text(px.last());
        lemma_pixel_text(px.last());
        let (out, out_last) = row_text(px);
        let n = text.len() as int;
        if last + PIXEL_TEXT >= MAX_LINE {
            assert(out == text + seq![10u8] + t);
            assert(out[n] == 10);
            assert forall|i: int, j: int| 0 <= i <= j <= out.len() && #[trigger] no_newline(out, i, j) implies j - i <= MAX_LINE by {
                if j <= n {
                    assert(no_newline(text, i, j)) by {
                        assert forall|k: int| i <= k < j implies #[trigger] text[k] != 10 by {
                            assert(out[k] == text[k]);
                        }
                    }
                } else if i <= n {
                    assert(out[n] != 10);
                }
            }
            assert forall|i: int| 0 <= i <= out.len() && #[trigger] no_newline(out, i, out.len() as int) implies out.len() - i <= out_last by {
                if i <= n {
                    assert(out[n] != 10);
                }
            }
        } else {
            assert(out == text + t);
            assert forall|i: int, j: int| 0 <= i <= j <= out.len() && #[trigger] no_newline(out, i, j) implies j - i <= MAX_LINE by {
                if j <= n {
                    assert(no_newline(text, i, j)) by {
                        assert forall|k: int| i <= k < j implies #[trigger] text[k] != 10 by {
                            assert(out[k] == text[k]);
                        }
                    }
                } else if i < n {
                    assert(no_newline(text, i, n)) by {
                        assert forall|k: int| i <= k < n implies #[trigger] text[k] != 10 by {
                            assert(out[k] == text[k]);
                        }
                    }
                }
            }
            assert forall|i: int| 0 <= i <= out.len() && #[trigger] no_newline(out, i, out.len() as int) implies out.len() - i <= out_last by {
                if i < n {
                    assert(no_newline(text, i, n)) by {
                        assert forall|k: int| i <= k < n implies #[trigger] text[k] != 10 by {
                            assert(out[k] == text[k]);
                        }
                    }
                }
            }
        }
    }
}

/// A prefix of text with short lines has short lines.
proof fn lemma_prefix_fits(text: Seq<u8>, len: int)
    requires
        lines_fit(text),
        0 <= len <= text.len(),
    ensures
        lines_fit(text.subrange(0, len)),
{
    let p = text.subrange(0, len);
    assert forall|i: int, j: int| 0 <= i <= j <= p.len() && #[trigger] no_newline(p, i, j) implies j - i <= MAX_LINE by {
        assert(no_newline(text, i, j)) by {
            assert forall|k: int| i <= k < j implies #[trigger] text[k] != 10 by {
                assert(p[k] == text[k]);
            }
        }
    }
}

/// Texts with short lines, joined after a line end, have short lines.
proof fn lemma_join_fits(a: Seq<u8>, b: Seq<u8>)
    requires
        lines_fit(a),
        lines_fit(b),
        ends_line(a),
    ensures
        lines_fit(a + b),
        ends_line(b) ==> ends_line(a + b),
{
    let c = a + b;
    let n = a.len() as int;
    assert forall|i: int, j: int| 0 <= i <= j <= c.len() && #[trigger] no_newline(c, i, j) implies j - i <= MAX_LINE by {
        if j <= n {
            assert(no_newline(a, i, j)) by {
                assert forall|k: int| i <= k < j implies #[trigger] a[k] != 10 by {
                    assert(c[k] == a[k]);
                }
            }
        } else if i >= n {
            assert(no_newline(b, i - n, j - n)) by {
                assert forall|k: int| i - n <= k < j - n implies #[trigger] b[k] != 10 by {
                    assert(c[k + n] == b[k]);
                }
            }
        } else {
            assert(c[n - 1] == a[n - 1]);
            assert(c[n - 1] != 10);
        }
    }
    if ends_line(b) && b.len() > 0 {
        assert(c.last() == b.last());
    }
}

/// A text without newlines, no longer than `MAX_LINE`, has short lines.
proof fn lemma_short_line_fits(text: Seq<u8>)
    requires
        text.len() <= MAX_LINE,
    ensures
        lines_fit(text),
{
}

/// A row of the image has short lines and ends one.
proof fn lemma_row_line_fits(px: Seq<Rgb8>)
    ensures
        lines_fit(row_line(px)),
        ends_line(row_line(px)),
{
    lemma_row_text_fits(px);
    let text = row_text(px).0;
    let body = if text.len() == 0 { text } else { text.drop_last() };
    lemma_prefix_fits(text, body.len() as int);
    assert(body == text.subrange(0, body.len() as int));
    lemma_short_line_fits(seq![10u8]);
    assert(row_line(px) == body + seq![10u8]);
    assert(row_line(px).last() == 10);
    lemma_join_fits_end(body);
}

/// A text with short lines keeps them when a newline is added.
proof fn lemma_join_fits_end(text: Seq<u8>)
    requires
        lines_fit(text),
    ensures
        lines_fit(text + seq![10u8]),
{
    let c = text + seq![10u8];
    let n = text.len() as int;
    assert forall|i: int, j: int| 0 <= i <= j <= c.len() && #[trigger] no_newline(c, i, j) implies j - i <= MAX_LINE by {
        if j <= n {
            assert(no_newline(text, i, j)) by {
                assert forall|k: int| i <= k < j implies #[trigger] text[k] != 10 by {
                    assert(c[k] == text[k]);
                }
            }
        } else {
            assert(c[n] == 10);
        }
    }
}

/// The rows of the image have short lines and end one.
proof fn lemma_rows_text_fits(rows: Seq<Seq<Rgb8>>)
    ensures
        lines_fit(rows_text(rows)),
        ends_line(rows_text(rows)),
    decreases rows.len(),
{
    if rows.len() > 0 {
        lemma_rows_text_fits(rows.drop_last());
        lemma_row_line_fits(rows.last());
        lemma_join_fits(rows_text(rows.drop_last()), row_line(rows.last()));
    }
}

/// The header has short lines and ends one.
proof fn lemma_header_fits(width: nat, height: nat)
    requires
        width <= 0xFFFF_FFFF_FFFF_FFFF,
        height <= 0xFFFF_FFFF_FFFF_FFFF,
    ensures
        lines_fit(ppm_header(width, height)),
        ends_line(ppm_header(width, height)),
{
    reveal_with_fuel(ten_to, 21);
    lemma_decimal_digits(width, 20);
    lemma_decimal_digits(height, 20);
    let first = seq![80u8, 51u8, 10u8];
    let size = decimal(width) + seq![32u8] + decimal(height) + seq![10u8];
    let last = seq![50u8, 53u8, 53u8, 10u8];
    assert(ppm_header(width, height) == first + size + last);
    lemma_short_line_fits(first);
    lemma_short_line_fits(last);
    let line = decimal(width) + seq![32u8] + decimal(height);
    lemma_short_line_fits(line);
    lemma_join_fits_end(line);
    assert(size == line + seq![10u8]);
    lemma_join_fits(first, size);
    lemma_join_fits(first + size, last);
}

/// Appends the decimal digits of `n`.
fn push_decimal(out: &mut Vec<u8>, n: usize)
    ensures
        final(out)@ == old(out)@ + decimal(n as nat),
    decreases n,
{
    if n >= 10 {
        push_decimal(out, n / 10);
    }
    out.push((48 + n % 10) as u8);
    assert(final(out)@ =~= old(out)@ + decimal(n as nat));
}

/// Appends the text of one pixel.
fn push_pixel(out: &mut Vec<u8>, p: Rgb8)
    ensures
        final(out)@ == old(out)@ + pixel_text(p),
{
    push_decimal(out, p.0 as usize);
    out.push(32);
    push_decimal(out, p.1 as usize);
    out.push(32);
    push_decimal(out, p.2 as usize);
    out.push(32);
    assert(final(out)@ =~= old(out)@ + pixel_text(p));
}

/// The image as plain PPM text: the header for `width` × `height`, then each
/// row of `rows` on its own lines, none longer than `MAX_LINE`.
pub fn encode_ppm(width: usize, height: usize, rows: &Vec<Vec<Rgb8>>) -> (r: Vec<u8>)
    ensures
        r@ == ppm_header(width as nat, height as nat) + rows_text(rows@.map_values(|row: Vec<Rgb8>| row@)),
        lines_fit(r@),
        ends_line(r@),
{
    let ghost grid = rows@.map_values(|row: Vec<Rgb8>| row@);
    let mut out: Vec<u8> = Vec::new();
    out.push(80);
    out.push(51);
    out.push(10);
    push_decimal(&mut out, width);
    out.push(32);
    push_decimal(&mut out, height);
    out.push(10);
    out.push(50);
    out.push(53);
    out.push(53);
    out.push(10);
    let ghost header = out@;
    assert(header =~= ppm_header(width as nat, height as nat));
    let mut y: usize = 0;
    assert(grid.subrange(0, 0) =~= Seq::<Seq<Rgb8>>::empty());
    while y < rows.len()
        invariant
            grid == rows@.map_values(|row: Vec<Rgb8>| row@),
            y <= rows@.len(),
            out@ == header + rows_text(grid.subrange(0, y as int)),
        decreases rows@.len() - y,
    {
        let row = &rows[y];
        let mut line: Vec<u8> = Vec::new();
        let mut last: usize = 0;
        let mut x: usize = 0;
        assert(row@.subrange(0, 0) =~= Seq::<Rgb8>::empty());
        while x < row.len()
            invariant
                x <= row@.len(),
                last < MAX_LINE,
                row_text(row@.subrange(0, x as int)) == (line@, last as nat),
            decreases row@.len() - x,
        {
            let ghost prefix = row@.subrange(0, x as int);
            let p = row[x];
            assert(row@.subrange(0, x + 1).drop_last() =~= prefix);
            proof {
                lemma_pixel_text(p);
            }
            if last + PIXEL_TEXT >= MAX_LINE {
                line.push(10);
                last = 0;
            }
            let before = line.len();
            push_pixel(&mut line, p);
            last = last + (line.len() - before);
            x += 1;
            assert(row_text(row@.subrange(0, x as int)).0 =~= line@);
        }
        assert(row@.subrange(0, row@.len() as int) =~= row@);
        if line.len() > 0 {
            line.pop();
        }
        line.push(10);
        assert(line@ =~= row_line(grid[y as int]));
        out.append(&mut line);
        y += 1;
        assert(grid.subrange(0, y as int).drop_last() =~= grid.subrange(0, y - 1));
        assert(out@ =~= header + rows_text(grid.subrange(0, y as int)));
    }
    assert(grid.subrange(0, rows@.len() as int) =~= grid);
    proof {
        lemma_header_fits(width as nat, height as nat);
        lemma_rows_text_fits(grid);
        lemma_join_fits(header, rows_text(grid));
    }
    out
}

/// The name under which a rendering made at `stamp` (a date and time, in
/// ASCII) is saved: `render-`, the stamp with its colons turned into hyphens,
/// and `.ppm`.
pub fn file_name_for(stamp: &Vec<u8>) -> (r: Vec<u8>)
    ensures
        r@ == render_file_name(stamp@),
{
    let mut out: Vec<u8> = Vec::new();
    out.push(114);
    out.push(101);
    out.push(110);
    out.push(100);
    out.push(101);
    out.push(114);
    out.push(45);
    let ghost prefix = out@;
    let mut i: usize = 0;
    while i < stamp.len()
        invariant
            i <= stamp@.len(),
            out@ == prefix + colons_to_hyphens(stamp@.subrange(0, i as int)),
        decreases stamp@.len() - i,
    {
        let b = stamp[i];
        if b == 58 {
            out.push(45);
        } else {
            out.push(b);
        }
        i += 1;
        assert(out@ =~= prefix + colons_to_hyphens(stamp@.subrange(0, i as int)));
    }
    assert(stamp@.subrange(0, stamp@.len() as int) =~= stamp@);
    out.push(46);
    out.push(112);
    out.push(112);
    out.push(109);
    assert(out@ =~= render_file_name(stamp@));
    out
}

} // verus!
