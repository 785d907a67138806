//! A fixed-size raster of colors with a plain-text pixmap export.
//!
//! Pixels are stored row-major with the origin at the top left. Export
//! clamps every channel to one whole, scales it to 0..=255 rounding half
//! away from zero, and lays the triplets out line by line under a header.

use vstd::arithmetic::div_mod::lemma_div_is_ordered;
use vstd::prelude::*;
use vstd::string::StringExecFns;

use crate::tuple::{Color, HALF_SCALE, SCALE};

verus! {

/// A width x height grid of colors, row-major, origin top left.
pub struct Canvas {
    pub width: usize,
    pub height: usize,
    pub pixels: Vec<Color>,
}

/// A channel clamped to the nominal range 0..=SCALE units.
pub open spec fn clamp_unit(n: int) -> int {
    if n < 0 {
        0
    } else if n > SCALE as int {
        SCALE as int
    } else {
        n
    }
}

/// The exported byte of a channel: clamp, scale to 255, round half away
/// from zero (the clamped value is never negative, so rounding is half
/// up).
pub open spec fn chan_byte(n: int) -> int {
    (clamp_unit(n) * 255 + HALF_SCALE as int) / (SCALE as int)
}

/// Exported channel bytes fit in 0..=255.
pub proof fn lemma_chan_byte_bounds(n: int)
    ensures
        0 <= chan_byte(n) <= 255,
{
    let m = clamp_unit(n);
    lemma_div_is_ordered(0, m * 255 + HALF_SCALE as int, SCALE as int);
    lemma_div_is_ordered(m * 255 + HALF_SCALE as int, 2_555_000, SCALE as int);
}

impl Canvas {
    /// The pixel store matches the declared dimensions.
    pub open spec fn wf(&self) -> bool {
        self.pixels@.len() == self.width * self.height
    }

    /// Row-major index of the pixel at (x, y).
    pub open spec fn idx(&self, x: int, y: int) -> int {
        y * (self.width as int) + x
    }

    /// A fresh canvas with every pixel black.
    pub fn new(width: usize, height: usize) -> (r: Canvas)
        requires
            width * height <= usize::MAX,
        ensures
            r.wf(),
            r.width == width,
            r.height == height,
            forall|i: int|
                0 <= i < r.pixels@.len() ==> r.pixels@[i] == (Color {
                    red: 0i64,
                    green: 0i64,
                    blue: 0i64,
                }),
    {
        let n = width * height;
        let mut pixels: Vec<Color> = Vec::new();
        let mut i: usize = 0;
        while i < n
            invariant
                i <= n,
                pixels@.len() == i,
                forall|j: int|
                    0 <= j < i ==> pixels@[j] == (Color { red: 0i64, green: 0i64, blue: 0i64 }),
            decreases n - i,
        {
            pixels.push(Color { red: 0, green: 0, blue: 0 });
            i += 1;
        }
        Canvas { width, height, pixels }
    }

    /// Overwrite the pixel at in-bounds coordinates (x, y).
    pub fn write_pixel(&mut self, x: usize, y: usize, color: Color)
        requires
            old(self).wf(),
            x < old(self).width,
            y < old(self).height,
        ensures
            final(self).wf(),
            final(self).width == old(self).width,
            final(self).height == old(self).height,
            final(self).pixels@ == old(self).pixels@.update(old(self).idx(x as int, y as int), color),
    {
        proof {
            assert((y as int) * (self.width as int) + (x as int) < (self.width as int) * (self.height
                as int)) by (nonlinear_arith)
                requires
                    x < self.width,
                    y < self.height,
            ;
        }
        let _len = self.pixels.len();
        let i = y * self.width + x;
        self.pixels[i] = color;
    }

    /// The color stored at in-bounds coordinates (x, y).
    pub fn pixel_at(&self, x: usize, y: usize) -> (r: Color)
        requires
            self.wf(),
            x < self.width,
            y < self.height,
        ensures
            r == self.pixels@[self.idx(x as int, y as int)],
    {
        proof {
            assert((y as int) * (self.width as int) + (x as int) < (self.width as int) * (self.height
                as int)) by (nonlinear_arith)
                requires
                    x < self.width,
                    y < self.height,
            ;
        }
        let _len = self.pixels.len();
        let i = y * self.width + x;
        self.pixels[i]
    }

    /// The three exported channel bytes of a color: each channel clamped
    /// to the nominal range, scaled to 0..=255, rounded half away from
    /// zero.
    pub fn tuple_to_color(&self, color: Color) -> (r: (u8, u8, u8))
        ensures
            r.0 as int == chan_byte(color.red as int),
            r.1 as int == chan_byte(color.green as int),
            r.2 as int == chan_byte(color.blue as int),
    {
        (chan_to_byte(color.red), chan_to_byte(color.green), chan_to_byte(color.blue))
    }

    /// Serialize the whole canvas to the plain-text pixmap format: the
    /// header, then each pixel row on its own line as space-separated
    /// channel bytes.
    pub fn to_ppm(&self) -> (r: String)
        requires
            self.wf(),
        ensures
            r@ == ppm_chars(self),
    {
        let mut ppm = String::new();
        ppm.append("P3 ");
        push_dec(&mut ppm, self.width as u64);
        ppm.append(" ");
        push_dec(&mut ppm, self.height as u64);
        ppm.append(" 255");
        proof {
            reveal_strlit("P3 ");
            reveal_strlit(" ");
            reveal_strlit(" 255");
            assert(ppm@ =~= header_chars(self.width as nat, self.height as nat));
        }
        let mut y: usize = 0;
        while y < self.height
            invariant
                self.wf(),
                y <= self.height,
                ppm@ == header_chars(self.width as nat, self.height as nat) + rows_chars(
                    self.pixels@,
                    self.width as int,
                    y as int,
                ),
            decreases self.height - y,
        {
            ppm.append("\n");
            proof {
                reveal_strlit("\n");
                assert(ppm@ =~= header_chars(self.width as nat, self.height as nat) + rows_chars(
                    self.pixels@,
                    self.width as int,
                    y as int,
                ) + seq!['\n'] + row_chars(self.pixels@, self.width as int, y as int, 0));
            }
            let mut x: usize = 0;
            while x < self.width
                invariant
                    self.wf(),
                    y < self.height,
                    x <= self.width,
                    ppm@ == header_chars(self.width as nat, self.height as nat) + rows_chars(
                        self.pixels@,
                        self.width as int,
                        y as int,
                    ) + seq!['\n'] + row_chars(self.pixels@, self.width as int, y as int, x as int),
                decreases self.width - x,
            {
                let c = self.pixel_at(x, y);
                let rgb = self.tuple_to_color(c);
                push_dec(&mut ppm, rgb.0 as u64);
                ppm.append(" ");
                push_dec(&mut ppm, rgb.1 as u64);
                ppm.append(" ");
                push_dec(&mut ppm, rgb.2 as u64);
                ppm.append(" ");
                proof {
                    reveal_strlit(" ");
                    assert(ppm@ =~= header_chars(self.width as nat, self.height as nat)
                        + rows_chars(self.pixels@, self.width as int, y as int) + seq!['\n']
                        + row_chars(self.pixels@, self.width as int, y as int, x + 1));
                }
                x += 1;
            }
            proof {
                reveal_strlit("\n");
                assert(ppm@ =~= header_chars(self.width as nat, self.height as nat) + rows_chars(
                    self.pixels@,
                    self.width as int,
                    y + 1,
                ));
            }
            y += 1;
        }
        ppm
    }
}

/// The decimal digit character for a value in 0..=9.
pub open spec fn digit_char(d: int) -> char {
    if d == 0 {
        '0'
    } else if d == 1 {
        '1'
    } else if d == 2 {
        '2'
    } else if d == 3 {
        '3'
    } else if d == 4 {
        '4'
    } else if d == 5 {
        '5'
    } else if d == 6 {
        '6'
    } else if d == 7 {
        '7'
    } else if d == 8 {
        '8'
    } else {
        '9'
    }
}

/// The decimal digits of a number, most significant first.
pub open spec fn dec_chars(n: nat) -> Seq<char>
    decreases n,
{
    if n < 10 {
        seq![digit_char(n as int)]
    } else {
        dec_chars(n / 10).push(digit_char((n % 10) as int))
    }
}

/// The serialized triplet of one pixel: three channel bytes in decimal,
/// each followed by a space.
pub open spec fn pixel_chars(c: Color) -> Seq<char> {
    dec_chars(chan_byte(c.red as int) as nat) + seq![' '] + dec_chars(
        chan_byte(c.green as int) as nat,
    ) + seq![' '] + dec_chars(chan_byte(c.blue as int) as nat) + seq![' ']
}

/// The first `x` pixels of row `y`, serialized left to right.
pub open spec fn row_chars(pixels: Seq<Color>, width: int, y: int, x: int) -> Seq<char>
    decreases x,
{
    if x <= 0 {
        Seq::empty()
    } else {
        row_chars(pixels, width, y, x - 1) + pixel_chars(pixels[y * width + (x - 1)])
    }
}

/// The first `y` rows, each preceded by a newline.
pub open spec fn rows_chars(pixels: Seq<Color>, width: int, y: int) -> Seq<char>
    decreases y,
{
    if y <= 0 {
        Seq::empty()
    } else {
        rows_chars(pixels, width, y - 1) + seq!['\n'] + row_chars(pixels, width, y - 1, width)
    }
}

/// The header: magic token, width, height and maximum channel value,
/// space-separated on a single line.
pub open spec fn header_chars(width: nat, height: nat) -> Seq<char> {
    seq!['P', '3', ' '] + dec_chars(width) + seq![' '] + dec_chars(height) + seq![' ', '2', '5', '5']
}

/// The whole pixmap text: the header, then each row on its own line.
pub open spec fn ppm_chars(c: &Canvas) -> Seq<char> {
    header_chars(c.width as nat, c.height as nat) + rows_chars(
        c.pixels@,
        c.width as int,
        c.height as int,
    )
}

/// Append the decimal rendering of a number.
fn push_dec(s: &mut String, n: u64)
    ensures
        final(s)@ == old(s)@ + dec_chars(n as nat),
    decreases n,
{
    if n >= 10 {
        push_dec(s, n / 10);
    }
    let d = n % 10;
    let digit: &str = if d == 0 {
        "0"
    } else if d == 1 {
        "1"
    } else if d == 2 {
        "2"
    } else if d == 3 {
        "3"
    } else if d == 4 {
        "4"
    } else if d == 5 {
        "5"
    } else if d == 6 {
        "6"
    } else if d == 7 {
        "7"
    } else if d == 8 {
        "8"
    } else {
        "9"
    };
    proof {
        reveal_strlit("0");
        reveal_strlit("1");
        reveal_strlit("2");
        reveal_strlit("3");
        reveal_strlit("4");
        reveal_strlit("5");
        reveal_strlit("6");
        reveal_strlit("7");
        reveal_strlit("8");
        reveal_strlit("9");
        assert(digit@ =~= seq![digit_char(d as int)]);
    }
    s.append(digit);
    proof {
        assert(s@ =~= old(s)@ + dec_chars(n as nat));
    }
}

/// One channel's exported byte.
fn chan_to_byte(n: i64) -> (r: u8)
    ensures
        r as int == chan_byte(n as int),
{
    let m: i64 = if n < 0 {
        0
    } else if n > SCALE {
        SCALE
    } else {
        n
    };
    let v: u64 = ((m as u64) * 255 + (HALF_SCALE as u64)) / (SCALE as u64);
    proof {
        lemma_chan_byte_bounds(n as int);
    }
    v as u8
}

/// Writing a color at in-bounds coordinates and reading the same
/// coordinates back yields exactly that color.
pub proof fn lemma_canvas_round_trip(pixels: Seq<Color>, width: nat, height: nat, x: nat, y: nat, c: Color)
    requires
        pixels.len() == width * height,
        x < width,
        y < height,
    ensures
        pixels.update((y * width + x) as int, c)[(y * width + x) as int] == c,
{
    assert((y as int) * (width as int) + (x as int) < (width as int) * (height as int))
        by (nonlinear_arith)
        requires
            x < width,
            y < height,
    ;
}

} // verus!
