use vstd::prelude::*;
use core::ops::Range;

verus! {

/// A 24-bit RGB colour.
#[derive(Clone, Copy, PartialEq, Eq, Structural, Debug)]
pub struct Color {
    pub red: u8,
    pub green: u8,
    pub blue: u8,
}

/// `(x * 2^k) mod 256` is the low `8 - k` bits of `x` shifted up by `k`.
proof fn lemma_wrapping_scale(x: u8, k: u8)
    requires
        k <= 7,
    ensures
        ((x as nat * (1u8 << k) as nat) % 256) as u8 == ((x as u16) << (k as u16)) as u8,
{
    assert((x as int * (1u8 << k) as int) % 256 == (((x as u16) << (k as u16)) as u8) as int) by (bit_vector)
        requires k <= 7;
}

impl Color {
    /// The colour with the given components.
    pub fn new(red: u8, green: u8, blue: u8) -> (r: Color)
        ensures
            r.red == red,
            r.green == green,
            r.blue == blue,
    {
        Color { red, green, blue }
    }

    /// Expands a 15-bit colour (5 bits each, red in bits 10..15): each
    /// component is its 5-bit field shifted up by 3.
    pub fn from_c15(color: u16) -> (r: Color)
        ensures
            r.red == (((color >> 10u16) & 0x1f) << 3u16) as u8,
            r.green == (((color >> 5u16) & 0x1f) << 3u16) as u8,
            r.blue == ((color & 0x1f) << 3u16) as u8,
    {
        let r = Color {
            red: ((color >> 10u16) as u8).wrapping_mul(1u8 << (8u8 - 5u8)),
            green: ((color >> 5u16) as u8).wrapping_mul(1u8 << (8u8 - 5u8)),
            blue: ((color >> 0u16) as u8).wrapping_mul(1u8 << (8u8 - 5u8)),
        };
        proof {
            lemma_wrapping_scale((color >> 10u16) as u8, 3);
            lemma_wrapping_scale((color >> 5u16) as u8, 3);
            lemma_wrapping_scale((color >> 0u16) as u8, 3);
            assert((((((color >> 10u16) as u8) as u16) << 3u16) as u8 == (((color >> 10u16) & 0x1f) << 3u16) as u8)
                && (((((color >> 5u16) as u8) as u16) << 3u16) as u8 == (((color >> 5u16) & 0x1f) << 3u16) as u8)
                && (((((color >> 0u16) as u8) as u16) << 3u16) as u8 == ((color & 0x1f) << 3u16) as u8)) by (bit_vector);
        }
        r
    }

    /// Expands a 16-bit 5-6-5 colour (red in bits 11..16, green in bits
    /// 5..11, blue in bits 0..5): each component is its field shifted up
    /// to 8 bits.
    pub fn from_c16(color: u16) -> (r: Color)
        ensures
            r.red == (((color >> 11u16) & 0x1f) << 3u16) as u8,
            r.green == (((color >> 5u16) & 0x3f) << 2u16) as u8,
            r.blue == ((color & 0x1f) << 3u16) as u8,
    {
        let r = Color {
            red: ((color >> 11u16) as u8).wrapping_mul(1u8 << (8u8 - 5u8)),
            green: ((color >> 5u16) as u8).wrapping_mul(1u8 << (8u8 - 6u8)),
            blue: ((color >> 0u16) as u8).wrapping_mul(1u8 << (8u8 - 5u8)),
        };
        proof {
            lemma_wrapping_scale((color >> 11u16) as u8, 3);
            lemma_wrapping_scale((color >> 5u16) as u8, 2);
            lemma_wrapping_scale((color >> 0u16) as u8, 3);
            assert((((((color >> 11u16) as u8) as u16) << 3u16) as u8 == (((color >> 11u16) & 0x1f) << 3u16) as u8)
                && (((((color >> 5u16) as u8) as u16) << 2u16) as u8 == (((color >> 5u16) & 0x3f) << 2u16) as u8)
                && (((((color >> 0u16) as u8) as u16) << 3u16) as u8 == ((color & 0x1f) << 3u16) as u8)) by (bit_vector);
        }
        r
    }

    /// Splits a 32-bit `0x00RRGGBB` colour into its components.
    pub fn from_c32(color: u32) -> (r: Color)
        ensures
            r.red as u32 == (color >> 16u32) & 0xff,
            r.green as u32 == (color >> 8u32) & 0xff,
            r.blue as u32 == color & 0xff,
    {
        let r = Color {
            red: (color >> 16u32 & 0xFFu32) as u8,
            green: (color >> 8u32 & 0xFFu32) as u8,
            blue: (color >> 0u32 & 0xFFu32) as u8,
        };
        proof {
            assert((((color >> 16u32 & 0xFFu32) as u8) as u32 == (color >> 16u32) & 0xff)
                && (((color >> 8u32 & 0xFFu32) as u8) as u32 == (color >> 8u32) & 0xff)
                && (((color >> 0u32 & 0xFFu32) as u8) as u32 == color & 0xff)) by (bit_vector);
        }
        r
    }

    /// The 8-bit form: bits 0..2 of red, bits 3..5 of green and bits 5..8 of
    /// blue, combined.
    pub fn as_c8(&self) -> (r: u8)
        ensures
            r == (self.red & 0x03) | (self.green & 0x18) | (self.blue & 0xE0),
    {
        (self.red & 0x03) | (self.green & 0x18) | (self.blue & 0xE0)
    }

    /// The 15-bit form: the top 5 bits of each component, red highest.
    pub fn as_c15(&self) -> (r: u16)
        ensures
            r as int == (self.red / 8) as int * 1024 + (self.green / 8) as int * 32 + (self.blue / 8) as int,
    {
        let red = self.red;
        let green = self.green;
        let blue = self.blue;
        proof { assert(1u16 << 3u16 == 8u16) by (bit_vector); }
        let r = (red as u16 / (1u16 << (8u16 - 5u16))) << 10u16 |
            (green as u16 / (1u16 << (8u16 - 5u16))) << 5u16 |
            (blue as u16 / (1u16 << (8u16 - 5u16)));
        proof {
            assert(((red as u16 / 8u16) << 10u16 | (green as u16 / 8u16) << 5u16 | (blue as u16 / 8u16)) as int
                == (red / 8) as int * 1024 + (green / 8) as int * 32 + (blue / 8) as int) by (bit_vector);
        }
        r
    }

    /// The 16-bit 5-6-5 form: the top 5 bits of red in bits 11..16, the
    /// top 6 bits of green in bits 5..11 and the top 5 bits of blue in bits
    /// 0..5.
    pub fn as_c16(&self) -> (r: u16)
        ensures
            r == ((self.red >> 3u8) as u16) << 11u16 | ((self.green >> 2u8) as u16) << 5u16 | (self.blue >> 3u8) as u16,
    {
        let red = self.red;
        let green = self.green;
        let blue = self.blue;
        proof {
            assert(1u16 << 3u16 == 8u16 && 1u16 << 2u16 == 4u16) by (bit_vector);
        }
        let r = (red as u16 / (1u16 << (8u16 - 5u16))) << 11u16 |
            (green as u16 / (1u16 << (8u16 - 6u16))) << 5u16 |
            (blue as u16 / (1u16 << (8u16 - 5u16)));
        proof {
            assert(((red as u16 / 8u16) << 11u16 | (green as u16 / 4u16) << 5u16 | (blue as u16 / 8u16))
                == ((red >> 3u8) as u16) << 11u16 | ((green >> 2u8) as u16) << 5u16 | (blue >> 3u8) as u16) by (bit_vector);
        }
        r
    }

    /// The 24-bit form as bytes in memory order: blue, green, red.
    pub fn as_c24(&self) -> (r: (u8, u8, u8))
        ensures
            r == (self.blue, self.green, self.red),
    {
        (self.blue, self.green, self.red)
    }

    /// The 32-bit form `0x00RRGGBB`.
    pub fn as_c32(&self) -> (r: u32)
        ensures
            r as int == self.red as int * 65536 + self.green as int * 256 + self.blue as int,
    {
        let red = self.red;
        let green = self.green;
        let blue = self.blue;
        let r = (red as u32) << 16u32 | (green as u32) << 8u32 | (blue as u32);
        proof {
            assert(((red as u32) << 16u32 | (green as u32) << 8u32 | (blue as u32)) as int
                == red as int * 65536 + green as int * 256 + blue as int) by (bit_vector);
        }
        r
    }
}

/// Splitting the 32-bit form of a colour gives the colour back.
pub proof fn lemma_c32_round_trip(c: Color, packed: u32, back: Color)
    requires
        packed as int == c.red as int * 65536 + c.green as int * 256 + c.blue as int,
        back.red as u32 == (packed >> 16u32) & 0xff,
        back.green as u32 == (packed >> 8u32) & 0xff,
        back.blue as u32 == packed & 0xff,
    ensures
        back == c,
{
    let (r, g, b) = (c.red, c.green, c.blue);
    assert((packed >> 16u32) & 0xff == r as u32 && (packed >> 8u32) & 0xff == g as u32 && packed & 0xff == b as u32) by (bit_vector)
        requires packed as int == r as int * 65536 + g as int * 256 + b as int;
}

/// Expanding the 15-bit form of a colour gives the colour back with the
/// three low bits of each component cleared.
pub proof fn lemma_c15_round_trip(c: Color, packed: u16, back: Color)
    requires
        packed as int == (c.red / 8) as int * 1024 + (c.green / 8) as int * 32 + (c.blue / 8) as int,
        back.red == (((packed >> 10u16) & 0x1f) << 3u16) as u8,
        back.green == (((packed >> 5u16) & 0x1f) << 3u16) as u8,
        back.blue == ((packed & 0x1f) << 3u16) as u8,
    ensures
        back.red == c.red & 0xF8,
        back.green == c.green & 0xF8,
        back.blue == c.blue & 0xF8,
{
    let (r, g, b) = (c.red, c.green, c.blue);
    assert((((packed >> 10u16) & 0x1f) << 3u16) as u8 == r & 0xF8
        && (((packed >> 5u16) & 0x1f) << 3u16) as u8 == g & 0xF8
        && ((packed & 0x1f) << 3u16) as u8 == b & 0xF8) by (bit_vector)
        requires packed as int == (r / 8) as int * 1024 + (g / 8) as int * 32 + (b / 8) as int;
}

/// Expanding the 16-bit form of a colour gives the colour back, rounded
/// down to the bits the form keeps: five of red and blue, six of green.
pub proof fn lemma_c16_round_trip(c: Color, packed: u16, back: Color)
    requires
        packed == ((c.red >> 3u8) as u16) << 11u16 | ((c.green >> 2u8) as u16) << 5u16 | (c.blue >> 3u8) as u16,
        back.red == (((packed >> 11u16) & 0x1f) << 3u16) as u8,
        back.green == (((packed >> 5u16) & 0x3f) << 2u16) as u8,
        back.blue == ((packed & 0x1f) << 3u16) as u8,
    ensures
        back.red == c.red & 0xF8,
        back.green == c.green & 0xFC,
        back.blue == c.blue & 0xF8,
{
    let (r, g, b) = (c.red, c.green, c.blue);
    assert((((packed >> 11u16) & 0x1f) << 3u16) as u8 == r & 0xF8
        && (((packed >> 5u16) & 0x3f) << 2u16) as u8 == g & 0xFC
        && ((packed & 0x1f) << 3u16) as u8 == b & 0xF8) by (bit_vector)
        requires
            packed == ((r >> 3u8) as u16) << 11u16 | ((g >> 2u8) as u16) << 5u16 | (b >> 3u8) as u16;
}

/// A coordinate or length on a display, in pixels.
pub type DisplaySize = i32;

/// `|v|`.
pub open spec fn abs(v: int) -> int {
    if v < 0 { -v } else { v }
}

/// `v0` moved `k` places in the direction of `s`.
pub open spec fn moved(v0: int, s: int, k: int) -> int {
    if s > 0 { v0 + k } else { v0 - k }
}

/// How far `v` lies from `v0` in the direction of `s`.
pub open spec fn progress(v0: int, s: int, v: int) -> int {
    if s > 0 { v - v0 } else { v0 - v }
}

/// Direction of the step from `a` towards `b`.
pub open spec fn step_dir(a: int, b: int) -> int {
    if a < b { 1 } else { -1 }
}

/// Number of pixels of the line from `from` to `to`.
pub open spec fn line_len(from: (i32, i32), to: (i32, i32)) -> int {
    let a = abs(to.0 - from.0);
    let b = abs(to.1 - from.1);
    if a > b { a + 1 } else { b + 1 }
}

/// `p` is pixel `k` of the line from `from` to `to`: pixel `k` lies `k`
/// steps along the longer axis, and along the shorter axis it is the pixel
/// whose error term (the deviation from the true line, offset by half the
/// longer extent) stays within one pixel.
pub open spec fn line_point(from: (i32, i32), to: (i32, i32), k: int, p: (i32, i32)) -> bool {
    let a = abs(to.0 - from.0);
    let b = abs(to.1 - from.1);
    let sx = step_dir(from.0 as int, to.0 as int);
    let sy = step_dir(from.1 as int, to.1 as int);
    if a > b {
        &&& p.0 == moved(from.0 as int, sx, k)
        &&& 0 <= a / 2 - b * k + a * progress(from.1 as int, sy, p.1 as int) < a
    } else if b > 0 {
        &&& p.1 == moved(from.1 as int, sy, k)
        &&& -b < -(b / 2) - b * progress(from.0 as int, sx, p.0 as int) + a * k <= 0
    } else {
        p == from
    }
}

proof fn lemma_err_shift(e: int, a: int, b: int, i: int, j: int, e0: int)
    requires
        e == e0 - b * i + a * j,
    ensures
        e - b == e0 - b * (i + 1) + a * j,
        e + a == e0 - b * i + a * (j + 1),
        e - b + a == e0 - b * (i + 1) + a * (j + 1),
{
    assert(b * (i + 1) == b * i + b) by (nonlinear_arith);
    assert(a * (j + 1) == a * j + a) by (nonlinear_arith);
}

proof fn lemma_at_end_x(e0: int, a: int, b: int, j: int)
    requires
        0 <= e0 < a,
        0 <= j <= b,
        0 <= e0 - b * a + a * j,
    ensures
        j == b,
{
    assert(e0 - b * a + a * j == e0 - a * (b - j)) by (nonlinear_arith);
    if j < b {
        assert(a * (b - j) >= a) by (nonlinear_arith) requires b - j >= 1, a > 0;
    }
}

proof fn lemma_at_end_y(e0: int, a: int, b: int, i: int)
    requires
        -b < e0 <= 0,
        0 <= i <= a,
        e0 - b * i + a * b <= 0,
    ensures
        i == a,
{
    assert(e0 - b * i + a * b == e0 + b * (a - i)) by (nonlinear_arith);
    if i < a {
        assert(b * (a - i) >= b) by (nonlinear_arith) requires a - i >= 1, b > 0;
    }
}

/// The pixels of the line from `from` to `to`, in drawing order: the
/// integer line stepping along the longer axis, with the error term started
/// at half the longer extent. Each extent must fit in an `i32`; the error
/// term is kept in 64 bits, so no step overflows.
pub fn line_points(from: (i32, i32), to: (i32, i32)) -> (pts: Vec<(i32, i32)>)
    requires
        abs(to.0 - from.0) <= i32::MAX,
        abs(to.1 - from.1) <= i32::MAX,
    ensures
        pts@.len() == line_len(from, to),
        forall|k: int| 0 <= k < pts@.len() ==> line_point(from, to, k, #[trigger] pts@[k]),
        pts@[0] == from,
        pts@.last() == to,
{
    let dx: i32 = if to.0 >= from.0 { to.0 - from.0 } else { from.0 - to.0 };
    let dy: i32 = if to.1 >= from.1 { to.1 - from.1 } else { from.1 - to.1 };
    let sx: i32 = if from.0 < to.0 { 1 } else { -1 };
    let sy: i32 = if from.1 < to.1 { 1 } else { -1 };
    let mut err: i64 = if dx > dy { (dx / 2) as i64 } else { -((dy / 2) as i64) };
    let ghost a = dx as int;
    let ghost b = dy as int;
    let ghost e0 = err as int;
    let (mut x, mut y) = from;
    let ghost mut i: int = 0;
    let ghost mut j: int = 0;
    let mut pts: Vec<(i32, i32)> = Vec::new();
    loop
        invariant_except_break
            a == abs(to.0 - from.0),
            b == abs(to.1 - from.1),
            a <= i32::MAX,
            b <= i32::MAX,
            dx == a,
            dy == b,
            sx == step_dir(from.0 as int, to.0 as int),
            sy == step_dir(from.1 as int, to.1 as int),
            e0 == if a > b { a / 2 } else { -(b / 2) },
            0 <= i <= a,
            0 <= j <= b,
            x == moved(from.0 as int, sx as int, i),
            y == moved(from.1 as int, sy as int, j),
            err == e0 - b * i + a * j,
            a > b ==> 0 <= err < a && i == pts@.len(),
            a <= b && b > 0 ==> -b < err <= 0 && j == pts@.len(),
            a == 0 && b == 0 ==> pts@.len() == 0,
            pts@.len() == 0 ==> i == 0 && j == 0,
            forall|k: int| 0 <= k < pts@.len() ==> line_point(from, to, k, #[trigger] pts@[k]),
            pts@.len() > 0 ==> pts@[0] == from,
        ensures
            pts@.len() == line_len(from, to),
            forall|k: int| 0 <= k < pts@.len() ==> line_point(from, to, k, #[trigger] pts@[k]),
            pts@[0] == from,
            pts@.last() == to,
        decreases (if a > b { a - i } else { b - j }),
    {
        proof {
            if a > b {
                assert(line_point(from, to, i, (x, y)));
            } else if b > 0 {
                assert(line_point(from, to, j, (x, y)));
            }
        }
        pts.push((x, y));
        if x == to.0 && y == to.1 {
            proof {
                assert(i == a && j == b);
                assert(pts@.last() == (x, y));
            }
            break;
        }
        let e2 = err;
        proof {
            if a > b {
                if i == a {
                    lemma_at_end_x(e0, a, b, j);
                    assert(false);
                }
                if j == b && e2 < dy {
                    assert(e0 - b * i + a * b == e0 + b * (a - i)) by (nonlinear_arith);
                    assert(b * (a - i) >= 0) by (nonlinear_arith) requires a - i >= 0, b >= 0;
                    if b > 0 {
                        assert(b * (a - i) >= b) by (nonlinear_arith) requires a - i >= 1, b > 0;
                    }
                    assert(false);
                }
            } else {
                if j == b {
                    lemma_at_end_y(e0, a, b, i);
                    assert(false);
                }
                if i == a && e2 > -dx {
                    assert(e0 - b * a + a * j == e0 - a * (b - j)) by (nonlinear_arith);
                    assert(a * (b - j) >= a) by (nonlinear_arith) requires b - j >= 1, a >= 0;
                    assert(false);
                }
            }
            lemma_err_shift(err as int, a, b, i, j, e0);
        }
        if e2 > -(dx as i64) {
            err -= dy as i64;
            x += sx;
            proof { i = i + 1; }
        }
        if e2 < dy as i64 {
            err += dx as i64;
            y += sy;
            proof { j = j + 1; }
        }
    }
    pts
}

/// A screen that can be drawn on pixel by pixel.
///
/// Implementations give the resolution and how one pixel is put; lines,
/// rectangles and clearing are built on `put`.
pub trait Display {
    /// Width and height in pixels.
    fn resolution(&self) -> (DisplaySize, DisplaySize);

    /// Draws one pixel.
    fn put(&self, color: Color, x: DisplaySize, y: DisplaySize);

    /// Draws the pixels `range` of row `y`.
    fn horizontal_line(&self, color: Color, range: Range<DisplaySize>, y: DisplaySize) {
        let mut x = range.start;
        let end = range.end;
        while x < end
            decreases end - x,
        {
            self.put(color, x, y);
            x = x + 1;
        }
    }

    /// Draws the rectangle `(x, y, width, height)`.
    fn fill(&self, color: Color, rect: (DisplaySize, DisplaySize, DisplaySize, DisplaySize))
        requires
            i32::MIN <= rect.0 + rect.2 <= i32::MAX,
            i32::MIN <= rect.1 + rect.3 <= i32::MAX,
    {
        let end = rect.1 + rect.3;
        let mut y = rect.1;
        while y < end
            invariant
                i32::MIN <= rect.0 + rect.2 <= i32::MAX,
            decreases end - y,
        {
            self.horizontal_line(color, Range { start: rect.0, end: rect.0 + rect.2 }, y);
            y = y + 1;
        }
    }

    /// Fills the whole screen.
    fn clear(&self, color: Color) {
        let res = self.resolution();
        self.fill(color, (0, 0, res.0, res.1));
    }

    /// Draws the line from `from` to `to`, pixel by pixel as `line_points`
    /// gives them.
    fn line(&self, color: Color, from: (DisplaySize, DisplaySize), to: (DisplaySize, DisplaySize))
        requires
            abs(to.0 - from.0) <= i32::MAX,
            abs(to.1 - from.1) <= i32::MAX,
    {
        let pts = line_points(from, to);
        let mut k: usize = 0;
        while k < pts.len()
            decreases pts@.len() - k,
        {
            let (x, y) = pts[k];
            self.put(color, x, y);
            k = k + 1;
        }
    }
}

/// The display of a machine without a screen: it has no pixels and draws nothing.
pub struct Dummy;

impl Dummy {
    /// The dummy display.
    pub fn new() -> (r: Dummy) {
        Dummy
    }

    /// A dummy display never stands for a real screen.
    pub fn is_available() -> (r: bool)
        ensures
            !r,
    {
        false
    }
}

impl Display for Dummy {
    fn resolution(&self) -> (r: (DisplaySize, DisplaySize))
        ensures
            r == (0i32, 0i32),
    {
        (0, 0)
    }

    fn put(&self, _color: Color, _x: DisplaySize, _y: DisplaySize) {
    }

    fn horizontal_line(&self, _color: Color, _range: Range<DisplaySize>, _y: DisplaySize) {
    }

    fn fill(&self, _color: Color, _rect: (DisplaySize, DisplaySize, DisplaySize, DisplaySize)) {
    }

    fn clear(&self, _color: Color) {
    }

    fn line(&self, _color: Color, _from: (DisplaySize, DisplaySize), _to: (DisplaySize, DisplaySize)) {
    }
}

} // verus!
