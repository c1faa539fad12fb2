use vstd::prelude::*;
use crate::drivers::display as common;
use vstd::string::StringSliceAdditionalSpecFns;
use crate::arch::x86::page::{PageTable, mapped_pd, mapped_pt, pages_for};

verus! {

/// Physical address of the text-mode video memory.
pub const VGA_ADDRESS: u32 = 0xB8000;
/// Columns of the text screen.
pub const VGA_WIDTH: u16 = 80;
/// Rows of the text screen.
pub const VGA_HEIGHT: u16 = 25;
/// Number of character cells.
pub const VGA_CELLS: usize = 2000;

/// The sixteen colours of the text mode.
#[derive(Clone, Copy, PartialEq, Eq, Structural, Debug)]
pub enum Color {
    Black,
    Blue,
    Green,
    Cyan,
    Red,
    Pink,
    Brown,
    LightGray,
    DarkGray,
    LightBlue,
    LightGreen,
    LightCyan,
    LightRed,
    LightPink,
    Yellow,
    White,
}

/// The four-bit code of a text-mode colour.
pub open spec fn color_code(c: Color) -> u16 {
    match c {
        Color::Black => 0,
        Color::Blue => 1,
        Color::Green => 2,
        Color::Cyan => 3,
        Color::Red => 4,
        Color::Pink => 5,
        Color::Brown => 6,
        Color::LightGray => 7,
        Color::DarkGray => 8,
        Color::LightBlue => 9,
        Color::LightGreen => 10,
        Color::LightCyan => 11,
        Color::LightRed => 12,
        Color::LightPink => 13,
        Color::Yellow => 14,
        Color::White => 15,
    }
}

impl Color {
    /// The four-bit code.
    pub fn code(self) -> (r: u16)
        ensures
            r == color_code(self),
    {
        match self {
            Color::Black => 0,
            Color::Blue => 1,
            Color::Green => 2,
            Color::Cyan => 3,
            Color::Red => 4,
            Color::Pink => 5,
            Color::Brown => 6,
            Color::LightGray => 7,
            Color::DarkGray => 8,
            Color::LightBlue => 9,
            Color::LightGreen => 10,
            Color::LightCyan => 11,
            Color::LightRed => 12,
            Color::LightPink => 13,
            Color::Yellow => 14,
            Color::White => 15,
        }
    }

    /// The text-mode colour closest to `color`: each component counts as
    /// low (0 to 84), middle (85 to 170) or high (171 to 255); components
    /// all low or high give the eight bright colours and black, components
    /// all low or middle the six dark colours and dark gray, and any other
    /// mix light gray.
    pub fn from_common(color: common::Color) -> (r: Color)
        ensures
            r == text_color_of(level_of(color.red), level_of(color.green), level_of(color.blue)),
    {
        let lr = level(color.red);
        let lg = level(color.green);
        let lb = level(color.blue);
        if lr != 1 && lg != 1 && lb != 1 {
            if lr == 0 && lg == 0 && lb == 0 { Color::Black }
            else if lr == 2 && lg == 0 && lb == 0 { Color::LightRed }
            else if lr == 0 && lg == 2 && lb == 0 { Color::LightGreen }
            else if lr == 2 && lg == 2 && lb == 0 { Color::Yellow }
            else if lr == 0 && lg == 0 && lb == 2 { Color::LightBlue }
            else if lr == 2 && lg == 0 && lb == 2 { Color::LightPink }
            else if lr == 0 && lg == 2 && lb == 2 { Color::LightCyan }
            else { Color::White }
        } else if lr != 2 && lg != 2 && lb != 2 {
            if lr == 1 && lg == 0 && lb == 0 { Color::Red }
            else if lr == 0 && lg == 1 && lb == 0 { Color::Green }
            else if lr == 1 && lg == 1 && lb == 0 { Color::Brown }
            else if lr == 0 && lg == 0 && lb == 1 { Color::Blue }
            else if lr == 1 && lg == 0 && lb == 1 { Color::Pink }
            else if lr == 0 && lg == 1 && lb == 1 { Color::Cyan }
            else { Color::DarkGray }
        } else {
            Color::LightGray
        }
    }
}

/// 0 for 0 to 84, 1 for 85 to 170, 2 for 171 to 255.
pub open spec fn level_of(v: u8) -> u8 {
    if v <= 84 { 0 } else if v <= 170 { 1 } else { 2 }
}

fn level(v: u8) -> (r: u8)
    ensures
        r == level_of(v),
{
    if v <= 84 { 0 } else if v <= 170 { 1 } else { 2 }
}

/// The text-mode colour for component levels `(r, g, b)`.
pub open spec fn text_color_of(r: u8, g: u8, b: u8) -> Color {
    if (r, g, b) == (0u8, 0u8, 0u8) { Color::Black }
    else if (r, g, b) == (2u8, 0u8, 0u8) { Color::LightRed }
    else if (r, g, b) == (0u8, 2u8, 0u8) { Color::LightGreen }
    else if (r, g, b) == (2u8, 2u8, 0u8) { Color::Yellow }
    else if (r, g, b) == (0u8, 0u8, 2u8) { Color::LightBlue }
    else if (r, g, b) == (2u8, 0u8, 2u8) { Color::LightPink }
    else if (r, g, b) == (0u8, 2u8, 2u8) { Color::LightCyan }
    else if (r, g, b) == (2u8, 2u8, 2u8) { Color::White }
    else if (r, g, b) == (1u8, 0u8, 0u8) { Color::Red }
    else if (r, g, b) == (0u8, 1u8, 0u8) { Color::Green }
    else if (r, g, b) == (1u8, 1u8, 0u8) { Color::Brown }
    else if (r, g, b) == (0u8, 0u8, 1u8) { Color::Blue }
    else if (r, g, b) == (1u8, 0u8, 1u8) { Color::Pink }
    else if (r, g, b) == (0u8, 1u8, 1u8) { Color::Cyan }
    else if (r, g, b) == (1u8, 1u8, 1u8) { Color::DarkGray }
    else { Color::LightGray }
}

/// The cell value showing `b` in foreground `fg` on background `bg`.
pub open spec fn entry(b: u8, fg: Color, bg: Color) -> u16 {
    ((color_code(fg) | (color_code(bg) << 4u16)) << 8u16) | (b as u16)
}

/// The cell value showing `b` in foreground `fg` on background `bg`:
/// the attribute byte (foreground low, background high) above the character.
pub fn make_entry(b: u8, fg: Color, bg: Color) -> (r: u16)
    ensures
        r == entry(b, fg, bg),
{
    let attr = fg.code() | (bg.code() << 4u16);
    (attr << 8u16) | (b as u16)
}

/// The character cells of the text-mode video memory, row after row.
pub struct TextScreen {
    cells: Vec<u16>,
}

impl View for TextScreen {
    type V = Seq<u16>;

    /// The cell values, row after row.
    closed spec fn view(&self) -> Seq<u16> {
        self.cells@
    }
}

impl TextScreen {
    /// A screen of `VGA_CELLS` blank (zero) cells.
    pub fn new() -> (r: TextScreen)
        ensures
            r@.len() == VGA_CELLS,
            forall|i: int| 0 <= i < VGA_CELLS ==> #[trigger] r@[i] == 0,
    {
        let mut cells: Vec<u16> = Vec::new();
        let mut i: usize = 0;
        while i < VGA_CELLS
            invariant
                i <= VGA_CELLS,
                cells@.len() == i,
                forall|k: int| 0 <= k < i ==> #[trigger] cells@[k] == 0,
            decreases VGA_CELLS - i,
        {
            cells.push(0);
            i = i + 1;
        }
        TextScreen { cells }
    }

    /// The value of cell `i`.
    pub fn cell(&self, i: usize) -> (r: u16)
        requires
            i < self@.len(),
        ensures
            r == self@[i as int],
    {
        self.cells[i]
    }

    /// Writes `value` to cell `i`.
    fn set_cell(&mut self, i: usize, value: u16)
        requires
            i < old(self)@.len(),
        ensures
            final(self)@ == old(self)@.update(i as int, value),
    {
        self.cells.set(i, value);
    }
}

/// Shows `ch` at column `x` of row `y` of the 80-column screen.
pub fn put(screen: &mut TextScreen, x: u16, y: u16, ch: u8, fg: Color, bg: Color)
    requires
        old(screen)@.len() == VGA_CELLS,
        x + y * 80 < VGA_CELLS,
    ensures
        final(screen)@ == old(screen)@.update(x + y * 80, entry(ch, fg, bg)),
{
    let width = VGA_WIDTH;
    screen.set_cell((x + y * width) as usize, make_entry(ch, fg, bg));
}

/// Blanks every cell: a space, black on `bg`.
pub fn clear(screen: &mut TextScreen, bg: Color)
    requires
        old(screen)@.len() == VGA_CELLS,
    ensures
        final(screen)@.len() == VGA_CELLS,
        forall|i: int| 0 <= i < VGA_CELLS ==> #[trigger] final(screen)@[i] == entry(0x20, Color::Black, bg),
{
    let (width, height) = (VGA_WIDTH, VGA_HEIGHT);
    let n = width * height;
    let mut i: u16 = 0;
    while i < n
        invariant
            n == VGA_CELLS,
            i <= n,
            screen@.len() == VGA_CELLS,
            forall|k: int| 0 <= k < i ==> #[trigger] screen@[k] == entry(0x20, Color::Black, bg),
        decreases n - i,
    {
        put(screen, i, 0, 0x20u8, Color::Black, bg);
        i = i + 1;
    }
}

/// Shows the bytes of `s` from column `x` of row `y` on.
pub fn puts(screen: &mut TextScreen, x: u16, y: u16, s: &str, fg: Color, bg: Color)
    requires
        old(screen)@.len() == VGA_CELLS,
        x + y * 80 + s.spec_bytes().len() <= VGA_CELLS,
    ensures
        final(screen)@.len() == VGA_CELLS,
        forall|i: int| 0 <= i < VGA_CELLS ==> #[trigger] final(screen)@[i] ==
            if x + y * 80 <= i < x + y * 80 + s.spec_bytes().len() {
                entry(s.spec_bytes()[i - (x + y * 80)], fg, bg)
            } else {
                old(screen)@[i]
            },
{
    let bytes = s.as_bytes();
    let mut i: usize = 0;
    while i < bytes.len()
        invariant
            bytes@ == s.spec_bytes(),
            x + y * 80 + bytes@.len() <= VGA_CELLS,
            i <= bytes@.len(),
            screen@.len() == VGA_CELLS,
            forall|k: int| 0 <= k < VGA_CELLS ==> #[trigger] screen@[k] ==
                if x + y * 80 <= k < x + y * 80 + i {
                    entry(bytes@[k - (x + y * 80)], fg, bg)
                } else {
                    old(screen)@[k]
                },
        decreases bytes@.len() - i,
    {
        put(screen, x + i as u16, y, bytes[i], fg, bg);
        i = i + 1;
    }
}

/// The digits of `n` in base `base`, most significant first.
pub open spec fn digits(n: nat, base: nat) -> Seq<nat>
    decreases n,
{
    if base < 2 || n < base {
        seq![n]
    } else {
        proof {
            assert(n / base < n) by (nonlinear_arith) requires n >= base, base >= 2;
        }
        digits(n / base, base).push(n % base)
    }
}

/// The character shown for digit `d`: `'0'` to `':'` for 0 to
/// 10 and `'B'` to `'F'` for 11 to 15.
pub open spec fn digit_char(d: nat) -> u8 {
    if d <= 10 { (48 + d) as u8 } else { (65 - 10 + d) as u8 }
}

proof fn lemma_digits_len(n: nat, base: nat)
    requires
        base >= 2,
    ensures
        digits(n, base).len() >= 1,
        forall|k: int| 0 <= k < digits(n, base).len() ==> #[trigger] digits(n, base)[k] < base,
    decreases n,
{
    if n >= base {
        assert(n / base < n) by (nonlinear_arith) requires n >= base, base >= 2;
        lemma_digits_len(n / base, base);
    }
}

/// Shows `n` in base `base` (2 to 16) from column `x` of row `y` on.
pub fn put32(screen: &mut TextScreen, x: u16, y: u16, n: u32, base: u32, fg: Color, bg: Color)
    requires
        old(screen)@.len() == VGA_CELLS,
        2 <= base <= 16,
        x + y * 80 + digits(n as nat, base as nat).len() <= VGA_CELLS,
    ensures
        final(screen)@.len() == VGA_CELLS,
        forall|i: int| 0 <= i < VGA_CELLS ==> #[trigger] final(screen)@[i] ==
            if x + y * 80 <= i < x + y * 80 + digits(n as nat, base as nat).len() {
                entry(digit_char(digits(n as nat, base as nat)[i - (x + y * 80)]), fg, bg)
            } else {
                old(screen)@[i]
            },
{
    let ghost ds = digits(n as nat, base as nat);
    proof { lemma_digits_len(n as nat, base as nat); }
    let mut t = n / base;
    let mut l: u16 = 1;
    proof {
        assert(n < base ==> n / base == 0) by (nonlinear_arith) requires base >= 2;
        assert(n / base == 0 ==> n < base) by (nonlinear_arith) requires base >= 2;
    }
    while t > 0
        invariant
            2 <= base <= 16,
            x + y * 80 + ds.len() <= VGA_CELLS,
            ds == digits(n as nat, base as nat),
            1 <= l,
            t > 0 ==> l + digits(t as nat, base as nat).len() == ds.len(),
            t == 0 ==> l == ds.len(),
        decreases t,
    {
        proof {
            lemma_digits_len(t as nat, base as nat);
            assert(t / base < t) by (nonlinear_arith) requires t > 0, base >= 2;
            assert(t < base ==> t / base == 0) by (nonlinear_arith) requires base >= 2;
            assert(t / base == 0 ==> t < base) by (nonlinear_arith) requires base >= 2;
        }
        l = l + 1;
        t = t / base;
    }
    t = n;
    let mut i = x + l;
    while i > x
        invariant
            2 <= base <= 16,
            x + y * 80 + ds.len() <= VGA_CELLS,
            ds == digits(n as nat, base as nat),
            l as int == ds.len(),
            x <= i <= x + l,
            screen@.len() == VGA_CELLS,
            i > x ==> digits(t as nat, base as nat) == ds.subrange(0, i - x),
            forall|k: int| 0 <= k < VGA_CELLS ==> #[trigger] screen@[k] ==
                if i + y * 80 <= k < x + y * 80 + l {
                    entry(digit_char(ds[k - (x + y * 80)]), fg, bg)
                } else {
                    old(screen)@[k]
                },
        decreases i,
    {
        i = i - 1;
        let d = (t % base) as u8;
        proof {
            lemma_digits_len(t as nat, base as nat);
            let dt = digits(t as nat, base as nat);
            assert(t < base ==> t % base == t) by (nonlinear_arith) requires base >= 2;
            assert(dt.last() == t % base);
            assert(ds[i - x] == dt.last());
            if t >= base {
                assert(dt.drop_last() == digits((t / base) as nat, base as nat));
            }
        }
        let c = if d <= 10 { 0x30u8 + d } else { 0x41u8 - 10 + d };
        put(screen, i, y, c, fg, bg);
        t = t / base;
        proof {
            if i > x {
                assert(digits(t as nat, base as nat) =~= ds.subrange(0, i - x));
            }
        }
    }
}

/// Where the cursor `pos` of a console of `size` really is: past the last
/// column it wraps to the start of the next row, past the last row to the
/// top.
pub open spec fn normalized(size: (u16, u16), pos: (u16, u16)) -> (int, int) {
    let (w, h) = size;
    let (x, y) = pos;
    if x >= w {
        (0, if y + 1 >= h { 0 } else { y + 1 })
    } else {
        (x as int, if y >= h { 0 } else { y as int })
    }
}

/// `ch` moves the cursor without writing: newline, carriage return,
/// backspace or vertical tab.
pub open spec fn is_control(ch: u8) -> bool {
    ch == 10 || ch == 13 || ch == 8 || ch == 11
}

/// The cursor after `put(ch)` at `pos`: newline goes to the start of the
/// next row, carriage return to the start of the row, backspace one column
/// back and one row down, vertical tab one row down, and any other byte is
/// written and the cursor moves one cell on.
pub open spec fn cursor_after(size: (u16, u16), pos: (u16, u16), ch: u8) -> (int, int) {
    let (x, y) = normalized(size, pos);
    if ch == 10 {
        (0, y + 1)
    } else if ch == 13 {
        (0, y)
    } else if ch == 8 {
        (x - 1, y + 1)
    } else if ch == 11 {
        (x, y + 1)
    } else {
        normalized(size, ((x + 1) as u16, y as u16))
    }
}

/// The console fits in the video memory.
pub open spec fn console_fits(size: (u16, u16)) -> bool {
    size.0 * (if size.1 > 0 { size.1 as int } else { 1 }) <= VGA_CELLS
}

/// `put(ch)` at `pos` does not overflow: the row can be advanced, and a
/// backspace is not at the first column.
pub open spec fn put_ok(size: (u16, u16), pos: (u16, u16), ch: u8) -> bool {
    &&& pos.0 >= size.0 ==> pos.1 < 0xFFFF
    &&& ch == 8 ==> normalized(size, pos).0 != 0
}

/// The screen after `put(ch)` at `pos`.
pub open spec fn screen_after(screen: Seq<u16>, size: (u16, u16), pos: (u16, u16), ch: u8, fg: Color, bg: Color) -> Seq<u16> {
    let (x, y) = normalized(size, pos);
    if is_control(ch) { screen } else { screen.update(x + y * size.0, entry(ch, fg, bg)) }
}

/// `puts(bytes)` from `pos` never overflows: each byte, then the closing newline.
pub open spec fn puts_ok(size: (u16, u16), pos: (u16, u16), bytes: Seq<u8>) -> bool
    decreases bytes.len(),
{
    if bytes.len() == 0 {
        put_ok(size, pos, 10)
    } else {
        &&& put_ok(size, pos, bytes[0])
        &&& puts_ok(size, pos_of(cursor_after(size, pos, bytes[0])), bytes.drop_first())
    }
}

/// A cursor as stored by the console.
pub open spec fn pos_of(p: (int, int)) -> (u16, u16) {
    (p.0 as u16, p.1 as u16)
}

/// Cursor after `puts(bytes)` from `pos`.
pub open spec fn puts_cursor(size: (u16, u16), pos: (u16, u16), bytes: Seq<u8>) -> (u16, u16)
    decreases bytes.len(),
{
    if bytes.len() == 0 {
        pos_of(cursor_after(size, pos, 10))
    } else {
        puts_cursor(size, pos_of(cursor_after(size, pos, bytes[0])), bytes.drop_first())
    }
}

/// Screen after `puts(bytes)` from `pos`.
pub open spec fn puts_screen(screen: Seq<u16>, size: (u16, u16), pos: (u16, u16), bytes: Seq<u8>, fg: Color, bg: Color) -> Seq<u16>
    decreases bytes.len(),
{
    if bytes.len() == 0 {
        screen
    } else {
        puts_screen(screen_after(screen, size, pos, bytes[0], fg, bg), size, pos_of(cursor_after(size, pos, bytes[0])),
            bytes.drop_first(), fg, bg)
    }
}

/// The cell that `put` writes for a cursor at `pos`.
pub open spec fn cell_index(size: (u16, u16), pos: (u16, u16)) -> int {
    normalized(size, pos).0 + normalized(size, pos).1 * size.0
}

/// The screen after the console of `size` is cleared to `bg`: its first
/// `width * height` cells blank, the others as they were.
pub open spec fn cleared(screen: Seq<u16>, size: (u16, u16), bg: Color) -> Seq<u16> {
    Seq::new(screen.len(), |k: int| if k < size.0 * size.1 { entry(0x20, Color::Black, bg) } else { screen[k] })
}

/// One printed byte moves the cursor to the next cell, and from the last
/// cell back to the first.
proof fn lemma_console_step(size: (u16, u16), p: (u16, u16))
    requires
        size.0 > 0,
        size.1 > 0,
        size.0 * size.1 <= VGA_CELLS,
        put_ok(size, p, 0x20),
    ensures
        0 <= cell_index(size, p) < size.0 * size.1,
        pos_of(cursor_after(size, p, 0x20)).0 < size.0,
        pos_of(cursor_after(size, p, 0x20)).1 < size.1,
        cell_index(size, pos_of(cursor_after(size, p, 0x20)))
            == (cell_index(size, p) + 1) % (size.0 * size.1),
{
    let (w, h) = size;
    let (x, y) = normalized(size, p);
    let n = w * h;
    assert(0 <= x < w && 0 <= y < h);
    assert(0 <= x + y * w < n) by (nonlinear_arith) requires 0 <= x < w, 0 <= y < h, n == w * h;
    let q = pos_of(cursor_after(size, p, 0x20));
    if x + 1 < w {
        assert(q == ((x + 1) as u16, y as u16));
        assert(x + 1 + y * w < n) by (nonlinear_arith) requires 0 <= x, x + 1 < w, 0 <= y < h, n == w * h;
        assert(normalized(size, q) == (x + 1, y));
        assert((x + y * w + 1) % n == x + y * w + 1) by {
            vstd::arithmetic::div_mod::lemma_small_mod((x + y * w + 1) as nat, n as nat);
        }
    } else if y + 1 < h {
        assert(q == (0u16, (y + 1) as u16));
        assert((y + 1) * w < n) by (nonlinear_arith) requires y + 1 < h, w > 0, n == w * h;
        assert((y + 1) * w == x + 1 + y * w) by (nonlinear_arith) requires x + 1 == w;
        assert(normalized(size, q) == (0int, y + 1));
        assert((x + y * w + 1) % n == x + y * w + 1) by {
            vstd::arithmetic::div_mod::lemma_small_mod((x + y * w + 1) as nat, n as nat);
        }
    } else {
        assert(q == (0u16, 0u16));
        assert(x + y * w + 1 == n) by (nonlinear_arith) requires x + 1 == w, y + 1 == h, n == w * h;
        assert(normalized(size, q) == (0int, 0int));
        assert(0int * w == 0) by (nonlinear_arith);
        vstd::arithmetic::div_mod::lemma_mod_self_0(n);
    }
}

/// Printing a byte that is no control byte writes a cell of the console
/// and leaves the cursor on the console: the cursor never leaves the
/// screen, and from the last cell it comes back to the first.
pub proof fn lemma_cursor_on_screen(size: (u16, u16), pos: (u16, u16), ch: u8)
    requires
        size.0 > 0,
        size.1 > 0,
        size.0 * size.1 <= VGA_CELLS,
        put_ok(size, pos, ch),
        !is_control(ch),
    ensures
        0 <= cell_index(size, pos) < size.0 * size.1,
        pos_of(cursor_after(size, pos, ch)).0 < size.0,
        pos_of(cursor_after(size, pos, ch)).1 < size.1,
        cell_index(size, pos_of(cursor_after(size, pos, ch))) == (cell_index(size, pos) + 1) % (size.0 * size.1),
{
    assert(cursor_after(size, pos, ch) == cursor_after(size, pos, 0x20));
    lemma_console_step(size, pos);
}

/// What each control byte does, wherever the cursor stands: carriage
/// return goes to column 0 of the cursor's row, newline to column 0 of the
/// next row, vertical tab one row down in the same column, backspace one
/// column back and one row down; none of them changes the screen.
pub proof fn lemma_control_bytes(screen: Seq<u16>, size: (u16, u16), pos: (u16, u16), fg: Color, bg: Color)
    ensures
        cursor_after(size, pos, 13) == (0int, normalized(size, pos).1),
        cursor_after(size, pos, 10) == (0int, normalized(size, pos).1 + 1),
        cursor_after(size, pos, 11) == (normalized(size, pos).0, normalized(size, pos).1 + 1),
        cursor_after(size, pos, 8) == (normalized(size, pos).0 - 1, normalized(size, pos).1 + 1),
        screen_after(screen, size, pos, 13, fg, bg) == screen,
        screen_after(screen, size, pos, 10, fg, bg) == screen,
        screen_after(screen, size, pos, 11, fg, bg) == screen,
        screen_after(screen, size, pos, 8, fg, bg) == screen,
{
}

/// Going round `n` cells from `s`, step `j` lands on cell `k` exactly when
/// `k` lies `j` cells after `s`.
proof fn lemma_round(k: int, s: int, j: int, n: int)
    requires
        n > 0,
        0 <= k < n,
        0 <= j < n,
    ensures
        ((k - s) % n == j) <==> (k == (s + j) % n),
{
    vstd::arithmetic::div_mod::lemma_fundamental_div_mod(s + j, n);
    vstd::arithmetic::div_mod::lemma_fundamental_div_mod(k - s, n);
    if k == (s + j) % n {
        let q = (s + j) / n;
        assert(k - s == n * (-q) + j) by (nonlinear_arith) requires s + j == n * q + k;
        vstd::arithmetic::div_mod::lemma_mod_multiples_vanish(-q, j, n);
        vstd::arithmetic::div_mod::lemma_small_mod(j as nat, n as nat);
    }
    if (k - s) % n == j {
        let q = (k - s) / n;
        assert(s + j == n * (-q) + k) by (nonlinear_arith) requires k - s == n * q + j;
        vstd::arithmetic::div_mod::lemma_mod_multiples_vanish(-q, k, n);
        vstd::arithmetic::div_mod::lemma_small_mod(k as nat, n as nat);
    }
}

/// A text console: its size in cells and its cursor.
pub struct Console {
    pub size: (u16, u16),
    pub pos: (u16, u16),
}

impl Console {
    /// An 80-by-25 console with the cursor at the top left.
    pub fn new() -> (r: Console)
        ensures
            r.size == (VGA_WIDTH, VGA_HEIGHT),
            r.pos == (0u16, 0u16),
    {
        Console { size: (VGA_WIDTH, VGA_HEIGHT), pos: (0, 0) }
    }

    /// Where the cursor `(x, y)` really is.
    pub fn normalize(&self, p: (u16, u16)) -> (r: (u16, u16))
        requires
            p.0 >= self.size.0 ==> p.1 < 0xFFFF,
        ensures
            r.0 == normalized(self.size, p).0,
            r.1 == normalized(self.size, p).1,
    {
        let (x, y) = p;
        let (width, height) = self.size;
        if x >= width {
            (0, if y + 1 >= height { 0 } else { y + 1 })
        } else {
            (x, if y >= height { 0 } else { y })
        }
    }

    /// Blanks every cell of the console (a space, black on `bg`) by
    /// printing `width * height` spaces round from the cursor, then puts the
    /// cursor back.
    pub fn clear(&mut self, screen: &mut TextScreen, bg: Color)
        requires
            old(screen)@.len() == VGA_CELLS,
            console_fits(old(self).size),
            old(self).size.0 * old(self).size.1 > 0 ==> put_ok(old(self).size, old(self).pos, 0x20),
        ensures
            final(self).size == old(self).size,
            final(self).pos == old(self).pos,
            final(screen)@ == cleared(old(screen)@, old(self).size, bg),
    {
        let pos = self.pos;
        let (width, height) = self.size;
        proof {
            if height > 0 {
                assert(width * height <= VGA_CELLS);
            } else {
                assert(width * height == 0) by (nonlinear_arith) requires height == 0;
            }
        }
        let n = width * height;
        let ghost s0 = cell_index(self.size, self.pos);
        proof {
            if n > 0 {
                assert(width > 0 && height > 0) by (nonlinear_arith) requires n == width * height, n > 0;
                lemma_console_step(self.size, self.pos);
                vstd::arithmetic::div_mod::lemma_small_mod(s0 as nat, n as nat);
            }
        }
        let mut j: u16 = 0;
        while j < n
            invariant
                n == self.size.0 * self.size.1,
                n <= VGA_CELLS,
                (width, height) == self.size,
                self.size == old(self).size,
                j <= n,
                screen@.len() == VGA_CELLS,
                n > 0 ==> put_ok(self.size, self.pos, 0x20),
                n > 0 ==> cell_index(self.size, self.pos) == (s0 + j) % (n as int),
                forall|k: int| 0 <= k < VGA_CELLS ==> #[trigger] screen@[k] ==
                    if k < n && (k - s0) % (n as int) < j { entry(0x20, Color::Black, bg) } else { old(screen)@[k] },
            decreases n - j,
        {
            proof {
                assert(width > 0 && height > 0) by (nonlinear_arith) requires n == width * height, n > 0;
                lemma_console_step(self.size, self.pos);
            }
            let ghost c = cell_index(self.size, self.pos);
            self.put(screen, 0x20u8, Color::Black, bg);
            proof {
                assert forall|k: int| 0 <= k < VGA_CELLS implies #[trigger] screen@[k] ==
                    if k < n && (k - s0) % (n as int) < j + 1 { entry(0x20, Color::Black, bg) } else { old(screen)@[k] } by {
                    if k < n {
                        lemma_round(k, s0, j as int, n as int);
                    }
                }
                vstd::arithmetic::div_mod::lemma_add_mod_noop_right(1, s0 + j, n as int);
            }
            j = j + 1;
        }
        proof {
            assert forall|k: int| 0 <= k < VGA_CELLS implies #[trigger] screen@[k] == cleared(old(screen)@, old(self).size, bg)[k] by {
                if k < n {
                    vstd::arithmetic::div_mod::lemma_mod_bound(k - s0, n as int);
                }
            }
            assert(screen@ =~= cleared(old(screen)@, old(self).size, bg));
        }
        self.pos = pos;
    }

    /// Writes `ch` at the cursor, or moves the cursor for a control byte.
    pub fn put(&mut self, screen: &mut TextScreen, ch: u8, fg: Color, bg: Color)
        requires
            old(screen)@.len() == VGA_CELLS,
            console_fits(old(self).size),
            put_ok(old(self).size, old(self).pos, ch),
        ensures
            final(self).size == old(self).size,
            final(screen)@.len() == VGA_CELLS,
            final(self).pos == pos_of(cursor_after(old(self).size, old(self).pos, ch)),
            final(screen)@ == screen_after(old(screen)@, old(self).size, old(self).pos, ch, fg, bg),
    {
        let (x, y) = self.normalize(self.pos);
        let width = self.size.0;
        proof {
            let h = self.size.1;
            if !is_control(ch) {
                if width == 0 {
                    assert(x == 0);
                    assert(y * width == 0) by (nonlinear_arith) requires width == 0;
                } else if h == 0 {
                    assert(y == 0);
                    assert(width <= VGA_CELLS) by (nonlinear_arith)
                        requires width * 1 <= VGA_CELLS;
                    assert(y * width == 0) by (nonlinear_arith) requires y == 0;
                } else {
                    assert(y < h);
                    assert(x + y * width < VGA_CELLS) by (nonlinear_arith)
                        requires x < width, y < h, width * h <= VGA_CELLS;
                }
                assert(x + y * width < VGA_CELLS);
            }
        }
        self.pos = if ch == 10 {
            (0, y + 1)
        } else if ch == 13 {
            (0, y)
        } else if ch == 8 {
            (x - 1, y + 1)
        } else if ch == 11 {
            (x, y + 1)
        } else {
            screen.set_cell((x + y * width) as usize, make_entry(ch, fg, bg));
            self.normalize((x + 1, y))
        };
    }

    /// Writes the bytes of `s` from the cursor on, then a newline.
    pub fn puts(&mut self, screen: &mut TextScreen, s: &str, fg: Color, bg: Color)
        requires
            old(screen)@.len() == VGA_CELLS,
            console_fits(old(self).size),
            puts_ok(old(self).size, old(self).pos, s.spec_bytes()),
        ensures
            final(self).size == old(self).size,
            final(self).pos == puts_cursor(old(self).size, old(self).pos, s.spec_bytes()),
            final(screen)@ == puts_screen(old(screen)@, old(self).size, old(self).pos, s.spec_bytes(), fg, bg),
    {
        let bytes = s.as_bytes();
        let mut i: usize = 0;
        proof {
            assert(bytes@.subrange(0, bytes@.len() as int) =~= bytes@);
        }
        while i < bytes.len()
            invariant
                bytes@ == s.spec_bytes(),
                i <= bytes@.len(),
                screen@.len() == VGA_CELLS,
                self.size == old(self).size,
                console_fits(self.size),
                puts_ok(self.size, self.pos, bytes@.subrange(i as int, bytes@.len() as int)),
                puts_cursor(self.size, self.pos, bytes@.subrange(i as int, bytes@.len() as int))
                    == puts_cursor(old(self).size, old(self).pos, s.spec_bytes()),
                puts_screen(screen@, self.size, self.pos, bytes@.subrange(i as int, bytes@.len() as int), fg, bg)
                    == puts_screen(old(screen)@, old(self).size, old(self).pos, s.spec_bytes(), fg, bg),
            decreases bytes@.len() - i,
        {
            let ghost rest = bytes@.subrange(i as int, bytes@.len() as int);
            proof {
                assert(rest[0] == bytes@[i as int]);
                assert(rest.drop_first() =~= bytes@.subrange(i + 1, bytes@.len() as int));
            }
            self.put(screen, bytes[i], fg, bg);
            i = i + 1;
        }
        proof {
            assert(bytes@.subrange(i as int, bytes@.len() as int) =~= Seq::<u8>::empty());
            assert(bytes@.subrange(0, bytes@.len() as int) =~= bytes@);
        }
        self.put(screen, 10u8, fg, bg);
    }
}

} // verus!

verus! {

/// The text-mode screen used as a display of 80 by 25 block pixels.
pub struct VgaText;

impl VgaText {
    /// The text display, its video memory mapped one to one.
    pub fn new(table: &mut PageTable) -> (r: VgaText)
        requires
            old(table).wf(),
        ensures
            final(table).wf(),
            final(table).directory() == mapped_pd(old(table).directory(), VGA_ADDRESS as int / 4096,
                pages_for(2 * VGA_CELLS as int), PageTable::FLAGS_KERNEL.0),
            final(table).tables() == mapped_pt(old(table).tables(), VGA_ADDRESS as int / 4096,
                pages_for(2 * VGA_CELLS as int), VGA_ADDRESS, PageTable::FLAGS_KERNEL.1),
    {
        let res = VGA_CELLS as u32;
        table.map_direct(PageTable::FLAGS_KERNEL, VGA_ADDRESS, res * 2);
        VgaText
    }

    /// The text screen is always there.
    pub fn is_available() -> (r: bool)
        ensures
            r,
    {
        true
    }

    /// Width and height in block pixels.
    pub fn resolution(&self) -> (r: (common::DisplaySize, common::DisplaySize))
        ensures
            r == (80i32, 25i32),
    {
        (VGA_WIDTH as common::DisplaySize, VGA_HEIGHT as common::DisplaySize)
    }

    /// Draws block pixel `(x, y)`: a space whose background is the text
    /// colour nearest to `color`.
    pub fn put(&self, screen: &mut TextScreen, color: common::Color, x: common::DisplaySize, y: common::DisplaySize)
        requires
            old(screen)@.len() == VGA_CELLS,
            0 <= x,
            0 <= y,
            x + y * 80 < VGA_CELLS,
        ensures
            final(screen)@ == old(screen)@.update(x + y * 80, entry(0x20, Color::Black,
                text_color_of(level_of(color.red), level_of(color.green), level_of(color.blue)))),
    {
        let color = Color::from_common(color);
        proof {
            assert(y <= 25) by (nonlinear_arith) requires x + y * 80 < 2000, 0 <= x, 0 <= y;
        }
        put(screen, x as u16, y as u16, 0x20u8, Color::Black, color);
    }
}

} // verus!

verus! {

/// The port writes, as `(port, value)`, that place the hardware cursor at
/// column `x` of row `y`: the high byte of the cell number to cursor
/// register 0x0E, then the low byte to register 0x0F.
pub open spec fn cursor_writes(x: u16, y: u16) -> Seq<(u16, u8)> {
    let pos = (x + y * 80) as u16;
    seq![(0x03D4u16, 0x0Eu8), (0x03D5u16, (pos >> 8u16) as u8), (0x03D4u16, 0x0Fu8), (0x03D5u16, (pos & 0xFF) as u8)]
}

/// The port writes that place the hardware cursor at `(x, y)`.
pub fn cursor(x: u16, y: u16) -> (r: Vec<(u16, u8)>)
    requires
        x + y * 80 <= u16::MAX,
    ensures
        r@ == cursor_writes(x, y),
{
    let pos = x + y * VGA_WIDTH;
    let hi = (pos >> 8u16) as u8;
    let lo = (pos & 0xFF) as u8;
    let mut r: Vec<(u16, u8)> = Vec::new();
    r.push((0x03D4, 0x0E));
    r.push((0x03D5, hi));
    r.push((0x03D4, 0x0F));
    r.push((0x03D5, lo));
    proof {
        assert(r@ =~= cursor_writes(x, y));
    }
    r
}

} // verus!
