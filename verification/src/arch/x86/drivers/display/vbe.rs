use vstd::prelude::*;
use crate::arch::x86::multiboot::{VbeControllerInfo, VbeModeInfo, VBE_MAGIC};
use crate::arch::x86::page::{PageTable, mapped_pd, mapped_pt, pages_for};
use crate::drivers::display::DisplaySize;

verus! {

/// How a pixel is stored in the frame buffer, by the colour masks of the mode.
#[derive(Clone, Copy, PartialEq, Eq, Structural, Debug)]
pub enum PixelFormat {
    /// 8 bits each of red, green, blue and reserved.
    C32,
    /// 8 bits each of red, green and blue.
    C24,
    /// 5 bits of red, 6 of green, 5 of blue.
    C16,
    /// 5 bits each of red, green and blue.
    C15,
    /// Anything else: one byte per pixel.
    C8,
}

/// The pixel format for the masks `(red, green, blue, reserved)`.
pub open spec fn format_of(masks: (u8, u8, u8, u8)) -> PixelFormat {
    if masks == (8u8, 8u8, 8u8, 8u8) {
        PixelFormat::C32
    } else if masks == (8u8, 8u8, 8u8, 0u8) {
        PixelFormat::C24
    } else if masks == (5u8, 6u8, 5u8, 0u8) {
        PixelFormat::C16
    } else if masks == (5u8, 5u8, 5u8, 0u8) {
        PixelFormat::C15
    } else {
        PixelFormat::C8
    }
}

/// Bits per pixel of each format.
pub open spec fn format_bits(f: PixelFormat) -> u8 {
    match f {
        PixelFormat::C32 => 32,
        PixelFormat::C24 => 24,
        PixelFormat::C16 => 16,
        PixelFormat::C15 => 16,
        PixelFormat::C8 => 8,
    }
}

/// Bytes of one stored pixel of each format.
pub open spec fn format_bytes(f: PixelFormat) -> u16 {
    match f {
        PixelFormat::C32 => 4,
        PixelFormat::C24 => 3,
        PixelFormat::C16 => 2,
        PixelFormat::C15 => 2,
        PixelFormat::C8 => 1,
    }
}

/// `v` held to `0 ..= max`; `max` itself when `max` is negative.
pub open spec fn clamp(v: int, max: int) -> int {
    let lo = if v < 0 { 0 } else { v };
    if lo < max { lo } else { max }
}

/// The mode's masks.
pub open spec fn masks_of(m: VbeModeInfo) -> (u8, u8, u8, u8) {
    (m.rmask, m.gmask, m.bmask, m.resv_mask)
}

/// A VESA frame-buffer display, described by the loader's VBE blocks.
pub struct Vbe {
    pub cinfo: VbeControllerInfo,
    pub minfo: VbeModeInfo,
}

/// The format for the masks of `minfo`.
pub fn pixel_format(minfo: &VbeModeInfo) -> (r: PixelFormat)
    ensures
        r == format_of(masks_of(*minfo)),
{
    let (r, g, b, x) = (minfo.rmask, minfo.gmask, minfo.bmask, minfo.resv_mask);
    if r == 8 && g == 8 && b == 8 && x == 8 {
        PixelFormat::C32
    } else if r == 8 && g == 8 && b == 8 && x == 0 {
        PixelFormat::C24
    } else if r == 5 && g == 6 && b == 5 && x == 0 {
        PixelFormat::C16
    } else if r == 5 && g == 5 && b == 5 && x == 0 {
        PixelFormat::C15
    } else {
        PixelFormat::C8
    }
}

impl PixelFormat {
    /// Bits per pixel.
    pub fn bits(self) -> (r: u8)
        ensures
            r == format_bits(self),
    {
        match self {
            PixelFormat::C32 => 32,
            PixelFormat::C24 => 24,
            PixelFormat::C16 => 16,
            PixelFormat::C15 => 16,
            PixelFormat::C8 => 8,
        }
    }

    /// Bytes of one stored pixel.
    pub fn bytes(self) -> (r: u16)
        ensures
            r == format_bytes(self),
    {
        match self {
            PixelFormat::C32 => 4,
            PixelFormat::C24 => 3,
            PixelFormat::C16 => 2,
            PixelFormat::C15 => 2,
            PixelFormat::C8 => 1,
        }
    }
}

impl Vbe {
    /// The display of the mode `minfo`, its frame buffer mapped one to one:
    /// `h_res * v_res * bpp` bytes from its physical address. The mode's
    /// bits per pixel must be those of the format its masks give.
    pub fn new(table: &mut PageTable, cinfo: VbeControllerInfo, minfo: VbeModeInfo) -> (r: Vbe)
        requires
            old(table).wf(),
            format_bits(format_of(masks_of(minfo))) == minfo.bpp,
            minfo.phys_base_ptr + minfo.h_res * minfo.v_res * minfo.bpp <= u32::MAX,
        ensures
            r.cinfo == cinfo,
            r.minfo == minfo,
            final(table).wf(),
            final(table).directory() == mapped_pd(old(table).directory(), minfo.phys_base_ptr as int / 4096,
                pages_for(minfo.h_res * minfo.v_res * minfo.bpp), PageTable::FLAGS_KERNEL.0),
            final(table).tables() == mapped_pt(old(table).tables(), minfo.phys_base_ptr as int / 4096,
                pages_for(minfo.h_res * minfo.v_res * minfo.bpp), minfo.phys_base_ptr, PageTable::FLAGS_KERNEL.1),
    {
        let res = minfo.h_res as u32 * minfo.v_res as u32;
        proof {
            assert(res * minfo.bpp <= u32::MAX) by (nonlinear_arith)
                requires res * minfo.bpp + minfo.phys_base_ptr <= u32::MAX, minfo.phys_base_ptr >= 0;
        }
        table.map_direct(PageTable::FLAGS_KERNEL, minfo.vram(), res * minfo.bpp as u32);
        Vbe { cinfo, minfo }
    }

    /// A VBE display can be used: the loader gave a controller block with
    /// the `VESA` signature, of version 1.2 or later.
    pub fn is_available(cinfo: Option<VbeControllerInfo>) -> (r: bool)
        ensures
            r == (cinfo is Some && cinfo->0.signature == VBE_MAGIC && cinfo->0.version >= 0x0102),
    {
        match cinfo {
            Some(c) => c.valid() && c.version >= 0x0102,
            None => false,
        }
    }

    /// How pixels are stored.
    pub fn format(&self) -> (r: PixelFormat)
        ensures
            r == format_of(masks_of(self.minfo)),
    {
        pixel_format(&self.minfo)
    }

    /// Width and height in pixels.
    pub fn resolution(&self) -> (r: (DisplaySize, DisplaySize))
        ensures
            r == (self.minfo.h_res as DisplaySize, self.minfo.v_res as DisplaySize),
    {
        (self.minfo.h_res as DisplaySize, self.minfo.v_res as DisplaySize)
    }

    /// Stored pixels per scan line.
    pub fn bpl(&self) -> (r: usize)
        ensures
            r == self.minfo.logical_scan / format_bytes(format_of(masks_of(self.minfo))),
    {
        (self.minfo.logical_scan / self.format().bytes()) as usize
    }

    /// Column `x` held to the screen.
    pub fn clamp_x(&self, x: DisplaySize) -> (r: DisplaySize)
        ensures
            r == clamp(x as int, self.minfo.h_res - 1),
    {
        let lo = if x < 0 { 0 } else { x };
        let max = self.minfo.h_res as DisplaySize - 1;
        if lo < max { lo } else { max }
    }

    /// Row `y` held to the screen.
    pub fn clamp_y(&self, y: DisplaySize) -> (r: DisplaySize)
        ensures
            r == clamp(y as int, self.minfo.v_res - 1),
    {
        let lo = if y < 0 { 0 } else { y };
        let max = self.minfo.v_res as DisplaySize - 1;
        if lo < max { lo } else { max }
    }

    /// Where pixel `(x, y)` is stored, counted in stored pixels from the
    /// start of the frame buffer; a point off the screen goes to the
    /// nearest point on it.
    pub fn pixel_offset(&self, x: DisplaySize, y: DisplaySize) -> (r: i64)
        ensures
            r == clamp(y as int, self.minfo.v_res - 1) * (self.minfo.logical_scan / format_bytes(format_of(masks_of(self.minfo))))
                + clamp(x as int, self.minfo.h_res - 1),
    {
        let x = self.clamp_x(x);
        let y = self.clamp_y(y);
        let bpl = self.bpl();
        proof {
            assert(bpl <= 0xffff);
            assert(-1 <= y <= 0xffff);
            assert(-0xffff <= y * bpl <= 0xffff * 0xffff) by (nonlinear_arith)
                requires -1 <= y <= 0xffff, 0 <= bpl <= 0xffff;
        }
        y as i64 * bpl as i64 + x as i64
    }

    /// The columns a line over `start .. end` covers, held to the screen.
    pub fn line_span(&self, start: DisplaySize, end: DisplaySize) -> (r: (DisplaySize, DisplaySize))
        ensures
            r == (clamp(start as int, self.minfo.h_res - 1) as DisplaySize, clamp(end as int, self.minfo.h_res - 1) as DisplaySize),
    {
        (self.clamp_x(start), self.clamp_x(end))
    }

    /// Stored units a clear fills: a scan line of bytes per row.
    pub fn clear_size(&self) -> (r: usize)
        ensures
            r == self.minfo.logical_scan * self.minfo.v_res,
    {
        proof {
            assert(self.minfo.logical_scan * self.minfo.v_res <= 0xffff * 0xffff) by (nonlinear_arith)
                requires self.minfo.logical_scan <= 0xffff, self.minfo.v_res <= 0xffff;
        }
        self.minfo.logical_scan as usize * self.minfo.v_res as usize
    }
}

} // verus!
