use vstd::prelude::*;
use crate::arch::x86::multiboot::VbeModeInfo;
use crate::arch::x86::page::{PageTable, mapped_pd, mapped_pt, pages_for};
use crate::drivers::display::DisplaySize;

verus! {

/// I/O port that selects a register of the adapter.
pub const VBE_DISPI_IOPORT_INDEX: u16 = 0x01CE;
/// I/O port that reads and writes the selected register.
pub const VBE_DISPI_IOPORT_DATA: u16 = 0x01CF;
/// Register: adapter identification.
pub const VBE_DISPI_INDEX_ID: u16 = 0x0;
/// Register: horizontal resolution.
pub const VBE_DISPI_INDEX_XRES: u16 = 0x1;
/// Register: vertical resolution.
pub const VBE_DISPI_INDEX_YRES: u16 = 0x2;
/// Register: bits per pixel.
pub const VBE_DISPI_INDEX_BPP: u16 = 0x3;
/// Register: enable.
pub const VBE_DISPI_INDEX_ENABLE: u16 = 0x4;
/// First identification value of the adapter.
pub const VBE_DISPI_ID0: u16 = 0xB0C0;
/// Enable value: off.
pub const VBE_DISPI_DISABLED: u16 = 0x00;
/// Enable value: on.
pub const VBE_DISPI_ENABLED: u16 = 0x01;
/// Enable value: with the linear frame buffer.
pub const VBE_DISPI_LFB_ENABLED: u16 = 0x40;

/// The register writes that set the adapter to `width` by `height` at 32
/// bits per pixel, in order: off, resolution, depth, on with the linear
/// frame buffer.
pub open spec fn mode_writes(width: DisplaySize, height: DisplaySize) -> Seq<(u16, u16)> {
    seq![
        (VBE_DISPI_INDEX_ENABLE, VBE_DISPI_DISABLED),
        (VBE_DISPI_INDEX_XRES, width as u16),
        (VBE_DISPI_INDEX_YRES, height as u16),
        (VBE_DISPI_INDEX_BPP, 32u16),
        (VBE_DISPI_INDEX_ENABLE, VBE_DISPI_ENABLED | VBE_DISPI_LFB_ENABLED),
    ]
}

/// The Bochs graphics adapter in a 32-bit linear frame-buffer mode.
pub struct Bochs {
    pub width: DisplaySize,
    pub height: DisplaySize,
    pub vram: u32,
}

impl Bochs {
    /// The register writes, as `(register, value)`, that put the adapter in
    /// the mode `width` by `height`.
    pub fn mode_writes(width: DisplaySize, height: DisplaySize) -> (r: Vec<(u16, u16)>)
        ensures
            r@ == mode_writes(width, height),
    {
        let mut r: Vec<(u16, u16)> = Vec::new();
        r.push((VBE_DISPI_INDEX_ENABLE, VBE_DISPI_DISABLED));
        r.push((VBE_DISPI_INDEX_XRES, width as u16));
        r.push((VBE_DISPI_INDEX_YRES, height as u16));
        r.push((VBE_DISPI_INDEX_BPP, 32u16));
        r.push((VBE_DISPI_INDEX_ENABLE, VBE_DISPI_ENABLED | VBE_DISPI_LFB_ENABLED));
        proof {
            assert(r@ =~= mode_writes(width, height));
        }
        r
    }

    /// The adapter at `width` by `height`, its frame buffer (4 bytes a
    /// pixel, from the mode's physical address) mapped one to one.
    pub fn new(table: &mut PageTable, width: DisplaySize, height: DisplaySize, minfo: &VbeModeInfo) -> (r: Bochs)
        requires
            old(table).wf(),
            0 <= width,
            0 <= height,
            minfo.phys_base_ptr + width * height * 4 <= u32::MAX,
        ensures
            r.width == width,
            r.height == height,
            r.vram == minfo.phys_base_ptr,
            final(table).wf(),
            final(table).directory() == mapped_pd(old(table).directory(), minfo.phys_base_ptr as int / 4096,
                pages_for(width * height * 4), PageTable::FLAGS_KERNEL.0),
            final(table).tables() == mapped_pt(old(table).tables(), minfo.phys_base_ptr as int / 4096,
                pages_for(width * height * 4), minfo.phys_base_ptr, PageTable::FLAGS_KERNEL.1),
    {
        proof {
            assert(width * height * 4 <= u32::MAX) by (nonlinear_arith)
                requires minfo.phys_base_ptr + width * height * 4 <= u32::MAX, minfo.phys_base_ptr >= 0;
            assert(width * height <= u32::MAX) by (nonlinear_arith)
                requires width * height * 4 <= u32::MAX, width >= 0, height >= 0;
        }
        let res = width as u32 * height as u32;
        let vram = minfo.vram();
        table.map_direct(PageTable::FLAGS_KERNEL, vram, res * 4);
        Bochs { width, height, vram: minfo.phys_base_ptr }
    }

    /// The adapter is there: the loader gave a VBE mode, and the
    /// identification register reads a Bochs adapter.
    pub fn is_available(has_mode_info: bool, id: u16) -> (r: bool)
        ensures
            r == (has_mode_info && id & 0xFFF0 == VBE_DISPI_ID0),
    {
        has_mode_info && id & 0xFFF0 == VBE_DISPI_ID0
    }

    /// Width and height in pixels.
    pub fn resolution(&self) -> (r: (DisplaySize, DisplaySize))
        ensures
            r == (self.width, self.height),
    {
        (self.width, self.height)
    }

    /// Where pixel `(x, y)` is stored, in pixels from the start of the frame buffer.
    pub fn pixel_offset(&self, x: DisplaySize, y: DisplaySize) -> (r: i64)
        requires
            0 <= x < self.width,
            0 <= y < self.height,
        ensures
            r == y * self.width + x,
    {
        proof {
            assert(y * self.width + x <= i32::MAX * i32::MAX + i32::MAX) by (nonlinear_arith)
                requires 0 <= y < self.height, 0 <= x < self.width, self.height <= i32::MAX, self.width <= i32::MAX;
        }
        y as i64 * self.width as i64 + x as i64
    }

    /// Pixels a clear fills: the whole screen.
    pub fn pixel_count(&self) -> (r: u64)
        requires
            0 <= self.width,
            0 <= self.height,
        ensures
            r == self.width * self.height,
    {
        proof {
            assert(self.width * self.height <= i32::MAX * i32::MAX) by (nonlinear_arith)
                requires 0 <= self.width <= i32::MAX, 0 <= self.height <= i32::MAX;
        }
        self.width as u64 * self.height as u64
    }
}

} // verus!
