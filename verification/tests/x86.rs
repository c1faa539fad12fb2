use lib::arch::x86::drivers::display::bochs::Bochs;
use lib::arch::x86::drivers::display::vbe::{pixel_format, PixelFormat, Vbe};
use lib::arch::x86::drivers::display::vga_text::{
    clear, cursor, make_entry, put, put32, puts, Color as VgaColor, Console, TextScreen, VgaText,
};
use lib::arch::x86::drivers::display::vga::{
    crtc_value, lock_value, misc_value, read_mode_value, screen_off_value, screen_on_value, seq_value, unlock_value,
    write_mode_value, Vga, VgaOp, LOAD_STEPS,
};
use lib::arch::x86::drivers::display::{preferred, Preferred};
use lib::arch::x86::interrupt::device::{
    can_read, can_write, keyboard_handler, mouse_handler, MouseInit, MouseInitAction, MouseInitEvent, Stage,
};
use lib::arch::x86::interrupt::gdt::{boot_table, gdt_entry, kernel_table, table_limit};
use lib::arch::x86::interrupt::idt::{selector_error, table_name, GateDescriptor, IdtHandlers, InterruptDescriptorTable, SelectorTable};
use lib::arch::x86::interrupt::pic::{PicMasks, IRQ};
use lib::arch::x86::multiboot::{
    init as multiboot_init, magic_valid, AoutSymbolTable, MemoryType, MultibootInfo, VbeControllerInfo, VbeModeInfo,
};
use lib::arch::x86::page::{init as page_init, PageDirectoryEntry, PageTable, PageTableEntry};
use lib::arch::x86::{backtrace, is_frame_pointer, kernel_end, kernel_size, kernel_start, x86_init, x86_prep_page_table};
use lib::drivers::display::Color;
use lib::drivers::keyboard::{KeyState, Keyboard};
use lib::drivers::Device;
use lib::event::{init as event_init, Event};

fn mode_info(masks: (u8, u8, u8, u8), bpp: u8) -> VbeModeInfo {
    VbeModeInfo {
        mode_attr: 0,
        win_attr: (0, 0),
        win_grain: 0,
        win_size: 0,
        win_seg: (0, 0),
        win_scheme: 0,
        logical_scan: 2560,
        h_res: 640,
        v_res: 480,
        char_width: 8,
        char_height: 16,
        memory_planes: 1,
        bpp,
        banks: 1,
        memory_layout: 6,
        bank_size: 0,
        image_planes: 0,
        page_function: 0,
        rmask: masks.0,
        rpos: 16,
        gmask: masks.1,
        gpos: 8,
        bmask: masks.2,
        bpos: 0,
        resv_mask: masks.3,
        resv_pos: 24,
        dcm_info: 0,
        phys_base_ptr: 0xFD00_0000,
        offscreen_ptr: 0,
        offscreen_size: 0,
    }
}

fn controller(signature: u32, version: u16) -> VbeControllerInfo {
    VbeControllerInfo {
        signature,
        version,
        vendor_string: 0,
        capabilities: 0,
        video_mode_ptr: 0,
        total_memory: 0,
        software_rev: 0,
        vendor_name: 0,
        product_name: 0,
        product_rev: 0,
    }
}

fn info(flags: u32) -> MultibootInfo {
    MultibootInfo {
        flags,
        mem_lower: 639,
        mem_upper: 260096,
        boot_device: 0,
        cmdline: 0x1000,
        mods_count: 0,
        mods_addr: 0x2000,
        aout_table: AoutSymbolTable { tabsize: 1, strsize: 2, addr: 3, reserved: 4 },
        mmap_length: 144,
        mmap_addr: 0x9000,
        drives_length: 0,
        drives_addr: 0,
        config_table: 0,
        boot_loader_name: 0x3000,
        apm_table: 0,
        vbe_controller_info: 0x8000,
        vbe_mode_info: 0x8200,
        vbe_mode: 0x118,
        vbe_interface_seg: 0,
        vbe_interface_off: 0,
        vbe_interface_len: 0,
    }
}

#[test]
fn page_entries_encode_address_and_flags() {
    let mut e = PageTableEntry::empty();
    assert_eq!(e.get_flags(), 0);
    e.set_address(0x0012_3456);
    e.set_flags(0x3);
    assert_eq!(e.get_address(), 0x123);
    assert_eq!(e.get_raw_address(), 0x123);
    assert_eq!(e.get_flags(), 0x3);
    e.set_flags(0xFFFF);
    assert_eq!(e.get_flags(), 0x17F);
    assert_eq!(e.get_address(), 0x123);

    let mut d = PageDirectoryEntry::from_4kb_aligned(0x400);
    assert_eq!(d.page_table(), 0x0040_0000);
    d.set_flags(0xFFFF);
    assert_eq!(d.get_flags(), 0x1BF);
    assert_eq!(d.get_address(), 0x400);
    d.set_address(0x0080_0000);
    assert_eq!(d.get_address(), 0x800);
}

#[test]
fn page_table_direct_map_is_identity() {
    let mut t = PageTable::new(0x100);
    assert_eq!(PageTable::get_pde_index(0x00C0_1234), 3);
    t.map_direct(PageTable::FLAGS_KERNEL, 0xB8000, 4000);
    let e = *t.get_pte(0xB8000);
    assert_eq!(e.get_address(), 0xB8);
    assert_eq!(e.get_flags(), 0x3);
    // 4000 bytes fit in one page: the next page stays unmapped.
    let next = *t.get_pte(0xB9000);
    assert_eq!(next.get_flags(), 0);
}

#[test]
fn kernel_page_tables_map_low_memory_high() {
    let mut t = PageTable::new(0x100);
    page_init(&mut t, 0xC001_0000);
    assert_eq!(t.get_pte(0xC000_0000).get_address(), 0);
    assert_eq!(t.get_pte(0xC000_F123).get_address(), 0xF);
    assert_eq!(t.get_pte(0xC000_F000).get_flags(), 0x3);
    assert_eq!(t.get_pte(0xC001_0000).get_flags(), 0);
    assert_eq!(t.get_pte(0x0000_0000).get_flags(), 0);
}

#[test]
fn page_table_map_memory_finds_free_window() {
    let mut t = PageTable::new(0x100);
    let v = t.map_memory(PageTable::FLAGS_KERNEL, 0x0010_0000, 0x2000);
    // The first free window lies above the first 4MB.
    assert_eq!(v, 0x0040_0000);
    assert_eq!(t.get_pte(0x0040_0000).get_address(), 0x100);
    assert_eq!(t.get_pte(0x0040_1000).get_address(), 0x101);
    let w = t.map_memory(PageTable::FLAGS_KERNEL, 0x0020_0000, 0x1000);
    assert_eq!(w, 0x0040_2000);
}

#[test]
fn boot_page_table_maps_first_frames() {
    let mut buf = vec![0u32; 16384];
    let arr: &mut [u32; 16384] = (&mut buf[..]).try_into().unwrap();
    x86_prep_page_table(arr);
    assert_eq!(buf[0], 3);
    assert_eq!(buf[1], 0x1003);
    assert_eq!(buf[16383], (16383 << 12) | 3);
}

#[test]
fn kernel_bounds() {
    assert_eq!(kernel_start(0x0010_0000 + 0x5000), 0x5000);
    assert_eq!(kernel_end(0x9000), 0x9000);
    assert_eq!(kernel_size(0x0010_1000, 0x8000), 0x7000);
}

#[test]
fn backtrace_steps() {
    assert_eq!(backtrace(0, (1, 2)), None);
    assert_eq!(backtrace(6, (1, 2)), None);
    assert!(!is_frame_pointer(6));
    assert!(is_frame_pointer(8));
    assert_eq!(backtrace(0x100, (0x200, 0xC000_1234)), Some((0x200, 0xC000_1234)));
    // A caller frame that is not above ends the walk.
    assert_eq!(backtrace(0x100, (0x80, 0xC000_1234)), Some((0, 0xC000_1234)));
    assert_eq!(backtrace(0x100, (0x100, 7)), Some((0, 7)));
}

#[test]
fn multiboot_flags_and_fields() {
    assert!(magic_valid(0x2BADB002));
    assert!(!magic_valid(0x1BADB002));
    let mb = info(0x0000_0841);
    assert!(mb.has(0));
    assert!(mb.has(6));
    assert!(mb.has(11));
    assert!(!mb.has(4));
    // Bit numbers wrap at 32.
    assert!(mb.has(32));
    assert_eq!(mb.mem_size(), Some((639 + 260096 + 1024) * 1024));
    assert_eq!(mb.aout(), None);
    assert_eq!(mb.elf(), None);
    assert_eq!(mb.mmap(), Some((0x9000, 6)));
    assert_eq!(mb.vbe_controller_info(), Some(0x8000));
    assert_eq!(mb.vbe_mode_info(), Some(0x8200));
    let mb2 = info(0x30);
    assert_eq!(mb2.mem_size(), None);
    assert_eq!(mb2.mmap(), None);
    assert_eq!(mb2.aout(), Some(AoutSymbolTable { tabsize: 1, strsize: 2, addr: 3, reserved: 4 }));
    let elf = mb2.elf().unwrap();
    assert_eq!((elf.num, elf.size, elf.addr, elf.shndx), (1, 2, 3, 4));
    assert_eq!(mb2.vbe_mode_info(), None);
}

#[test]
fn multiboot_init_moves_pointers() {
    let mut mb = info(0);
    multiboot_init(&mut mb, 0x2BADB002);
    assert_eq!(mb.cmdline, 0xC000_1000);
    assert_eq!(mb.mods_addr, 0xC000_2000);
    assert_eq!(mb.mmap_addr, 0xC000_9000);
    assert_eq!(mb.drives_addr, 0xC000_0000);
    assert_eq!(mb.boot_loader_name, 0xC000_3000);
    assert_eq!(mb.vbe_mode_info, 0xC000_8200);
    assert_eq!(mb.mem_lower, 639);
}

#[test]
fn x86_start_up_finds_memory_map() {
    let mut mb = info(0x40);
    assert_eq!(x86_init(&mut mb, 0x2BADB002), (0xC000_9000, 6));
    assert_eq!(mb.cmdline, 0xC000_1000);
}

#[test]
fn memory_types() {
    assert_eq!(MemoryType::Usable.description(), "Usable RAM");
    assert_eq!(MemoryType::Reserved.description(), "Reserved");
    assert_eq!(MemoryType::AcpiReclaimable.description(), "ACPI reclaimable memory");
    assert_eq!(MemoryType::AcpiNvs.description(), "ACPI NVS memory");
    assert_eq!(MemoryType::Bad.description(), "Area containing bad memory");
    assert_eq!(MemoryType::from_number(1), Some(MemoryType::Usable));
    assert_eq!(MemoryType::from_number(5), Some(MemoryType::Bad));
    assert_eq!(MemoryType::from_number(0), None);
    assert_eq!(MemoryType::from_number(6), None);
}

#[test]
fn idt_install_and_selector_errors() {
    let mut idt = InterruptDescriptorTable::new();
    let h = IdtHandlers {
        null: 0x1000_0000,
        invalid_opcode: 0x1000_0006,
        stack_segment_fault: 0x1000_000C,
        general_protection_fault: 0x1000_000D,
        page_fault: 0x1000_000E,
        irq: (0..16u32).map(|i| 0x2000_0000 + i).collect(),
    };
    idt.init(&h);
    assert_eq!(idt.limit(), 2047);
    let null = GateDescriptor { offset_lo: 0x0000, selector: 96, reserved: 0, flags: 0x8F, offset_hi: 0x1000 };
    assert_eq!(idt.descriptor(0), null);
    assert_eq!(idt.descriptor(0xFF), null);
    assert_eq!(idt.descriptor(0x0E), GateDescriptor { offset_lo: 0x000E, ..null });
    assert_eq!(idt.descriptor(0x21), GateDescriptor { offset_lo: 0x0001, offset_hi: 0x2000, flags: 0x8E, ..null });
    idt.set_user_interrupt(0x80, 0xABCD_1234);
    assert_eq!(idt.descriptor(0x80), GateDescriptor { offset_lo: 0x1234, offset_hi: 0xABCD, flags: 0xEF, ..null });

    assert_eq!(selector_error(0b1011), (true, SelectorTable::Idt, 1));
    assert_eq!(selector_error(0b0100), (false, SelectorTable::Ldt, 0));
    assert_eq!(selector_error(0b0110), (false, SelectorTable::Idt, 0));
    assert_eq!(selector_error(0x18), (false, SelectorTable::Gdt, 3));
    assert_eq!(table_name(SelectorTable::Gdt), "GDT");
    assert_eq!(table_name(SelectorTable::Idt), "IDT");
    assert_eq!(table_name(SelectorTable::Ldt), "LDT");
}

#[test]
fn gdt_entries() {
    assert_eq!(gdt_entry(0, 0xFFFFF, 0xC09A), 0x00CF_9A00_0000_FFFF);
    assert_eq!(gdt_entry(0, 0xFFFFF, 0xC092), 0x00CF_9200_0000_FFFF);
    assert_eq!(gdt_entry(0x1234_5678, 0x0001_ABCD, 0x0089), 0x1201_8934_5678_ABCD);
    let boot = boot_table();
    assert_eq!(boot.len(), 4);
    assert_eq!(boot[2], 0x00CF_9B00_0000_FFFF);
    assert_eq!(boot[3], 0x00CF_9300_0000_FFFF);
    assert_eq!(boot[0], 0);
    let k = kernel_table();
    assert_eq!(k.len(), 18);
    assert_eq!(k[12], 0x00CF_9A00_0000_FFFF);
    assert_eq!(k[13], 0x00CF_9200_0000_FFFF);
    assert_eq!(k[14], 0x00CF_FA00_0000_FFFF);
    assert_eq!(k[15], 0x00CF_F200_0000_FFFF);
    assert_eq!(k[16], 0);
    assert_eq!(table_limit(4), 31);
    assert_eq!(table_limit(18), 143);
}

#[test]
fn pic_lines() {
    assert_eq!(IRQ::Keyboard.number(), 1);
    assert_eq!(IRQ::Mouse.number(), 12);
    assert!(IRQ::Keyboard.is_master());
    assert!(!IRQ::Mouse.is_master());
    let mut m = PicMasks { master: 0xFF, slave: 0xFF };
    IRQ::Keyboard.enable(&mut m);
    assert_eq!((m.master, m.slave), (0xFD, 0xFF));
    IRQ::Mouse.enable(&mut m);
    assert_eq!((m.master, m.slave), (0xF9, 0xEF));
    IRQ::Mouse.disable(&mut m);
    assert_eq!((m.master, m.slave), (0xF9, 0xFF));
    IRQ::Keyboard.disable(&mut m);
    assert_eq!((m.master, m.slave), (0xFB, 0xFF));
    assert_eq!(IRQ::Keyboard.eoi(), vec![(0x20, 0x61)]);
    assert_eq!(IRQ::Mouse.eoi(), vec![(0xA0, 0x64), (0x20, 0x62)]);
}

#[test]
fn keyboard_events() {
    let mut q = event_init();
    let mut state = KeyState::new();
    keyboard_handler(&mut state, &mut q, 0x1E);
    keyboard_handler(&mut state, &mut q, 0x1E);
    keyboard_handler(&mut state, &mut q, 0x9E);
    keyboard_handler(&mut state, &mut q, 0xFA);
    assert_eq!(state.code, 0xFA);
    match q.0.pop() {
        Some(Event::Device(Device::Keyboard(Keyboard::Down(s)))) => assert_eq!(s.code, 0x1E),
        _ => panic!("expected a key down"),
    }
    match q.0.pop() {
        Some(Event::Device(Device::Keyboard(Keyboard::Press(s)))) => assert_eq!(s.code, 0x1E),
        _ => panic!("expected a repeat"),
    }
    match q.0.pop() {
        Some(Event::Device(Device::Keyboard(Keyboard::Up(s)))) => assert_eq!(s.code, 0x9E),
        _ => panic!("expected a key up"),
    }
    assert!(q.0.pop().is_none());
}

#[test]
fn mouse_packets() {
    let mut q = event_init();
    let mut stage = Stage::First;
    // A first byte without bit 3 is dropped.
    mouse_handler(&mut stage, &mut q, 0x00);
    assert!(q.0.is_empty());
    mouse_handler(&mut stage, &mut q, 0x09);
    mouse_handler(&mut stage, &mut q, 5);
    assert!(q.0.is_empty());
    mouse_handler(&mut stage, &mut q, 0xFE);
    match q.0.pop() {
        Some(Event::Device(Device::Mouse(m))) => {
            assert!(m.left());
            assert!(!m.right());
            assert!(!m.middle());
            assert_eq!(m.x, 5);
            assert_eq!(m.y, 2);
        }
        _ => panic!("expected a mouse event"),
    }
    assert!(q.0.is_empty());
}

#[test]
fn ps2_status_bits() {
    assert!(can_read(0x01));
    assert!(!can_read(0x02));
    assert!(can_write(0x04));
    assert!(!can_write(0x02));
    assert!(!can_write(0x01));
}

#[test]
fn mouse_start_up_success_and_timeout() {
    let mut s = MouseInit::Start;
    let mut actions = Vec::new();
    let events = [
        MouseInitEvent::Sent,
        MouseInitEvent::Sent,
        MouseInitEvent::Waited(true),
        MouseInitEvent::Data(0x47),
        MouseInitEvent::Sent,
        MouseInitEvent::Waited(true),
        MouseInitEvent::Sent,
        MouseInitEvent::Waited(false),
        MouseInitEvent::Sent,
        MouseInitEvent::Waited(true),
        MouseInitEvent::Sent,
        MouseInitEvent::Waited(true),
        MouseInitEvent::Data(0xFA),
    ];
    for e in events {
        let (next, a) = s.step(e);
        s = next;
        actions.push(a);
    }
    assert_eq!(
        actions,
        vec![
            MouseInitAction::Out(0x64, 0x20),
            MouseInitAction::WaitRead,
            MouseInitAction::In,
            MouseInitAction::Out(0x64, 0x60),
            MouseInitAction::WaitWrite,
            MouseInitAction::Out(0x60, 0x47),
            MouseInitAction::WaitRead,
            MouseInitAction::Out(0x64, 0xD4),
            MouseInitAction::WaitWrite,
            MouseInitAction::Out(0x60, 0xF4),
            MouseInitAction::WaitRead,
            MouseInitAction::In,
            MouseInitAction::Finish(true),
        ]
    );
    assert_eq!(s, MouseInit::Done(true));

    let (s1, _) = MouseInit::Start.step(MouseInitEvent::Sent);
    let (s2, _) = s1.step(MouseInitEvent::Sent);
    let (s3, a3) = s2.step(MouseInitEvent::Waited(false));
    assert_eq!(a3, MouseInitAction::Finish(false));
    assert_eq!(s3.step(MouseInitEvent::Sent), (MouseInit::Done(false), MouseInitAction::Finish(false)));
}

#[test]
fn mouse_start_up_config_byte() {
    let s = MouseInit::AwaitConfigWrite(0xFF);
    assert_eq!(s.step(MouseInitEvent::Waited(true)), (MouseInit::ConfigWritten, MouseInitAction::Out(0x60, 0xCF)));
}

#[test]
fn text_colors_and_entries() {
    assert_eq!(VgaColor::from_common(Color::new(0, 0, 0)), VgaColor::Black);
    assert_eq!(VgaColor::from_common(Color::new(255, 255, 255)), VgaColor::White);
    assert_eq!(VgaColor::from_common(Color::new(200, 0, 0)), VgaColor::LightRed);
    assert_eq!(VgaColor::from_common(Color::new(100, 0, 0)), VgaColor::Red);
    assert_eq!(VgaColor::from_common(Color::new(100, 100, 100)), VgaColor::DarkGray);
    assert_eq!(VgaColor::from_common(Color::new(100, 200, 0)), VgaColor::LightGray);
    assert_eq!(VgaColor::from_common(Color::new(0, 100, 100)), VgaColor::Cyan);
    assert_eq!(VgaColor::White.code(), 15);
    assert_eq!(make_entry(b'A', VgaColor::White, VgaColor::Blue), 0x1F41);
    assert_eq!(make_entry(b' ', VgaColor::Black, VgaColor::Red), 0x4020);
}

#[test]
fn text_screen_writes() {
    let mut s = TextScreen::new();
    assert_eq!(s.cell(0), 0);
    put(&mut s, 3, 1, b'x', VgaColor::LightGray, VgaColor::Black);
    assert_eq!(s.cell(83), 0x0778);
    puts(&mut s, 0, 2, "Hi", VgaColor::White, VgaColor::Black);
    assert_eq!(s.cell(160), 0x0F48);
    assert_eq!(s.cell(161), 0x0F69);
    put32(&mut s, 0, 3, 0x1F, 16, VgaColor::White, VgaColor::Black);
    assert_eq!(s.cell(240), 0x0F31);
    assert_eq!(s.cell(241), 0x0F46);
    put32(&mut s, 0, 4, 305, 10, VgaColor::White, VgaColor::Black);
    assert_eq!(s.cell(320), 0x0F33);
    assert_eq!(s.cell(321), 0x0F30);
    assert_eq!(s.cell(322), 0x0F35);
    // Digit 10 shows as ':' and 11 as 'B', as the kernel's table does.
    put32(&mut s, 0, 5, 10, 16, VgaColor::White, VgaColor::Black);
    assert_eq!(s.cell(400), 0x0F3A);
    put32(&mut s, 0, 5, 11, 16, VgaColor::White, VgaColor::Black);
    assert_eq!(s.cell(400), 0x0F42);
    clear(&mut s, VgaColor::Blue);
    assert_eq!(s.cell(0), 0x1020);
    assert_eq!(s.cell(1999), 0x1020);
}

#[test]
fn console_prints_and_wraps() {
    let mut s = TextScreen::new();
    let mut c = Console::new();
    assert_eq!(c.size, (80, 25));
    c.puts(&mut s, "ab", VgaColor::White, VgaColor::Black);
    assert_eq!(s.cell(0), 0x0F61);
    assert_eq!(s.cell(1), 0x0F62);
    assert_eq!(c.pos, (0, 1));
    c.put(&mut s, b'\r', VgaColor::White, VgaColor::Black);
    assert_eq!(c.pos, (0, 1));
    c.put(&mut s, b'z', VgaColor::White, VgaColor::Black);
    assert_eq!(s.cell(80), 0x0F7A);
    c.put(&mut s, 0x0b, VgaColor::White, VgaColor::Black);
    assert_eq!(c.pos, (1, 2));
    c.put(&mut s, 0x08, VgaColor::White, VgaColor::Black);
    assert_eq!(c.pos, (0, 3));
    // The last cell wraps round to the first.
    c.pos = (79, 24);
    c.put(&mut s, b'q', VgaColor::White, VgaColor::Black);
    assert_eq!(s.cell(1999), 0x0F71);
    assert_eq!(c.pos, (0, 0));
    assert_eq!(c.normalize((80, 3)), (0, 4));
    assert_eq!(c.normalize((80, 24)), (0, 0));
    assert_eq!(c.normalize((5, 30)), (5, 0));
}

#[test]
fn console_clear_keeps_cursor() {
    let mut s = TextScreen::new();
    let mut c = Console::new();
    c.pos = (10, 3);
    c.clear(&mut s, VgaColor::Green);
    assert_eq!(c.pos, (10, 3));
    assert_eq!(s.cell(0), 0x2020);
    assert_eq!(s.cell(1999), 0x2020);
    let mut small = Console { size: (4, 2), pos: (2, 1) };
    let mut s2 = TextScreen::new();
    small.clear(&mut s2, VgaColor::Red);
    assert_eq!(s2.cell(7), 0x4020);
    assert_eq!(s2.cell(8), 0);
    assert_eq!(small.pos, (2, 1));
}

#[test]
fn vga_text_display() {
    let mut t = PageTable::new(0x100);
    let v = VgaText::new(&mut t);
    assert!(VgaText::is_available());
    assert_eq!(v.resolution(), (80, 25));
    assert_eq!(t.get_pte(0xB8000).get_address(), 0xB8);
    let mut s = TextScreen::new();
    v.put(&mut s, Color::new(0, 0, 200), 2, 1);
    assert_eq!(s.cell(82), 0x9020);
    assert_eq!(cursor(5, 2), vec![(0x3D4, 0x0E), (0x3D5, 0), (0x3D4, 0x0F), (0x3D5, 165)]);
    assert_eq!(cursor(0, 10), vec![(0x3D4, 0x0E), (0x3D5, 3), (0x3D4, 0x0F), (0x3D5, 0x20)]);
}

#[test]
fn vbe_formats_and_clamping() {
    assert_eq!(pixel_format(&mode_info((8, 8, 8, 8), 32)), PixelFormat::C32);
    assert_eq!(pixel_format(&mode_info((8, 8, 8, 0), 24)), PixelFormat::C24);
    assert_eq!(pixel_format(&mode_info((5, 6, 5, 0), 16)), PixelFormat::C16);
    assert_eq!(pixel_format(&mode_info((5, 5, 5, 0), 16)), PixelFormat::C15);
    assert_eq!(pixel_format(&mode_info((3, 3, 2, 0), 8)), PixelFormat::C8);
    assert_eq!(PixelFormat::C24.bits(), 24);
    assert_eq!(PixelFormat::C24.bytes(), 3);
    assert!(Vbe::is_available(Some(controller(0x41534556, 0x0200))));
    assert!(!Vbe::is_available(Some(controller(0x41534556, 0x0101))));
    assert!(!Vbe::is_available(Some(controller(0x12345678, 0x0300))));
    assert!(!Vbe::is_available(None));
    let mut t = PageTable::new(0x100);
    let v = Vbe::new(&mut t, controller(0x41534556, 0x0300), mode_info((8, 8, 8, 8), 32));
    assert_eq!(v.format(), PixelFormat::C32);
    assert_eq!(v.resolution(), (640, 480));
    assert_eq!(v.bpl(), 640);
    assert_eq!(v.clamp_x(-5), 0);
    assert_eq!(v.clamp_x(700), 639);
    assert_eq!(v.clamp_y(100), 100);
    assert_eq!(v.pixel_offset(10, 2), 1290);
    assert_eq!(v.pixel_offset(-3, 1000), 479 * 640);
    assert_eq!(v.line_span(-10, 1000), (0, 639));
    assert_eq!(v.clear_size(), 2560 * 480);
    assert_eq!(t.get_pte(0xFD00_0000).get_address(), 0xFD000);
}

#[test]
fn bochs_adapter() {
    assert_eq!(
        Bochs::mode_writes(640, 480),
        vec![(4, 0), (1, 640), (2, 480), (3, 32), (4, 0x41)]
    );
    assert!(Bochs::is_available(true, 0xB0C5));
    assert!(!Bochs::is_available(false, 0xB0C5));
    assert!(!Bochs::is_available(true, 0xB1C0));
    let mut t = PageTable::new(0x100);
    let b = Bochs::new(&mut t, 640, 480, &mode_info((8, 8, 8, 8), 32));
    assert_eq!(b.resolution(), (640, 480));
    assert_eq!(b.pixel_offset(3, 2), 1283);
    assert_eq!(b.pixel_count(), 307200);
    assert_eq!(b.vram, 0xFD00_0000);
}

#[test]
fn preferred_display() {
    assert_eq!(preferred(true, true), Preferred::Bochs);
    assert_eq!(preferred(false, true), Preferred::Vbe);
    assert_eq!(preferred(false, false), Preferred::Dummy);
}

#[test]
fn vga_register_values() {
    assert_eq!(misc_value(0x63, 0xFF), 0x73);
    assert_eq!(misc_value(0x63, 0x00), 0x63);
    // Reset register: only the two reset bits come from the data.
    assert_eq!(seq_value(0x00, 0xFC, 0x01), 0xFD);
    assert_eq!(seq_value(0x00, 0x00, 0xFF), 0x03);
    // Clocking mode keeps bits 1, 6 and 7.
    assert_eq!(seq_value(0x01, 0xC2, 0x21), 0xE3);
    // A register without reserved bits takes the data whole.
    assert_eq!(seq_value(0x07, 0xAA, 0x55), 0x55);
    // End horizontal blanking always gets its top bit set.
    assert_eq!(crtc_value(0x03, 0x00, 0x12), 0x92);
    assert_eq!(crtc_value(0x0A, 0xC0, 0x0D), 0xCD);
    assert_eq!(crtc_value(0x17, 0x10, 0xA3), 0xB3);
    assert_eq!(crtc_value(0x11, 0xFF, 0x0E), 0x0E);
    assert_eq!(unlock_value(0x8E), 0x0E);
    assert_eq!(lock_value(0x0E), 0x8E);
    assert_eq!(screen_on_value(0x21), 0x01);
    assert_eq!(screen_off_value(0x01), 0x21);
    assert_eq!(write_mode_value(0x43, 0x02), 0x42);
    assert_eq!(read_mode_value(0x40, 0x01), 0x48);
    assert_eq!(read_mode_value(0x48, 0x00), 0x40);
}

#[test]
fn vga_load_steps() {
    let mut mode = Vga { misc: 0x63, seq: [0x03, 0x01, 0x0F, 0x00, 0x0E], crt: [0; 25], gf: [0; 9], attr: [0; 21] };
    for i in 0..25 {
        mode.crt[i] = 0x40 + i as u8;
    }
    for i in 0..9 {
        mode.gf[i] = 0x60 + i as u8;
    }
    for i in 0..21 {
        mode.attr[i] = 0x80 + i as u8;
    }
    let ops = mode.load();
    assert_eq!(ops.len(), LOAD_STEPS);
    assert_eq!(ops[0], VgaOp::Misc(0x63));
    assert_eq!(ops[1], VgaOp::Sequencer(0x00, 0x01));
    assert_eq!(ops[2], VgaOp::Sequencer(0x01, 0x21));
    assert_eq!(ops[3], VgaOp::Sequencer(0x02, 0x0F));
    assert_eq!(ops[5], VgaOp::Sequencer(0x04, 0x0E));
    assert_eq!(ops[6], VgaOp::Sequencer(0x00, 0x03));
    assert_eq!(ops[7], VgaOp::UnlockCrtc);
    assert_eq!(ops[8], VgaOp::Crtc(0x00, 0x40));
    assert_eq!(ops[32], VgaOp::Crtc(0x18, 0x58));
    assert_eq!(ops[33], VgaOp::LockCrtc);
    assert_eq!(ops[34], VgaOp::Graphics(0x00, 0x60));
    assert_eq!(ops[42], VgaOp::Graphics(0x08, 0x68));
    assert_eq!(ops[43], VgaOp::Attribute(0x00, 0x80));
    assert_eq!(ops[58], VgaOp::Attribute(0x0F, 0x8F));
    assert_eq!(ops[59], VgaOp::Attribute(0x30, 0x90));
    assert_eq!(ops[63], VgaOp::Attribute(0x34, 0x94));
    assert_eq!(ops[64], VgaOp::EnableVideo);
    assert_eq!(ops[65], VgaOp::Delay(50));
    assert_eq!(ops[66], VgaOp::ScreenOn);
}
