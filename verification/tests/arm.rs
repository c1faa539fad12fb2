use lib::arch::arm::atags::{init_memory, Atag, AtagData, AtagIter, ATAG_CMDLINE, ATAG_CORE, ATAG_MEM, ATAG_VIDEOLFB};
use lib::arch::arm::gpio::{Channel, Mode, PullUpDown, GPEDS0, GPEDS1, GPIO_REGISTERS, GPPUD};
use lib::arch::arm::page::{
    AccessPermission, DomainAccessControl, FirstLevelDescriptor, FirstLevelDescriptorType, PageTable,
    SecondLevelDescriptorType,
};
use lib::arch::arm::mach::Machine;
use lib::arch::arm::page::init as page_init;
use lib::arch::arm::{kernel_end, kernel_size, kernel_start};
use lib::arch::registers::RegisterBlock;

/// A list: core, two memory regions, the command line "root=/dev/sda", then the end tag.
fn sample_list() -> Vec<u32> {
    let mut w = vec![5, ATAG_CORE, 1, 4096, 0];
    w.extend_from_slice(&[4, ATAG_MEM, 0x0800_0000, 0]);
    w.extend_from_slice(&[4, ATAG_MEM, 0x0400_0000, 0x1000_0000]);
    // "root=/dev/sda" and its NUL, four bytes a word, lowest byte first.
    w.extend_from_slice(&[6, ATAG_CMDLINE, 0x746F_6F72, 0x65642F3D, 0x64732F76, 0x0000_0061]);
    w.extend_from_slice(&[0, 0]);
    w
}

#[test]
fn atag_walk_and_data() {
    let mut it = AtagIter::new(sample_list());
    let core = it.next().unwrap();
    assert_eq!((core.size, core.tag), (5, ATAG_CORE));
    match core.data() {
        Some(AtagData::Core(c)) => assert_eq!((c.flags, c.pagesize, c.rootdev), (1, 4096, 0)),
        _ => panic!("expected the core tag"),
    }
    let m1 = it.next().unwrap();
    match m1.data() {
        Some(AtagData::Memory(m)) => assert_eq!((m.size, m.start), (0x0800_0000, 0)),
        _ => panic!("expected a memory tag"),
    }
    let _m2 = it.next().unwrap();
    let cmd = it.next().unwrap();
    match cmd.data() {
        Some(AtagData::CmdLine(c)) => assert_eq!(c.as_str(), b"root=/dev/sda".to_vec()),
        _ => panic!("expected the command line"),
    }
    assert!(it.next().is_none());
    assert!(it.next().is_none());
}

#[test]
fn atag_unknown_and_short_tags() {
    let a = Atag::from_words(&vec![3, 0x1234_5678, 9]);
    assert!(a.data().is_none());
    // A tag no longer than its header ends the walk.
    let mut it = AtagIter::new(vec![2, ATAG_CORE, 0, 0]);
    assert!(it.next().is_none());
    // From a tag, the walk starts at that tag.
    let b = Atag::from_words(&vec![3, ATAG_MEM, 7, 4, ATAG_CORE, 1, 2]);
    let mut it = b.iter();
    assert_eq!(it.next().unwrap().tag, ATAG_MEM);
    assert_eq!(it.next().unwrap().tag, ATAG_CORE);
    assert!(it.next().is_none());
}

#[test]
fn atag_frame_buffer_fields() {
    let a = Atag::from_words(&vec![8, ATAG_VIDEOLFB, 0x01E0_0280, 0x0A00_0020, 0x1000_0000, 0x0012_C000, 0x0810_0808, 0x1808_0000]);
    match a.data() {
        Some(AtagData::VideoLfb(l)) => {
            assert_eq!((l.lfb_width, l.lfb_height), (640, 480));
            assert_eq!((l.lfb_depth, l.lfb_linelength), (32, 2560));
            assert_eq!((l.lfb_base, l.lfb_size), (0x1000_0000, 0x0012_C000));
            assert_eq!((l.red_size, l.red_pos, l.green_size, l.green_pos), (8, 8, 16, 8));
            assert_eq!((l.blue_size, l.blue_pos, l.rsvd_size, l.rsvd_pos), (0, 0, 8, 24));
        }
        _ => panic!("expected the frame buffer tag"),
    }
}

#[test]
fn memory_from_atags() {
    let (size, ranges) = init_memory(sample_list());
    assert_eq!(size, 0x0C00_0000);
    assert_eq!(ranges, vec![(0, 0x0800_0000), (0x1000_0000, 0x1400_0000)]);
}

#[test]
fn gpio_pull_leaves_registers_cleared() {
    let mut gpio = RegisterBlock::new(GPIO_REGISTERS);
    let pin = Channel::with_mode(&mut gpio, 35, Mode::Output);
    gpio.store(GPEDS1, 0xFF);
    pin.set_pull(&mut gpio, PullUpDown::PullUp);
    assert_eq!(gpio.load(GPPUD), 0);
    assert_eq!(gpio.load(GPEDS1), 0);
    assert_eq!(gpio.load(GPEDS0), 0);
    assert_eq!(PullUpDown::PullUp.code(), 2);
    assert_eq!(PullUpDown::PullDown.code(), 1);
    assert_eq!(PullUpDown::Disable.code(), 0);
}

#[test]
fn register_load_gives_back_store() {
    let mut r = RegisterBlock::new(4);
    r.store(8, 0xDEAD_BEEF);
    assert_eq!(r.load(8), 0xDEAD_BEEF);
    assert_eq!(r.load(4), 0);
}

#[test]
fn first_level_descriptor_tables() {
    let c = FirstLevelDescriptor::coarse_table(0x0012_3400, DomainAccessControl::Client);
    assert_eq!(c.descriptor_type(), FirstLevelDescriptorType::CoarseTable);
    assert_eq!(c.sld(), Some((0x0012_3400, 256)));
    let f = FirstLevelDescriptor::fine_table(0x0012_3000, DomainAccessControl::Client);
    assert_eq!(f.sld(), Some((0x0012_3000, 1024)));
    let s = FirstLevelDescriptor::section(0x0010_0000, AccessPermission::AP3, DomainAccessControl::Manager, true, true);
    assert_eq!(s.descriptor_type(), FirstLevelDescriptorType::Section);
    assert_eq!(s.sld(), None);
    assert_eq!(FirstLevelDescriptor::invalid().sld(), None);
}

#[test]
fn arm_direct_map_is_identity() {
    let mut t = PageTable::new(0x0100_0000);
    t.unmap_all();
    t.map_direct(PageTable::FLAGS_KERNEL, 0x2000_0000, 0x1800);
    let d = t.get_sld(0x2000_1000).unwrap();
    assert_eq!(d.descriptor_type(), SecondLevelDescriptorType::Small);
    assert_eq!(d.small_addr(), 0x2000_1000);
    let e = t.get_sld(0x2000_2000).unwrap();
    assert_eq!(e.descriptor_type(), SecondLevelDescriptorType::Fault);
}

#[test]
fn arm_kernel_bounds() {
    assert_eq!(kernel_start(0x8000), 0x8000);
    assert_eq!(kernel_end(0x20000), 0x20000);
    assert_eq!(kernel_size(0x8000, 0x20000), 0x18000);
}

#[test]
fn arm_start_up_page_tables() {
    let mut t = PageTable::new(0x0100_0000);
    page_init(&mut t, Machine::Bcm, 0x8000, 0x2_0000);
    let vectors = t.get_sld(0).unwrap();
    assert_eq!(vectors.descriptor_type(), SecondLevelDescriptorType::Small);
    assert_eq!(vectors.small_addr(), 0);
    assert_eq!(t.get_sld(0x1000).unwrap().descriptor_type(), SecondLevelDescriptorType::Fault);
    assert_eq!(t.get_sld(0x9000).unwrap().small_addr(), 0x9000);
    assert_eq!(t.get_sld(0x2_0000).unwrap().descriptor_type(), SecondLevelDescriptorType::Fault);
    assert_eq!(t.get_sld(0x2000_B200).unwrap().small_addr(), 0x2000_B000);
    assert_eq!(t.get_sld(0x2020_1000).unwrap().small_addr(), 0x2020_1000);
    let mut v = PageTable::new(0x0100_0000);
    page_init(&mut v, Machine::Versatile, 0x1_0000, 0x1_1000);
    assert_eq!(v.get_sld(0x101E_2000).unwrap().small_addr(), 0x101E_2000);
    assert_eq!(v.get_sld(0x1_0000).unwrap().small_addr(), 0x1_0000);
    assert_eq!(v.get_sld(0x2000_B000).unwrap().descriptor_type(), SecondLevelDescriptorType::Fault);
}
