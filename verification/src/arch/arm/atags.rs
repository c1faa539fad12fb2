use vstd::prelude::*;

verus! {

/// Tag that ends the list.
pub const ATAG_NONE: u32 = 0x00000000;
/// Tag of the core parameters.
pub const ATAG_CORE: u32 = 0x54410001;
/// Tag of a memory region.
pub const ATAG_MEM: u32 = 0x54410002;
/// Tag of the text video mode.
pub const ATAG_VIDEOTEXT: u32 = 0x54410003;
/// Tag of a RAM disk.
pub const ATAG_RAMDISK: u32 = 0x54410004;
/// Tag of the compressed initial RAM disk.
pub const ATAG_INITRD2: u32 = 0x54410005;
/// Tag of the board serial number.
pub const ATAG_SERIAL: u32 = 0x54410006;
/// Tag of the board revision.
pub const ATAG_REVISION: u32 = 0x54410007;
/// Tag of the linear frame buffer.
pub const ATAG_VIDEOLFB: u32 = 0x54410008;
/// Tag of the kernel command line.
pub const ATAG_CMDLINE: u32 = 0x54410009;

/// Word `k` of `words`, 0 past their end.
pub open spec fn word(words: Seq<u32>, k: int) -> u32 {
    if 0 <= k < words.len() { words[k] } else { 0 }
}

/// Byte `b` (0 lowest) of the little-endian word `w`.
pub open spec fn byte_of(w: u32, b: int) -> u8 {
    ((w >> ((8 * b) as u32)) & 0xffu32) as u8
}

/// Half-word `h` (0 lower) of the little-endian word `w`.
pub open spec fn half_of(w: u32, h: int) -> u16 {
    ((w >> ((16 * h) as u32)) & 0xffffu32) as u16
}

/// A tag starts at word `o`: its header lies in `words`, it is longer than
/// its two-word header, and it is not the end tag.
pub open spec fn tag_at(words: Seq<u32>, o: int) -> bool {
    0 <= o && o + 1 < words.len() && words[o] > 2 && words[o + 1] != ATAG_NONE
}

/// Where the walk goes after the tag at `o`: its length further on, or the
/// end of the words.
pub open spec fn after_tag(words: Seq<u32>, o: int) -> int {
    if o + words[o] < words.len() { o + words[o] } else { words.len() as int }
}

/// The memory regions of the list from word `o` on, as `(size, start)`,
/// in list order.
pub open spec fn memory_tags(words: Seq<u32>, o: int) -> Seq<(u32, u32)>
    decreases words.len() - o,
{
    if tag_at(words, o) {
        let here = if words[o + 1] == ATAG_MEM {
            seq![(word(words, o + 2), word(words, o + 3))]
        } else {
            Seq::<(u32, u32)>::empty()
        };
        if o + words[o] < words.len() {
            here + memory_tags(words, o + words[o])
        } else {
            here
        }
    } else {
        Seq::<(u32, u32)>::empty()
    }
}

/// Sum of the sizes of `regions`.
pub open spec fn total_size(regions: Seq<(u32, u32)>) -> int
    decreases regions.len(),
{
    if regions.len() == 0 {
        0
    } else {
        total_size(regions.drop_last()) + regions.last().0
    }
}

/// The address range `start .. start + size` of each region.
pub open spec fn region_ranges(regions: Seq<(u32, u32)>) -> Seq<(u32, u32)> {
    regions.map_values(|m: (u32, u32)| (m.1, (m.1 + m.0) as u32))
}

/// The bytes of `words`, each word lowest byte first.
pub open spec fn le_bytes(words: Seq<u32>) -> Seq<u8> {
    Seq::new(4 * words.len(), |k: int| byte_of(words[k / 4], k % 4))
}

/// One tag of the boot list: its length in words (header included), its
/// kind, and the words that follow its header in memory.
pub struct Atag {
    pub size: u32,
    pub tag: u32,
    pub data: Vec<u32>,
}

/// The core parameters.
#[derive(Clone, Copy, PartialEq, Eq, Structural, Debug)]
pub struct AtagCore {
    pub flags: u32,
    pub pagesize: u32,
    pub rootdev: u32,
}

/// A memory region.
#[derive(Clone, Copy, PartialEq, Eq, Structural, Debug)]
pub struct AtagMemory {
    pub size: u32,
    pub start: u32,
}

/// The text video mode.
#[derive(Clone, Copy, PartialEq, Eq, Structural, Debug)]
pub struct AtagVideoText {
    pub x: u8,
    pub y: u8,
    pub video_page: u16,
    pub video_mode: u8,
    pub video_cols: u8,
    pub video_ega_bx: u16,
    pub video_lines: u8,
    pub video_isvga: u8,
    pub video_points: u16,
}

/// A RAM disk.
#[derive(Clone, Copy, PartialEq, Eq, Structural, Debug)]
pub struct AtagRamDisk {
    pub flags: u32,
    pub size: u32,
    pub start: u32,
}

/// The compressed initial RAM disk.
#[derive(Clone, Copy, PartialEq, Eq, Structural, Debug)]
pub struct AtagInitRd2 {
    pub start: u32,
    pub size: u32,
}

/// The board serial number.
#[derive(Clone, Copy, PartialEq, Eq, Structural, Debug)]
pub struct AtagSerial {
    pub low: u32,
    pub high: u32,
}

/// The board revision.
#[derive(Clone, Copy, PartialEq, Eq, Structural, Debug)]
pub struct AtagRevision {
    pub rev: u32,
}

/// The linear frame buffer.
#[derive(Clone, Copy, PartialEq, Eq, Structural, Debug)]
pub struct AtagVideoLfb {
    pub lfb_width: u16,
    pub lfb_height: u16,
    pub lfb_depth: u16,
    pub lfb_linelength: u16,
    pub lfb_base: u32,
    pub lfb_size: u32,
    pub red_size: u8,
    pub red_pos: u8,
    pub green_size: u8,
    pub green_pos: u8,
    pub blue_size: u8,
    pub blue_pos: u8,
    pub rsvd_size: u8,
    pub rsvd_pos: u8,
}

/// The kernel command line: a NUL-terminated string in the words after the header.
pub struct AtagCmdLine {
    words: Vec<u32>,
}

/// What a tag holds, by its kind.
pub enum AtagData {
    Core(AtagCore),
    Memory(AtagMemory),
    VideoText(AtagVideoText),
    RamDisk(AtagRamDisk),
    InitRd2(AtagInitRd2),
    Serial(AtagSerial),
    Revision(AtagRevision),
    VideoLfb(AtagVideoLfb),
    CmdLine(AtagCmdLine),
}

/// A walk over the tags of a list, in memory order.
pub struct AtagIter {
    words: Vec<u32>,
    pos: usize,
}

impl AtagCmdLine {
    /// The words that follow the header.
    pub closed spec fn words(&self) -> Seq<u32> {
        self.words@
    }

    /// The command line: the bytes after the header up to the first NUL
    /// (all of them when there is none).
    pub fn as_str(&self) -> (r: Vec<u8>)
        ensures
            r@.len() <= le_bytes(self.words()).len(),
            r@ == le_bytes(self.words()).take(r@.len() as int),
            forall|k: int| 0 <= k < r@.len() ==> #[trigger] r@[k] != 0,
            r@.len() < le_bytes(self.words()).len() ==> le_bytes(self.words())[r@.len() as int] == 0,
    {
        let ghost bytes = le_bytes(self.words@);
        let mut r: Vec<u8> = Vec::new();
        let mut i: usize = 0;
        while i < self.words.len()
            invariant_except_break
                i <= self.words@.len(),
                r@.len() == 4 * i,
                r@ == bytes.take(r@.len() as int),
                forall|k: int| 0 <= k < r@.len() ==> #[trigger] r@[k] != 0,
            invariant
                bytes == le_bytes(self.words@),
                bytes.len() == 4 * self.words@.len(),
            ensures
                r@.len() <= bytes.len(),
                r@ == bytes.take(r@.len() as int),
                forall|k: int| 0 <= k < r@.len() ==> #[trigger] r@[k] != 0,
                r@.len() < bytes.len() ==> bytes[r@.len() as int] == 0,
            decreases self.words@.len() - i,
        {
            let w = self.words[i];
            let mut b: u32 = 0;
            let mut stop = false;
            while b < 4
                invariant_except_break
                    b <= 4,
                    r@.len() == 4 * i + b,
                    r@ == bytes.take(r@.len() as int),
                    forall|k: int| 0 <= k < r@.len() ==> #[trigger] r@[k] != 0,
                    !stop,
                invariant
                    bytes == le_bytes(self.words@),
                    bytes.len() == 4 * self.words@.len(),
                    i < self.words@.len(),
                    w == self.words@[i as int],
                ensures
                    r@.len() <= bytes.len(),
                    r@ == bytes.take(r@.len() as int),
                    forall|k: int| 0 <= k < r@.len() ==> #[trigger] r@[k] != 0,
                    stop ==> r@.len() < bytes.len() && bytes[r@.len() as int] == 0,
                    !stop ==> r@.len() == 4 * i + 4,
                decreases 4 - b,
            {
                let c = ((w >> (8 * b)) & 0xff) as u8;
                proof {
                    let k = 4 * i + b;
                    assert(k / 4 == i && k % 4 == b) by (nonlinear_arith)
                        requires k == 4 * i + b, 0 <= b < 4;
                    assert(bytes[k] == c);
                }
                if c == 0 {
                    stop = true;
                    break;
                }
                r.push(c);
                b = b + 1;
                proof {
                    assert(r@ =~= bytes.take(r@.len() as int));
                }
            }
            if stop {
                break;
            }
            i = i + 1;
        }
        r
    }
}

/// The value of word `k` of `data`, 0 past their end.
fn word_at(data: &Vec<u32>, k: usize) -> (r: u32)
    ensures
        r == word(data@, k as int),
{
    if k < data.len() { data[k] } else { 0 }
}

/// Byte `b` of `w`, lowest first.
fn byte_at(w: u32, b: u32) -> (r: u8)
    requires
        b < 4,
    ensures
        r == byte_of(w, b as int),
{
    ((w >> (8 * b)) & 0xff) as u8
}

/// Half-word `h` of `w`, lower first.
fn half_at(w: u32, h: u32) -> (r: u16)
    requires
        h < 2,
    ensures
        r == half_of(w, h as int),
{
    ((w >> (16 * h)) & 0xffff) as u16
}

/// What the tag `tag` holds, read from the words `d` after its header.
pub open spec fn atag_data_spec(tag: u32, d: Seq<u32>) -> Option<AtagDataKind> {
    if tag == ATAG_CORE { Some(AtagDataKind::Core) }
    else if tag == ATAG_MEM { Some(AtagDataKind::Memory) }
    else if tag == ATAG_VIDEOTEXT { Some(AtagDataKind::VideoText) }
    else if tag == ATAG_RAMDISK { Some(AtagDataKind::RamDisk) }
    else if tag == ATAG_INITRD2 { Some(AtagDataKind::InitRd2) }
    else if tag == ATAG_SERIAL { Some(AtagDataKind::Serial) }
    else if tag == ATAG_REVISION { Some(AtagDataKind::Revision) }
    else if tag == ATAG_VIDEOLFB { Some(AtagDataKind::VideoLfb) }
    else if tag == ATAG_CMDLINE { Some(AtagDataKind::CmdLine) }
    else { None }
}

/// The kinds of tag data.
#[derive(PartialEq, Eq, Structural)]
pub enum AtagDataKind {
    Core,
    Memory,
    VideoText,
    RamDisk,
    InitRd2,
    Serial,
    Revision,
    VideoLfb,
    CmdLine,
}

impl AtagData {
    /// Its kind.
    pub open spec fn kind(&self) -> AtagDataKind {
        match self {
            AtagData::Core(_) => AtagDataKind::Core,
            AtagData::Memory(_) => AtagDataKind::Memory,
            AtagData::VideoText(_) => AtagDataKind::VideoText,
            AtagData::RamDisk(_) => AtagDataKind::RamDisk,
            AtagData::InitRd2(_) => AtagDataKind::InitRd2,
            AtagData::Serial(_) => AtagDataKind::Serial,
            AtagData::Revision(_) => AtagDataKind::Revision,
            AtagData::VideoLfb(_) => AtagDataKind::VideoLfb,
            AtagData::CmdLine(_) => AtagDataKind::CmdLine,
        }
    }

    /// It was read correctly from the words `d` after the header.
    pub open spec fn read_from(&self, d: Seq<u32>) -> bool {
        match self {
            AtagData::Core(c) => c.flags == word(d, 0) && c.pagesize == word(d, 1) && c.rootdev == word(d, 2),
            AtagData::Memory(m) => m.size == word(d, 0) && m.start == word(d, 1),
            AtagData::VideoText(v) => {
                &&& v.x == byte_of(word(d, 0), 0)
                &&& v.y == byte_of(word(d, 0), 1)
                &&& v.video_page == half_of(word(d, 0), 1)
                &&& v.video_mode == byte_of(word(d, 1), 0)
                &&& v.video_cols == byte_of(word(d, 1), 1)
                &&& v.video_ega_bx == half_of(word(d, 1), 1)
                &&& v.video_lines == byte_of(word(d, 2), 0)
                &&& v.video_isvga == byte_of(word(d, 2), 1)
                &&& v.video_points == half_of(word(d, 2), 1)
            },
            AtagData::RamDisk(r) => r.flags == word(d, 0) && r.size == word(d, 1) && r.start == word(d, 2),
            AtagData::InitRd2(r) => r.start == word(d, 0) && r.size == word(d, 1),
            AtagData::Serial(s) => s.low == word(d, 0) && s.high == word(d, 1),
            AtagData::Revision(r) => r.rev == word(d, 0),
            AtagData::VideoLfb(l) => {
                &&& l.lfb_width == half_of(word(d, 0), 0)
                &&& l.lfb_height == half_of(word(d, 0), 1)
                &&& l.lfb_depth == half_of(word(d, 1), 0)
                &&& l.lfb_linelength == half_of(word(d, 1), 1)
                &&& l.lfb_base == word(d, 2)
                &&& l.lfb_size == word(d, 3)
                &&& l.red_size == byte_of(word(d, 4), 0)
                &&& l.red_pos == byte_of(word(d, 4), 1)
                &&& l.green_size == byte_of(word(d, 4), 2)
                &&& l.green_pos == byte_of(word(d, 4), 3)
                &&& l.blue_size == byte_of(word(d, 5), 0)
                &&& l.blue_pos == byte_of(word(d, 5), 1)
                &&& l.rsvd_size == byte_of(word(d, 5), 2)
                &&& l.rsvd_pos == byte_of(word(d, 5), 3)
            },
            AtagData::CmdLine(c) => c.words() == d,
        }
    }
}

impl Atag {
    /// The words that follow the header in memory.
    pub open spec fn data_words(&self) -> Seq<u32> {
        self.data@
    }

    /// The tag whose header is the first two of `words`.
    pub fn from_words(words: &Vec<u32>) -> (r: Atag)
        requires
            words@.len() >= 2,
        ensures
            r.size == words@[0],
            r.tag == words@[1],
            r.data_words() == words@.subrange(2, words@.len() as int),
    {
        let mut data: Vec<u32> = Vec::new();
        let mut k: usize = 2;
        while k < words.len()
            invariant
                2 <= k <= words@.len(),
                data@ == words@.subrange(2, k as int),
            decreases words@.len() - k,
        {
            data.push(words[k]);
            k = k + 1;
            proof {
                assert(data@ =~= words@.subrange(2, k as int));
            }
        }
        Atag { size: words[0], tag: words[1], data }
    }

    /// A walk over the tags from this one on.
    pub fn iter(&self) -> (r: AtagIter)
        ensures
            r.words() == seq![self.size, self.tag] + self.data_words(),
            r.pos() == 0,
    {
        let mut words: Vec<u32> = Vec::new();
        words.push(self.size);
        words.push(self.tag);
        let mut k: usize = 0;
        while k < self.data.len()
            invariant
                k <= self.data@.len(),
                words@ == seq![self.size, self.tag] + self.data@.subrange(0, k as int),
            decreases self.data@.len() - k,
        {
            words.push(self.data[k]);
            k = k + 1;
            proof {
                assert(words@ =~= seq![self.size, self.tag] + self.data@.subrange(0, k as int));
            }
        }
        proof {
            assert(self.data@.subrange(0, self.data@.len() as int) =~= self.data@);
        }
        AtagIter { words, pos: 0 }
    }

    /// What the tag holds, by its kind; `None` for an unknown kind.
    pub fn data(&self) -> (r: Option<AtagData>)
        ensures
            r is None <==> atag_data_spec(self.tag, self.data_words()) is None,
            r is Some ==> Some(r->0.kind()) == atag_data_spec(self.tag, self.data_words()),
            r is Some ==> r->0.read_from(self.data_words()),
    {
        let d = &self.data;
        if self.tag == ATAG_CORE {
            Some(AtagData::Core(AtagCore { flags: word_at(d, 0), pagesize: word_at(d, 1), rootdev: word_at(d, 2) }))
        } else if self.tag == ATAG_MEM {
            Some(AtagData::Memory(AtagMemory { size: word_at(d, 0), start: word_at(d, 1) }))
        } else if self.tag == ATAG_VIDEOTEXT {
            let (w0, w1, w2) = (word_at(d, 0), word_at(d, 1), word_at(d, 2));
            Some(AtagData::VideoText(AtagVideoText {
                x: byte_at(w0, 0),
                y: byte_at(w0, 1),
                video_page: half_at(w0, 1),
                video_mode: byte_at(w1, 0),
                video_cols: byte_at(w1, 1),
                video_ega_bx: half_at(w1, 1),
                video_lines: byte_at(w2, 0),
                video_isvga: byte_at(w2, 1),
                video_points: half_at(w2, 1),
            }))
        } else if self.tag == ATAG_RAMDISK {
            Some(AtagData::RamDisk(AtagRamDisk { flags: word_at(d, 0), size: word_at(d, 1), start: word_at(d, 2) }))
        } else if self.tag == ATAG_INITRD2 {
            Some(AtagData::InitRd2(AtagInitRd2 { start: word_at(d, 0), size: word_at(d, 1) }))
        } else if self.tag == ATAG_SERIAL {
            Some(AtagData::Serial(AtagSerial { low: word_at(d, 0), high: word_at(d, 1) }))
        } else if self.tag == ATAG_REVISION {
            Some(AtagData::Revision(AtagRevision { rev: word_at(d, 0) }))
        } else if self.tag == ATAG_VIDEOLFB {
            let (w0, w1, w4, w5) = (word_at(d, 0), word_at(d, 1), word_at(d, 4), word_at(d, 5));
            Some(AtagData::VideoLfb(AtagVideoLfb {
                lfb_width: half_at(w0, 0),
                lfb_height: half_at(w0, 1),
                lfb_depth: half_at(w1, 0),
                lfb_linelength: half_at(w1, 1),
                lfb_base: word_at(d, 2),
                lfb_size: word_at(d, 3),
                red_size: byte_at(w4, 0),
                red_pos: byte_at(w4, 1),
                green_size: byte_at(w4, 2),
                green_pos: byte_at(w4, 3),
                blue_size: byte_at(w5, 0),
                blue_pos: byte_at(w5, 1),
                rsvd_size: byte_at(w5, 2),
                rsvd_pos: byte_at(w5, 3),
            }))
        } else if self.tag == ATAG_CMDLINE {
            let mut words: Vec<u32> = Vec::new();
            let mut k: usize = 0;
            while k < d.len()
                invariant
                    k <= d@.len(),
                    words@ == d@.subrange(0, k as int),
                decreases d@.len() - k,
            {
                words.push(d[k]);
                k = k + 1;
                proof {
                    assert(words@ =~= d@.subrange(0, k as int));
                }
            }
            proof {
                assert(d@.subrange(0, d@.len() as int) =~= d@);
            }
            Some(AtagData::CmdLine(AtagCmdLine { words }))
        } else {
            None
        }
    }
}

impl AtagIter {
    /// The words of the list.
    pub closed spec fn words(&self) -> Seq<u32> {
        self.words@
    }

    /// Where the walk stands, in words.
    pub closed spec fn pos(&self) -> int {
        self.pos as int
    }

    /// Internal invariant: the walk stays inside the words.
    pub closed spec fn wf(&self) -> bool {
        self.pos <= self.words@.len()
    }

    /// A walk over the list in `words`, from its first tag.
    pub fn new(words: Vec<u32>) -> (r: AtagIter)
        ensures
            r.wf(),
            r.words() == words@,
            r.pos() == 0,
    {
        AtagIter { words, pos: 0 }
    }

    /// The next tag, or `None` at the end tag, at a tag no longer than its
    /// header, or past the words.
    pub fn next(&mut self) -> (r: Option<Atag>)
        requires
            old(self).wf(),
        ensures
            final(self).wf(),
            final(self).words() == old(self).words(),
            r is Some <==> tag_at(old(self).words(), old(self).pos()),
            r is None ==> final(self).pos() == old(self).pos(),
            r is Some ==> final(self).pos() == after_tag(old(self).words(), old(self).pos()),
            r is Some ==> r->0.size == old(self).words()[old(self).pos()],
            r is Some ==> r->0.tag == old(self).words()[old(self).pos() + 1],
            r is Some ==> r->0.data_words() == old(self).words().subrange(old(self).pos() + 2, old(self).words().len() as int),
    {
        let pos = self.pos;
        if pos < self.words.len() && self.words.len() - pos > 1 && self.words[pos] > 2 && self.words[pos + 1] != ATAG_NONE {
            let size = self.words[pos];
            let mut data: Vec<u32> = Vec::new();
            let mut k: usize = pos + 2;
            while k < self.words.len()
                invariant
                    pos + 2 <= k <= self.words@.len(),
                    data@ == self.words@.subrange(pos + 2, k as int),
                decreases self.words@.len() - k,
            {
                data.push(self.words[k]);
                k = k + 1;
                proof {
                    assert(data@ =~= self.words@.subrange(pos + 2, k as int));
                }
            }
            self.pos = if (size as usize) < self.words.len() - pos { pos + size as usize } else { self.words.len() };
            Some(Atag { size, tag: self.words[pos + 1], data })
        } else {
            None
        }
    }
}

/// What the kernel's memory manager is handed: the total size and the
/// address range of each memory region, in list order.
pub fn init_memory(words: Vec<u32>) -> (r: (u32, Vec<(u32, u32)>))
    requires
        total_size(memory_tags(words@, 0)) > 0,
        total_size(memory_tags(words@, 0)) <= u32::MAX,
        forall|k: int| 0 <= k < memory_tags(words@, 0).len() ==>
            #[trigger] memory_tags(words@, 0)[k].1 + memory_tags(words@, 0)[k].0 <= u32::MAX,
    ensures
        r.0 == total_size(memory_tags(words@, 0)),
        r.1@ == region_ranges(memory_tags(words@, 0)),
{
    let ghost all = memory_tags(words@, 0);
    let mut it = AtagIter::new(words);
    let mut size: u32 = 0;
    let mut ranges: Vec<(u32, u32)> = Vec::new();
    let ghost mut seen: Seq<(u32, u32)> = Seq::empty();
    loop
        invariant
            it.wf(),
            all == memory_tags(it.words(), 0),
            all == seen + memory_tags(it.words(), it.pos()),
            size == total_size(seen),
            total_size(all) <= u32::MAX,
            forall|k: int| 0 <= k < all.len() ==> #[trigger] all[k].1 + all[k].0 <= u32::MAX,
            ranges@ == region_ranges(seen),
        ensures
            all == seen,
            size == total_size(seen),
            ranges@ == region_ranges(seen),
        decreases it.words().len() - it.pos(),
    {
        let ghost before = it.pos();
        match it.next() {
            None => {
                proof {
                    assert(memory_tags(it.words(), it.pos()) =~= Seq::<(u32, u32)>::empty());
                    assert(seen + Seq::<(u32, u32)>::empty() =~= seen);
                }
                break;
            },
            Some(atag) => {
                let ghost ws = it.words();
                let ghost rest = memory_tags(ws, it.pos());
                proof {
                    if before + ws[before] < ws.len() {
                        assert(it.pos() == before + ws[before]);
                    } else {
                        assert(it.pos() == ws.len());
                        assert(!tag_at(ws, it.pos()));
                        assert(rest =~= Seq::<(u32, u32)>::empty());
                    }
                }
                if atag.tag == ATAG_MEM {
                    let m_size = word_at(&atag.data, 0);
                    let m_start = word_at(&atag.data, 1);
                    proof {
                        let here = seq![(word(ws, before + 2), word(ws, before + 3))];
                        assert(word(atag.data_words(), 0) == word(ws, before + 2));
                        assert(word(atag.data_words(), 1) == word(ws, before + 3));
                        assert(memory_tags(ws, before) =~= here + rest);
                        assert(all =~= (seen + here) + rest);
                        lemma_total_prefix(all, (seen + here).len() as int);
                        assert(all.subrange(0, (seen + here).len() as int) =~= seen + here);
                        assert((seen + here).drop_last() =~= seen);
                        assert(all[seen.len() as int] == (m_size, m_start));
                        assert(all[seen.len() as int].1 + all[seen.len() as int].0 <= u32::MAX);
                    }
                    size = size + m_size;
                    ranges.push((m_start, m_start + m_size));
                    proof {
                        let here = seq![(m_size, m_start)];
                        seen = seen + here;
                        assert(ranges@ =~= region_ranges(seen));
                    }
                } else {
                    proof {
                        assert(memory_tags(ws, before) =~= rest);
                    }
                }
            },
        }
    }
    proof {
        assert(seen =~= all);
    }
    (size, ranges)
}

/// The size of a prefix of the regions is at most the size of them all.
proof fn lemma_total_prefix(regions: Seq<(u32, u32)>, n: int)
    requires
        0 <= n <= regions.len(),
    ensures
        total_size(regions.subrange(0, n)) <= total_size(regions),
        total_size(regions.subrange(0, n)) >= 0,
    decreases regions.len(),
{
    if n == regions.len() {
        assert(regions.subrange(0, n) =~= regions);
        lemma_total_nonneg(regions);
    } else {
        lemma_total_prefix(regions.drop_last(), n);
        assert(regions.drop_last().subrange(0, n) =~= regions.subrange(0, n));
    }
}

/// Sizes are never negative, nor their sum.
proof fn lemma_total_nonneg(regions: Seq<(u32, u32)>)
    ensures
        total_size(regions) >= 0,
    decreases regions.len(),
{
    if regions.len() > 0 {
        lemma_total_nonneg(regions.drop_last());
    }
}

} // verus!
