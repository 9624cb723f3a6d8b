//! ELF64 executables: header and program-header decoding, segment checks,
//! page permissions, and the frame pool user pages are taken from.

pub mod tables;
pub mod image;

use vstd::prelude::*;

verus! {

/// Class byte of 64-bit objects.
pub const ELFCLASS64: u8 = 2;
/// Data byte of little-endian objects.
pub const ELFDATA2LSB: u8 = 1;
/// Type of executables.
pub const ET_EXEC: u16 = 2;
/// Machine code of x86-64.
pub const EM_X86_64: u16 = 62;
/// Program-header type of loadable segments.
pub const PT_LOAD: u32 = 1;
/// Segment permission bits.
pub const PF_X: u32 = 1;
pub const PF_W: u32 = 2;
pub const PF_R: u32 = 4;
pub const PAGE_SIZE: u64 = 4096;
/// Top of the user stack (it grows down).
pub const USER_STACK_TOP: u64 = 0x7FFF_FFFF_F000;
/// Pages of user stack mapped at load time.
pub const USER_STACK_PAGES: u64 = 16;
/// First address above user space.
pub const USER_ADDR_LIMIT: u64 = 0x0000_8000_0000_0000;
/// Size of an ELF64 file header.
pub const EHDR_SIZE: usize = 64;
/// Size of an ELF64 program header.
pub const PHDR_SIZE: usize = 56;

/// The ELF64 file header.
#[derive(Debug, Clone, Copy)]
pub struct Elf64Ehdr {
    pub e_ident: [u8; 16],
    pub e_type: u16,
    pub e_machine: u16,
    pub e_version: u32,
    pub e_entry: u64,
    pub e_phoff: u64,
    pub e_shoff: u64,
    pub e_flags: u32,
    pub e_ehsize: u16,
    pub e_phentsize: u16,
    pub e_phnum: u16,
    pub e_shentsize: u16,
    pub e_shnum: u16,
    pub e_shstrndx: u16,
}

/// An ELF64 program header.
#[derive(Debug, Clone, Copy)]
pub struct Elf64Phdr {
    pub p_type: u32,
    pub p_flags: u32,
    pub p_offset: u64,
    pub p_vaddr: u64,
    pub p_paddr: u64,
    pub p_filesz: u64,
    pub p_memsz: u64,
    pub p_align: u64,
}

/// Errors of loading an executable.
#[derive(Debug, Clone, Copy, PartialEq, Eq, Structural)]
pub enum ElfError {
    TooSmall,
    BadMagic,
    Not64Bit,
    NotLittleEndian,
    NotExecutable,
    WrongArch,
    InvalidPhdr,
    InvalidSegment,
    AddressOutOfRange,
    NoLoadSegments,
    OutOfMemory,
    VfsError,
    ProcessError,
}

/// Little-endian 16-bit value at `i`.
pub open spec fn le16(s: Seq<u8>, i: int) -> u16 {
    (s[i] + s[i + 1] * 0x100) as u16
}

/// Little-endian 32-bit value at `i`.
pub open spec fn le32(s: Seq<u8>, i: int) -> u32 {
    (le16(s, i) + le16(s, i + 2) * 0x1_0000) as u32
}

/// Little-endian 64-bit value at `i`.
pub open spec fn le64(s: Seq<u8>, i: int) -> u64 {
    (le32(s, i) + le32(s, i + 4) * 0x1_0000_0000) as u64
}

fn read_le16(b: &[u8], i: usize) -> (v: u16)
    requires
        i + 2 <= b@.len(),
    ensures
        v == le16(b@, i as int),
{
    b[i] as u16 + (b[i + 1] as u16) * 0x100
}

pub(crate) fn read_le32(b: &[u8], i: usize) -> (v: u32)
    requires
        i + 4 <= b.len(),
    ensures
        v == le32(b@, i as int),
{
    read_le16(b, i) as u32 + (read_le16(b, i + 2) as u32) * 0x1_0000
}

pub(crate) fn read_le64(b: &[u8], i: usize) -> (v: u64)
    requires
        i + 8 <= b.len(),
    ensures
        v == le64(b@, i as int),
{
    read_le32(b, i) as u64 + (read_le32(b, i + 4) as u64) * 0x1_0000_0000
}

/// `h` is the header stored in the first 64 bytes of `s`.
pub open spec fn header_of(h: Elf64Ehdr, s: Seq<u8>) -> bool {
    &&& h.e_ident@ == s.subrange(0, 16)
    &&& h.e_type == le16(s, 16)
    &&& h.e_machine == le16(s, 18)
    &&& h.e_version == le32(s, 20)
    &&& h.e_entry == le64(s, 24)
    &&& h.e_phoff == le64(s, 32)
    &&& h.e_shoff == le64(s, 40)
    &&& h.e_flags == le32(s, 48)
    &&& h.e_ehsize == le16(s, 52)
    &&& h.e_phentsize == le16(s, 54)
    &&& h.e_phnum == le16(s, 56)
    &&& h.e_shentsize == le16(s, 58)
    &&& h.e_shnum == le16(s, 60)
    &&& h.e_shstrndx == le16(s, 62)
}

/// Why `s` is not an x86-64 ELF64 little-endian executable, checked in
/// this order, or `None`.
pub open spec fn header_error(s: Seq<u8>) -> Option<ElfError> {
    if s.len() < EHDR_SIZE {
        Some(ElfError::TooSmall)
    } else if s[0] != 0x7F || s[1] != 0x45 || s[2] != 0x4C || s[3] != 0x46 {
        Some(ElfError::BadMagic)
    } else if s[4] != ELFCLASS64 {
        Some(ElfError::Not64Bit)
    } else if s[5] != ELFDATA2LSB {
        Some(ElfError::NotLittleEndian)
    } else if le16(s, 16) != ET_EXEC {
        Some(ElfError::NotExecutable)
    } else if le16(s, 18) != EM_X86_64 {
        Some(ElfError::WrongArch)
    } else {
        None
    }
}

/// Decodes and checks the file header of `data`.
pub fn parse_header(data: &[u8]) -> (r: Result<Elf64Ehdr, ElfError>)
    ensures
        header_error(data@) is Some ==> r == Err::<Elf64Ehdr, ElfError>(header_error(data@)->0),
        header_error(data@) is None ==> (r matches Ok(h) && header_of(h, data@)),
{
    if data.len() < EHDR_SIZE {
        return Err(ElfError::TooSmall);
    }
    if data[0] != 0x7F || data[1] != 0x45 || data[2] != 0x4C || data[3] != 0x46 {
        return Err(ElfError::BadMagic);
    }
    if data[4] != ELFCLASS64 {
        return Err(ElfError::Not64Bit);
    }
    if data[5] != ELFDATA2LSB {
        return Err(ElfError::NotLittleEndian);
    }
    let e_type = read_le16(data, 16);
    if e_type != ET_EXEC {
        return Err(ElfError::NotExecutable);
    }
    let e_machine = read_le16(data, 18);
    if e_machine != EM_X86_64 {
        return Err(ElfError::WrongArch);
    }
    let mut ident = [0u8; 16];
    let mut i: usize = 0;
    while i < 16
        invariant
            i <= 16,
            data@.len() >= EHDR_SIZE,
            forall|j: int| 0 <= j < i ==> ident@[j] == data@[j],
        decreases 16 - i,
    {
        ident[i] = data[i];
        i += 1;
    }
    assert(ident@ =~= data@.subrange(0, 16));
    Ok(Elf64Ehdr {
        e_ident: ident,
        e_type,
        e_machine,
        e_version: read_le32(data, 20),
        e_entry: read_le64(data, 24),
        e_phoff: read_le64(data, 32),
        e_shoff: read_le64(data, 40),
        e_flags: read_le32(data, 48),
        e_ehsize: read_le16(data, 52),
        e_phentsize: read_le16(data, 54),
        e_phnum: read_le16(data, 56),
        e_shentsize: read_le16(data, 58),
        e_shnum: read_le16(data, 60),
        e_shstrndx: read_le16(data, 62),
    })
}

/// `p` is the program header stored at offset `o` of `s`.
pub open spec fn phdr_of(p: Elf64Phdr, s: Seq<u8>, o: int) -> bool {
    &&& p.p_type == le32(s, o)
    &&& p.p_flags == le32(s, o + 4)
    &&& p.p_offset == le64(s, o + 8)
    &&& p.p_vaddr == le64(s, o + 16)
    &&& p.p_paddr == le64(s, o + 24)
    &&& p.p_filesz == le64(s, o + 32)
    &&& p.p_memsz == le64(s, o + 40)
    &&& p.p_align == le64(s, o + 48)
}

/// Decodes the program headers the file header points to. Fails with
/// `InvalidPhdr` when entries are smaller than a program header or the
/// table runs past the end of `data`.
pub fn parse_program_headers(data: &[u8], hdr: &Elf64Ehdr) -> (r: Result<Vec<Elf64Phdr>, ElfError>)
    ensures
        ({
            let end = hdr.e_phoff + hdr.e_phnum * hdr.e_phentsize;
            &&& (hdr.e_phentsize < PHDR_SIZE || end > data@.len()) ==> r == Err::<Vec<Elf64Phdr>, ElfError>(ElfError::InvalidPhdr)
            &&& !(hdr.e_phentsize < PHDR_SIZE || end > data@.len()) ==> (r matches Ok(v) && v@.len() == hdr.e_phnum
                && forall|i: int| 0 <= i < v@.len() ==> phdr_of(#[trigger] v@[i], data@, hdr.e_phoff + i * hdr.e_phentsize))
        }),
{
    let n = data.len();
    if hdr.e_phentsize < 56 {
        return Err(ElfError::InvalidPhdr);
    }
    let phentsize = hdr.e_phentsize as u64;
    let phnum = hdr.e_phnum as u64;
    assert(phnum * phentsize <= 0xFFFF * 0xFFFF) by (nonlinear_arith)
        requires
            phnum <= 0xFFFF,
            phentsize <= 0xFFFF,
    ;
    let table_len: u64 = phnum * phentsize;
    if hdr.e_phoff > u64::MAX - table_len || hdr.e_phoff + table_len > n as u64 {
        return Err(ElfError::InvalidPhdr);
    }
    let mut phdrs: Vec<Elf64Phdr> = Vec::new();
    let mut i: u64 = 0;
    while i < phnum
        invariant
            i <= phnum,
            n == data@.len(),
            phnum == hdr.e_phnum,
            phentsize == hdr.e_phentsize,
            phentsize >= PHDR_SIZE,
            table_len == phnum * phentsize,
            hdr.e_phoff + table_len <= n,
            phdrs@.len() == i,
            forall|j: int| 0 <= j < i ==> phdr_of(#[trigger] phdrs@[j], data@, hdr.e_phoff + j * hdr.e_phentsize),
        decreases phnum - i,
    {
        assert(i * phentsize + phentsize <= phnum * phentsize) by (nonlinear_arith)
            requires
                i < phnum,
        ;
        let o64 = hdr.e_phoff + i * phentsize;
        let o = o64 as usize;
        assert(o + 56 <= n);
        phdrs.push(Elf64Phdr {
            p_type: read_le32(data, o),
            p_flags: read_le32(data, o + 4),
            p_offset: read_le64(data, o + 8),
            p_vaddr: read_le64(data, o + 16),
            p_paddr: read_le64(data, o + 24),
            p_filesz: read_le64(data, o + 32),
            p_memsz: read_le64(data, o + 40),
            p_align: read_le64(data, o + 48),
        });
        i += 1;
    }
    Ok(phdrs)
}

/// Page-table flags for a segment with permission bits `p_flags`: present
/// and user-accessible; no-execute without PF_X; writable with PF_W only
/// when not executable (W^X: a segment asking for both is mapped read and
/// execute).
pub open spec fn page_flags_for(p_flags: u32) -> u64 {
    (0x05 + (if p_flags & PF_W != 0 && p_flags & PF_X == 0 { 0x02int } else { 0 }) + (if p_flags & PF_X == 0 {
        0x8000_0000_0000_0000int
    } else {
        0
    })) as u64
}

/// Segment pages follow their permissions under W^X: they are present and
/// user-accessible; not executable unless the segment has PF_X; writable
/// exactly when it has PF_W and not PF_X; so no page is both writable and
/// executable.
pub proof fn lemma_segment_permissions(p_flags: u32)
    ensures
        page_flags_for(p_flags) & 0x5 == 0x5,
        (page_flags_for(p_flags) & 0x2 != 0) == (p_flags & PF_W != 0 && p_flags & PF_X == 0),
        (page_flags_for(p_flags) >= 0x8000_0000_0000_0000) == (p_flags & PF_X == 0),
        !(page_flags_for(p_flags) & 0x2 != 0 && page_flags_for(p_flags) < 0x8000_0000_0000_0000),
{
    let f = page_flags_for(p_flags);
    let w = p_flags & PF_W != 0;
    let x = p_flags & PF_X != 0;
    if x {
        assert(f == 5);
    } else if w {
        assert(f == 0x8000_0000_0000_0007);
    } else {
        assert(f == 0x8000_0000_0000_0005);
    }
    assert(5u64 & 0x5 == 0x5 && 5u64 & 0x2 == 0) by (bit_vector);
    assert(0x8000_0000_0000_0007u64 & 0x5 == 0x5 && 0x8000_0000_0000_0007u64 & 0x2 != 0) by (bit_vector);
    assert(0x8000_0000_0000_0005u64 & 0x5 == 0x5 && 0x8000_0000_0000_0005u64 & 0x2 == 0) by (bit_vector);
}

/// The page-table flags for a segment (`page_flags_for`): never both
/// writable and executable.
pub fn elf_flags_to_page_flags(p_flags: u32) -> (f: u64)
    ensures
        f == page_flags_for(p_flags),
        !(f & 0x2 != 0 && f < 0x8000_0000_0000_0000),
{
    let mut flags: u64 = 0x05;
    if p_flags & PF_W != 0 && p_flags & PF_X == 0 {
        flags = flags + 0x02;
    }
    if p_flags & PF_X == 0 {
        flags = flags + 0x8000_0000_0000_0000;
    }
    proof {
        lemma_segment_permissions(p_flags);
    }
    flags
}

} // verus!

verus! {

/// Physical frames set aside for user pages, handed out in order.
#[derive(Debug, Clone, Copy)]
pub struct ElfFramePool {
    pub base_frame: u64,
    pub frames_used: usize,
    pub max_frames: usize,
    pub initialized: bool,
}

/// The pool hands out frames below `u64::MAX`.
pub open spec fn pool_wf(p: ElfFramePool) -> bool {
    &&& p.frames_used <= p.max_frames
    &&& p.initialized ==> p.base_frame + p.max_frames * PAGE_SIZE <= u64::MAX
}

/// Where user pages come from, and where physical memory is mapped.
pub struct ElfLoader {
    pub pool: ElfFramePool,
    pub phys_offset: u64,
}

impl ElfLoader {
    /// No frames, no mapping offset yet.
    pub fn new() -> (l: Self)
        ensures
            l.pool == (ElfFramePool { base_frame: 0, frames_used: 0, max_frames: 0, initialized: false }),
            l.phys_offset == 0,
            pool_wf(l.pool),
    {
        ElfLoader { pool: ElfFramePool { base_frame: 0, frames_used: 0, max_frames: 0, initialized: false }, phys_offset: 0 }
    }
}

/// Records where physical memory is mapped in the kernel's address space.
pub fn set_phys_mem_offset(loader: &mut ElfLoader, offset: u64)
    ensures
        final(loader).phys_offset == offset,
        final(loader).pool == old(loader).pool,
{
    loader.phys_offset = offset;
}

/// Sets the pool to `num_frames` frames from `base_phys`, none used.
pub fn init_frame_pool(loader: &mut ElfLoader, base_phys: u64, num_frames: usize)
    requires
        base_phys + num_frames * PAGE_SIZE <= u64::MAX,
    ensures
        final(loader).pool == (ElfFramePool { base_frame: base_phys, frames_used: 0, max_frames: num_frames, initialized: true }),
        pool_wf(final(loader).pool),
        final(loader).phys_offset == old(loader).phys_offset,
{
    loader.pool = ElfFramePool { base_frame: base_phys, frames_used: 0, max_frames: num_frames, initialized: true };
}

/// The next frame of the pool; `None` before `init_frame_pool` or when
/// every frame is used.
pub fn alloc_elf_frame(loader: &mut ElfLoader) -> (r: Option<u64>)
    requires
        pool_wf(old(loader).pool),
    ensures
        pool_wf(final(loader).pool),
        final(loader).phys_offset == old(loader).phys_offset,
        ({
            let p = old(loader).pool;
            &&& (!p.initialized || p.frames_used >= p.max_frames) ==> r is None && final(loader).pool == p
            &&& (p.initialized && p.frames_used < p.max_frames) ==> r == Some((p.base_frame + p.frames_used * PAGE_SIZE) as u64)
                && final(loader).pool == (ElfFramePool { frames_used: (p.frames_used + 1) as usize, ..p })
        }),
{
    if !loader.pool.initialized || loader.pool.frames_used >= loader.pool.max_frames {
        return None;
    }
    let used = loader.pool.frames_used;
    assert(used * PAGE_SIZE <= loader.pool.max_frames * PAGE_SIZE) by (nonlinear_arith)
        requires
            used <= loader.pool.max_frames,
    ;
    let phys = loader.pool.base_frame + (used as u64) * PAGE_SIZE;
    loader.pool.frames_used = used + 1;
    Some(phys)
}

/// Frames used and frames in the pool.
pub fn pool_stats(loader: &ElfLoader) -> (r: (usize, usize))
    ensures
        r == (loader.pool.frames_used, loader.pool.max_frames),
{
    (loader.pool.frames_used, loader.pool.max_frames)
}

/// Why a loadable segment cannot be loaded from a file of `file_len`
/// bytes: its file bytes run past the end, or its memory leaves user space.
pub open spec fn segment_error(p: Elf64Phdr, file_len: int) -> Option<ElfError> {
    if p.p_offset + p.p_filesz > file_len {
        Some(ElfError::InvalidSegment)
    } else if p.p_vaddr >= USER_ADDR_LIMIT || p.p_vaddr + p.p_memsz > USER_ADDR_LIMIT {
        Some(ElfError::AddressOutOfRange)
    } else {
        None
    }
}

/// Checks a loadable segment against `segment_error`.
pub fn check_segment(p: &Elf64Phdr, file_len: usize) -> (r: Result<(), ElfError>)
    ensures
        segment_error(*p, file_len as int) is None <==> r is Ok,
        r matches Err(e) ==> segment_error(*p, file_len as int) == Some(e),
{
    if p.p_offset > u64::MAX - p.p_filesz || p.p_offset + p.p_filesz > file_len as u64 {
        return Err(ElfError::InvalidSegment);
    }
    if p.p_vaddr >= USER_ADDR_LIMIT || p.p_memsz > USER_ADDR_LIMIT - p.p_vaddr {
        return Err(ElfError::AddressOutOfRange);
    }
    Ok(())
}

/// The pages a checked segment covers: the first page's address and how
/// many pages up to the page boundary after its end.
pub fn segment_pages(p: &Elf64Phdr) -> (r: (u64, u64))
    requires
        p.p_vaddr + p.p_memsz <= USER_ADDR_LIMIT,
    ensures
        r.0 == p.p_vaddr - p.p_vaddr % 4096,
        r.0 + r.1 * 4096 == (p.p_vaddr + p.p_memsz + 4095) - (p.p_vaddr + p.p_memsz + 4095) % 4096,
{
    let start = p.p_vaddr - p.p_vaddr % PAGE_SIZE;
    let top = p.p_vaddr + p.p_memsz + (PAGE_SIZE - 1);
    let end = top - top % PAGE_SIZE;
    assert(end >= start);
    assert((end - start) % 4096 == 0) by (nonlinear_arith)
        requires
            end == top - top % 4096,
            start == p.p_vaddr - p.p_vaddr % 4096,
    ;
    let pages = (end - start) / PAGE_SIZE;
    assert(start + pages * 4096 == end) by (nonlinear_arith)
        requires
            (end - start) % 4096 == 0,
            pages == (end - start) / 4096,
            end >= start,
    ;
    (start, pages)
}

} // verus!

verus! {

/// What of the file goes into the page at `page_vaddr` of a segment at
/// `vaddr` with `filesz` file bytes from `offset`: the file offset, the
/// offset in the page and the length, or `None` when nothing is copied.
pub open spec fn copy_window(vaddr: u64, filesz: u64, offset: u64, page_vaddr: u64, file_len: int) -> Option<(int, int, int)> {
    let pos: int = if page_vaddr > vaddr { page_vaddr - vaddr } else { 0 };
    if pos < filesz {
        let file_offset = offset + pos;
        let start: int = if page_vaddr < vaddr { vaddr - page_vaddr } else { 0 };
        let remaining = filesz - pos;
        let len = if remaining < 4096 - start { remaining } else { 4096 - start };
        if len > 0 && file_offset + len <= file_len {
            Some((file_offset, start, len))
        } else {
            None
        }
    } else {
        None
    }
}

/// Where the bytes of a segment go: the page at `page_vaddr` receives
/// exactly the segment's file bytes that fall inside it, the byte at
/// address `va` coming from file offset `offset + (va - vaddr)`. Something
/// is copied exactly when the page overlaps `[vaddr, vaddr + filesz)`; the
/// copy then starts at the later of the page and the segment and ends at
/// the earlier of their ends.
pub proof fn lemma_copy_window_places_bytes(vaddr: u64, filesz: u64, offset: u64, page_vaddr: u64, file_len: int)
    requires
        offset + filesz <= file_len,
        page_vaddr < vaddr ==> vaddr - page_vaddr < 4096,
    ensures
        ({
            let lo: int = if vaddr > page_vaddr { vaddr as int } else { page_vaddr as int };
            let hi: int = if vaddr + filesz < page_vaddr + 4096 { vaddr + filesz } else { page_vaddr + 4096 };
            &&& copy_window(vaddr, filesz, offset, page_vaddr, file_len) is Some <==> lo < hi
            &&& copy_window(vaddr, filesz, offset, page_vaddr, file_len) matches Some(w) ==> {
                &&& page_vaddr + w.1 == lo
                &&& page_vaddr + w.1 + w.2 == hi
                &&& w.0 + w.2 <= file_len
                &&& forall|k: int| 0 <= k < w.2 ==> #[trigger] (w.0 + k) == offset + (page_vaddr + w.1 + k - vaddr)
            }
        }),
{
}

/// The copy into one page of a segment (`copy_window`).
pub fn page_copy(vaddr: u64, filesz: u64, offset: u64, page_vaddr: u64, file_len: usize) -> (r: Option<(usize, usize, usize)>)
    requires
        offset + filesz <= file_len,
        page_vaddr < vaddr ==> vaddr - page_vaddr < 4096,
    ensures
        r is Some <==> copy_window(vaddr, filesz, offset, page_vaddr, file_len as int) is Some,
        r matches Some(w) ==> copy_window(vaddr, filesz, offset, page_vaddr, file_len as int) == Some((w.0 as int, w.1 as int, w.2 as int)),
        r is Some <==> (filesz > 0 && page_vaddr < vaddr + filesz && vaddr < page_vaddr + 4096),
        r matches Some(w) ==> {
            &&& page_vaddr + w.1 == (if vaddr > page_vaddr { vaddr as int } else { page_vaddr as int })
            &&& page_vaddr + w.1 + w.2 == (if vaddr + filesz < page_vaddr + 4096 { vaddr + filesz } else { page_vaddr + 4096 })
            &&& w.0 == offset + (page_vaddr + w.1 - vaddr)
            &&& w.0 + w.2 <= file_len
        },
{
    proof {
        lemma_copy_window_places_bytes(vaddr, filesz, offset, page_vaddr, file_len as int);
    }
    let pos: u64 = if page_vaddr > vaddr { page_vaddr - vaddr } else { 0 };
    if pos >= filesz {
        return None;
    }
    let file_offset = offset + pos;
    let start: u64 = if page_vaddr < vaddr { vaddr - page_vaddr } else { 0 };
    let remaining = filesz - pos;
    let len: u64 = if remaining < 4096 - start { remaining } else { 4096 - start };
    if len > 0 && file_offset + len <= file_len as u64 {
        Some((file_offset as usize, start as usize, len as usize))
    } else {
        None
    }
}

/// Where a loaded executable starts.
#[derive(Debug, Clone, Copy)]
pub struct ElfLoadResult {
    pub entry_point: u64,
    pub stack_pointer: u64,
    pub pml4_phys: u64,
    pub segments_loaded: usize,
    pub frames_used: usize,
}

} // verus!

use crate::fs::vfs::{Vfs, file_read, read_outcome};
use crate::ipc::bus::CognitiveBus;
use crate::process::{ProcessTable, spawn_userspace, spawned, table_wf, MAX_PROCESSES};
use crate::process::task::{AgentRole, ProcessState};
use crate::scheduler::{Scheduler, enqueue_process, level, role_level, same_counters};
use crate::elf::image::{ElfImage, binary_result, lemma_binary_result_decided, load_elf_binary};
use crate::elf::tables::pool_fits;

verus! {

/// Loads the executable at `path` and creates a user-mode (ring 3) process
/// for it: reads the file, loads it into a new address space from the
/// loader's pool (`load_elf_binary`), creates a process named after the
/// path with that address space's top-level table, the entry point and the
/// user stack top, and queues it for scheduling. Returns the process and
/// the image, whose memory writes the caller carries out. Fails with
/// `VfsError` when the file cannot be read, with the loading error, or with
/// `ProcessError` when the process table is full.
pub fn load_elf(
    vfs: &mut Vfs,
    bus: &mut CognitiveBus,
    now: u64,
    loader: &mut ElfLoader,
    table: &mut ProcessTable,
    sched: &mut Scheduler,
    path: &str,
) -> (r: Result<(u64, ElfImage), ElfError>)
    requires
        table_wf(old(table)),
        old(table).pids.next < u64::MAX,
        pool_wf(old(loader).pool),
        old(loader).pool.initialized ==> pool_fits(old(loader).pool),
    ensures
        table_wf(final(table)),
        final(vfs)@ == old(vfs)@,
        final(loader).phys_offset == old(loader).phys_offset,
        same_counters(old(sched), final(sched)),
        read_outcome(old(vfs)@, path) is None ==> r == Err::<(u64, ElfImage), ElfError>(ElfError::VfsError)
            && final(loader).pool == old(loader).pool,
        read_outcome(old(vfs)@, path) is None || r is Err ==> final(table).procs@ == old(table).procs@
            && final(sched).queues() == old(sched).queues(),
        read_outcome(old(vfs)@, path) matches Some(d) ==> ({
            let p0 = old(loader).pool;
            let p1 = final(loader).pool;
            let full = old(table).procs@.len() >= MAX_PROCESSES;
            &&& r matches Err(e) ==> binary_result(p0, p1, d, Err(e)) || (e == ElfError::ProcessError && full
                && exists|img: ElfImage| #[trigger] binary_result(p0, p1, d, Ok(img)))
            &&& (exists|img: ElfImage| #[trigger] binary_result(p0, p1, d, Ok(img))) && !full ==> r is Ok
            &&& r matches Ok((pid, img)) ==> ({
                let p = final(table).procs@[pid];
                &&& binary_result(p0, p1, d, Ok(img))
                &&& spawned(old(table), final(table), pid, 0, false)
                &&& p.name@ == path@ && p.role == AgentRole::Worker && p.state == ProcessState::Ready
                &&& p.pml4_phys == img.load.pml4_phys && p.entry_point == img.load.entry_point
                &&& p.stack_pointer == img.load.stack_pointer
                &&& final(sched).queues() == old(sched).queues().update(
                    level(role_level(AgentRole::Worker)),
                    old(sched).queues()[level(role_level(AgentRole::Worker))].push(pid),
                )
            })
        }),
{
    let data = match file_read(vfs, bus, now, path) {
        Ok(d) => d,
        Err(_) => return Err(ElfError::VfsError),
    };
    let image = match load_elf_binary(loader, data.as_slice()) {
        Ok(img) => img,
        Err(e) => {
            proof {
                assert forall|img: ElfImage| !#[trigger] binary_result(old(loader).pool, loader.pool, data@, Ok(img)) by {
                    if binary_result(old(loader).pool, loader.pool, data@, Ok(img)) {
                        lemma_binary_result_decided(old(loader).pool, loader.pool, loader.pool, data@, Err(e), Ok(img));
                    }
                }
            }
            return Err(e);
        },
    };
    let pid = match spawn_userspace(
        table,
        path,
        0,
        image.load.entry_point,
        image.load.stack_pointer,
        image.load.pml4_phys,
    ) {
        Ok(pid) => pid,
        Err(_) => {
            proof {
                assert(binary_result(old(loader).pool, loader.pool, data@, Ok(image)));
            }
            return Err(ElfError::ProcessError);
        },
    };
    enqueue_process(sched, table, pid);
    Ok((pid, image))
}

} // verus!
