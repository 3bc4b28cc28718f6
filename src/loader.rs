//! Placing a kernel image in memory: its program headers, the address range of
//! its loadable segments, the page request that covers them, and the copy of
//! each segment to its destination.

use elf_rs::ProgramHeaderRaw;
use uefi::data_types::Align;
use uefi::table::boot::MemoryDescriptor;
use vstd::prelude::*;

verus! {

/// The size of a page, in bytes.
pub const PAGE_SIZE: u64 = 4096;

/// One program header of a 64-bit ELF image.
#[derive(Debug, Clone, Copy, PartialEq, Eq)]
pub struct ProgramHeader {
    /// The entry is of type `LOAD`.
    pub is_load: bool,
    /// Where the segment's bytes start in the image file.
    pub offset: u64,
    /// The address the segment is linked at.
    pub vaddr: u64,
    /// The physical address recorded for the segment.
    pub paddr: u64,
    /// How many bytes the image file holds for the segment.
    pub filesz: u64,
    /// How many bytes the segment takes in memory.
    pub memsz: u64,
}

/// Why a kernel image cannot be loaded.
#[derive(Debug, Clone, Copy, PartialEq, Eq)]
pub enum LoadError {
    /// The bytes are not an ELF image.
    Malformed,
    /// The image is a 32-bit one.
    NotElf64,
    /// The image has no `LOAD` entry.
    NoLoadSegment,
    /// A `LOAD` entry ends past the last address.
    AddressOverflow,
    /// A `LOAD` entry reads past the image, has more file bytes than memory
    /// bytes, or does not fit the memory it is to be copied to.
    SegmentOutOfBounds,
}

#[verifier::external_type_specification]
#[verifier::external_body]
pub struct ExElfError(elf_rs::Error);

/// What elf_rs reads from an image: `None` where it refuses the bytes,
/// `Some(None)` for a 32-bit image, and the program headers of a 64-bit one.
pub uninterp spec fn elf_headers_of(image: Seq<u8>) -> Option<Option<Seq<ProgramHeader>>>;

/// The four bytes every ELF image starts with.
pub open spec fn elf_magic() -> Seq<u8> {
    seq![0x7fu8, 0x45u8, 0x4cu8, 0x46u8]
}

/// The bytes claim a 64-bit image (class byte 2) whose program-header offset
/// (bytes 32..40, little-endian) is not a multiple of 8. elf_rs views the
/// program headers in place as 8-aligned structures, so it cannot be given
/// such an image; the low byte of the offset decides its remainder by 8.
pub open spec fn misaligned_program_headers(image: Seq<u8>) -> bool {
    image.len() > 32 && image[4] == 2 && image[32] % 8 != 0
}

/// Relies on elf_rs's `Elf::from_bytes`, then on the program-header iterator
/// of a 64-bit image: the result depends on the bytes alone, and bytes that do
/// not start with the ELF magic are refused. elf_rs views the header and the
/// program headers in place as 8-aligned structures, so the bytes are handed
/// to it from an 8-aligned copy (uefi's `Align::align_buf`, at the alignment
/// of `MemoryDescriptor`, which holds `u64` fields), and the program-header
/// offset must be a multiple of 8.
#[verifier::external_body]
fn read_program_headers(image: &[u8]) -> (r: Result<Option<Vec<ProgramHeader>>, elf_rs::Error>)
    requires
        !misaligned_program_headers(image@),
    ensures
        match r {
            Ok(Some(v)) => elf_headers_of(image@) == Some(Some(v@)),
            Ok(None) => elf_headers_of(image@) == Some(None::<Seq<ProgramHeader>>),
            Err(_) => elf_headers_of(image@) is None,
        },
        image@.len() < 4 || image@.subrange(0, 4) != elf_magic() ==> r is Err,
{
    // Eight spare bytes leave room for any shift, so `align_buf` is never `None`.
    let mut copy = [image, &[0u8; 8]].concat();
    let aligned = &mut MemoryDescriptor::align_buf(&mut copy).unwrap()[..image.len()];
    aligned.copy_from_slice(image);
    match elf_rs::Elf::from_bytes(&*aligned) {
        Ok(elf_rs::Elf::Elf64(e)) => Ok(Some(e.program_header_iter().map(|p| ProgramHeader {
            is_load: matches!(p.ph_type(), elf_rs::ProgramType::LOAD),
            offset: p.offset(), vaddr: p.vaddr(), paddr: p.paddr(),
            filesz: p.filesz(), memsz: p.memsz(),
        }).collect())),
        Ok(elf_rs::Elf::Elf32(_)) => Ok(None),
        Err(e) => Err(e),
    }
}

/// The outcome of reading the program headers of `image`.
pub open spec fn program_headers_spec(image: Seq<u8>) -> Result<Seq<ProgramHeader>, LoadError> {
    if misaligned_program_headers(image) {
        Err(LoadError::Malformed)
    } else {
        match elf_headers_of(image) {
            None => Err(LoadError::Malformed),
            Some(None) => Err(LoadError::NotElf64),
            Some(Some(s)) => Ok(s),
        }
    }
}

/// Reads the program headers of a 64-bit kernel image; a 32-bit image, a
/// 64-bit one whose program-header offset is not a multiple of 8, or bytes
/// that are no ELF image are refused.
pub fn program_headers(image: &[u8]) -> (r: Result<Vec<ProgramHeader>, LoadError>)
    ensures
        match r {
            Ok(v) => program_headers_spec(image@) == Ok::<Seq<ProgramHeader>, LoadError>(v@),
            Err(e) => program_headers_spec(image@) == Err::<Seq<ProgramHeader>, LoadError>(e),
        },
        image@.len() < 4 || image@.subrange(0, 4) != elf_magic() ==> r == Err::<
            Vec<ProgramHeader>,
            LoadError,
        >(LoadError::Malformed),
        misaligned_program_headers(image@) ==> r == Err::<Vec<ProgramHeader>, LoadError>(
            LoadError::Malformed,
        ),
{
    if image.len() > 32 && image[4] == 2 && image[32] % 8 != 0 {
        return Err(LoadError::Malformed);
    }
    match read_program_headers(image) {
        Ok(Some(v)) => Ok(v),
        Ok(None) => Err(LoadError::NotElf64),
        Err(_) => Err(LoadError::Malformed),
    }
}

/// Entry `i` of `s` is a `LOAD` entry.
pub open spec fn is_load_at(s: Seq<ProgramHeader>, i: int) -> bool {
    0 <= i < s.len() && s[i].is_load
}

/// The end address of a segment in memory.
pub open spec fn segment_end(p: ProgramHeader) -> int {
    p.vaddr + p.memsz
}

/// `s` has a `LOAD` entry.
pub open spec fn has_load(s: Seq<ProgramHeader>) -> bool {
    exists|i: int| is_load_at(s, i)
}

/// Every `LOAD` entry of `s` ends at an address that fits in 64 bits.
pub open spec fn load_ends_fit(s: Seq<ProgramHeader>) -> bool {
    forall|i: int| is_load_at(s, i) ==> segment_end(#[trigger] s[i]) <= u64::MAX
}

/// `start` is the least `vaddr` of the `LOAD` entries of `s`, and `end` the
/// greatest `vaddr + memsz`.
pub open spec fn is_load_range(s: Seq<ProgramHeader>, start: int, end: int) -> bool {
    &&& exists|i: int| is_load_at(s, i) && s[i].vaddr == start
    &&& forall|i: int| is_load_at(s, i) ==> start <= #[trigger] s[i].vaddr
    &&& exists|i: int| is_load_at(s, i) && segment_end(s[i]) == end
    &&& forall|i: int| is_load_at(s, i) ==> segment_end(#[trigger] s[i]) <= end
}

/// The address range the `LOAD` entries of `phdrs` occupy in memory.
pub fn calc_load_address_range(phdrs: &Vec<ProgramHeader>) -> (r: Result<(u64, u64), LoadError>)
    ensures
        match r {
            Ok((start, end)) => load_ends_fit(phdrs@) && is_load_range(phdrs@, start as int, end as int),
            Err(LoadError::NoLoadSegment) => !has_load(phdrs@),
            Err(LoadError::AddressOverflow) => !load_ends_fit(phdrs@),
            Err(_) => false,
        },
{
    let ghost s = phdrs@;
    let mut start: u64 = u64::MAX;
    let mut end: u64 = 0;
    let mut found = false;
    let mut i: usize = 0;
    while i < phdrs.len()
        invariant
            s == phdrs@,
            i <= s.len(),
            found == exists|j: int| 0 <= j < i && is_load_at(s, j),
            !found ==> start == u64::MAX && end == 0,
            forall|j: int| 0 <= j < i && is_load_at(s, j) ==> segment_end(#[trigger] s[j]) <= u64::MAX,
            found ==> exists|j: int| 0 <= j < i && is_load_at(s, j) && s[j].vaddr == start,
            found ==> exists|j: int| 0 <= j < i && is_load_at(s, j) && segment_end(s[j]) == end,
            forall|j: int| 0 <= j < i && is_load_at(s, j) ==> start <= #[trigger] s[j].vaddr,
            forall|j: int| 0 <= j < i && is_load_at(s, j) ==> segment_end(#[trigger] s[j]) <= end,
        decreases s.len() - i,
    {
        let p = phdrs[i];
        if p.is_load {
            if p.memsz > u64::MAX - p.vaddr {
                assert(is_load_at(s, i as int));
                return Err(LoadError::AddressOverflow);
            }
            if p.vaddr < start {
                start = p.vaddr;
            }
            if p.vaddr + p.memsz > end {
                end = p.vaddr + p.memsz;
            }
            found = true;
            assert(is_load_at(s, i as int));
        }
        i = i + 1;
    }
    if !found {
        return Err(LoadError::NoLoadSegment);
    }
    Ok((start, end))
}

/// A request for physical pages at a fixed address.
#[derive(Debug, Clone, Copy, PartialEq, Eq)]
pub struct PageRequest {
    /// The page-aligned address the pages must start at.
    pub address: u64,
    /// How many pages are requested.
    pub pages: u64,
}

/// The page request for the range `start..end`: `start` rounded down to a
/// page boundary, and `end - start` bytes rounded up to whole pages.
pub fn page_request(start: u64, end: u64) -> (r: PageRequest)
    requires
        start <= end,
    ensures
        r.address == start - start % PAGE_SIZE,
        r.pages == (end - start + PAGE_SIZE - 1) / (PAGE_SIZE as int),
{
    let size = end - start;
    let pages = size / PAGE_SIZE + if size % PAGE_SIZE != 0 { 1 } else { 0 };
    assert(pages == (size + 4095) / 4096) by (nonlinear_arith)
        requires
            pages == size / 4096 + if size % 4096 != 0 { 1int } else { 0int },
    ;
    PageRequest { address: start - start % PAGE_SIZE, pages }
}

/// Where the loadable segments of an image go, and the pages that hold them.
#[derive(Debug, Clone, Copy, PartialEq, Eq)]
pub struct LoadPlan {
    /// The least address of a `LOAD` entry; also where the kernel is entered.
    pub start: u64,
    /// The greatest end address of a `LOAD` entry.
    pub end: u64,
    /// The pages to allocate.
    pub request: PageRequest,
}

/// The load plan of the program headers `phdrs`.
pub fn plan_load(phdrs: &Vec<ProgramHeader>) -> (r: Result<LoadPlan, LoadError>)
    ensures
        match r {
            Ok(plan) => {
                &&& load_ends_fit(phdrs@)
                &&& is_load_range(phdrs@, plan.start as int, plan.end as int)
                &&& plan.request.address == plan.start - plan.start % PAGE_SIZE
                &&& plan.request.pages == (plan.end - plan.start + PAGE_SIZE - 1) / (
                PAGE_SIZE as int)
            },
            Err(LoadError::NoLoadSegment) => !has_load(phdrs@),
            Err(LoadError::AddressOverflow) => !load_ends_fit(phdrs@),
            Err(_) => false,
        },
{
    let (start, end) = calc_load_address_range(phdrs)?;
    proof {
        let i = choose|i: int| is_load_at(phdrs@, i) && phdrs@[i].vaddr == start;
        assert(start <= segment_end(phdrs@[i]) <= end);
    }
    Ok(LoadPlan { start, end, request: page_request(start, end) })
}


/// Reads the program headers of a kernel image and plans where its `LOAD`
/// entries go: the headers of a 64-bit image and the plan of those headers,
/// or the first error of either step.
pub fn plan_kernel_image(image: &[u8]) -> (r: Result<(Vec<ProgramHeader>, LoadPlan), LoadError>)
    ensures
        match program_headers_spec(image@) {
            Err(e) => r == Err::<(Vec<ProgramHeader>, LoadPlan), LoadError>(e),
            Ok(s) => match r {
                Ok((v, plan)) => {
                    &&& v@ == s
                    &&& load_ends_fit(s)
                    &&& is_load_range(s, plan.start as int, plan.end as int)
                    &&& plan.request.address == plan.start - plan.start % PAGE_SIZE
                    &&& plan.request.pages == (plan.end - plan.start + PAGE_SIZE - 1) / (
                    PAGE_SIZE as int)
                },
                Err(LoadError::NoLoadSegment) => !has_load(s),
                Err(LoadError::AddressOverflow) => !load_ends_fit(s),
                Err(_) => false,
            },
        },
{
    let phdrs = program_headers(image)?;
    let plan = plan_load(&phdrs)?;
    Ok((phdrs, plan))
}

/// The `LOAD` entry `p` can be copied from an image of `image_len` bytes into
/// memory of `mem_len` bytes that starts at address `base`.
pub open spec fn segment_fits(p: ProgramHeader, image_len: int, base: int, mem_len: int) -> bool {
    &&& p.filesz <= p.memsz
    &&& p.offset + p.filesz <= image_len
    &&& base <= p.vaddr
    &&& p.vaddr - base + p.memsz <= mem_len
}

/// Every `LOAD` entry of `s` fits.
pub open spec fn segments_fit(s: Seq<ProgramHeader>, image_len: int, base: int, mem_len: int) -> bool {
    forall|i: int| is_load_at(s, i) ==> segment_fits(#[trigger] s[i], image_len, base, mem_len)
}

/// Memory `m`, which starts at address `base`, after segment `p` of `image`
/// is placed in it: its file bytes at `vaddr`, then zeros up to `vaddr + memsz`.
pub open spec fn place_segment(m: Seq<u8>, image: Seq<u8>, p: ProgramHeader, base: int) -> Seq<u8> {
    let dest = p.vaddr - base;
    Seq::new(
        m.len(),
        |k: int|
            if dest <= k < dest + p.filesz {
                image[p.offset + (k - dest)]
            } else if dest + p.filesz <= k < dest + p.memsz {
                0u8
            } else {
                m[k]
            },
    )
}

/// Memory `m` after the `LOAD` entries of `s` are placed in it, in order.
pub open spec fn place_segments(m: Seq<u8>, image: Seq<u8>, s: Seq<ProgramHeader>, base: int) -> Seq<u8>
    decreases s.len(),
{
    if s.len() == 0 {
        m
    } else {
        let prev = place_segments(m, image, s.drop_last(), base);
        if s.last().is_load {
            place_segment(prev, image, s.last(), base)
        } else {
            prev
        }
    }
}

/// Copies the file bytes of segment `p` of `image` to its place in `memory`,
/// which starts at address `base`, and zero-fills the rest of the segment.
pub fn copy_segment(image: &[u8], p: ProgramHeader, base: u64, memory: &mut [u8])
    requires
        segment_fits(p, image@.len() as int, base as int, old(memory)@.len() as int),
    ensures
        final(memory)@ == place_segment(old(memory)@, image@, p, base as int),
{
    let ghost m0 = memory@;
    let mem_len = memory.len();
    let image_len = image.len();
    assert(p.vaddr - base + p.memsz <= usize::MAX);
    assert(p.offset + p.filesz <= usize::MAX);
    let dest = (p.vaddr - base) as usize;
    let off = p.offset as usize;
    let filesz = p.filesz as usize;
    let memsz = p.memsz as usize;
    let mut k: usize = 0;
    while k < filesz
        invariant
            k <= filesz,
            filesz == p.filesz,
            memsz == p.memsz,
            dest == p.vaddr - base,
            off == p.offset,
            segment_fits(p, image@.len() as int, base as int, m0.len() as int),
            dest + memsz <= mem_len,
            off + filesz <= image_len,
            mem_len == m0.len(),
            image_len == image@.len(),
            filesz <= memsz,
            memory@.len() == m0.len(),
            forall|x: int|
                0 <= x < m0.len() ==> #[trigger] memory@[x] == if dest <= x < dest + k {
                    image@[off + (x - dest)]
                } else {
                    m0[x]
                },
        decreases filesz - k,
    {
        memory[dest + k] = image[off + k];
        k = k + 1;
    }
    while k < memsz
        invariant
            filesz <= k <= memsz,
            filesz == p.filesz,
            memsz == p.memsz,
            dest == p.vaddr - base,
            off == p.offset,
            segment_fits(p, image@.len() as int, base as int, m0.len() as int),
            dest + memsz <= mem_len,
            off + filesz <= image_len,
            mem_len == m0.len(),
            image_len == image@.len(),
            filesz <= memsz,
            memory@.len() == m0.len(),
            forall|x: int|
                0 <= x < m0.len() ==> #[trigger] memory@[x] == if dest <= x < dest + filesz {
                    image@[off + (x - dest)]
                } else if dest + filesz <= x < dest + k {
                    0u8
                } else {
                    m0[x]
                },
        decreases memsz - k,
    {
        memory[dest + k] = 0;
        k = k + 1;
    }
    assert(memory@ =~= place_segment(m0, image@, p, base as int));
}

/// Copies every `LOAD` entry of `phdrs` from `image` into `memory`, which
/// starts at address `base`: its file bytes, then zeros up to its memory size.
/// Nothing is written unless every `LOAD` entry fits.
pub fn copy_load_segments(image: &[u8], phdrs: &Vec<ProgramHeader>, base: u64, memory: &mut [u8]) -> (r:
    Result<(), LoadError>)
    ensures
        r is Ok <==> segments_fit(phdrs@, image@.len() as int, base as int, old(memory)@.len() as int),
        r is Ok ==> final(memory)@ == place_segments(old(memory)@, image@, phdrs@, base as int),
        r is Err ==> r == Err::<(), LoadError>(LoadError::SegmentOutOfBounds) && final(memory)@
            == old(memory)@,
{
    let ghost s = phdrs@;
    let ghost m0 = memory@;
    let image_len = image.len() as u64;
    let mem_len = memory.len() as u64;
    let mut i: usize = 0;
    while i < phdrs.len()
        invariant
            s == phdrs@,
            i <= s.len(),
            image_len == image@.len(),
            mem_len == m0.len(),
            memory@ == m0,
            forall|j: int|
                0 <= j < i && is_load_at(s, j) ==> segment_fits(#[trigger] s[j], image_len as int, base as int, mem_len as int),
        decreases s.len() - i,
    {
        let p = phdrs[i];
        if p.is_load {
            if !(p.filesz <= p.memsz && p.offset <= image_len && p.filesz <= image_len - p.offset
                && base <= p.vaddr && p.memsz <= mem_len && p.vaddr - base <= mem_len - p.memsz) {
                assert(is_load_at(s, i as int));
                return Err(LoadError::SegmentOutOfBounds);
            }
        }
        i = i + 1;
    }
    assert(segments_fit(s, image_len as int, base as int, mem_len as int)) by {
        assert forall|j: int| is_load_at(s, j) implies segment_fits(#[trigger] s[j], image_len as int, base as int, mem_len as int) by {}
    }
    let mut i: usize = 0;
    while i < phdrs.len()
        invariant
            s == phdrs@,
            i <= s.len(),
            image_len == image@.len(),
            mem_len == m0.len(),
            memory@.len() == m0.len(),
            segments_fit(s, image_len as int, base as int, mem_len as int),
            memory@ == place_segments(m0, image@, s.take(i as int), base as int),
        decreases s.len() - i,
    {
        let p = phdrs[i];
        assert(s.take(i + 1).drop_last() =~= s.take(i as int));
        if p.is_load {
            assert(is_load_at(s, i as int));
            copy_segment(image, p, base, memory);
        }
        i = i + 1;
    }
    assert(s.take(s.len() as int) =~= s);
    Ok(())
}

/// Placing segments keeps the length of the memory.
pub proof fn place_segments_len(m: Seq<u8>, image: Seq<u8>, s: Seq<ProgramHeader>, base: int)
    ensures
        place_segments(m, image, s, base).len() == m.len(),
    decreases s.len(),
{
    if s.len() > 0 {
        place_segments_len(m, image, s.drop_last(), base);
    }
}

/// After the segments are placed, a `LOAD` entry that no later `LOAD` entry
/// overlaps holds its file bytes at `[vaddr, vaddr + filesz)` and zeros at
/// `[vaddr + filesz, vaddr + memsz)`.
pub proof fn placed_segment_holds_its_bytes(
    m: Seq<u8>,
    image: Seq<u8>,
    s: Seq<ProgramHeader>,
    base: int,
    i: int,
)
    requires
        is_load_at(s, i),
        segments_fit(s, image.len() as int, base, m.len() as int),
        forall|j: int|
            i < j < s.len() && is_load_at(s, j) ==> segment_end(#[trigger] s[j]) <= s[i].vaddr
                || segment_end(s[i]) <= s[j].vaddr,
    ensures
        forall|k: int|
            0 <= k < s[i].filesz ==> #[trigger] place_segments(m, image, s, base)[s[i].vaddr - base + k]
                == image[s[i].offset + k],
        forall|k: int|
            s[i].filesz <= k < s[i].memsz ==> #[trigger] place_segments(m, image, s, base)[s[i].vaddr
                - base + k] == 0,
    decreases s.len(),
{
    let t = s.drop_last();
    place_segments_len(m, image, t, base);
    assert(segment_fits(s[i], image.len() as int, base, m.len() as int));
    if i == s.len() - 1 {
    } else {
        assert(segments_fit(t, image.len() as int, base, m.len() as int)) by {
            assert forall|j: int| is_load_at(t, j) implies segment_fits(#[trigger] t[j], image.len() as int, base, m.len() as int) by {
                assert(is_load_at(s, j));
            }
        }
        assert forall|j: int| i < j < t.len() && is_load_at(t, j) implies segment_end(#[trigger] t[j]) <= t[i].vaddr
            || segment_end(t[i]) <= t[j].vaddr by {
            assert(is_load_at(s, j));
        }
        placed_segment_holds_its_bytes(m, image, t, base, i);
        if s.last().is_load {
            assert(is_load_at(s, s.len() - 1));
        }
    }
}

} // verus!
