use blog_os::loader::{
    calc_load_address_range, copy_load_segments, copy_segment, page_request, plan_kernel_image,
    plan_load, program_headers, LoadError, PageRequest, ProgramHeader,
};
use blog_os::memmap::{
    format_record, memory_map_header, memory_map_record, push_dec, push_hex, MemoryDescriptor,
};

fn load(offset: u64, vaddr: u64, filesz: u64, memsz: u64) -> ProgramHeader {
    ProgramHeader { is_load: true, offset, vaddr, paddr: vaddr, filesz, memsz }
}

fn note(vaddr: u64) -> ProgramHeader {
    ProgramHeader { is_load: false, offset: 0, vaddr, paddr: vaddr, filesz: 0x10, memsz: 0x10 }
}

fn put(buf: &mut Vec<u8>, at: usize, bytes: &[u8]) {
    buf[at..at + bytes.len()].copy_from_slice(bytes);
}

/// A 64-bit little-endian ELF image with the given program headers.
fn elf64(phdrs: &[(u32, u64, u64, u64, u64)]) -> Vec<u8> {
    let mut b = vec![0u8; 64 + 56 * phdrs.len()];
    put(&mut b, 0, &[0x7f, b'E', b'L', b'F', 2, 1, 1]);
    put(&mut b, 16, &2u16.to_le_bytes());
    put(&mut b, 18, &0x3eu16.to_le_bytes());
    put(&mut b, 20, &1u32.to_le_bytes());
    put(&mut b, 24, &0x1000u64.to_le_bytes());
    put(&mut b, 32, &64u64.to_le_bytes());
    put(&mut b, 52, &64u16.to_le_bytes());
    put(&mut b, 54, &56u16.to_le_bytes());
    put(&mut b, 56, &(phdrs.len() as u16).to_le_bytes());
    put(&mut b, 58, &64u16.to_le_bytes());
    for (i, &(ty, offset, vaddr, filesz, memsz)) in phdrs.iter().enumerate() {
        let at = 64 + 56 * i;
        put(&mut b, at, &ty.to_le_bytes());
        put(&mut b, at + 8, &offset.to_le_bytes());
        put(&mut b, at + 16, &vaddr.to_le_bytes());
        put(&mut b, at + 24, &vaddr.to_le_bytes());
        put(&mut b, at + 32, &filesz.to_le_bytes());
        put(&mut b, at + 40, &memsz.to_le_bytes());
    }
    b
}

#[test]
fn two_load_entries_give_range_and_four_pages() {
    let phdrs = vec![load(0, 0x1000, 0x1000, 0x2000), load(0x1000, 0x4000, 0x1000, 0x1000)];
    assert_eq!(calc_load_address_range(&phdrs), Ok((0x1000, 0x5000)));
    let req = page_request(0x1000, 0x5000);
    assert_eq!(req, PageRequest { address: 0x1000, pages: 4 });
}

#[test]
fn range_takes_min_start_and_max_end_in_any_order() {
    let phdrs = vec![
        note(0x10),
        load(0, 0x9000, 0, 0x800),
        load(0, 0x3000, 0, 0x100),
        load(0, 0x5000, 0, 0x6000),
    ];
    assert_eq!(calc_load_address_range(&phdrs), Ok((0x3000, 0xb000)));
}

#[test]
fn no_load_entry_is_an_error() {
    assert_eq!(calc_load_address_range(&vec![]), Err(LoadError::NoLoadSegment));
    assert_eq!(calc_load_address_range(&vec![note(0x1000)]), Err(LoadError::NoLoadSegment));
}

#[test]
fn load_entry_past_the_address_space_is_an_error() {
    let phdrs = vec![load(0, 0x1000, 0, 0x10), load(0, u64::MAX - 4, 0, 0x10)];
    assert_eq!(calc_load_address_range(&phdrs), Err(LoadError::AddressOverflow));
}

#[test]
fn page_request_rounds_start_down_and_size_up() {
    assert_eq!(page_request(0x1234, 0x3000), PageRequest { address: 0x1000, pages: 2 });
    assert_eq!(page_request(0x2000, 0x2000), PageRequest { address: 0x2000, pages: 0 });
    assert_eq!(page_request(0x2000, 0x2001), PageRequest { address: 0x2000, pages: 1 });
    assert_eq!(
        page_request(0, u64::MAX),
        PageRequest { address: 0, pages: 0x10_0000_0000_0000 }
    );
}

#[test]
fn plan_load_combines_range_and_request() {
    let phdrs = vec![load(0, 0x1000, 0x1000, 0x2000), load(0x1000, 0x4000, 0x1000, 0x1000)];
    let plan = plan_load(&phdrs).unwrap();
    assert_eq!((plan.start, plan.end), (0x1000, 0x5000));
    assert_eq!(plan.request, PageRequest { address: 0x1000, pages: 4 });
}

#[test]
fn segments_get_file_bytes_then_zeros() {
    let image: Vec<u8> = (1..=16).collect();
    let phdrs = vec![load(2, 0x1001, 3, 6), note(0x1000), load(8, 0x1008, 4, 4)];
    let mut memory = vec![0xaau8; 16];
    assert_eq!(copy_load_segments(&image, &phdrs, 0x1000, &mut memory), Ok(()));
    assert_eq!(
        memory,
        vec![0xaa, 3, 4, 5, 0, 0, 0, 0xaa, 9, 10, 11, 12, 0xaa, 0xaa, 0xaa, 0xaa]
    );
}

#[test]
fn a_segment_out_of_bounds_leaves_memory_untouched() {
    let image: Vec<u8> = (1..=16).collect();
    let mut memory = vec![0xaau8; 16];
    let too_long = vec![load(0, 0x1000, 4, 4), load(0, 0x100c, 4, 8)];
    assert_eq!(
        copy_load_segments(&image, &too_long, 0x1000, &mut memory),
        Err(LoadError::SegmentOutOfBounds)
    );
    let past_image = vec![load(14, 0x1000, 4, 4)];
    assert_eq!(
        copy_load_segments(&image, &past_image, 0x1000, &mut memory),
        Err(LoadError::SegmentOutOfBounds)
    );
    let below_base = vec![load(0, 0xfff, 1, 1)];
    assert_eq!(
        copy_load_segments(&image, &below_base, 0x1000, &mut memory),
        Err(LoadError::SegmentOutOfBounds)
    );
    let more_file_than_memory = vec![load(0, 0x1000, 4, 2)];
    assert_eq!(
        copy_load_segments(&image, &more_file_than_memory, 0x1000, &mut memory),
        Err(LoadError::SegmentOutOfBounds)
    );
    assert_eq!(memory, vec![0xaau8; 16]);
}

#[test]
fn copy_segment_places_one_segment() {
    let image = vec![7u8, 8, 9];
    let mut memory = vec![1u8; 8];
    copy_segment(&image, load(1, 0x102, 2, 5), 0x100, &mut memory);
    assert_eq!(memory, vec![1, 1, 8, 9, 0, 0, 0, 1]);
}

#[test]
fn elf64_program_headers_are_read() {
    let image = elf64(&[(1, 0x1000, 0x1000, 0x1000, 0x2000), (4, 0, 0x0, 0x20, 0x20), (1, 0x2000, 0x4000, 0x1000, 0x1000)]);
    let phdrs = program_headers(&image).unwrap();
    assert_eq!(phdrs.len(), 3);
    assert_eq!(phdrs[0], load(0x1000, 0x1000, 0x1000, 0x2000));
    assert!(!phdrs[1].is_load);
    assert_eq!(phdrs[2], load(0x2000, 0x4000, 0x1000, 0x1000));
    let (_, plan) = plan_kernel_image(&image).unwrap();
    assert_eq!((plan.start, plan.end), (0x1000, 0x5000));
    assert_eq!(plan.request, PageRequest { address: 0x1000, pages: 4 });
}

#[test]
fn elf64_without_load_entries_is_refused() {
    let image = elf64(&[(4, 0, 0x0, 0x20, 0x20)]);
    assert!(plan_kernel_image(&image).is_err());
    assert_eq!(plan_kernel_image(&image).err(), Some(LoadError::NoLoadSegment));
}

#[test]
fn elf32_image_is_refused() {
    let mut image = vec![0u8; 64];
    put(&mut image, 0, &[0x7f, b'E', b'L', b'F', 1, 1, 1]);
    put(&mut image, 40, &52u16.to_le_bytes());
    assert_eq!(program_headers(&image).err(), Some(LoadError::NotElf64));
}

#[test]
fn bytes_that_are_no_elf_image_are_refused() {
    assert_eq!(program_headers(&[1, 2, 3]).err(), Some(LoadError::Malformed));
    assert_eq!(program_headers(&vec![0u8; 128]).err(), Some(LoadError::Malformed));
    assert_eq!(plan_kernel_image(&vec![0u8; 128]).err(), Some(LoadError::Malformed));
}

#[test]
fn digits_are_written_in_their_base() {
    let mut out = Vec::new();
    push_dec(&mut out, 1907);
    out.push(b' ');
    push_hex(&mut out, 0xbeef0);
    out.push(b' ');
    push_hex(&mut out, 0);
    assert_eq!(out, b"1907 beef0 0".to_vec());
}

#[test]
fn header_line_lists_the_six_fields() {
    assert_eq!(
        memory_map_header(),
        b"Index, Type, Type(name), PhysicalStart, NumberOfPages, Attribute\n".to_vec()
    );
}

#[test]
fn record_has_the_six_fields_in_order() {
    let d = MemoryDescriptor { ty: 7, phys_start: 0x100000, page_count: 0x10, att: 0xf };
    let r = format_record(3, &d, &b"CONVENTIONAL".to_vec());
    assert_eq!(r, b"3, 7, CONVENTIONAL, 00100000, 10, f\n".to_vec());
    let wide = MemoryDescriptor { ty: 0xb, phys_start: 0x1_2345_6789, page_count: 1, att: 0x8000000000000000 };
    let r = format_record(12, &wide, &b"MMIO".to_vec());
    assert_eq!(r, b"12, b, MMIO, 123456789, 1, 8000000000000000\n".to_vec());
}

#[test]
fn memory_map_record_names_the_type() {
    let d = MemoryDescriptor { ty: 7, phys_start: 0x1000, page_count: 0x9f, att: 0xf };
    let r = memory_map_record(0, &d);
    assert_eq!(String::from_utf8(r).unwrap(), "0, 7, CONVENTIONAL, 00001000, 9f, f\n");
}

#[test]
fn every_record_has_six_fields_whatever_its_type() {
    for ty in [0u32, 1, 2, 7, 14, 15, 0x7000_0001, u32::MAX] {
        let d = MemoryDescriptor { ty, phys_start: 0xfee0_0000, page_count: 1, att: 0x8000_0000_0000_0001 };
        let r = String::from_utf8(memory_map_record(5, &d)).unwrap();
        assert_eq!(r.trim_end().split(", ").count(), 6, "{}", r);
        assert_eq!(r.matches(',').count(), 5, "{}", r);
    }
}

#[test]
fn elf64_with_misaligned_program_header_offset_is_refused() {
    let mut image = elf64(&[(1, 0x1000, 0x1000, 0x1000, 0x2000)]);
    image.extend_from_slice(&[0u8; 8]);
    put(&mut image, 32, &0x41u64.to_le_bytes());
    assert_eq!(program_headers(&image).err(), Some(LoadError::Malformed));
    assert_eq!(plan_kernel_image(&image).err(), Some(LoadError::Malformed));
}

#[test]
fn image_at_an_odd_address_is_read_the_same() {
    let image = elf64(&[(1, 0x1000, 0x1000, 0x1000, 0x2000), (1, 0x2000, 0x4000, 0x1000, 0x1000)]);
    let expected = vec![load(0x1000, 0x1000, 0x1000, 0x2000), load(0x2000, 0x4000, 0x1000, 0x1000)];
    for shift in 1..8 {
        let mut shifted = vec![0u8; shift];
        shifted.extend_from_slice(&image);
        assert_eq!(program_headers(&shifted[shift..]).unwrap(), expected);
    }
}

#[test]
fn unknown_memory_type_is_named_by_its_code() {
    let d = MemoryDescriptor { ty: 0x8000_0001, phys_start: 0, page_count: 2, att: 0 };
    let r = String::from_utf8(memory_map_record(1, &d)).unwrap();
    assert_eq!(r, "1, 80000001, MemoryType(2147483649), 00000000, 2, 0\n");
    let d = MemoryDescriptor { ty: 14, phys_start: 0x10, page_count: 2, att: 0 };
    let r = String::from_utf8(memory_map_record(2, &d)).unwrap();
    assert_eq!(r, "2, e, PERSISTENT_MEMORY, 00000010, 2, 0\n");
}
