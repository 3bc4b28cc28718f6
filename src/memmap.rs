//! The text form of the firmware memory map: a header line, then one record
//! per region with six comma-separated fields.

use uefi::table::boot::MemoryType;
use vstd::prelude::*;
use vstd::string::StringSliceAdditionalSpecFns;

verus! {

/// One region of the firmware memory map.
#[derive(Debug, Clone, Copy, PartialEq, Eq)]
pub struct MemoryDescriptor {
    /// The region-type code.
    pub ty: u32,
    /// The physical address the region starts at.
    pub phys_start: u64,
    /// The size of the region in 4 KiB pages.
    pub page_count: u64,
    /// The attribute bits of the region.
    pub att: u64,
}

/// The byte `,`.
pub open spec fn comma() -> u8 {
    0x2c
}

/// The name that uefi's `MemoryType` prints for the type code `ty`: the
/// name of a type the UEFI specification defines, else the code in decimal
/// inside `MemoryType(..)`.
pub open spec fn memory_type_name_of(ty: u32) -> Seq<u8> {
    if ty == 0 {
        "RESERVED".spec_bytes()
    } else if ty == 1 {
        "LOADER_CODE".spec_bytes()
    } else if ty == 2 {
        "LOADER_DATA".spec_bytes()
    } else if ty == 3 {
        "BOOT_SERVICES_CODE".spec_bytes()
    } else if ty == 4 {
        "BOOT_SERVICES_DATA".spec_bytes()
    } else if ty == 5 {
        "RUNTIME_SERVICES_CODE".spec_bytes()
    } else if ty == 6 {
        "RUNTIME_SERVICES_DATA".spec_bytes()
    } else if ty == 7 {
        "CONVENTIONAL".spec_bytes()
    } else if ty == 8 {
        "UNUSABLE".spec_bytes()
    } else if ty == 9 {
        "ACPI_RECLAIM".spec_bytes()
    } else if ty == 10 {
        "ACPI_NON_VOLATILE".spec_bytes()
    } else if ty == 11 {
        "MMIO".spec_bytes()
    } else if ty == 12 {
        "MMIO_PORT_SPACE".spec_bytes()
    } else if ty == 13 {
        "PAL_CODE".spec_bytes()
    } else if ty == 14 {
        "PERSISTENT_MEMORY".spec_bytes()
    } else {
        "MemoryType(".spec_bytes() + dec_digits(ty as nat) + ")".spec_bytes()
    }
}

/// Relies on the `Debug` form of uefi's `MemoryType`: the name of a known type,
/// else `MemoryType(<decimal code>)`.
#[verifier::external_body]
fn memory_type_name(ty: u32) -> (r: Vec<u8>)
    ensures
        r@ == memory_type_name_of(ty),
{
    format!("{:?}", MemoryType(ty)).into_bytes()
}

proof fn literal_has_no_comma(s: &str)
    requires
        forall|i: int| 0 <= i < s@.len() ==> '\0' <= #[trigger] s@[i] <= '\u{7f}' && s@[i] != ',',
    ensures
        forall|i: int| 0 <= i < s.spec_bytes().len() ==> #[trigger] s.spec_bytes()[i] != comma(),
{
    assert(vstd::string::is_ascii(s));
    vstd::string::is_ascii_spec_bytes(s);
    assert forall|i: int| 0 <= i < s.spec_bytes().len() implies #[trigger] s.spec_bytes()[i] != comma() by {
        assert(s.spec_bytes()[i] == s@[i] as u8);
    }
}

/// No memory-type name holds a comma.
proof fn memory_type_name_has_no_comma(ty: u32)
    ensures
        forall|i: int| 0 <= i < memory_type_name_of(ty).len() ==> #[trigger] memory_type_name_of(ty)[i] != comma(),
{
    dec_digits_are_digits(ty as nat);
    reveal_strlit("RESERVED");
    literal_has_no_comma("RESERVED");
    reveal_strlit("LOADER_CODE");
    literal_has_no_comma("LOADER_CODE");
    reveal_strlit("LOADER_DATA");
    literal_has_no_comma("LOADER_DATA");
    reveal_strlit("BOOT_SERVICES_CODE");
    literal_has_no_comma("BOOT_SERVICES_CODE");
    reveal_strlit("BOOT_SERVICES_DATA");
    literal_has_no_comma("BOOT_SERVICES_DATA");
    reveal_strlit("RUNTIME_SERVICES_CODE");
    literal_has_no_comma("RUNTIME_SERVICES_CODE");
    reveal_strlit("RUNTIME_SERVICES_DATA");
    literal_has_no_comma("RUNTIME_SERVICES_DATA");
    reveal_strlit("CONVENTIONAL");
    literal_has_no_comma("CONVENTIONAL");
    reveal_strlit("UNUSABLE");
    literal_has_no_comma("UNUSABLE");
    reveal_strlit("ACPI_RECLAIM");
    literal_has_no_comma("ACPI_RECLAIM");
    reveal_strlit("ACPI_NON_VOLATILE");
    literal_has_no_comma("ACPI_NON_VOLATILE");
    reveal_strlit("MMIO");
    literal_has_no_comma("MMIO");
    reveal_strlit("MMIO_PORT_SPACE");
    literal_has_no_comma("MMIO_PORT_SPACE");
    reveal_strlit("PAL_CODE");
    literal_has_no_comma("PAL_CODE");
    reveal_strlit("PERSISTENT_MEMORY");
    literal_has_no_comma("PERSISTENT_MEMORY");
    reveal_strlit("MemoryType(");
    literal_has_no_comma("MemoryType(");
    reveal_strlit(")");
    literal_has_no_comma(")");
    if ty > 14 {
        let a = "MemoryType(".spec_bytes();
        let b = dec_digits(ty as nat);
        let c = ")".spec_bytes();
        assert forall|i: int| 0 <= i < (a + b + c).len() implies #[trigger] (a + b + c)[i] != comma() by {
            if i < a.len() {
                assert((a + b + c)[i] == a[i]);
            } else if i < a.len() + b.len() {
                assert((a + b + c)[i] == b[i - a.len()]);
            } else {
                assert((a + b + c)[i] == c[i - a.len() - b.len()]);
            }
        }
    }
}

/// The ASCII digit of `d`, lower case past nine.
pub open spec fn digit_char(d: nat) -> u8 {
    if d < 10 {
        (0x30 + d) as u8
    } else {
        (0x61 + d - 10) as u8
    }
}

/// The decimal digits of `n`, without leading zeros.
pub open spec fn dec_digits(n: nat) -> Seq<u8>
    decreases n,
{
    if n < 10 {
        seq![digit_char(n)]
    } else {
        dec_digits(n / 10).push(digit_char(n % 10))
    }
}

/// The lower-case hexadecimal digits of `n`, without leading zeros.
pub open spec fn hex_digits(n: nat) -> Seq<u8>
    decreases n,
{
    if n < 16 {
        seq![digit_char(n)]
    } else {
        hex_digits(n / 16).push(digit_char(n % 16))
    }
}

/// `s` with `0` digits in front up to `width` bytes.
pub open spec fn zero_pad(s: Seq<u8>, width: nat) -> Seq<u8> {
    if s.len() < width {
        Seq::new((width - s.len()) as nat, |i: int| 0x30u8) + s
    } else {
        s
    }
}

/// The separator between two fields.
pub open spec fn separator() -> Seq<u8> {
    seq![0x2cu8, 0x20u8]
}

/// The record of region `index` of type name `name`: the index in decimal,
/// the type code in hex, the type name, the start address in hex padded to
/// eight digits, the page count and the attributes in hex, and a newline.
pub open spec fn record_spec(index: nat, d: MemoryDescriptor, name: Seq<u8>) -> Seq<u8> {
    dec_digits(index) + separator() + hex_digits(d.ty as nat) + separator() + name + separator()
        + zero_pad(hex_digits(d.phys_start as nat), 8) + separator() + hex_digits(
        d.page_count as nat,
    ) + separator() + hex_digits(d.att as nat) + seq![0x0au8]
}

/// The header line of the memory-map file.
pub const MEMMAP_HEADER: &'static str = "Index, Type, Type(name), PhysicalStart, NumberOfPages, Attribute\n";

/// The header line, as bytes.
pub fn memory_map_header() -> (r: Vec<u8>)
    ensures
        r@ == MEMMAP_HEADER.spec_bytes(),
{
    vstd::slice::slice_to_vec(MEMMAP_HEADER.as_bytes())
}

fn push_digit(out: &mut Vec<u8>, d: u64)
    requires
        d < 16,
    ensures
        final(out)@ == old(out)@.push(digit_char(d as nat)),
{
    if d < 10 {
        out.push(0x30 + d as u8);
    } else {
        out.push(0x61 + (d - 10) as u8);
    }
}

/// Appends the decimal digits of `n` to `out`.
pub fn push_dec(out: &mut Vec<u8>, n: u64)
    ensures
        final(out)@ == old(out)@ + dec_digits(n as nat),
    decreases n,
{
    if n >= 10 {
        push_dec(out, n / 10);
    }
    push_digit(out, n % 10);
    proof {
        if n >= 10 {
            assert(old(out)@ + dec_digits(n as nat) =~= (old(out)@ + dec_digits((n / 10) as nat)).push(digit_char((n % 10) as nat)));
        } else {
            assert(old(out)@ + dec_digits(n as nat) =~= old(out)@.push(digit_char(n as nat)));
        }
    }
}

/// Appends the lower-case hexadecimal digits of `n` to `out`.
pub fn push_hex(out: &mut Vec<u8>, n: u64)
    ensures
        final(out)@ == old(out)@ + hex_digits(n as nat),
    decreases n,
{
    if n >= 16 {
        push_hex(out, n / 16);
    }
    push_digit(out, n % 16);
    proof {
        if n >= 16 {
            assert(old(out)@ + hex_digits(n as nat) =~= (old(out)@ + hex_digits((n / 16) as nat)).push(digit_char((n % 16) as nat)));
        } else {
            assert(old(out)@ + hex_digits(n as nat) =~= old(out)@.push(digit_char(n as nat)));
        }
    }
}

/// Appends every byte of `s` to `out`.
fn push_all(out: &mut Vec<u8>, s: &Vec<u8>)
    ensures
        final(out)@ == old(out)@ + s@,
{
    let mut i: usize = 0;
    while i < s.len()
        invariant
            i <= s@.len(),
            out@ == old(out)@ + s@.subrange(0, i as int),
        decreases s@.len() - i,
    {
        out.push(s[i]);
        i = i + 1;
        assert(s@.subrange(0, i as int) =~= s@.subrange(0, i - 1).push(s@[i - 1]));
    }
    assert(s@.subrange(0, s@.len() as int) =~= s@);
}

fn push_separator(out: &mut Vec<u8>)
    ensures
        final(out)@ == old(out)@ + separator(),
{
    out.push(0x2c);
    out.push(0x20);
    assert(old(out)@ + separator() =~= old(out)@.push(0x2cu8).push(0x20u8));
}

/// The record of region `index`, given the name of its type.
pub fn format_record(index: u64, d: &MemoryDescriptor, name: &Vec<u8>) -> (r: Vec<u8>)
    ensures
        r@ == record_spec(index as nat, *d, name@),
{
    let mut out: Vec<u8> = Vec::new();
    push_dec(&mut out, index);
    push_separator(&mut out);
    push_hex(&mut out, d.ty as u64);
    push_separator(&mut out);
    push_all(&mut out, name);
    push_separator(&mut out);
    let mut digits: Vec<u8> = Vec::new();
    push_hex(&mut digits, d.phys_start);
    let ghost before = out@;
    let mut k: usize = digits.len();
    while k < 8
        invariant
            k == digits@.len() || digits@.len() < k <= 8,
            out@ == before + Seq::new((k - digits@.len()) as nat, |i: int| 0x30u8),
        decreases 8 - k,
    {
        out.push(0x30);
        k = k + 1;
        assert(out@ =~= before + Seq::new((k - digits@.len()) as nat, |i: int| 0x30u8));
    }
    proof {
        if digits@.len() >= 8 {
            assert(Seq::new((k - digits@.len()) as nat, |i: int| 0x30u8) =~= Seq::<u8>::empty());
        }
        assert(before + Seq::new((k - digits@.len()) as nat, |i: int| 0x30u8) + digits@ =~= before
            + zero_pad(digits@, 8));
    }
    push_all(&mut out, &digits);
    push_separator(&mut out);
    push_hex(&mut out, d.page_count);
    push_separator(&mut out);
    push_hex(&mut out, d.att);
    out.push(0x0a);
    assert(out@ =~= record_spec(index as nat, *d, name@));
    out
}


/// The record of region `index` of the memory map, in the text form above.
pub fn memory_map_record(index: u64, d: &MemoryDescriptor) -> (r: Vec<u8>)
    ensures
        r@ == record_spec(index as nat, *d, memory_type_name_of(d.ty)),
        count_byte(r@, comma()) == 5,
{
    let name = memory_type_name(d.ty);
    proof {
        memory_type_name_has_no_comma(d.ty);
        record_has_six_fields(index as nat, *d, name@);
    }
    format_record(index, d, &name)
}

/// How many times `b` occurs in `s`.
pub open spec fn count_byte(s: Seq<u8>, b: u8) -> nat
    decreases s.len(),
{
    if s.len() == 0 {
        0
    } else {
        count_byte(s.drop_last(), b) + if s.last() == b {
            1nat
        } else {
            0nat
        }
    }
}

proof fn count_byte_concat(s: Seq<u8>, t: Seq<u8>, b: u8)
    ensures
        count_byte(s + t, b) == count_byte(s, b) + count_byte(t, b),
    decreases t.len(),
{
    if t.len() > 0 {
        assert((s + t).drop_last() =~= s + t.drop_last());
        count_byte_concat(s, t.drop_last(), b);
    } else {
        assert(s + t =~= s);
    }
}

proof fn count_byte_absent(s: Seq<u8>, b: u8)
    requires
        forall|i: int| 0 <= i < s.len() ==> s[i] != b,
    ensures
        count_byte(s, b) == 0,
    decreases s.len(),
{
    if s.len() > 0 {
        count_byte_absent(s.drop_last(), b);
    }
}

proof fn dec_digits_are_digits(n: nat)
    ensures
        forall|i: int| 0 <= i < dec_digits(n).len() ==> #[trigger] dec_digits(n)[i] != comma(),
    decreases n,
{
    if n >= 10 {
        dec_digits_are_digits(n / 10);
    }
    assert forall|i: int| 0 <= i < dec_digits(n).len() implies #[trigger] dec_digits(n)[i] != comma() by {
        if n >= 10 && i < dec_digits(n).len() - 1 {
            assert(dec_digits(n)[i] == dec_digits(n / 10)[i]);
        }
    }
}

proof fn hex_digits_are_digits(n: nat)
    ensures
        forall|i: int| 0 <= i < hex_digits(n).len() ==> #[trigger] hex_digits(n)[i] != comma(),
    decreases n,
{
    if n >= 16 {
        hex_digits_are_digits(n / 16);
    }
    assert forall|i: int| 0 <= i < hex_digits(n).len() implies #[trigger] hex_digits(n)[i] != comma() by {
        if n >= 16 && i < hex_digits(n).len() - 1 {
            assert(hex_digits(n)[i] == hex_digits(n / 16)[i]);
        }
    }
}

/// A record has exactly six comma-separated fields, whatever the region's
/// type, provided the type's name holds no comma (which uefi's names never do).
pub proof fn record_has_six_fields(index: nat, d: MemoryDescriptor, name: Seq<u8>)
    requires
        forall|i: int| 0 <= i < name.len() ==> name[i] != comma(),
    ensures
        count_byte(record_spec(index, d, name), comma()) == 5,
{
    let c = comma();
    let a0 = dec_digits(index);
    let a1 = hex_digits(d.ty as nat);
    let a3 = zero_pad(hex_digits(d.phys_start as nat), 8);
    let a4 = hex_digits(d.page_count as nat);
    let a5 = hex_digits(d.att as nat);
    let sep = separator();
    let nl = seq![0x0au8];
    dec_digits_are_digits(index);
    hex_digits_are_digits(d.ty as nat);
    hex_digits_are_digits(d.phys_start as nat);
    hex_digits_are_digits(d.page_count as nat);
    hex_digits_are_digits(d.att as nat);
    count_byte_absent(a0, c);
    count_byte_absent(a1, c);
    count_byte_absent(name, c);
    let h = hex_digits(d.phys_start as nat);
    if h.len() < 8 {
        let z = Seq::new((8 - h.len()) as nat, |i: int| 0x30u8);
        count_byte_absent(z, c);
        count_byte_absent(h, c);
        count_byte_concat(z, h, c);
    } else {
        count_byte_absent(h, c);
    }
    count_byte_absent(a4, c);
    count_byte_absent(a5, c);
    count_byte_absent(nl, c);
    assert(count_byte(sep, c) == 1) by {
        let one = seq![0x2cu8];
        assert(one.drop_last() =~= Seq::<u8>::empty());
        assert(count_byte(Seq::<u8>::empty(), c) == 0);
        assert(one.last() == c);
        assert(count_byte(one, c) == count_byte(one.drop_last(), c) + 1);
        assert(sep.drop_last() =~= one);
        assert(count_byte(sep, c) == count_byte(one, c));
    }
    let p1 = a0 + sep;
    count_byte_concat(a0, sep, c);
    let p2 = p1 + a1;
    count_byte_concat(p1, a1, c);
    let p3 = p2 + sep;
    count_byte_concat(p2, sep, c);
    let p4 = p3 + name;
    count_byte_concat(p3, name, c);
    let p5 = p4 + sep;
    count_byte_concat(p4, sep, c);
    let p6 = p5 + a3;
    count_byte_concat(p5, a3, c);
    let p7 = p6 + sep;
    count_byte_concat(p6, sep, c);
    let p8 = p7 + a4;
    count_byte_concat(p7, a4, c);
    let p9 = p8 + sep;
    count_byte_concat(p8, sep, c);
    let p10 = p9 + a5;
    count_byte_concat(p9, a5, c);
    count_byte_concat(p10, nl, c);
}

} // verus!
