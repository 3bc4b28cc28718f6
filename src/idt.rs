//! Interrupt descriptor table: option bits, descriptors and the table.

use crate::bits::{set_bit_u16, set_bits_u16, with_bit, with_bits};
use vstd::prelude::*;
use x86_64::instructions::segmentation::{Segment, CS};
use x86_64::structures::gdt::SegmentSelector;
use x86_64::PrivilegeLevel;

verus! {

/// The option word of a descriptor.
///
/// Bits 0..3 hold the interrupt-stack-table index, bit 8 is clear when
/// interrupts are disabled on entry, bits 9..12 are the descriptor type (always
/// `0b111`), bits 13..15 hold the privilege level and bit 15 the present flag.
#[derive(Debug, Clone, Copy)]
pub struct EntryOptions(u16);

impl View for EntryOptions {
    type V = u16;

    closed spec fn view(&self) -> u16 {
        self.0
    }
}

/// The option word of a entry that is not present: only the type bits set.
pub open spec fn minimal_options() -> u16 {
    0x0E00
}

/// The option word of a present entry with interrupts disabled on entry.
pub open spec fn present_options() -> u16 {
    0x8E00
}

impl EntryOptions {
    /// The options of a missing entry.
    pub fn minimal() -> (r: EntryOptions)
        ensures
            r@ == minimal_options(),
    {
        let mut options: u16 = 0;
        assert((1u16 << 3u16) == 8u16) by (bit_vector);
        set_bits_u16(&mut options, 9, 12, 0b111);
        assert(with_bits(0u16, 9u16, 12u16, 7u16) == 0x0E00u16) by (bit_vector);
        EntryOptions(options)
    }

    /// The options of a present entry that disables interrupts on entry.
    pub fn new() -> (r: EntryOptions)
        ensures
            r@ == present_options(),
    {
        let mut options = Self::minimal();
        options.set_present(true).disable_interrupts(true);
        assert(with_bit(with_bit(0x0E00u16, 15u16, true), 8u16, false) == 0x8E00u16) by (bit_vector);
        options
    }

    /// The raw option word.
    pub fn bits(&self) -> (r: u16)
        ensures
            r == self@,
    {
        self.0
    }

    /// Whether the present flag is set.
    pub fn is_present(&self) -> (r: bool)
        ensures
            r == (self@ & 0x8000 != 0),
    {
        self.0 & 0x8000 != 0
    }

    /// Sets or clears the present flag (bit 15).
    pub fn set_present(&mut self, present: bool) -> (r: &mut Self)
        ensures
            (*r)@ == with_bit(old(self)@, 15, present),
            *final(self) == *final(r),
    {
        set_bit_u16(&mut self.0, 15, present);
        self
    }

    /// Clears bit 8 to disable interrupts on entry, or sets it to keep them on.
    pub fn disable_interrupts(&mut self, disable: bool) -> (r: &mut Self)
        ensures
            (*r)@ == with_bit(old(self)@, 8, !disable),
            *final(self) == *final(r),
    {
        set_bit_u16(&mut self.0, 8, !disable);
        self
    }

    /// Sets the descriptor privilege level (bits 13..15).
    pub fn privilege_level(&mut self, dpl: u16) -> (r: &mut Self)
        requires
            dpl < 4,
        ensures
            (*r)@ == with_bits(old(self)@, 13, 15, dpl),
            *final(self) == *final(r),
    {
        assert((1u16 << 2u16) == 4u16) by (bit_vector);
        set_bits_u16(&mut self.0, 13, 15, dpl);
        self
    }

    /// Sets the interrupt-stack-table index (bits 0..3).
    pub fn set_stack_index(&mut self, index: u16) -> (r: &mut Self)
        requires
            index < 8,
        ensures
            (*r)@ == with_bits(old(self)@, 0, 3, index),
            *final(self) == *final(r),
    {
        assert((1u16 << 3u16) == 8u16) by (bit_vector);
        set_bits_u16(&mut self.0, 0, 3, index);
        self
    }
}


/// Relies on x86_64's `SegmentSelector::new`, which builds the selector word
/// `index << 3 | rpl`; `PrivilegeLevel::from_u16` panics above 3.
#[verifier::external_body]
fn segment_selector(index: u16, rpl: u16) -> (r: u16)
    requires
        index < 0x2000,
        rpl < 4,
    ensures
        r == (index << 3u16) | rpl,
{
    SegmentSelector::new(index, PrivilegeLevel::from_u16(rpl)).0
}

/// Relies on x86_64's `CS::get_reg`, which reads the code-segment register of
/// the running processor; its value depends on the machine.
#[verifier::external_body]
pub(crate) fn current_code_selector() -> (r: u16) {
    CS::get_reg().0
}

/// One 16-byte descriptor of the interrupt descriptor table.
///
/// The handler address is split into `pointer_low` (bits 0..16),
/// `pointer_middle` (bits 16..32) and `pointer_high` (bits 32..64).
#[derive(Debug, Clone, Copy)]
pub struct Entry {
    pointer_low: u16,
    gdt_selector: u16,
    options: EntryOptions,
    pointer_middle: u16,
    pointer_high: u32,
    reserved: u32,
}

/// The number of slots of the table.
pub const IDT_ENTRIES: usize = 16;

impl Entry {
    /// The handler address that the three pointer fields encode.
    pub closed spec fn address(&self) -> u64 {
        (self.pointer_low as u64) | ((self.pointer_middle as u64) << 16u64) | ((
        self.pointer_high as u64) << 32u64)
    }

    /// The code-segment selector of the entry.
    pub closed spec fn selector(&self) -> u16 {
        self.gdt_selector
    }

    /// The option word of the entry.
    pub closed spec fn option_bits(&self) -> u16 {
        self.options@
    }

    /// The reserved word, zero in every descriptor built here.
    pub closed spec fn reserved_bits(&self) -> u32 {
        self.reserved
    }

    /// Whether the entry is marked present.
    pub open spec fn present(&self) -> bool {
        self.option_bits() & 0x8000u16 != 0
    }

    /// A present entry to `handler` through `selector`.
    pub open spec fn is_handler_entry(&self, selector: u16, handler: u64) -> bool {
        &&& self.address() == handler
        &&& self.selector() == selector
        &&& self.option_bits() == present_options()
        &&& self.reserved_bits() == 0
    }

    /// A entry that is not present: null selector, zero address, minimal options.
    pub open spec fn is_missing(&self) -> bool {
        &&& self.address() == 0
        &&& self.selector() == 0
        &&& self.option_bits() == minimal_options()
        &&& self.reserved_bits() == 0
    }

    /// A present entry that calls `handler` with the code segment `gdt_selector`
    /// and disables interrupts on entry.
    pub fn new(gdt_selector: u16, handler: u64) -> (r: Entry)
        ensures
            r.is_handler_entry(gdt_selector, handler),
    {
        let pointer = handler;
        let r = Entry {
            gdt_selector: gdt_selector,
            pointer_low: pointer as u16,
            pointer_middle: (pointer >> 16) as u16,
            pointer_high: (pointer >> 32) as u32,
            options: EntryOptions::new(),
            reserved: 0,
        };
        assert(((pointer as u16) as u64) | ((((pointer >> 16u64) as u16) as u64) << 16u64) | (((
        (pointer >> 32u64) as u32) as u64) << 32u64) == pointer) by (bit_vector);
        r
    }

    /// A entry that is not present.
    pub fn missing() -> (r: Entry)
        ensures
            r.is_missing(),
    {
        let selector = segment_selector(0, 0);
        assert((0u16 << 3u16) | 0u16 == 0u16) by (bit_vector);
        let r = Entry {
            gdt_selector: selector,
            pointer_low: 0,
            pointer_middle: 0,
            pointer_high: 0,
            options: EntryOptions::minimal(),
            reserved: 0,
        };
        assert((0u16 as u64) | ((0u16 as u64) << 16u64) | ((0u32 as u64) << 32u64) == 0u64)
            by (bit_vector);
        r
    }

    /// The handler address of the entry.
    pub fn handler_address(&self) -> (r: u64)
        ensures
            r == self.address(),
    {
        (self.pointer_low as u64) | ((self.pointer_middle as u64) << 16u64) | ((
        self.pointer_high as u64) << 32u64)
    }

    /// The code-segment selector of the entry.
    pub fn gdt_selector(&self) -> (r: u16)
        ensures
            r == self.selector(),
    {
        self.gdt_selector
    }

    /// The options of the entry.
    pub fn options(&self) -> (r: EntryOptions)
        ensures
            r@ == self.option_bits(),
    {
        self.options
    }

    /// The 16 bytes the processor reads for this descriptor, little-endian:
    /// address bits 0..16, selector, options, address bits 16..64, reserved.
    pub open spec fn wire_bytes(&self) -> Seq<u8> {
        let a = self.address();
        let sel = self.selector();
        let opt = self.option_bits();
        let res = self.reserved_bits();
        seq![
            a as u8, (a >> 8u64) as u8,
            sel as u8, (sel >> 8u16) as u8,
            opt as u8, (opt >> 8u16) as u8,
            (a >> 16u64) as u8, (a >> 24u64) as u8, (a >> 32u64) as u8, (a >> 40u64) as u8,
            (a >> 48u64) as u8, (a >> 56u64) as u8,
            res as u8, (res >> 8u32) as u8, (res >> 16u32) as u8, (res >> 24u32) as u8,
        ]
    }

    /// The descriptor in the layout the processor reads.
    pub fn to_bytes(&self) -> (r: Vec<u8>)
        ensures
            r@ == self.wire_bytes(),
    {
        let lo = self.pointer_low;
        let mid = self.pointer_middle;
        let hi = self.pointer_high;
        let sel = self.gdt_selector;
        let opt = self.options.bits();
        let res = self.reserved;
        let mut r: Vec<u8> = Vec::new();
        r.push(lo as u8);
        r.push((lo >> 8) as u8);
        r.push(sel as u8);
        r.push((sel >> 8) as u8);
        r.push(opt as u8);
        r.push((opt >> 8) as u8);
        r.push(mid as u8);
        r.push((mid >> 8) as u8);
        r.push(hi as u8);
        r.push((hi >> 8) as u8);
        r.push((hi >> 16) as u8);
        r.push((hi >> 24) as u8);
        r.push(res as u8);
        r.push((res >> 8) as u8);
        r.push((res >> 16) as u8);
        r.push((res >> 24) as u8);
        let ghost a = self.address();
        assert(a == (lo as u64) | ((mid as u64) << 16u64) | ((hi as u64) << 32u64));
        assert({
            let a = (lo as u64) | ((mid as u64) << 16u64) | ((hi as u64) << 32u64);
            &&& a as u8 == lo as u8
            &&& (a >> 8u64) as u8 == (lo >> 8u16) as u8
            &&& (a >> 16u64) as u8 == mid as u8
            &&& (a >> 24u64) as u8 == (mid >> 8u16) as u8
            &&& (a >> 32u64) as u8 == hi as u8
            &&& (a >> 40u64) as u8 == (hi >> 8u32) as u8
            &&& (a >> 48u64) as u8 == (hi >> 16u32) as u8
            &&& (a >> 56u64) as u8 == (hi >> 24u32) as u8
        }) by (bit_vector);
        assert(r@ =~= self.wire_bytes());
        r
    }

    /// Whether the entry is marked present.
    pub fn is_present(&self) -> (r: bool)
        ensures
            r == self.present(),
    {
        self.options.is_present()
    }
}

/// The bytes of the descriptors of `s`, one after the other.
pub open spec fn table_bytes(s: Seq<Entry>) -> Seq<u8>
    decreases s.len(),
{
    if s.len() == 0 {
        Seq::empty()
    } else {
        table_bytes(s.drop_last()) + s.last().wire_bytes()
    }
}

/// The interrupt descriptor table: a fixed number of slots.
#[derive(Debug)]
pub struct Idt {
    entries: Vec<Entry>,
}

impl View for Idt {
    type V = Seq<Entry>;

    closed spec fn view(&self) -> Seq<Entry> {
        self.entries@
    }
}

impl Idt {
    /// The table has its slots, and no present slot points at address zero.
    pub open spec fn wf(&self) -> bool {
        &&& self@.len() == IDT_ENTRIES
        &&& forall|i: int| 0 <= i < self@.len() && #[trigger] self@[i].present() ==> self@[i].address() != 0
    }

    /// A table whose slots are all missing.
    pub fn new() -> (r: Idt)
        ensures
            r.wf(),
            forall|i: int| 0 <= i < IDT_ENTRIES ==> #[trigger] r@[i].is_missing(),
    {
        let mut entries: Vec<Entry> = Vec::new();
        let mut n: usize = 0;
        while n < IDT_ENTRIES
            invariant
                n <= IDT_ENTRIES,
                entries@.len() == n,
                forall|i: int| 0 <= i < n ==> #[trigger] entries@[i].is_missing(),
            decreases IDT_ENTRIES - n,
        {
            entries.push(Entry::missing());
            n = n + 1;
        }
        let r = Idt { entries };
        assert forall|i: int| 0 <= i < r@.len() && #[trigger] r@[i].present() implies r@[i].address() != 0 by {
            assert(r@[i].is_missing());
            assert(0x0E00u16 & 0x8000u16 == 0u16) by (bit_vector);
        }
        r
    }

    /// The entry in slot `i`.
    pub fn entry(&self, i: usize) -> (r: Entry)
        requires
            i < self@.len(),
        ensures
            r == self@[i as int],
    {
        self.entries[i]
    }

    /// The table in the layout the processor reads: each descriptor's bytes in
    /// slot order.
    pub fn to_bytes(&self) -> (r: Vec<u8>)
        ensures
            r@ == table_bytes(self@),
    {
        let mut r: Vec<u8> = Vec::new();
        let mut i: usize = 0;
        while i < self.entries.len()
            invariant
                i <= self@.len(),
                r@ == table_bytes(self@.take(i as int)),
            decreases self@.len() - i,
        {
            let b = self.entries[i].to_bytes();
            let mut k: usize = 0;
            let ghost before = r@;
            while k < b.len()
                invariant
                    k <= b@.len(),
                    r@ == before + b@.take(k as int),
                decreases b@.len() - k,
            {
                r.push(b[k]);
                k = k + 1;
                assert(b@.take(k as int) =~= b@.take(k - 1).push(b@[k - 1]));
            }
            assert(b@.take(b@.len() as int) =~= b@);
            assert(self@.take(i + 1).drop_last() =~= self@.take(i as int));
            i = i + 1;
        }
        assert(self@.take(self@.len() as int) =~= self@);
        r
    }

    /// Registers `handler` for vector `entry` through the code segment `gdt_selector`.
    pub fn set_handler_with_selector(&mut self, entry: u8, gdt_selector: u16, handler: u64)
        requires
            old(self).wf(),
            entry < IDT_ENTRIES,
            handler != 0,
        ensures
            final(self).wf(),
            final(self)@.len() == old(self)@.len(),
            final(self)@[entry as int].is_handler_entry(gdt_selector, handler),
            forall|i: int| 0 <= i < old(self)@.len() && i != entry ==> #[trigger] final(self)@[i] == old(self)@[i],
    {
        let e = Entry::new(gdt_selector, handler);
        self.entries.set(entry as usize, e);
    }

    /// Registers `handler` for vector `entry` through the code segment that is
    /// running now.
    pub fn set_handler(&mut self, entry: u8, handler: u64)
        requires
            old(self).wf(),
            entry < IDT_ENTRIES,
            handler != 0,
        ensures
            final(self).wf(),
            final(self)@.len() == old(self)@.len(),
            final(self)@[entry as int].is_handler_entry(final(self)@[entry as int].selector(), handler),
            forall|i: int| 0 <= i < old(self)@.len() && i != entry ==> #[trigger] final(self)@[i] == old(self)@[i],
    {
        let selector = current_code_selector();
        self.set_handler_with_selector(entry, selector, handler);
    }
}

} // verus!
