//! The trap vectors this kernel handles, what each handler does with a trap,
//! and the table that routes them.

use crate::idt::{current_code_selector, Idt, IDT_ENTRIES};
use vstd::prelude::*;

verus! {

/// Division by zero; no error code.
pub const DIVIDE_BY_ZERO: u8 = 0;

/// Breakpoint (`int3`); no error code.
pub const BREAKPOINT: u8 = 3;

/// Invalid opcode; no error code.
pub const INVALID_OPCODE: u8 = 6;

/// Page fault; the processor pushes an error code.
pub const PAGE_FAULT: u8 = 14;

/// The state the processor saves on the stack when it enters a trap.
#[derive(Debug, Clone, Copy, PartialEq, Eq)]
pub struct ExceptionStackFrame {
    pub instruction_pointer: u64,
    pub code_segment: u64,
    pub cpu_flags: u64,
    pub stack_pointer: u64,
    pub stack_segment: u64,
}

/// What happens after the handler of a trap has run.
#[derive(Debug, Clone, Copy, PartialEq, Eq)]
pub enum TrapDisposition {
    /// The handler reports the trap and halts for good.
    Halt,
    /// The handler reports the trap and returns; execution goes on.
    Resume,
}

/// The disposition of each handled vector; `None` for a vector with no handler.
pub open spec fn disposition_of(vector: u8) -> Option<TrapDisposition> {
    if vector == BREAKPOINT {
        Some(TrapDisposition::Resume)
    } else if vector == DIVIDE_BY_ZERO || vector == INVALID_OPCODE || vector == PAGE_FAULT {
        Some(TrapDisposition::Halt)
    } else {
        None
    }
}

/// The disposition of the handler installed for `vector`.
pub fn disposition(vector: u8) -> (r: Option<TrapDisposition>)
    ensures
        r == disposition_of(vector),
{
    if vector == BREAKPOINT {
        Some(TrapDisposition::Resume)
    } else if vector == DIVIDE_BY_ZERO || vector == INVALID_OPCODE || vector == PAGE_FAULT {
        Some(TrapDisposition::Halt)
    } else {
        None
    }
}

/// The exceptions for which the processor pushes an error code.
pub open spec fn pushes_error_code(vector: u8) -> bool {
    vector == 8 || (10 <= vector <= 14) || vector == 17 || vector == 21 || vector == 29
        || vector == 30
}

/// Whether the processor pushes an error code for `vector`, so that its
/// trampoline must pass it on and drop it before returning.
pub fn has_error_code(vector: u8) -> (r: bool)
    ensures
        r == pushes_error_code(vector),
{
    vector == 8 || (10 <= vector && vector <= 14) || vector == 17 || vector == 21 || vector == 29
        || vector == 30
}

/// The decoded error code of a page fault.
#[derive(Debug, Clone, Copy, PartialEq, Eq)]
pub struct PageFaultErrorCode {
    /// Bit 0: a protection violation; clear for a page that is not present.
    pub protection_violation: bool,
    /// Bit 1: the access was a write; clear for a read.
    pub caused_by_write: bool,
    /// Bit 2: the access came from user mode.
    pub user_mode: bool,
    /// Bit 3: a reserved bit was set in a paging entry.
    pub malformed_table: bool,
    /// Bit 4: the access was an instruction fetch.
    pub instruction_fetch: bool,
}

/// The bits that the decoder knows.
pub const PAGE_FAULT_KNOWN_BITS: u64 = 0x1F;

/// The decoded error code: `None` where a bit outside the known ones is set.
pub open spec fn decode_page_fault(code: u64) -> Option<PageFaultErrorCode> {
    if code & !PAGE_FAULT_KNOWN_BITS != 0 {
        None
    } else {
        Some(
            PageFaultErrorCode {
                protection_violation: code & 1 != 0,
                caused_by_write: code & 2 != 0,
                user_mode: code & 4 != 0,
                malformed_table: code & 8 != 0,
                instruction_fetch: code & 16 != 0,
            },
        )
    }
}

impl PageFaultErrorCode {
    /// Decodes a page-fault error code; an unknown bit gives `None`.
    pub fn from_bits(code: u64) -> (r: Option<PageFaultErrorCode>)
        ensures
            r == decode_page_fault(code),
    {
        if code & !PAGE_FAULT_KNOWN_BITS != 0 {
            None
        } else {
            Some(
                PageFaultErrorCode {
                    protection_violation: code & 1 != 0,
                    caused_by_write: code & 2 != 0,
                    user_mode: code & 4 != 0,
                    malformed_table: code & 8 != 0,
                    instruction_fetch: code & 16 != 0,
                },
            )
        }
    }

    /// Encodes the flags back into the error-code bits.
    pub fn bits(&self) -> (r: u64)
        ensures
            decode_page_fault(r) == Some(*self),
    {
        let a: u64 = if self.protection_violation { 1 } else { 0 };
        let b: u64 = if self.caused_by_write { 2 } else { 0 };
        let c: u64 = if self.user_mode { 4 } else { 0 };
        let d: u64 = if self.malformed_table { 8 } else { 0 };
        let e: u64 = if self.instruction_fetch { 16 } else { 0 };
        let r = a | b | c | d | e;
        assert((a == 0 || a == 1) && (b == 0 || b == 2) && (c == 0 || c == 4) && (d == 0 || d == 8)
            && (e == 0 || e == 16) ==> {
            &&& (a | b | c | d | e) & !0x1Fu64 == 0
            &&& ((a | b | c | d | e) & 1 != 0) == (a == 1)
            &&& ((a | b | c | d | e) & 2 != 0) == (b == 2)
            &&& ((a | b | c | d | e) & 4 != 0) == (c == 4)
            &&& ((a | b | c | d | e) & 8 != 0) == (d == 8)
            &&& ((a | b | c | d | e) & 16 != 0) == (e == 16)
        }) by (bit_vector);
        r
    }
}

/// A page fault whose error code has the write bit set, and no unknown bit,
/// decodes as caused by a write, with every other flag equal to its own bit.
pub proof fn page_fault_write_bit_decoded(code: u64)
    requires
        code & 2 != 0,
        code & !PAGE_FAULT_KNOWN_BITS == 0,
    ensures
        decode_page_fault(code) matches Some(f) && f.caused_by_write && f.protection_violation
            == (code & 1 != 0) && f.user_mode == (code & 4 != 0) && f.malformed_table == (code
            & 8 != 0) && f.instruction_fetch == (code & 16 != 0),
{
}

/// The entry addresses of the trampolines of the handled vectors.
#[derive(Debug, Clone, Copy, PartialEq, Eq)]
pub struct TrapHandlers {
    pub divide_by_zero: u64,
    pub breakpoint: u64,
    pub invalid_opcode: u64,
    pub page_fault: u64,
}

impl TrapHandlers {
    /// No trampoline is at address zero.
    pub open spec fn valid(&self) -> bool {
        self.divide_by_zero != 0 && self.breakpoint != 0 && self.invalid_opcode != 0
            && self.page_fault != 0
    }
}

/// The handler address for `vector` in `h`, or `None` where it has none.
pub open spec fn handler_for(h: TrapHandlers, vector: int) -> Option<u64> {
    if vector == DIVIDE_BY_ZERO {
        Some(h.divide_by_zero)
    } else if vector == BREAKPOINT {
        Some(h.breakpoint)
    } else if vector == INVALID_OPCODE {
        Some(h.invalid_opcode)
    } else if vector == PAGE_FAULT {
        Some(h.page_fault)
    } else {
        None
    }
}

/// The table that routes each handled vector to its trampoline through the
/// code segment `selector`; every other slot is missing.
pub open spec fn routes(idt: Idt, selector: u16, h: TrapHandlers) -> bool {
    &&& idt.wf()
    &&& forall|i: int|
        0 <= i < IDT_ENTRIES ==> match #[trigger] handler_for(h, i) {
            Some(a) => idt@[i].is_handler_entry(selector, a),
            None => idt@[i].is_missing(),
        }
}

/// Builds the table with the four handled vectors routed through `selector`.
pub fn build_idt(selector: u16, handlers: TrapHandlers) -> (r: Idt)
    requires
        handlers.valid(),
    ensures
        routes(r, selector, handlers),
{
    let mut idt = Idt::new();
    idt.set_handler_with_selector(DIVIDE_BY_ZERO, selector, handlers.divide_by_zero);
    idt.set_handler_with_selector(BREAKPOINT, selector, handlers.breakpoint);
    idt.set_handler_with_selector(INVALID_OPCODE, selector, handlers.invalid_opcode);
    idt.set_handler_with_selector(PAGE_FAULT, selector, handlers.page_fault);
    assert forall|i: int| 0 <= i < IDT_ENTRIES implies match #[trigger] handler_for(handlers, i) {
        Some(a) => idt@[i].is_handler_entry(selector, a),
        None => idt@[i].is_missing(),
    } by {}
    idt
}

/// Builds the interrupt descriptor table once, at startup, with the four
/// handled vectors routed through the code segment that is running now.
pub fn init(handlers: TrapHandlers) -> (r: Idt)
    requires
        handlers.valid(),
    ensures
        exists|selector: u16| routes(r, selector, handlers),
{
    let selector = current_code_selector();
    build_idt(selector, handlers)
}

/// In a table built by `init`, a slot of a vector without a handler is not
/// present, and every present slot has a nonzero handler address.
pub proof fn unregistered_slots_not_present(idt: Idt, selector: u16, h: TrapHandlers, i: int)
    requires
        routes(idt, selector, h),
        0 <= i < IDT_ENTRIES,
    ensures
        handler_for(h, i) is None ==> !idt@[i].present(),
        idt@[i].present() ==> idt@[i].address() != 0,
{
    if handler_for(h, i) is None {
        assert(idt@[i].is_missing());
        assert(0x0E00u16 & 0x8000u16 == 0u16) by (bit_vector);
    }
}

} // verus!
