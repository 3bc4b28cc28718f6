use blog_os::idt::{Entry, EntryOptions, Idt, IDT_ENTRIES};
use blog_os::interrupts::{
    build_idt, disposition, has_error_code, init, ExceptionStackFrame, PageFaultErrorCode,
    TrapDisposition, TrapHandlers, BREAKPOINT, DIVIDE_BY_ZERO, INVALID_OPCODE, PAGE_FAULT,
};

fn handlers() -> TrapHandlers {
    TrapHandlers {
        divide_by_zero: 0xffff_8000_0000_1000,
        breakpoint: 0x2000,
        invalid_opcode: 0x1234_5678_9abc,
        page_fault: 0x4000,
    }
}

#[test]
fn minimal_options_have_only_type_bits() {
    assert_eq!(EntryOptions::minimal().bits(), 0x0E00);
    assert!(!EntryOptions::minimal().is_present());
}

#[test]
fn new_options_are_present_with_interrupts_disabled() {
    let o = EntryOptions::new();
    assert_eq!(o.bits(), 0x8E00);
    assert!(o.is_present());
}

#[test]
fn set_present_toggles_bit_fifteen() {
    let mut o = EntryOptions::new();
    o.set_present(false);
    assert_eq!(o.bits(), 0x0E00);
    o.set_present(true);
    assert_eq!(o.bits(), 0x8E00);
}

#[test]
fn disable_interrupts_false_sets_bit_eight() {
    let mut o = EntryOptions::new();
    o.disable_interrupts(false);
    assert_eq!(o.bits(), 0x8F00);
    o.disable_interrupts(true);
    assert_eq!(o.bits(), 0x8E00);
}

#[test]
fn privilege_level_and_stack_index_fill_their_fields() {
    let mut o = EntryOptions::new();
    o.privilege_level(3).set_stack_index(5);
    assert_eq!(o.bits(), 0x8E00 | 0x6000 | 0x5);
    o.privilege_level(1).set_stack_index(0);
    assert_eq!(o.bits(), 0x8E00 | 0x2000);
}

#[test]
fn gate_splits_and_rejoins_the_handler_address() {
    let e = Entry::new(0x08, 0x1234_5678_9abc_def0);
    assert_eq!(e.handler_address(), 0x1234_5678_9abc_def0);
    assert_eq!(e.gdt_selector(), 0x08);
    assert!(e.is_present());
    assert_eq!(e.options().bits(), 0x8E00);
}

#[test]
fn missing_gate_is_not_present() {
    let e = Entry::missing();
    assert!(!e.is_present());
    assert_eq!(e.handler_address(), 0);
    assert_eq!(e.gdt_selector(), 0);
    assert_eq!(e.options().bits(), 0x0E00);
}

#[test]
fn new_table_is_all_missing() {
    let idt = Idt::new();
    for i in 0..IDT_ENTRIES {
        assert!(!idt.entry(i).is_present());
        assert_eq!(idt.entry(i).handler_address(), 0);
    }
}

#[test]
fn set_handler_with_selector_fills_one_slot() {
    let mut idt = Idt::new();
    idt.set_handler_with_selector(5, 0x10, 0xdead_beef);
    assert!(idt.entry(5).is_present());
    assert_eq!(idt.entry(5).handler_address(), 0xdead_beef);
    assert_eq!(idt.entry(5).gdt_selector(), 0x10);
    assert!(!idt.entry(4).is_present());
    assert!(!idt.entry(6).is_present());
}

#[test]
fn set_handler_uses_the_running_code_segment() {
    let mut idt = Idt::new();
    idt.set_handler(3, 0x5000);
    assert!(idt.entry(3).is_present());
    assert_eq!(idt.entry(3).handler_address(), 0x5000);
    assert_ne!(idt.entry(3).gdt_selector(), 0);
}

#[test]
fn built_table_routes_the_four_vectors_and_leaves_the_rest_missing() {
    let h = handlers();
    let idt = build_idt(0x08, h);
    assert_eq!(idt.entry(0).handler_address(), h.divide_by_zero);
    assert_eq!(idt.entry(3).handler_address(), h.breakpoint);
    assert_eq!(idt.entry(6).handler_address(), h.invalid_opcode);
    assert_eq!(idt.entry(14).handler_address(), h.page_fault);
    for i in 0..IDT_ENTRIES {
        let e = idt.entry(i);
        if i == 0 || i == 3 || i == 6 || i == 14 {
            assert!(e.is_present());
            assert_eq!(e.gdt_selector(), 0x08);
        } else {
            assert!(!e.is_present());
        }
        if e.is_present() {
            assert_ne!(e.handler_address(), 0);
        }
    }
}

#[test]
fn init_builds_the_table_with_the_current_code_segment() {
    let idt = init(handlers());
    let selector = idt.entry(0).gdt_selector();
    for v in [0usize, 3, 6, 14] {
        assert!(idt.entry(v).is_present());
        assert_eq!(idt.entry(v).gdt_selector(), selector);
    }
    assert!(!idt.entry(1).is_present());
}

#[test]
fn breakpoint_resumes_and_faults_halt() {
    assert_eq!(disposition(BREAKPOINT), Some(TrapDisposition::Resume));
    assert_eq!(disposition(DIVIDE_BY_ZERO), Some(TrapDisposition::Halt));
    assert_eq!(disposition(INVALID_OPCODE), Some(TrapDisposition::Halt));
    assert_eq!(disposition(PAGE_FAULT), Some(TrapDisposition::Halt));
    assert_eq!(disposition(1), None);
}

#[test]
fn only_page_fault_of_the_handled_vectors_has_an_error_code() {
    assert!(has_error_code(PAGE_FAULT));
    assert!(!has_error_code(DIVIDE_BY_ZERO));
    assert!(!has_error_code(BREAKPOINT));
    assert!(!has_error_code(INVALID_OPCODE));
    assert!(has_error_code(8));
    assert!(has_error_code(13));
}

#[test]
fn page_fault_write_bit_decodes_as_write() {
    let frame = ExceptionStackFrame {
        instruction_pointer: 0x20_1000,
        code_segment: 0x08,
        cpu_flags: 0x202,
        stack_pointer: 0x7000,
        stack_segment: 0,
    };
    assert_eq!(frame.instruction_pointer, 0x20_1000);
    let f = PageFaultErrorCode::from_bits(0b10).unwrap();
    assert!(f.caused_by_write);
    assert!(!f.protection_violation);
    assert!(!f.user_mode);
    assert!(!f.malformed_table);
    assert!(!f.instruction_fetch);
    let g = PageFaultErrorCode::from_bits(0b10111).unwrap();
    assert!(g.caused_by_write && g.protection_violation && g.user_mode && g.instruction_fetch);
    assert!(!g.malformed_table);
}

#[test]
fn page_fault_unknown_bit_is_refused() {
    assert_eq!(PageFaultErrorCode::from_bits(0x20), None);
    assert_eq!(PageFaultErrorCode::from_bits(0x8002), None);
}

#[test]
fn page_fault_bits_round_trip() {
    for code in 0u64..32 {
        let f = PageFaultErrorCode::from_bits(code).unwrap();
        assert_eq!(f.bits(), code);
    }
}

#[test]
fn descriptor_bytes_follow_the_processor_layout() {
    let e = Entry::new(0x08, 0x1122_3344_5566_7788);
    assert_eq!(
        e.to_bytes(),
        vec![0x88, 0x77, 0x08, 0x00, 0x00, 0x8E, 0x66, 0x55, 0x44, 0x33, 0x22, 0x11, 0, 0, 0, 0]
    );
    assert_eq!(Entry::missing().to_bytes(), vec![0, 0, 0, 0, 0x00, 0x0E, 0, 0, 0, 0, 0, 0, 0, 0, 0, 0]);
}

#[test]
fn table_bytes_are_the_slots_in_order() {
    let idt = build_idt(0x08, handlers());
    let bytes = idt.to_bytes();
    assert_eq!(bytes.len(), IDT_ENTRIES * 16);
    for i in 0..IDT_ENTRIES {
        assert_eq!(bytes[i * 16..(i + 1) * 16].to_vec(), idt.entry(i).to_bytes());
    }
}
