use custom_os::interrupts::{
    breakpoint_handler, dispatch, init_idt, HandlerId, Idt, IdtEntry, Outcome, Trap, TrapFrame,
    BREAKPOINT_VECTOR, DOUBLE_FAULT_IST_INDEX, DOUBLE_FAULT_VECTOR,
};
use custom_os::vga_buffer::{Color, Writer};

fn sample_frame() -> TrapFrame {
    TrapFrame {
        instruction_pointer: 0xDEAD_BEEF,
        code_segment: 0x8,
        cpu_flags: 0x202,
        stack_pointer: 0x5_7AC4,
        stack_segment: 0x10,
    }
}

fn row_text(w: &Writer, row: usize, len: usize) -> Vec<u8> {
    (0..len).map(|col| w.cell_at(row, col).ascii_char).collect()
}

#[test]
fn init_idt_binds_both_vectors_and_loads() {
    let idt = init_idt();
    assert!(idt.is_loaded());
    assert_eq!(
        idt.entry_at(BREAKPOINT_VECTOR),
        Some(IdtEntry {
            handler: HandlerId::Breakpoint,
            stack_index: None,
        })
    );
    assert_eq!(
        idt.entry_at(DOUBLE_FAULT_VECTOR),
        Some(IdtEntry {
            handler: HandlerId::DoubleFault,
            stack_index: Some(DOUBLE_FAULT_IST_INDEX),
        })
    );
    assert_eq!(idt.entry_at(0), None);
    assert_eq!(idt.entry_at(255), None);
}

#[test]
fn double_fault_vector_always_carries_the_fault_stack() {
    let idt = init_idt();
    let entry = idt.entry_at(DOUBLE_FAULT_VECTOR).unwrap();
    assert_eq!(entry.stack_index, Some(DOUBLE_FAULT_IST_INDEX));
}

#[test]
fn table_starts_unloaded_and_load_is_terminal() {
    let mut idt = Idt::new();
    assert!(!idt.is_loaded());
    idt.register(BREAKPOINT_VECTOR, HandlerId::Breakpoint, None);
    idt.load();
    assert!(idt.is_loaded());
    idt.load();
    assert!(idt.is_loaded());
    assert_eq!(
        idt.entry_at(BREAKPOINT_VECTOR),
        Some(IdtEntry {
            handler: HandlerId::Breakpoint,
            stack_index: None,
        })
    );
}

#[test]
fn breakpoint_dispatch_resumes_with_frame_intact() {
    let idt = init_idt();
    let mut w = Writer::new(Color::Yellow, Color::Black);
    let frame = sample_frame();
    let before = frame;
    let outcome = dispatch(&idt, &mut w, Trap::Breakpoint, &frame);
    assert_eq!(outcome, Outcome::Resume);
    assert_eq!(frame, before);
    // Six report lines were written and scrolled into place.
    assert_eq!(row_text(&w, 18, 21), b"EXCEPTION: BREAKPOINT");
    assert_eq!(row_text(&w, 19, 22), b"RIP=0x00000000DEADBEEF");
    assert_eq!(row_text(&w, 20, 22), b"RSP=0x0000000000057AC4");
    assert_eq!(row_text(&w, 21, 25), b"RFLAGS=0x0000000000000202");
    assert_eq!(row_text(&w, 22, 21), b"CS=0x0000000000000008");
    assert_eq!(row_text(&w, 23, 21), b"SS=0x0000000000000010");
    assert_eq!(w.column(), 0);
}

#[test]
fn double_fault_dispatch_halts_deterministically() {
    let idt = init_idt();
    let mut w = Writer::new(Color::Yellow, Color::Black);
    let frame = sample_frame();
    let outcome = dispatch(&idt, &mut w, Trap::DoubleFault { error_code: 0 }, &frame);
    assert_eq!(outcome, Outcome::Halt);
    assert_eq!(row_text(&w, 18, 23), b"EXCEPTION: DOUBLE FAULT");
    assert_eq!(row_text(&w, 19, 22), b"RIP=0x00000000DEADBEEF");
}

#[test]
fn breakpoint_handler_reports_and_returns() {
    let mut w = Writer::new(Color::Yellow, Color::Black);
    let frame = TrapFrame {
        instruction_pointer: 0,
        code_segment: 0,
        cpu_flags: 0,
        stack_pointer: 0,
        stack_segment: 0,
    };
    breakpoint_handler(&mut w, &frame);
    assert_eq!(row_text(&w, 19, 22), b"RIP=0x0000000000000000");
}
