//! The interrupt-vector-table model and the exception handlers.
//!
//! The table is held as plain data: a vector-indexed array of entries,
//! each naming a handler and optionally the alternate-stack slot the
//! CPU must switch to before running it. The binary that owns the real
//! descriptor table mirrors this state and performs the privileged
//! load; the handlers here do everything the real ones do short of the
//! trap-entry wiring: they render the diagnostic report into the text
//! writer and decide whether the interrupted code resumes.

use vstd::prelude::*;

use crate::vga_buffer::{Writer, write_seq_s};

verus! {

/// The hardware vector of the breakpoint exception.
pub const BREAKPOINT_VECTOR: u8 = 3;

/// The hardware vector of the double-fault exception.
pub const DOUBLE_FAULT_VECTOR: u8 = 8;

/// The alternate-stack slot reserved for double-fault delivery.
pub const DOUBLE_FAULT_IST_INDEX: u16 = 0;

/// Number of vectors the table covers.
pub const IDT_ENTRIES: usize = 256;

/// Size in bytes of the dedicated fault stack: enough for the
/// worst-case call depth of the double-fault handler.
pub const FAULT_STACK_SIZE: usize = 4096 * 5;

/// A snapshot of the interrupted execution state, as the CPU pushes it
/// on exception entry.
#[derive(Clone, Copy, Debug, PartialEq, Eq, Structural)]
pub struct TrapFrame {
    pub instruction_pointer: u64,
    pub code_segment: u64,
    pub cpu_flags: u64,
    pub stack_pointer: u64,
    pub stack_segment: u64,
}

/// The handlers this kernel installs.
#[derive(Clone, Copy, Debug, PartialEq, Eq, Structural)]
pub enum HandlerId {
    Breakpoint,
    DoubleFault,
}

/// One vector's binding: which handler runs, and on which alternate
/// stack (if any) the CPU must deliver it.
#[derive(Clone, Copy, Debug, PartialEq, Eq)]
pub struct IdtEntry {
    pub handler: HandlerId,
    pub stack_index: Option<u16>,
}

/// The interrupt vector table: built once, loaded once, read-only
/// thereafter.
pub struct Idt {
    entries: Vec<Option<IdtEntry>>,
    loaded: bool,
}

impl Idt {
    /// The binding of one vector.
    pub closed spec fn spec_entry(self, vector: int) -> Option<IdtEntry> {
        self.entries@[vector]
    }

    /// Whether the table has been made authoritative for dispatch.
    pub closed spec fn spec_loaded(self) -> bool {
        self.loaded
    }

    /// The table's invariant: one entry per vector, and the
    /// double-fault vector, if bound at all, always carries both its
    /// handler and the dedicated fault-stack slot.
    pub closed spec fn wf(self) -> bool {
        &&& self.entries@.len() == IDT_ENTRIES
        &&& (self.entries@[DOUBLE_FAULT_VECTOR as int] matches Some(e) ==> e.handler
            == HandlerId::DoubleFault && e.stack_index == Some(DOUBLE_FAULT_IST_INDEX))
    }

    /// An empty, unloaded table.
    pub fn new() -> (idt: Idt)
        ensures
            idt.wf(),
            !idt.spec_loaded(),
            forall|v: int| 0 <= v < IDT_ENTRIES ==> idt.spec_entry(v) is None,
    {
        let mut entries: Vec<Option<IdtEntry>> = Vec::new();
        let mut i: usize = 0;
        while i < IDT_ENTRIES
            invariant
                i <= IDT_ENTRIES,
                entries@.len() == i,
                forall|j: int| 0 <= j < i ==> entries@[j] is None,
            decreases IDT_ENTRIES - i,
        {
            entries.push(None);
            i += 1;
        }
        Idt { entries, loaded: false }
    }

    /// Binds a vector to a handler, optionally with an alternate-stack
    /// slot. The double-fault vector must carry its handler and the
    /// dedicated fault-stack slot — omitting that binding would defeat
    /// the whole mechanism. Only an unloaded table can be changed.
    pub fn register(&mut self, vector: u8, handler: HandlerId, stack_index: Option<u16>)
        requires
            old(self).wf(),
            !old(self).spec_loaded(),
            vector == DOUBLE_FAULT_VECTOR ==> handler == HandlerId::DoubleFault && stack_index
                == Some(DOUBLE_FAULT_IST_INDEX),
        ensures
            final(self).wf(),
            !final(self).spec_loaded(),
            final(self).spec_entry(vector as int) == Some(IdtEntry { handler, stack_index }),
            forall|v: int|
                0 <= v < IDT_ENTRIES && v != vector ==> final(self).spec_entry(v) == old(
                    self,
                ).spec_entry(v),
    {
        self.entries[vector as usize] = Some(IdtEntry { handler, stack_index });
    }

    /// Makes the table authoritative for dispatch. Terminal: there is
    /// no unload transition, and loading again changes nothing.
    pub fn load(&mut self)
        requires
            old(self).wf(),
        ensures
            final(self).wf(),
            final(self).spec_loaded(),
            forall|v: int|
                0 <= v < IDT_ENTRIES ==> final(self).spec_entry(v) == old(self).spec_entry(v),
    {
        self.loaded = true;
    }

    /// Whether the table has been loaded.
    pub fn is_loaded(&self) -> (b: bool)
        ensures
            b == self.spec_loaded(),
    {
        self.loaded
    }

    /// The binding of one vector.
    pub fn entry_at(&self, vector: u8) -> (e: Option<IdtEntry>)
        requires
            self.wf(),
        ensures
            e == self.spec_entry(vector as int),
    {
        self.entries[vector as usize]
    }
}

/// Law: a well-formed table can never hold the double-fault vector
/// without the dedicated fault-stack binding; dispatching that vector
/// therefore always switches to the fault stack.
pub proof fn lemma_double_fault_binding(idt: Idt)
    requires
        idt.wf(),
        idt.spec_entry(DOUBLE_FAULT_VECTOR as int) is Some,
    ensures
        idt.spec_entry(DOUBLE_FAULT_VECTOR as int) matches Some(e) && e.handler
            == HandlerId::DoubleFault && e.stack_index == Some(DOUBLE_FAULT_IST_INDEX),
{
}

/// Builds the kernel's table — breakpoint handler on its vector, the
/// double-fault handler bound to the dedicated fault stack — and loads
/// it.
pub fn init_idt() -> (idt: Idt)
    ensures
        idt.wf(),
        idt.spec_loaded(),
        idt.spec_entry(BREAKPOINT_VECTOR as int) == Some(
            IdtEntry { handler: HandlerId::Breakpoint, stack_index: None },
        ),
        idt.spec_entry(DOUBLE_FAULT_VECTOR as int) == Some(
            IdtEntry {
                handler: HandlerId::DoubleFault,
                stack_index: Some(DOUBLE_FAULT_IST_INDEX),
            },
        ),
        forall|v: int|
            0 <= v < IDT_ENTRIES && v != BREAKPOINT_VECTOR && v != DOUBLE_FAULT_VECTOR
                ==> idt.spec_entry(v) is None,
{
    let mut idt = Idt::new();
    idt.register(BREAKPOINT_VECTOR, HandlerId::Breakpoint, None);
    idt.register(DOUBLE_FAULT_VECTOR, HandlerId::DoubleFault, Some(DOUBLE_FAULT_IST_INDEX));
    idt.load();
    idt
}

/// The ASCII digit for one hex nibble, upper case.
pub open spec fn hex_digit(n: u8) -> u8 {
    if n < 10 {
        (48 + n) as u8
    } else {
        (55 + n) as u8
    }
}

/// A 64-bit value as sixteen hex digits, most significant first.
pub open spec fn hex16(v: u64) -> Seq<u8> {
    Seq::new(16, |i: int| hex_digit(((v >> (((15 - i) * 4) as u64)) & 0xf) as u8))
}

/// Appends the sixteen hex digits of `v`.
fn push_hex16(out: &mut Vec<u8>, v: u64)
    ensures
        final(out)@ == old(out)@ + hex16(v),
{
    let ghost prefix = out@;
    let mut k: usize = 0;
    while k < 16
        invariant
            k <= 16,
            out@ == prefix + hex16(v).take(k as int),
        decreases 16 - k,
    {
        let shift: u64 = (15 - k as u64) * 4;
        let nib: u64 = (v >> shift) & 0xf;
        assert(nib < 16) by (bit_vector)
            requires
                nib == (v >> shift) & 0xf,
        ;
        let d: u8 = if nib < 10 {
            (48 + nib) as u8
        } else {
            (55 + nib) as u8
        };
        proof {
            assert(shift == (((15 - (k as int)) * 4) as u64));
            assert(d == hex_digit(((v >> shift) & 0xf) as u8));
            assert(d == hex16(v)[k as int]);
            assert(hex16(v).take(k as int + 1) =~= hex16(v).take(k as int).push(
                hex16(v)[k as int],
            ));
        }
        out.push(d);
        k += 1;
    }
    proof {
        assert(hex16(v).take(16) =~= hex16(v));
    }
}

/// The heading of the breakpoint report.
pub open spec fn breakpoint_label() -> Seq<u8> {
    // "EXCEPTION: BREAKPOINT\n"
    seq![
        69u8, 88, 67, 69, 80, 84, 73, 79, 78, 58, 32, 66, 82, 69, 65, 75, 80, 79, 73, 78, 84, 10,
    ]
}

/// The heading of the double-fault report.
pub open spec fn double_fault_label() -> Seq<u8> {
    // "EXCEPTION: DOUBLE FAULT\n"
    seq![
        69u8, 88, 67, 69, 80, 84, 73, 79, 78, 58, 32, 68, 79, 85, 66, 76, 69, 32, 70, 65, 85, 76,
        84, 10,
    ]
}

/// One line of the frame report: a label, sixteen hex digits, newline.
pub open spec fn hex_line(label: Seq<u8>, v: u64) -> Seq<u8> {
    label + hex16(v) + seq![10u8]
}

/// The interrupted-state snapshot rendered as five labelled hex lines:
/// instruction pointer, stack pointer, flags, code and stack segment.
pub open spec fn frame_lines(f: TrapFrame) -> Seq<u8> {
    hex_line(seq![82u8, 73, 80, 61, 48, 120], f.instruction_pointer)  // "RIP=0x"
     + hex_line(seq![82u8, 83, 80, 61, 48, 120], f.stack_pointer)  // "RSP=0x"
     + hex_line(seq![82u8, 70, 76, 65, 71, 83, 61, 48, 120], f.cpu_flags)  // "RFLAGS=0x"
     + hex_line(seq![67u8, 83, 61, 48, 120], f.code_segment)  // "CS=0x"
     + hex_line(seq![83u8, 83, 61, 48, 120], f.stack_segment)  // "SS=0x"

}

/// The full breakpoint report.
pub open spec fn breakpoint_report(f: TrapFrame) -> Seq<u8> {
    breakpoint_label() + frame_lines(f)
}

/// The full double-fault report.
pub open spec fn double_fault_report(f: TrapFrame) -> Seq<u8> {
    double_fault_label() + frame_lines(f)
}

/// Renders the five labelled hex lines of a frame snapshot.
fn push_frame_lines(out: &mut Vec<u8>, frame: &TrapFrame)
    ensures
        final(out)@ == old(out)@ + frame_lines(*frame),
{
    let ghost prefix = out@;
    out.push(82);
    out.push(73);
    out.push(80);
    out.push(61);
    out.push(48);
    out.push(120);
    push_hex16(out, frame.instruction_pointer);
    out.push(10);
    let ghost line1 = hex_line(seq![82u8, 73, 80, 61, 48, 120], frame.instruction_pointer);
    proof {
        assert(out@ =~= prefix + line1);
    }
    out.push(82);
    out.push(83);
    out.push(80);
    out.push(61);
    out.push(48);
    out.push(120);
    push_hex16(out, frame.stack_pointer);
    out.push(10);
    let ghost line2 = hex_line(seq![82u8, 83, 80, 61, 48, 120], frame.stack_pointer);
    proof {
        assert(out@ =~= prefix + line1 + line2);
    }
    out.push(82);
    out.push(70);
    out.push(76);
    out.push(65);
    out.push(71);
    out.push(83);
    out.push(61);
    out.push(48);
    out.push(120);
    push_hex16(out, frame.cpu_flags);
    out.push(10);
    let ghost line3 = hex_line(seq![82u8, 70, 76, 65, 71, 83, 61, 48, 120], frame.cpu_flags);
    proof {
        assert(out@ =~= prefix + line1 + line2 + line3);
    }
    out.push(67);
    out.push(83);
    out.push(61);
    out.push(48);
    out.push(120);
    push_hex16(out, frame.code_segment);
    out.push(10);
    let ghost line4 = hex_line(seq![67u8, 83, 61, 48, 120], frame.code_segment);
    proof {
        assert(out@ =~= prefix + line1 + line2 + line3 + line4);
    }
    out.push(83);
    out.push(83);
    out.push(61);
    out.push(48);
    out.push(120);
    push_hex16(out, frame.stack_segment);
    out.push(10);
    let ghost line5 = hex_line(seq![83u8, 83, 61, 48, 120], frame.stack_segment);
    proof {
        assert(out@ =~= prefix + line1 + line2 + line3 + line4 + line5);
        assert(out@ =~= prefix + frame_lines(*frame));
    }
}

/// What a handler decides about the interrupted context.
#[derive(Clone, Copy, Debug, PartialEq, Eq, Structural)]
pub enum Outcome {
    /// The interrupted code continues at the instruction after the
    /// trap point, unmodified.
    Resume,
    /// The context is over: the machine halts (or, under a test
    /// harness, signals a defined exit).
    Halt,
}

/// The breakpoint handler: reports the interrupted-state snapshot and
/// returns, leaving the snapshot untouched so the interrupted code
/// resumes unmodified.
pub fn breakpoint_handler(writer: &mut Writer, frame: &TrapFrame)
    requires
        old(writer).wf(),
    ensures
        final(writer).wf(),
        final(writer)@ == write_seq_s(old(writer)@, breakpoint_report(*frame)),
{
    let mut msg: Vec<u8> = Vec::new();
    msg.push(69);
    msg.push(88);
    msg.push(67);
    msg.push(69);
    msg.push(80);
    msg.push(84);
    msg.push(73);
    msg.push(79);
    msg.push(78);
    msg.push(58);
    msg.push(32);
    msg.push(66);
    msg.push(82);
    msg.push(69);
    msg.push(65);
    msg.push(75);
    msg.push(80);
    msg.push(79);
    msg.push(73);
    msg.push(78);
    msg.push(84);
    msg.push(10);
    proof {
        assert(msg@ =~= breakpoint_label());
    }
    push_frame_lines(&mut msg, frame);
    proof {
        assert(msg@ =~= breakpoint_report(*frame));
    }
    writer.write_string(msg.as_slice());
}

/// The double-fault handler: reports the interrupted-state snapshot
/// and declares the context over — it never hands control back to the
/// interrupted code.
pub fn double_fault_handler(writer: &mut Writer, frame: &TrapFrame, _error_code: u64) -> (o:
    Outcome)
    requires
        old(writer).wf(),
    ensures
        final(writer).wf(),
        final(writer)@ == write_seq_s(old(writer)@, double_fault_report(*frame)),
        o == Outcome::Halt,
{
    let mut msg: Vec<u8> = Vec::new();
    msg.push(69);
    msg.push(88);
    msg.push(67);
    msg.push(69);
    msg.push(80);
    msg.push(84);
    msg.push(73);
    msg.push(79);
    msg.push(78);
    msg.push(58);
    msg.push(32);
    msg.push(68);
    msg.push(79);
    msg.push(85);
    msg.push(66);
    msg.push(76);
    msg.push(69);
    msg.push(32);
    msg.push(70);
    msg.push(65);
    msg.push(85);
    msg.push(76);
    msg.push(84);
    msg.push(10);
    proof {
        assert(msg@ =~= double_fault_label());
    }
    push_frame_lines(&mut msg, frame);
    proof {
        assert(msg@ =~= double_fault_report(*frame));
    }
    writer.write_string(msg.as_slice());
    Outcome::Halt
}

/// A fault as delivered by the hardware: which exception fired, with
/// the error code the CPU pushes for some of them.
#[derive(Clone, Copy, Debug, PartialEq, Eq, Structural)]
pub enum Trap {
    Breakpoint,
    DoubleFault { error_code: u64 },
}

/// The vector a trap is delivered on.
pub open spec fn vector_of(t: Trap) -> u8 {
    match t {
        Trap::Breakpoint => BREAKPOINT_VECTOR,
        Trap::DoubleFault { .. } => DOUBLE_FAULT_VECTOR,
    }
}

/// Dispatches a trap through the loaded table, exactly as the hardware
/// does: the entry registered for the trap's vector decides which
/// handler runs. A breakpoint resumes the interrupted code; a double
/// fault never does.
pub fn dispatch(idt: &Idt, writer: &mut Writer, trap: Trap, frame: &TrapFrame) -> (o: Outcome)
    requires
        idt.wf(),
        idt.spec_loaded(),
        old(writer).wf(),
        idt.spec_entry(vector_of(trap) as int) is Some,
    ensures
        final(writer).wf(),
        ({
            let e = idt.spec_entry(vector_of(trap) as int)->Some_0;
            &&& (e.handler == HandlerId::Breakpoint ==> o == Outcome::Resume && final(writer)@
                == write_seq_s(old(writer)@, breakpoint_report(*frame)))
            &&& (e.handler == HandlerId::DoubleFault ==> o == Outcome::Halt && final(writer)@
                == write_seq_s(old(writer)@, double_fault_report(*frame)))
        }),
{
    let vector = match trap {
        Trap::Breakpoint => BREAKPOINT_VECTOR,
        Trap::DoubleFault { .. } => DOUBLE_FAULT_VECTOR,
    };
    match idt.entry_at(vector) {
        Some(entry) => match entry.handler {
            HandlerId::Breakpoint => {
                breakpoint_handler(writer, frame);
                Outcome::Resume
            },
            HandlerId::DoubleFault => {
                let error_code = match trap {
                    Trap::DoubleFault { error_code } => error_code,
                    Trap::Breakpoint => 0,
                };
                double_fault_handler(writer, frame, error_code)
            },
        },
        None => {
            proof {
                assert(false);
            }
            Outcome::Halt
        },
    }
}

} // verus!
