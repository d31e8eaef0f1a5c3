//! Early-boot core of a minimal kernel: the memory-mapped text-output
//! driver's state machine and the interrupt-vector-table model with its
//! exception handlers.
//!
//! Everything here is plain data and verified logic. The hardware edges
//! (the volatile stores into device memory, the global writer behind a
//! spin lock, and the trap-entry wiring) live in the surrounding binary,
//! which drives these functions and mirrors their state onto the device.

pub mod interrupts;
pub mod vga_buffer;
