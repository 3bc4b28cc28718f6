//! Early-boot kernel loading and trap-table construction, with verified contracts.

pub mod bits;
pub mod idt;
pub mod interrupts;
pub mod loader;
pub mod memmap;
