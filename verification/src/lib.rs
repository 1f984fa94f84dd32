//! An emulator for a small fictional 8-bit computer: two 8-bit accumulators,
//! a banked 64KB data memory, a separate 64KB program memory, a carry flag,
//! and a 16-bit program counter. The upper half of data memory doubles as a
//! packed-pixel framebuffer read by an external display driver.

pub mod cpu;
pub mod display;
