//! A 65C02 emulator core with the peripherals of a small C64-like machine:
//! the CPU and its address decoder, the memory bus with mapped devices,
//! the VIC-II control registers and the drawing of its text screen, the
//! CIA1 timers and keyboard matrix,
//! the serial ACIA used by Wozmon, and a first-fit heap over a 64K arena.
pub mod cpu6502;
pub mod heap;
pub mod video;
