//! A CHIP-8 virtual machine interpreter: a verified fetch-decode-execute
//! engine over a flat 4096-byte memory, a 64x32 XOR display bitmap, a
//! sixteen-key keypad and two countdown timers. Every instruction's effect
//! on the engine state is stated as a pure step function and proved of the
//! executable handlers. Rendering, input-event translation and audio output
//! live outside the library, fed through plain-value interfaces.

pub mod cpu;
pub mod display;
pub mod instruction;
pub mod keyboard;
pub mod memory;
pub mod opcode;
pub mod registers;
