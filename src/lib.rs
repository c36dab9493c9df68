//! A CHIP-8 virtual machine: memory, stack, registers, framebuffer, keypad and the
//! fetch/decode/execute cycle, with every instruction's effect stated as a contract.
pub mod display;
pub mod instructions;
pub mod keypad;
pub mod memory;
pub mod vm;
pub mod theorems;
