//! A CHIP-8 virtual machine core: machine state, instruction decoder and
//! executor, the monochrome display surface, and the per-frame driver.
pub mod cpu;
pub mod driver;
pub mod exec;
pub mod instruction;
pub mod laws;
pub mod recent;
pub mod window;
