//! An LC-3 processor and the state of a workbench that assembles programs
//! into it and runs them, with the processor's behaviour stated and proved
//! instruction by instruction.

pub mod cpu;
pub mod isa;
pub mod lc3_app;
pub mod machine;
pub mod program;
pub mod semantics;
pub mod views;
pub mod word;
