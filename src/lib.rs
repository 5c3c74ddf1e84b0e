//! Decoder for a binary class description and a small stack-machine
//! interpreter that runs one of its methods.

pub mod class;
pub mod instruction;
pub mod operand_stack;
pub mod reader;
pub mod vm;
