//! Loader and stack-based interpreter for compiled Daedalus script files.

pub mod bits;
pub mod file;
pub mod game_state;
pub mod instances;
pub mod object_allocator;
pub mod opcode;
pub mod sym_table;
pub mod symbol;
pub mod vm;
