pub mod bitshift;
pub mod bitwise;
pub mod io_memory;
pub mod memory;
pub mod program;
pub mod rangecheck;
