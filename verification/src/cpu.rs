pub mod add;
pub mod bitwise;
pub mod branches;
pub mod columns;
pub mod jalr;
pub mod stark;
pub mod sub;
