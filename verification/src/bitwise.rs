pub mod columns;
pub mod stark;
