pub mod columns;
