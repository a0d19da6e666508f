//! Domain kernel: closed algebras, value objects and error classes.

pub mod command;
pub mod error;
pub mod json;
pub mod observation;
pub mod supplemental;
pub mod types;
pub mod values;
