//! The data that frames display.

pub mod internal;
