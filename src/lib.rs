//! State and decisions of two small terminal programs: a counter driven by the
//! arrow keys, and a key-value editor that writes its entries as JSON.
//!
//! The terminal itself (raw mode, drawing, reading events) stays with the
//! caller: the library takes each event as a plain value and says what the
//! program does next.

pub mod counter;
pub mod editor;
