//! Address-annotated hexadecimal dumps of binary data, for 8-bit systems.
//!
//! A dump shows a file line by line: the 16-bit address of the line's first
//! byte, the bytes in hexadecimal and, in the standard layout, the bytes as
//! characters. The address of the first byte, the origin, is zero, a 16-bit
//! number given in hexadecimal, or the number that the file holds in its
//! first two bytes.
//!
//! [`line`] draws one line, [`origin`] reads the origin, [`dumper`] cuts a
//! stream of bytes into lines as they arrive, [`dump`] says what the lines of
//! a whole stream are, [`run`] puts these together, and [`laws`] proves what
//! holds of every dump. [`hex`] and [`layout`] hold the digits and the
//! layouts.

pub mod dump;
pub mod dumper;
pub mod hex;
pub mod laws;
pub mod layout;
pub mod line;
pub mod origin;
pub mod run;
