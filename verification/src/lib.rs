//! Layout, signature and calling-convention logic for dynamic calls into C code.

pub mod layout;
pub mod ctype;
pub mod abi;
pub mod call;
