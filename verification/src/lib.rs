//! A small byte-code machine whose program memory is scrambled by a key, with
//! its instruction set, its memory, its interpreter and a debugger front end.
#![allow(non_snake_case)]
#![allow(non_camel_case_types)]

pub mod debugger;
pub mod machine;
pub mod opcode;
pub mod ops;
pub mod ram;
pub mod secure;
pub mod text;
