//! The encryption envelope that turns a text into a machine code and back.

pub mod aes;
