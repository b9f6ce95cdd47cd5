//! Device binding: a typed registry of what a host says of itself, and the
//! machine code that ties a licence to the host it was issued for.
//!
//! - `key` says what a key space is; `builder`, `windows` and `macos`
//!   define the three key spaces and the builders that fill a registry.
//! - `internal` holds the registry itself, a map in which a key occurs
//!   once, and `order` the one order in which its entries are listed.
//! - `document` writes a listing as a text block or a JSON document and
//!   reads a document back.
//! - `crypto` seals a text into a machine code and opens it again;
//!   `encryption` makes a one-way fingerprint instead.
//! - `protocol` issues a machine code for a registry and checks one against
//!   the registry of the host at hand.
//! - `platform` asks the running system, `string_tools` cleans what it
//!   answers, `error` names what can go wrong.

pub mod builder;
pub mod crypto;
pub mod document;
pub mod encryption;
pub mod error;
pub mod internal;
pub mod key;
pub mod macos;
pub mod order;
pub mod platform;
pub mod protocol;
pub mod string_tools;
pub mod windows;
