//! Reading and writing of Tag-Type-Length-Value (TTLV) data, with every
//! function's behaviour stated as a contract and machine-checked.
//!
//! A TTLV item is a three byte tag, a one byte type, a four byte big-endian
//! length, and a value that is padded to a multiple of eight bytes. The
//! value of a structure is the items inside it.
//!
//! - [`types`] holds the header fields, the primitive values, and the state
//!   machine that keeps the fields of an item in order.
//! - [`item`], [`ser`] and [`de`] hold items as a tree, and write and read
//!   whole trees; [`roundtrip`] proves that what is written is read back.
//! - [`mapping`] holds the rules by which items are matched to the fields of
//!   a record and to one of several shapes that an item may have.
//! - [`error`] says what went wrong and where.
//! - [`reader`], [`wire`] and [`text`] are the ground that the others stand
//!   on: a cursor over bytes, big-endian numbers, and numbers as text.
//!
//! The library works on bytes in memory and does no input or output.

pub mod de;
pub mod error;
pub mod item;
pub mod mapping;
pub mod reader;
pub mod roundtrip;
pub mod ser;
pub mod text;
pub mod types;
pub mod wire;
