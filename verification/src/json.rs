//! The JSON wire format of the registrar's protocol.
//!
//! One physical JSON body can carry two logical shapes (a success
//! envelope or a failure envelope), so the protocol layers decode in two
//! steps: the text is first parsed into a [`value::Json`] tree, and the
//! envelope decoders then read that tree.  The grammar lives here as a
//! specification-level parser; the executable parser and printer are
//! proved against it.

pub mod parse;
pub mod roundtrip;
pub mod print;
pub mod value;
