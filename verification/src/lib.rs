//! Streaming encoder for `multipart/form-data` request bodies.
//!
//! A [`Multipart`](fields::Multipart) value collects named fields — plain
//! text values and file uploads — in insertion order, together with a
//! randomly generated boundary token.  The encoder turns the collection
//! into an ordered emission plan of body chunks: literal text to write on
//! the wire, interleaved with markers for file contents that the caller
//! streams from its own open handles.  Every formatting rule of the wire
//! format (boundary lines, `Content-Disposition` headers, CRLF line
//! endings) is stated as a specification and proved of the executable
//! code.

pub mod boundary;
pub mod encode;
pub mod fields;
pub mod laws;
pub mod mime_type;
