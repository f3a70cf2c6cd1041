//! A verified renderer for a constrained subset of C `printf` formatting.
//!
//! The format text is walked left to right; literal bytes are copied verbatim,
//! and each `%...` directive is scanned (flags, width, precision, conversion
//! letter) and rendered.  Supported conversions are signed and unsigned
//! integers in octal, decimal and hexadecimal with alternate-form prefixes,
//! sign and padding rules, precision-bounded strings, single characters and
//! pointers.  Arguments are consumed in order from an [`args::ArgumentCursor`],
//! a typed, order-preserving reader over the caller's list of values.

pub mod args;
pub mod ascii;
pub mod errors;
pub mod numfmt;
pub mod scan;
pub mod strfmt;
pub mod convert;
pub mod laws;
pub mod sink;

pub use args::ArgValue;
pub use args::ArgumentCursor;
pub use convert::render_to_vec;
pub use errors::FmtError;
pub use numfmt::Base;
pub use sink::render;
pub use sink::BoundedSink;
pub use sink::OutputSink;
pub use sink::VecSink;
