use vstd::prelude::*;

verus! {

/// Why a render call failed.  Every failure aborts the whole call: there is no
/// meaningful partial result, and any output already produced is unusable.
#[derive(Clone, Copy, Debug, PartialEq, Eq, Structural)]
pub enum FmtError {
    /// The format text ended right after a `%` with no conversion letter, or
    /// the conversion letter is not one this renderer knows.
    MalformedFormatString,
    /// A floating-point conversion letter, a length modifier, or the
    /// bytes-written conversion was encountered; these are rejected rather
    /// than silently mis-rendered.
    UnsupportedConversion,
    /// A dynamically supplied precision value was negative.
    InvalidPrecision,
    /// The selected bytes of a string argument are not valid UTF-8.
    InvalidEncoding,
    /// The argument cursor could not supply a value of the requested kind:
    /// either it was empty, or the slot holds a value of another kind (a
    /// format/argument mismatch that native `printf` could not even detect).
    ArgumentExhausted,
    /// The output destination rejected the write.
    SinkFailure,
}

} // verus!
