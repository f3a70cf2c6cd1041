use vstd::prelude::*;
use vstd::slice::slice_subrange;

use crate::ascii::SPACE;
use crate::errors::FmtError;
use crate::numfmt::push_all;
use crate::numfmt::push_repeat;
use crate::numfmt::spec_repeat;
use crate::scan::FormatParameters;

verus! {

/// Whether a byte sequence is valid UTF-8 text.
pub uninterp spec fn utf8_valid(bytes: Seq<u8>) -> bool;

/// Relies on core::str::from_utf8, which returns `Ok` exactly when the byte
/// slice is valid UTF-8; the answer depends on the bytes alone.
#[verifier::external_body]
fn check_utf8(bytes: &[u8]) -> (r: bool)
    ensures
        r == utf8_valid(bytes@),
{
    core::str::from_utf8(bytes).is_ok()
}

/// The index of the first zero byte of `b` at or after `i` and before
/// `limit`, or `limit` itself when there is none.
pub open spec fn spec_span_end(b: Seq<u8>, limit: int, i: int) -> int
    recommends
        0 <= i <= limit <= b.len(),
    decreases limit - i,
{
    if i < 0 || i >= limit {
        limit
    } else if b[i] == 0 {
        i
    } else {
        spec_span_end(b, limit, i + 1)
    }
}

/// The byte span a string conversion reads from the buffer `b`: at most
/// `precision` bytes when a precision caps the read, otherwise up to the
/// first zero byte; a zero byte always ends the span, and so does the end of
/// the buffer.
pub open spec fn spec_str_span(b: Seq<u8>, precision: Option<usize>) -> Seq<u8> {
    let limit = match precision {
        Some(p) => if p <= b.len() {
            p as int
        } else {
            b.len() as int
        },
        None => b.len() as int,
    };
    b.take(spec_span_end(b, limit, 0))
}

/// The rendering of a string conversion whose span is valid text: the span,
/// padded with spaces to the minimum width (the zero-pad flag does not affect
/// strings), on the left unless left-justified.
pub open spec fn spec_string_render(
    b: Seq<u8>,
    precision: Option<usize>,
    width: int,
    justify_left: bool,
) -> Seq<u8> {
    let span = spec_str_span(b, precision);
    let pad = spec_repeat(SPACE, width - span.len());
    if justify_left {
        span + pad
    } else {
        pad + span
    }
}

/// Renders a string argument held in `bytes`: reads its span (bounded by the
/// precision even when no terminating zero byte is present), demands that the
/// span be valid UTF-8, and pads it with spaces to the minimum width.  On an
/// invalid encoding nothing is written.
pub(crate) fn print_string(out: &mut Vec<u8>, bytes: &Vec<u8>, params: FormatParameters) -> (r:
    Result<(), FmtError>)
    ensures
        match r {
            Ok(()) => {
                &&& utf8_valid(spec_str_span(bytes@, params.precision))
                &&& final(out)@ == old(out)@ + spec_string_render(
                    bytes@,
                    params.precision,
                    (match params.minimum_width {
                        Some(w) => w as int,
                        None => 0,
                    }),
                    params.justify_left,
                )
            },
            Err(e) => {
                &&& e == FmtError::InvalidEncoding
                &&& !utf8_valid(spec_str_span(bytes@, params.precision))
                &&& final(out)@ == old(out)@
            },
        },
{
    let limit = match params.precision {
        Some(p) => if p < bytes.len() {
            p
        } else {
            bytes.len()
        },
        None => bytes.len(),
    };
    let mut n: usize = 0;
    while n < limit && bytes[n] != 0
        invariant
            n <= limit <= bytes@.len(),
            spec_span_end(bytes@, limit as int, 0) == spec_span_end(bytes@, limit as int, n as int),
        decreases limit - n,
    {
        n = n + 1;
    }
    proof {
        assert(spec_span_end(bytes@, limit as int, n as int) == n as int);
    }
    let span = slice_subrange(bytes.as_slice(), 0, n);
    proof {
        assert(span@ =~= spec_str_span(bytes@, params.precision));
    }
    if !check_utf8(span) {
        return Err(FmtError::InvalidEncoding);
    }
    let width = match params.minimum_width {
        Some(w) => w,
        None => 0,
    };
    let pad = width.saturating_sub(n);
    let ghost pad_s = spec_repeat(SPACE, width - span@.len());
    proof {
        assert(pad_s == spec_repeat(SPACE, pad as int));
    }
    if !params.justify_left {
        push_repeat(out, SPACE, pad);
    }
    let ghost s1 = out@;
    push_all(out, span);
    if params.justify_left {
        push_repeat(out, SPACE, pad);
        proof {
            assert(out@ =~= old(out)@ + (span@ + pad_s));
        }
    } else {
        proof {
            assert(out@ =~= old(out)@ + (pad_s + span@));
        }
    }
    Ok(())
}

} // verus!
