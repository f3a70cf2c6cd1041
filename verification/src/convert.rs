use vstd::prelude::*;

use crate::args::ArgV;
use crate::args::ArgumentCursor;
use crate::ascii::DIGIT_ZERO;
use crate::ascii::DOT;
use crate::ascii::LOWER_A;
use crate::ascii::LOWER_C;
use crate::ascii::LOWER_D;
use crate::ascii::LOWER_E;
use crate::ascii::LOWER_F;
use crate::ascii::LOWER_G;
use crate::ascii::LOWER_H;
use crate::ascii::LOWER_I;
use crate::ascii::LOWER_J;
use crate::ascii::LOWER_L;
use crate::ascii::LOWER_N;
use crate::ascii::LOWER_O;
use crate::ascii::LOWER_P;
use crate::ascii::LOWER_S;
use crate::ascii::LOWER_T;
use crate::ascii::LOWER_U;
use crate::ascii::LOWER_X;
use crate::ascii::LOWER_Z;
use crate::ascii::PERCENT;
use crate::ascii::SPACE;
use crate::ascii::UPPER_A;
use crate::ascii::UPPER_E;
use crate::ascii::UPPER_F;
use crate::ascii::UPPER_G;
use crate::ascii::UPPER_L;
use crate::ascii::UPPER_X;
use crate::errors::FmtError;
use crate::numfmt::digits_vec;
use crate::numfmt::format_int_signed;
use crate::numfmt::format_int_unsigned;
use crate::numfmt::push_all;
use crate::numfmt::spec_number_bytes;
use crate::numfmt::spec_signed_render;
use crate::numfmt::spec_unsigned_render;
use crate::numfmt::Base;
use crate::numfmt::SignedIntFormatParams;
use crate::numfmt::UnsignedIntFormatParams;
use crate::scan::lemma_scan_params_bounds;
use crate::scan::read_flags;
use crate::scan::read_min_width;
use crate::scan::read_precision;
use crate::scan::spec_scan_params;
use crate::scan::FormatParameters;
use crate::scan::Scan;
use crate::strfmt::print_string;
use crate::strfmt::spec_str_span;
use crate::strfmt::spec_string_render;
use crate::strfmt::utf8_valid;

verus! {

/// The bytes emitted for a char conversion: the byte itself when it is
/// ASCII, else the two-byte UTF-8 encoding of the code point equal to the
/// byte's value.  Width, precision and justification are not applied to this
/// conversion.
pub open spec fn spec_char_render(b: u8) -> Seq<u8> {
    if b < 128 {
        seq![b]
    } else {
        seq![(192 + b / 64) as u8, (128 + b % 64) as u8]
    }
}

/// The rendering of a pointer conversion: `0x` followed by the address's
/// hexadecimal digits.  Width and precision are not applied.
pub open spec fn spec_pointer_render(a: usize) -> Seq<u8> {
    seq![DIGIT_ZERO, LOWER_X] + spec_number_bytes(a as int, 16, false)
}

/// The record an unsigned conversion renders with: the pad byte is `0` under
/// the zero-pad flag and space otherwise; width defaults to zero, precision
/// to one.
pub open spec fn spec_unsigned_params(
    p: FormatParameters,
    base: Base,
    capital: bool,
) -> UnsignedIntFormatParams {
    UnsignedIntFormatParams {
        pad_char: if p.leading_zeroes {
            DIGIT_ZERO
        } else {
            SPACE
        },
        base,
        justify_left: p.justify_left,
        print_prefix: p.alternative,
        capital,
        precision: match p.precision {
            Some(x) => x,
            None => 1,
        },
        min_length: match p.minimum_width {
            Some(x) => x,
            None => 0,
        },
    }
}

/// The record a signed conversion renders with, under the same defaults.
pub open spec fn spec_signed_params(p: FormatParameters) -> SignedIntFormatParams {
    SignedIntFormatParams {
        pad_char: if p.leading_zeroes {
            DIGIT_ZERO
        } else {
            SPACE
        },
        justify_left: p.justify_left,
        precision: match p.precision {
            Some(x) => x,
            None => 1,
        },
        min_length: match p.minimum_width {
            Some(x) => x,
            None => 0,
        },
        always_print_sign: p.always_show_sign,
        prepend_space: p.prepend_space,
    }
}

/// The width a string conversion pads to: zero when unset.
pub open spec fn spec_width_of(p: FormatParameters) -> int {
    match p.minimum_width {
        Some(w) => w as int,
        None => 0,
    }
}

/// Whether `c` is a conversion letter this renderer implements.
pub open spec fn spec_is_supported_conversion(c: u8) -> bool {
    c == LOWER_C || c == LOWER_D || c == LOWER_I || c == LOWER_U || c == LOWER_O || c == LOWER_X
        || c == UPPER_X || c == LOWER_S || c == LOWER_P
}

/// Whether `c` is a letter this renderer rejects as unsupported: the
/// bytes-written conversion, a length modifier, or a floating-point
/// conversion.
pub open spec fn spec_is_unsupported_conversion(c: u8) -> bool {
    c == LOWER_N || c == LOWER_H || c == LOWER_L || c == LOWER_J || c == LOWER_Z || c == LOWER_T
        || c == UPPER_L || c == LOWER_F || c == UPPER_F || c == LOWER_E || c == UPPER_E || c
        == LOWER_A || c == UPPER_A || c == LOWER_G || c == UPPER_G
}

/// What the conversion letter at `i` renders, given the scanned parameters:
/// the emitted bytes, the position just past the letter and the arguments
/// left — or the error.  Each conversion consumes exactly one argument of
/// its own kind; the bytes-written conversion, length modifiers and
/// floating-point letters are rejected as unsupported; any other letter is
/// malformed, as is a format text that ends before the letter.
pub open spec fn spec_match_formatter(
    fmt: Seq<u8>,
    i: int,
    args: Seq<ArgV>,
    p: FormatParameters,
) -> Scan<Seq<u8>> {
    if i < 0 || i >= fmt.len() {
        Scan::Failed(FmtError::MalformedFormatString)
    } else {
        let c = fmt[i];
        if c == LOWER_C {
            if args.len() > 0 {
                match args[0] {
                    ArgV::Byte(b) => Scan::Found(spec_char_render(b), i + 1, args.drop_first()),
                    _ => Scan::Failed(FmtError::ArgumentExhausted),
                }
            } else {
                Scan::Failed(FmtError::ArgumentExhausted)
            }
        } else if c == LOWER_D || c == LOWER_I {
            if args.len() > 0 {
                match args[0] {
                    ArgV::Signed(v) => Scan::Found(
                        spec_signed_render(v, spec_signed_params(p)),
                        i + 1,
                        args.drop_first(),
                    ),
                    _ => Scan::Failed(FmtError::ArgumentExhausted),
                }
            } else {
                Scan::Failed(FmtError::ArgumentExhausted)
            }
        } else if c == LOWER_U || c == LOWER_O || c == LOWER_X || c == UPPER_X {
            let base = if c == LOWER_U {
                Base::Decimal
            } else if c == LOWER_O {
                Base::Octal
            } else {
                Base::Hex
            };
            if args.len() > 0 {
                match args[0] {
                    ArgV::Unsigned(v) => Scan::Found(
                        spec_unsigned_render(v, spec_unsigned_params(p, base, c == UPPER_X)),
                        i + 1,
                        args.drop_first(),
                    ),
                    _ => Scan::Failed(FmtError::ArgumentExhausted),
                }
            } else {
                Scan::Failed(FmtError::ArgumentExhausted)
            }
        } else if c == LOWER_S {
            if args.len() > 0 {
                match args[0] {
                    ArgV::Text(b) => if utf8_valid(spec_str_span(b, p.precision)) {
                        Scan::Found(
                            spec_string_render(b, p.precision, spec_width_of(p), p.justify_left),
                            i + 1,
                            args.drop_first(),
                        )
                    } else {
                        Scan::Failed(FmtError::InvalidEncoding)
                    },
                    _ => Scan::Failed(FmtError::ArgumentExhausted),
                }
            } else {
                Scan::Failed(FmtError::ArgumentExhausted)
            }
        } else if c == LOWER_P {
            if args.len() > 0 {
                match args[0] {
                    ArgV::Address(a) => Scan::Found(
                        spec_pointer_render(a),
                        i + 1,
                        args.drop_first(),
                    ),
                    _ => Scan::Failed(FmtError::ArgumentExhausted),
                }
            } else {
                Scan::Failed(FmtError::ArgumentExhausted)
            }
        } else if spec_is_unsupported_conversion(c) {
            Scan::Failed(FmtError::UnsupportedConversion)
        } else {
            Scan::Failed(FmtError::MalformedFormatString)
        }
    }
}

/// Appends the char conversion's bytes for the byte argument `b`.
fn push_char_arg(out: &mut Vec<u8>, b: u8)
    ensures
        final(out)@ == old(out)@ + spec_char_render(b),
{
    if b < 128 {
        out.push(b);
        proof {
            assert(out@ =~= old(out)@ + spec_char_render(b));
        }
    } else {
        out.push(192 + b / 64);
        out.push(128 + b % 64);
        proof {
            assert(out@ =~= old(out)@ + spec_char_render(b));
        }
    }
}

/// Appends the pointer conversion's bytes for the address `a`.
fn push_pointer(out: &mut Vec<u8>, a: usize)
    ensures
        final(out)@ == old(out)@ + spec_pointer_render(a),
{
    out.push(DIGIT_ZERO);
    out.push(LOWER_X);
    let digits = digits_vec(a, Base::Hex, false);
    push_all(out, digits.as_slice());
    proof {
        assert(out@ =~= old(out)@ + spec_pointer_render(a));
    }
}

/// Dispatches on the conversion letter at `i`: pulls the conversion's
/// argument from the cursor, renders it into `out`, and reports the position
/// just past the letter.  On any error nothing has been written.
#[verifier::rlimit(100)]
#[verifier::spinoff_prover]
pub(crate) fn match_formatter(
    out: &mut Vec<u8>,
    fmt: &[u8],
    i: usize,
    args: &mut ArgumentCursor,
    params: FormatParameters,
) -> (r: Result<usize, FmtError>)
    requires
        i <= fmt@.len(),
    ensures
        match r {
            Ok(j) => ({
                let sm = spec_match_formatter(fmt@, i as int, old(args)@, params);
                &&& sm is Found
                &&& final(out)@ == old(out)@ + sm->Found_0
                &&& sm->Found_1 == j as int
                &&& sm->Found_2 == final(args)@
                &&& j == i + 1
                &&& j <= fmt@.len()
            }),
            Err(e) => {
                &&& spec_match_formatter(fmt@, i as int, old(args)@, params) == Scan::<
                    Seq<u8>,
                >::Failed(e)
                &&& final(out)@ == old(out)@
            },
        },
{
    if i >= fmt.len() {
        return Err(FmtError::MalformedFormatString);
    }
    let c = fmt[i];
    if c == LOWER_C {
        match args.next_byte() {
            Ok(b) => {
                push_char_arg(out, b);
                Ok(i + 1)
            },
            Err(e) => Err(e),
        }
    } else if c == LOWER_D || c == LOWER_I {
        match args.next_signed_int() {
            Ok(v) => {
                let sp = SignedIntFormatParams {
                    pad_char: if params.leading_zeroes {
                        DIGIT_ZERO
                    } else {
                        SPACE
                    },
                    justify_left: params.justify_left,
                    precision: match params.precision {
                        Some(x) => x,
                        None => 1,
                    },
                    min_length: match params.minimum_width {
                        Some(x) => x,
                        None => 0,
                    },
                    always_print_sign: params.always_show_sign,
                    prepend_space: params.prepend_space,
                };
                assert(sp == spec_signed_params(params));
                format_int_signed(out, v, sp);
                Ok(i + 1)
            },
            Err(e) => Err(e),
        }
    } else if c == LOWER_U || c == LOWER_O || c == LOWER_X || c == UPPER_X {
        let base = if c == LOWER_U {
            Base::Decimal
        } else if c == LOWER_O {
            Base::Octal
        } else {
            Base::Hex
        };
        match args.next_unsigned_int() {
            Ok(v) => {
                let up = UnsignedIntFormatParams {
                    pad_char: if params.leading_zeroes {
                        DIGIT_ZERO
                    } else {
                        SPACE
                    },
                    base,
                    justify_left: params.justify_left,
                    print_prefix: params.alternative,
                    capital: c == UPPER_X,
                    precision: match params.precision {
                        Some(x) => x,
                        None => 1,
                    },
                    min_length: match params.minimum_width {
                        Some(x) => x,
                        None => 0,
                    },
                };
                assert(up == spec_unsigned_params(params, base, c == UPPER_X));
                format_int_unsigned(out, v, up);
                Ok(i + 1)
            },
            Err(e) => Err(e),
        }
    } else if c == LOWER_S {
        match args.next_text() {
            Ok(b) => match print_string(out, &b, params) {
                Ok(()) => Ok(i + 1),
                Err(e) => Err(e),
            },
            Err(e) => Err(e),
        }
    } else if c == LOWER_P {
        match args.next_address() {
            Ok(a) => {
                push_pointer(out, a);
                Ok(i + 1)
            },
            Err(e) => Err(e),
        }
    } else if c == LOWER_N || c == LOWER_H || c == LOWER_L || c == LOWER_J || c == LOWER_Z || c
        == LOWER_T || c == UPPER_L || c == LOWER_F || c == UPPER_F || c == LOWER_E || c == UPPER_E
        || c == LOWER_A || c == UPPER_A || c == LOWER_G || c == UPPER_G {
        Err(FmtError::UnsupportedConversion)
    } else {
        Err(FmtError::MalformedFormatString)
    }
}

/// The outcome of rendering format text against an argument list: the
/// complete output together with the arguments left over, or the error that
/// aborts the call.
pub enum Rendered {
    Done(Seq<u8>, Seq<ArgV>),
    Fail(FmtError),
}

/// `r` with `prefix` prepended to its output.
pub open spec fn spec_compose(prefix: Seq<u8>, r: Rendered) -> Rendered {
    match r {
        Rendered::Done(t, rest) => Rendered::Done(prefix + t, rest),
        Rendered::Fail(e) => Rendered::Fail(e),
    }
}

proof fn lemma_compose_assoc(a: Seq<u8>, b: Seq<u8>, r: Rendered)
    ensures
        spec_compose(a, spec_compose(b, r)) == spec_compose(a + b, r),
{
    match r {
        Rendered::Done(t, rest) => {
            assert(a + (b + t) =~= (a + b) + t);
        },
        Rendered::Fail(_) => {},
    }
}

/// What rendering the format text from position `i` on yields: literal bytes
/// are copied verbatim; `%%` emits one `%` and consumes no argument — this
/// check precedes all other directive parsing; any other `%` scans flags,
/// width and precision and then renders one conversion, each dynamic field
/// and the conversion's own value consumed from the arguments in that order.
pub open spec fn spec_render_from(fmt: Seq<u8>, i: int, args: Seq<ArgV>) -> Rendered
    recommends
        0 <= i <= fmt.len(),
    decreases fmt.len() - i,
    via spec_render_from_decreases
{
    if i < 0 || i >= fmt.len() {
        Rendered::Done(Seq::empty(), args)
    } else if fmt[i] != PERCENT {
        spec_compose(seq![fmt[i]], spec_render_from(fmt, i + 1, args))
    } else if i + 1 < fmt.len() && fmt[i + 1] == PERCENT {
        spec_compose(seq![PERCENT], spec_render_from(fmt, i + 2, args))
    } else {
        match spec_scan_params(fmt, i + 1, args) {
            Scan::Failed(e) => Rendered::Fail(e),
            Scan::Found(p, j, args2) => match spec_match_formatter(fmt, j, args2, p) {
                Scan::Failed(e) => Rendered::Fail(e),
                Scan::Found(piece, j2, args3) => spec_compose(
                    piece,
                    spec_render_from(fmt, j2, args3),
                ),
            },
        }
    }
}

#[via_fn]
proof fn spec_render_from_decreases(fmt: Seq<u8>, i: int, args: Seq<ArgV>) {
    if 0 <= i < fmt.len() && fmt[i] == PERCENT && !(i + 1 < fmt.len() && fmt[i + 1] == PERCENT) {
        lemma_scan_params_bounds(fmt, i + 1, args);
        match spec_scan_params(fmt, i + 1, args) {
            Scan::Found(p, j, args2) => {
                match spec_match_formatter(fmt, j, args2, p) {
                    Scan::Found(piece, j2, args3) => {
                        assert(j < fmt.len());
                        assert(j2 == j + 1);
                    },
                    _ => {},
                }
            },
            _ => {},
        }
    }
}

/// Scans and renders one full `%` directive (not `%%`) whose `%` stands at
/// `i`: flags, width, precision, then the conversion.  On success the
/// composed picture of buffer and remaining work is unchanged, which is
/// exactly what the render loop maintains.
#[verifier::rlimit(100)]
#[verifier::spinoff_prover]
fn render_directive(out: &mut Vec<u8>, fmt: &[u8], i: usize, args: &mut ArgumentCursor) -> (r:
    Result<usize, FmtError>)
    requires
        i < fmt@.len(),
        fmt@[i as int] == PERCENT,
        !(i + 1 < fmt@.len() && fmt@[i as int + 1] == PERCENT),
    ensures
        match r {
            Ok(j) => {
                &&& i < j <= fmt@.len()
                &&& spec_compose(old(out)@, spec_render_from(fmt@, i as int, old(args)@))
                    == spec_compose(final(out)@, spec_render_from(fmt@, j as int, final(args)@))
            },
            Err(e) => spec_render_from(fmt@, i as int, old(args)@) == Rendered::Fail(e),
        },
{
    let ghost out0 = out@;
    let ghost args_at = args@;
    let ghost i0 = i as int;
    let flen = fmt.len();
    assert(i < flen);
    let (mut p, j) = read_flags(fmt, i + 1);
    let mut jl = p.justify_left;
    let wres = read_min_width(fmt, j, args, &mut jl);
    let (j2, w) = match wres {
        Ok(x) => x,
        Err(e) => {
            proof {
                assert(spec_scan_params(fmt@, i0 + 1, args_at) == Scan::<
                    FormatParameters,
                >::Failed(e));
                assert(spec_render_from(fmt@, i0, args_at) == Rendered::Fail(e));
            }
            return Err(e);
        },
    };
    p.justify_left = jl;
    p.minimum_width = w;
    let mut j3 = j2;
    if j2 < fmt.len() && fmt[j2] == DOT {
        let pres = read_precision(fmt, j2 + 1, args);
        match pres {
            Ok((jp, prec)) => {
                p.precision = prec;
                j3 = jp;
            },
            Err(e) => {
                proof {
                    assert(spec_scan_params(fmt@, i0 + 1, args_at) == Scan::<
                        FormatParameters,
                    >::Failed(e));
                    assert(spec_render_from(fmt@, i0, args_at) == Rendered::Fail(e));
                }
                return Err(e);
            },
        }
    }
    proof {
        assert(spec_scan_params(fmt@, i0 + 1, args_at) == Scan::Found(p, j3 as int, args@));
    }
    let ghost args_mid = args@;
    match match_formatter(out, fmt, j3, args, p) {
        Ok(j4) => {
            proof {
                let sm = spec_match_formatter(fmt@, j3 as int, args_mid, p);
                assert(spec_render_from(fmt@, i0, args_at) == spec_compose(
                    sm->Found_0,
                    spec_render_from(fmt@, j4 as int, args@),
                ));
                lemma_compose_assoc(out0, sm->Found_0, spec_render_from(fmt@, j4 as int, args@));
            }
            Ok(j4)
        },
        Err(e) => {
            proof {
                assert(spec_render_from(fmt@, i0, args_at) == Rendered::Fail(e));
            }
            Err(e)
        },
    }
}

/// Renders the whole format text against the argument cursor, producing the
/// complete output as one byte buffer.  Any failure aborts the call: the
/// error says why, no partial output is returned, and the cursor is left
/// mid-stream with whatever it had consumed up to the failure.
pub fn render_to_vec(fmt: &[u8], args: &mut ArgumentCursor) -> (r: Result<Vec<u8>, FmtError>)
    ensures
        match r {
            Ok(v) => spec_render_from(fmt@, 0, old(args)@) == Rendered::Done(v@, final(args)@),
            Err(e) => spec_render_from(fmt@, 0, old(args)@) == Rendered::Fail(e),
        },
{
    let mut out: Vec<u8> = Vec::new();
    let mut i: usize = 0;
    while i < fmt.len()
        invariant
            i <= fmt@.len(),
            spec_render_from(fmt@, 0, old(args)@) == spec_compose(
                out@,
                spec_render_from(fmt@, i as int, args@),
            ),
        decreases fmt@.len() - i,
    {
        let ghost out0 = out@;
        let c = fmt[i];
        if c != PERCENT {
            out.push(c);
            i = i + 1;
            proof {
                assert(out@ =~= out0 + seq![c]);
                lemma_compose_assoc(out0, seq![c], spec_render_from(fmt@, i as int, args@));
            }
        } else if i + 1 < fmt.len() && fmt[i + 1] == PERCENT {
            out.push(PERCENT);
            i = i + 2;
            proof {
                assert(out@ =~= out0 + seq![PERCENT]);
                lemma_compose_assoc(out0, seq![PERCENT], spec_render_from(fmt@, i as int, args@));
            }
        } else {
            match render_directive(&mut out, fmt, i, args) {
                Ok(j) => {
                    i = j;
                },
                Err(e) => {
                    return Err(e);
                },
            }
        }
    }
    proof {
        assert(spec_render_from(fmt@, i as int, args@) == Rendered::Done(
            Seq::<u8>::empty(),
            args@,
        ));
        assert(out@ + Seq::<u8>::empty() =~= out@);
        assert(spec_render_from(fmt@, 0, old(args)@) == Rendered::Done(out@, args@));
    }
    Ok(out)
}

/// Rendering itself can fail only for format-and-argument reasons: a sink
/// failure is reported only by a sink, never by the rendering.
#[verifier::rlimit(60)]
pub proof fn lemma_render_never_sink_failure(fmt: Seq<u8>, i: int, args: Seq<ArgV>)
    requires
        0 <= i <= fmt.len(),
    ensures
        spec_render_from(fmt, i, args) != Rendered::Fail(FmtError::SinkFailure),
    decreases fmt.len() - i,
{
    if 0 <= i < fmt.len() {
        if fmt[i] != PERCENT {
            lemma_render_never_sink_failure(fmt, i + 1, args);
        } else if i + 1 < fmt.len() && fmt[i + 1] == PERCENT {
            lemma_render_never_sink_failure(fmt, i + 2, args);
        } else {
            lemma_scan_params_bounds(fmt, i + 1, args);
            match spec_scan_params(fmt, i + 1, args) {
                Scan::Failed(e) => {
                    assert(e != FmtError::SinkFailure);
                },
                Scan::Found(p, j, args2) => {
                    match spec_match_formatter(fmt, j, args2, p) {
                        Scan::Failed(e) => {
                            assert(e != FmtError::SinkFailure);
                        },
                        Scan::Found(piece, j2, args3) => {
                            assert(j < fmt.len() && j2 == j + 1);
                            lemma_render_never_sink_failure(fmt, j2, args3);
                        },
                    }
                },
            }
        }
    }
}

} // verus!
