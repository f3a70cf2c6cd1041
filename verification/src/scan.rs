use vstd::prelude::*;

use crate::args::ArgV;
use crate::args::ArgumentCursor;
use crate::ascii::DIGIT_NINE;
use crate::ascii::DIGIT_ZERO;
use crate::ascii::DOT;
use crate::ascii::HASH;
use crate::ascii::MINUS;
use crate::ascii::PLUS;
use crate::ascii::SPACE;
use crate::ascii::STAR;
use crate::errors::FmtError;

verus! {

/// The flags, minimum width and precision scanned from one `%` directive,
/// before the conversion letter.  An unset width or precision is `None`:
/// width then defaults to zero, precision to one for integer conversions and
/// to "unbounded" for string conversions.
#[derive(Clone, Copy, Debug)]
pub struct FormatParameters {
    pub justify_left: bool,
    pub always_show_sign: bool,
    pub prepend_space: bool,
    pub alternative: bool,
    pub leading_zeroes: bool,
    pub minimum_width: Option<usize>,
    pub precision: Option<usize>,
}

/// Parameters with no flag set and both fields unset.
pub open spec fn spec_default_params() -> FormatParameters {
    FormatParameters {
        justify_left: false,
        always_show_sign: false,
        prepend_space: false,
        alternative: false,
        leading_zeroes: false,
        minimum_width: None,
        precision: None,
    }
}

impl Default for FormatParameters {
    /// Parameters with no flag set and both fields unset.
    fn default() -> (r: FormatParameters)
        ensures
            r == spec_default_params(),
    {
        FormatParameters {
            justify_left: false,
            always_show_sign: false,
            prepend_space: false,
            alternative: false,
            leading_zeroes: false,
            minimum_width: None,
            precision: None,
        }
    }
}

/// The outcome of scanning one piece of a directive: the scanned value, the
/// position just past it and the arguments still unconsumed — or the error
/// that aborts the whole render call.
pub enum Scan<T> {
    Found(T, int, Seq<ArgV>),
    Failed(FmtError),
}

/// Whether `b` spells a decimal digit.
pub open spec fn spec_is_digit(b: u8) -> bool {
    DIGIT_ZERO <= b <= DIGIT_NINE
}

/// Whether `b` spells a directive flag (`-`, `+`, space, `#`, `0`).
pub open spec fn spec_is_flag(b: u8) -> bool {
    b == MINUS || b == PLUS || b == SPACE || b == HASH || b == DIGIT_ZERO
}

/// The parameters after recording the flag byte `b`.
pub open spec fn spec_apply_flag(p: FormatParameters, b: u8) -> FormatParameters {
    if b == MINUS {
        FormatParameters { justify_left: true, ..p }
    } else if b == PLUS {
        FormatParameters { always_show_sign: true, ..p }
    } else if b == SPACE {
        FormatParameters { prepend_space: true, ..p }
    } else if b == HASH {
        FormatParameters { alternative: true, ..p }
    } else {
        FormatParameters { leading_zeroes: true, ..p }
    }
}

/// The parameters and position after consuming every flag byte from `i` on.
pub open spec fn spec_scan_flags(fmt: Seq<u8>, i: int, p: FormatParameters) -> (FormatParameters,
    int)
    decreases fmt.len() - i,
{
    if 0 <= i < fmt.len() && spec_is_flag(fmt[i]) {
        spec_scan_flags(fmt, i + 1, spec_apply_flag(p, fmt[i]))
    } else {
        (p, i)
    }
}

/// Scanning flags never moves backwards nor past the end of the text.
pub proof fn lemma_scan_flags_bounds(fmt: Seq<u8>, i: int, p: FormatParameters)
    requires
        0 <= i <= fmt.len(),
    ensures
        i <= spec_scan_flags(fmt, i, p).1 <= fmt.len(),
    decreases fmt.len() - i,
{
    if i < fmt.len() && spec_is_flag(fmt[i]) {
        lemma_scan_flags_bounds(fmt, i + 1, spec_apply_flag(p, fmt[i]));
    }
}

/// The index just past the run of decimal digits starting at `i`.
pub open spec fn spec_digits_end(fmt: Seq<u8>, i: int) -> int
    decreases fmt.len() - i,
{
    if 0 <= i < fmt.len() && spec_is_digit(fmt[i]) {
        spec_digits_end(fmt, i + 1)
    } else {
        i
    }
}

/// A digit run never moves backwards nor past the end of the text.
pub proof fn lemma_digits_end_bounds(fmt: Seq<u8>, i: int)
    requires
        0 <= i <= fmt.len(),
    ensures
        i <= spec_digits_end(fmt, i) <= fmt.len(),
    decreases fmt.len() - i,
{
    if i < fmt.len() && spec_is_digit(fmt[i]) {
        lemma_digits_end_bounds(fmt, i + 1);
    }
}

/// One step of reading a decimal number left to right: the accumulated value
/// times ten plus the next digit, capped at the largest machine integer.
pub open spec fn spec_sat10(acc: int, d: int) -> int {
    if acc * 10 + d > usize::MAX {
        usize::MAX as int
    } else {
        acc * 10 + d
    }
}

/// The value of the digit run `fmt[i..j]`, capped at the largest machine
/// integer.
pub open spec fn spec_digits_value(fmt: Seq<u8>, i: int, j: int) -> int
    decreases j - i,
{
    if i >= j {
        0
    } else {
        spec_sat10(spec_digits_value(fmt, i, j - 1), fmt[j - 1] - DIGIT_ZERO)
    }
}

/// The absolute value of a signed machine integer, as a machine integer (the
/// magnitude of the most negative value still fits).
pub open spec fn spec_abs_usize(v: isize) -> usize {
    if v >= 0 {
        v as usize
    } else {
        (-(v as int)) as usize
    }
}

/// What scanning an optional width or precision field at `i` yields.
/// A `*` consumes one signed integer argument, whose magnitude becomes the
/// field value and whose sign is reported alongside; a digit run becomes its
/// literal value; anything else leaves the field unset and consumes nothing.
pub open spec fn spec_read_param(fmt: Seq<u8>, i: int, args: Seq<ArgV>) -> Scan<
    Option<(usize, bool)>,
> {
    if 0 <= i < fmt.len() && fmt[i] == STAR {
        if args.len() > 0 {
            match args[0] {
                ArgV::Signed(v) => Scan::Found(
                    Some((spec_abs_usize(v), v < 0)),
                    i + 1,
                    args.drop_first(),
                ),
                _ => Scan::Failed(FmtError::ArgumentExhausted),
            }
        } else {
            Scan::Failed(FmtError::ArgumentExhausted)
        }
    } else if 0 <= i < fmt.len() && spec_is_digit(fmt[i]) {
        Scan::Found(
            Some((spec_digits_value(fmt, i, spec_digits_end(fmt, i)) as usize, false)),
            spec_digits_end(fmt, i),
            args,
        )
    } else {
        Scan::Found(None, i, args)
    }
}

/// What scanning the width field yields: a negative dynamic width is
/// reinterpreted as its magnitude with left justification forced on.
pub open spec fn spec_read_width(fmt: Seq<u8>, i: int, args: Seq<ArgV>, justify_left: bool) -> Scan<
    (Option<usize>, bool),
> {
    match spec_read_param(fmt, i, args) {
        Scan::Failed(e) => Scan::Failed(e),
        Scan::Found(field, j, rest) => match field {
            Some((w, neg)) => Scan::Found((Some(w), justify_left || neg), j, rest),
            None => Scan::Found((None, justify_left), j, rest),
        },
    }
}

/// What scanning the precision field (after its `.`) yields: a negative
/// dynamic precision is invalid and aborts the render.
pub open spec fn spec_read_precision(fmt: Seq<u8>, i: int, args: Seq<ArgV>) -> Scan<Option<usize>> {
    match spec_read_param(fmt, i, args) {
        Scan::Failed(e) => Scan::Failed(e),
        Scan::Found(field, j, rest) => match field {
            Some((p, true)) => Scan::Failed(FmtError::InvalidPrecision),
            Some((p, false)) => Scan::Found(Some(p), j, rest),
            None => Scan::Found(None, j, rest),
        },
    }
}

/// What scanning everything between a `%` and its conversion letter yields:
/// the flags, then the width, then — when a `.` follows — the precision.
pub open spec fn spec_scan_params(fmt: Seq<u8>, i: int, args: Seq<ArgV>) -> Scan<
    FormatParameters,
> {
    let fj = spec_scan_flags(fmt, i, spec_default_params());
    match spec_read_width(fmt, fj.1, args, fj.0.justify_left) {
        Scan::Failed(e) => Scan::Failed(e),
        Scan::Found((w, jl), j2, args2) => {
            let p1 = FormatParameters { justify_left: jl, minimum_width: w, ..fj.0 };
            if 0 <= j2 < fmt.len() && fmt[j2] == DOT {
                match spec_read_precision(fmt, j2 + 1, args2) {
                    Scan::Failed(e) => Scan::Failed(e),
                    Scan::Found(prec, j3, args3) => Scan::Found(
                        FormatParameters { precision: prec, ..p1 },
                        j3,
                        args3,
                    ),
                }
            } else {
                Scan::Found(p1, j2, args2)
            }
        },
    }
}

/// Scanning the pieces of a directive never moves backwards nor past the
/// end of the text.
pub proof fn lemma_scan_params_bounds(fmt: Seq<u8>, i: int, args: Seq<ArgV>)
    requires
        0 <= i <= fmt.len(),
    ensures
        spec_scan_params(fmt, i, args) matches Scan::Found(p, j, rest) ==> i <= j <= fmt.len(),
{
    lemma_scan_flags_bounds(fmt, i, spec_default_params());
    let fj = spec_scan_flags(fmt, i, spec_default_params());
    lemma_read_param_bounds(fmt, fj.1, args);
    match spec_read_param(fmt, fj.1, args) {
        Scan::Found(f, j2, args2) => {
            if 0 <= j2 < fmt.len() && fmt[j2] == DOT {
                lemma_read_param_bounds(fmt, j2 + 1, args2);
            }
        },
        _ => {},
    }
}

/// Scanning a numeric field never moves backwards nor past the end.
pub proof fn lemma_read_param_bounds(fmt: Seq<u8>, i: int, args: Seq<ArgV>)
    requires
        0 <= i <= fmt.len(),
    ensures
        spec_read_param(fmt, i, args) matches Scan::Found(f, j, rest) ==> i <= j <= fmt.len(),
{
    if 0 <= i < fmt.len() && spec_is_digit(fmt[i]) {
        lemma_digits_end_bounds(fmt, i);
    }
}

/// Scans the flags of a directive, starting at `i`, into fresh parameters.
pub(crate) fn read_flags(fmt: &[u8], i: usize) -> (r: (FormatParameters, usize))
    requires
        i <= fmt@.len(),
    ensures
        spec_scan_flags(fmt@, i as int, spec_default_params()) == (r.0, r.1 as int),
        i <= r.1 <= fmt@.len(),
{
    let mut p = FormatParameters::default();
    let mut j = i;
    while j < fmt.len() && (fmt[j] == MINUS || fmt[j] == PLUS || fmt[j] == SPACE || fmt[j] == HASH
        || fmt[j] == DIGIT_ZERO)
        invariant
            i <= j <= fmt@.len(),
            spec_scan_flags(fmt@, i as int, spec_default_params()) == spec_scan_flags(
                fmt@,
                j as int,
                p,
            ),
        decreases fmt@.len() - j,
    {
        let b = fmt[j];
        let ghost p0 = p;
        if b == MINUS {
            p.justify_left = true;
        } else if b == PLUS {
            p.always_show_sign = true;
        } else if b == SPACE {
            p.prepend_space = true;
        } else if b == HASH {
            p.alternative = true;
        } else {
            p.leading_zeroes = true;
        }
        proof {
            assert(p == spec_apply_flag(p0, b));
            assert(spec_scan_flags(fmt@, j as int, p0) == spec_scan_flags(fmt@, j + 1, p));
        }
        j = j + 1;
    }
    (p, j)
}

/// Scans one optional numeric field: a `*` pulls a signed integer argument
/// and reports its magnitude and sign; a digit run is read literally, its
/// value capped at the largest machine integer; anything else leaves the
/// field unset.
pub(crate) fn read_format_parameter(fmt: &[u8], i: usize, args: &mut ArgumentCursor) -> (r: Result<
    (usize, Option<(usize, bool)>),
    FmtError,
>)
    requires
        i <= fmt@.len(),
    ensures
        match r {
            Ok((j, field)) => {
                &&& spec_read_param(fmt@, i as int, old(args)@) == Scan::Found(
                    field,
                    j as int,
                    final(args)@,
                )
                &&& i <= j <= fmt@.len()
            },
            Err(e) => spec_read_param(fmt@, i as int, old(args)@) == Scan::<
                Option<(usize, bool)>,
            >::Failed(e),
        },
{
    if i < fmt.len() && fmt[i] == STAR {
        match args.next_signed_int() {
            Ok(v) => {
                let m: usize = if v >= 0 {
                    v as usize
                } else {
                    ((-(v + 1)) as usize) + 1
                };
                assert(m == spec_abs_usize(v));
                Ok((i + 1, Some((m, v < 0))))
            },
            Err(e) => Err(e),
        }
    } else if i < fmt.len() && fmt[i] >= DIGIT_ZERO && fmt[i] <= DIGIT_NINE {
        let mut j = i;
        let mut number: usize = 0;
        while j < fmt.len() && fmt[j] >= DIGIT_ZERO && fmt[j] <= DIGIT_NINE
            invariant
                i <= j <= fmt@.len(),
                spec_digits_end(fmt@, i as int) == spec_digits_end(fmt@, j as int),
                number as int == spec_digits_value(fmt@, i as int, j as int),
            decreases fmt@.len() - j,
        {
            let d = fmt[j] - DIGIT_ZERO;
            let wide: u128 = (number as u128) * 10 + (d as u128);
            number = if wide > (usize::MAX as u128) {
                usize::MAX
            } else {
                wide as usize
            };
            assert(number as int == spec_sat10(
                spec_digits_value(fmt@, i as int, j as int),
                d as int,
            ));
            assert(spec_digits_value(fmt@, i as int, j + 1) == spec_sat10(
                spec_digits_value(fmt@, i as int, j as int),
                fmt@[j as int] - DIGIT_ZERO,
            ));
            j = j + 1;
        }
        proof {
            assert(spec_digits_end(fmt@, j as int) == j as int);
        }
        Ok((j, Some((number, false))))
    } else {
        Ok((i, None))
    }
}

/// Scans the minimum-width field.  A negative dynamic width forces left
/// justification and stands for its magnitude.
pub(crate) fn read_min_width(
    fmt: &[u8],
    i: usize,
    args: &mut ArgumentCursor,
    justify_left: &mut bool,
) -> (r: Result<(usize, Option<usize>), FmtError>)
    requires
        i <= fmt@.len(),
    ensures
        match r {
            Ok((j, w)) => {
                &&& spec_read_width(fmt@, i as int, old(args)@, *old(justify_left)) == Scan::Found(
                    (w, *final(justify_left)),
                    j as int,
                    final(args)@,
                )
                &&& i <= j <= fmt@.len()
            },
            Err(e) => spec_read_width(fmt@, i as int, old(args)@, *old(justify_left)) == Scan::<
                (Option<usize>, bool),
            >::Failed(e),
        },
{
    match read_format_parameter(fmt, i, args) {
        Ok((j, Some((w, neg)))) => {
            if neg {
                *justify_left = true;
            }
            Ok((j, Some(w)))
        },
        Ok((j, None)) => Ok((j, None)),
        Err(e) => Err(e),
    }
}

/// Scans the precision field, after its `.` has been consumed.  A negative
/// dynamic precision aborts the render.
pub(crate) fn read_precision(fmt: &[u8], i: usize, args: &mut ArgumentCursor) -> (r: Result<
    (usize, Option<usize>),
    FmtError,
>)
    requires
        i <= fmt@.len(),
    ensures
        match r {
            Ok((j, p)) => {
                &&& spec_read_precision(fmt@, i as int, old(args)@) == Scan::Found(
                    p,
                    j as int,
                    final(args)@,
                )
                &&& i <= j <= fmt@.len()
            },
            Err(e) => spec_read_precision(fmt@, i as int, old(args)@) == Scan::<
                Option<usize>,
            >::Failed(e),
        },
{
    match read_format_parameter(fmt, i, args) {
        Ok((j, Some((p, false)))) => Ok((j, Some(p))),
        Ok((_, Some((_, true)))) => Err(FmtError::InvalidPrecision),
        Ok((j, None)) => Ok((j, None)),
        Err(e) => Err(e),
    }
}

} // verus!
