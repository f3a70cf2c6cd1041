use vstd::prelude::*;

use crate::args::ArgV;
use crate::ascii::PERCENT;
use crate::ascii::STAR;
use crate::convert::spec_compose;
use crate::convert::spec_is_supported_conversion;
use crate::convert::spec_is_unsupported_conversion;
use crate::convert::spec_match_formatter;
use crate::convert::spec_render_from;
use crate::convert::Rendered;
use crate::errors::FmtError;
use crate::scan::spec_abs_usize;
use crate::scan::spec_read_width;
use crate::scan::FormatParameters;
use crate::scan::Scan;

verus! {

proof fn lemma_literal_suffix(fmt: Seq<u8>, i: int, args: Seq<ArgV>)
    requires
        0 <= i <= fmt.len(),
        forall|k: int| i <= k < fmt.len() ==> fmt[k] != PERCENT,
    ensures
        spec_render_from(fmt, i, args) == Rendered::Done(fmt.skip(i), args),
    decreases fmt.len() - i,
{
    if i < fmt.len() {
        lemma_literal_suffix(fmt, i + 1, args);
        assert(seq![fmt[i]] + fmt.skip(i + 1) =~= fmt.skip(i));
    } else {
        assert(fmt.skip(i) =~= Seq::<u8>::empty());
    }
}

/// A format text containing no `%` renders as itself, whatever arguments are
/// supplied, and consumes none of them.
pub proof fn lemma_literal_text_renders_verbatim(fmt: Seq<u8>, args: Seq<ArgV>)
    requires
        forall|k: int| 0 <= k < fmt.len() ==> fmt[k] != PERCENT,
    ensures
        spec_render_from(fmt, 0, args) == Rendered::Done(fmt, args),
{
    lemma_literal_suffix(fmt, 0, args);
    assert(fmt.skip(0) =~= fmt);
}

/// `%%` anywhere emits exactly one literal `%` and consumes no argument:
/// this check precedes all flag and field parsing, so rendering continues
/// right after the pair with the very same argument list.
pub proof fn lemma_double_percent(fmt: Seq<u8>, i: int, args: Seq<ArgV>)
    requires
        0 <= i,
        i + 1 < fmt.len(),
        fmt[i] == PERCENT,
        fmt[i + 1] == PERCENT,
    ensures
        spec_render_from(fmt, i, args) == spec_compose(
            seq![PERCENT],
            spec_render_from(fmt, i + 2, args),
        ),
{
}

/// A conversion letter that is neither implemented nor known-unsupported
/// makes the directive report a malformed format string — never a silent
/// pass-through of the literal text.
pub proof fn lemma_unknown_conversion_is_malformed(
    fmt: Seq<u8>,
    i: int,
    args: Seq<ArgV>,
    p: FormatParameters,
)
    requires
        0 <= i < fmt.len(),
        !spec_is_supported_conversion(fmt[i]),
        !spec_is_unsupported_conversion(fmt[i]),
    ensures
        spec_match_formatter(fmt, i, args, p) == Scan::<Seq<u8>>::Failed(
            FmtError::MalformedFormatString,
        ),
{
}

/// A negative dynamic width argument stands for its magnitude and forces
/// left justification on.
pub proof fn lemma_negative_dynamic_width(
    fmt: Seq<u8>,
    i: int,
    args: Seq<ArgV>,
    justify_left: bool,
    v: isize,
)
    requires
        0 <= i < fmt.len(),
        fmt[i] == STAR,
        args.len() > 0,
        args[0] == ArgV::Signed(v),
        v < 0,
    ensures
        spec_read_width(fmt, i, args, justify_left) == Scan::Found(
            (Some(spec_abs_usize(v)), true),
            i + 1,
            args.drop_first(),
        ),
{
}

} // verus!

