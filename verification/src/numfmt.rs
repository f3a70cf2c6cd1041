use vstd::prelude::*;

use crate::ascii::DIGIT_ZERO;
use crate::ascii::LOWER_D;
use crate::ascii::LOWER_X;
use crate::ascii::MINUS;
use crate::ascii::PLUS;
use crate::ascii::SPACE;
use crate::ascii::UPPER_D;
use crate::ascii::UPPER_X;

verus! {

/// The numeric base of an unsigned integer conversion.  Each base carries a
/// radix and an alternate-form prefix, with separate spellings for upper and
/// lower case where the letter matters (octal has only the single digit `0`).
#[derive(Clone, Copy, Debug, PartialEq, Eq, Structural)]
pub enum Base {
    Octal,
    Decimal,
    Hex,
}

impl Base {
    /// The radix, as a mathematical integer.
    pub open spec fn spec_radix(self) -> int {
        match self {
            Base::Octal => 8,
            Base::Decimal => 10,
            Base::Hex => 16,
        }
    }

    /// The radix of this base.
    pub fn as_number(self) -> (r: usize)
        ensures
            r == self.spec_radix(),
    {
        match self {
            Base::Octal => 8,
            Base::Decimal => 10,
            Base::Hex => 16,
        }
    }

    /// The alternate-form prefix of this base, as characters.
    pub open spec fn spec_prefix(self, capital: bool) -> Seq<char> {
        match (self, capital) {
            (Base::Octal, _) => seq!['0'],
            (Base::Decimal, false) => seq!['0', 'd'],
            (Base::Decimal, true) => seq!['0', 'D'],
            (Base::Hex, false) => seq!['0', 'x'],
            (Base::Hex, true) => seq!['0', 'X'],
        }
    }

    /// The alternate-form prefix of this base, spelled for the requested
    /// letter case.
    pub fn prefix(self, capital: bool) -> (r: &'static str)
        ensures
            r@ == self.spec_prefix(capital),
    {
        match (self, capital) {
            (Base::Octal, _) => {
                proof {
                    reveal_strlit("0");
                    assert("0"@ =~= seq!['0']);
                }
                "0"
            },
            (Base::Decimal, false) => {
                proof {
                    reveal_strlit("0d");
                    assert("0d"@ =~= seq!['0', 'd']);
                }
                "0d"
            },
            (Base::Decimal, true) => {
                proof {
                    reveal_strlit("0D");
                    assert("0D"@ =~= seq!['0', 'D']);
                }
                "0D"
            },
            (Base::Hex, false) => {
                proof {
                    reveal_strlit("0x");
                    assert("0x"@ =~= seq!['0', 'x']);
                }
                "0x"
            },
            (Base::Hex, true) => {
                proof {
                    reveal_strlit("0X");
                    assert("0X"@ =~= seq!['0', 'X']);
                }
                "0X"
            },
        }
    }
}

/// The alternate-form prefix of a base, as output bytes.
pub open spec fn spec_prefix_bytes(base: Base, capital: bool) -> Seq<u8> {
    match (base, capital) {
        (Base::Octal, _) => seq![DIGIT_ZERO],
        (Base::Decimal, false) => seq![DIGIT_ZERO, LOWER_D],
        (Base::Decimal, true) => seq![DIGIT_ZERO, UPPER_D],
        (Base::Hex, false) => seq![DIGIT_ZERO, LOWER_X],
        (Base::Hex, true) => seq![DIGIT_ZERO, UPPER_X],
    }
}

/// The byte spelling one digit of value `d` (`0`..`9`, then letters in the
/// requested case).
pub open spec fn spec_digit_byte(d: int, capital: bool) -> u8 {
    if d < 10 {
        (48 + d) as u8
    } else if capital {
        (55 + d) as u8
    } else {
        (87 + d) as u8
    }
}

/// The positional digits of `v` in the given radix, most significant first,
/// with no digits at all for zero.
pub open spec fn spec_digits(v: int, radix: int, capital: bool) -> Seq<u8>
    recommends
        v >= 0,
        2 <= radix,
    decreases v,
    via spec_digits_decreases
{
    if v <= 0 || radix < 2 {
        Seq::empty()
    } else {
        spec_digits(v / radix, radix, capital).push(spec_digit_byte(v % radix, capital))
    }
}

#[via_fn]
proof fn spec_digits_decreases(v: int, radix: int, capital: bool) {
    if !(v <= 0 || radix < 2) {
        assert(0 <= v / radix < v) by (nonlinear_arith)
            requires
                v >= 1,
                radix >= 2,
        ;
    }
}

/// The digit sequence a number is spelled with: at least one digit, so zero
/// is spelled `0`.
pub open spec fn spec_number_bytes(v: int, radix: int, capital: bool) -> Seq<u8> {
    if v == 0 {
        seq![DIGIT_ZERO]
    } else {
        spec_digits(v, radix, capital)
    }
}

/// `n` copies of the byte `b` (none when `n` is negative).
pub open spec fn spec_repeat(b: u8, n: int) -> Seq<u8> {
    if n <= 0 {
        Seq::empty()
    } else {
        Seq::new(n as nat, |i| b)
    }
}

/// Appends `n` copies of `b` to `out`.
pub(crate) fn push_repeat(out: &mut Vec<u8>, b: u8, n: usize)
    ensures
        final(out)@ == old(out)@ + spec_repeat(b, n as int),
{
    let mut k: usize = 0;
    while k < n
        invariant
            k <= n,
            out@ == old(out)@ + spec_repeat(b, k as int),
        decreases n - k,
    {
        out.push(b);
        proof {
            assert(out@ =~= old(out)@ + spec_repeat(b, (k + 1) as int));
        }
        k = k + 1;
    }
    proof {
        assert(out@ =~= old(out)@ + spec_repeat(b, n as int));
    }
}

/// Appends every byte of `s` to `out`, in order.
pub(crate) fn push_all(out: &mut Vec<u8>, s: &[u8])
    ensures
        final(out)@ == old(out)@ + s@,
{
    let mut k: usize = 0;
    while k < s.len()
        invariant
            k <= s@.len(),
            out@ == old(out)@ + s@.take(k as int),
        decreases s@.len() - k,
    {
        out.push(s[k]);
        proof {
            assert(out@ =~= old(out)@ + s@.take((k + 1) as int));
        }
        k = k + 1;
    }
    proof {
        assert(out@ =~= old(out)@ + s@);
    }
}

/// Appends the alternate-form prefix of `base` to `out`.
fn push_prefix(out: &mut Vec<u8>, base: Base, capital: bool)
    ensures
        final(out)@ == old(out)@ + spec_prefix_bytes(base, capital),
{
    match (base, capital) {
        (Base::Octal, _) => {
            out.push(DIGIT_ZERO);
        },
        (Base::Decimal, false) => {
            out.push(DIGIT_ZERO);
            out.push(LOWER_D);
        },
        (Base::Decimal, true) => {
            out.push(DIGIT_ZERO);
            out.push(UPPER_D);
        },
        (Base::Hex, false) => {
            out.push(DIGIT_ZERO);
            out.push(LOWER_X);
        },
        (Base::Hex, true) => {
            out.push(DIGIT_ZERO);
            out.push(UPPER_X);
        },
    }
    proof {
        assert(out@ =~= old(out)@ + spec_prefix_bytes(base, capital));
    }
}

/// The digit sequence of `value` in the given base, most significant digit
/// first, with zero spelled `0`.
pub(crate) fn digits_vec(value: usize, base: Base, capital: bool) -> (r: Vec<u8>)
    ensures
        r@ == spec_number_bytes(value as int, base.spec_radix(), capital),
        r@.len() >= 1,
{
    let radix = base.as_number();
    let mut rev: Vec<u8> = Vec::new();
    if value == 0 {
        rev.push(DIGIT_ZERO);
        proof {
            assert(rev@ =~= spec_number_bytes(0, base.spec_radix(), capital));
        }
        return rev;
    }
    let mut v = value;
    while v > 0
        invariant
            2 <= radix <= 16,
            radix == base.spec_radix(),
            spec_digits(value as int, radix as int, capital) == spec_digits(
                v as int,
                radix as int,
                capital,
            ) + rev@.reverse(),
        decreases v,
    {
        let ghost v0 = v as int;
        let ghost rev0 = rev@;
        let d = v % radix;
        let db: u8 = if d < 10 {
            (48 + d) as u8
        } else if capital {
            (55 + d) as u8
        } else {
            (87 + d) as u8
        };
        assert(db == spec_digit_byte(d as int, capital));
        rev.push(db);
        v = v / radix;
        proof {
            assert(v as int == v0 / radix as int);
            assert(v < v0) by (nonlinear_arith)
                requires
                    v0 >= 1,
                    radix >= 2,
                    v as int == v0 / radix as int,
            ;
            assert(spec_digits(v0, radix as int, capital) == spec_digits(
                v as int,
                radix as int,
                capital,
            ).push(db));
            assert(rev@.reverse() =~= seq![db] + rev0.reverse());
            assert(spec_digits(v as int, radix as int, capital).push(db) + rev0.reverse() =~= spec_digits(
                v as int,
                radix as int,
                capital,
            ) + rev@.reverse());
        }
    }
    let mut r: Vec<u8> = Vec::new();
    let mut k: usize = rev.len();
    while k > 0
        invariant
            k <= rev@.len(),
            r@ == rev@.reverse().take((rev@.len() - k) as int),
        decreases k,
    {
        r.push(rev[k - 1]);
        proof {
            assert(r@ =~= rev@.reverse().take((rev@.len() - (k - 1)) as int));
        }
        k = k - 1;
    }
    proof {
        assert(r@ =~= rev@.reverse());
        assert(r@ =~= spec_digits(value as int, radix as int, capital));
    }
    r
}

/// How an unsigned integer conversion is to be rendered: the pad byte chosen
/// from the zero-pad flag, the base, justification, whether the alternate-form
/// prefix is wanted and in which letter case, the minimum digit count
/// (precision) and the minimum field width.
#[derive(Clone, Copy, Debug)]
pub struct UnsignedIntFormatParams {
    pub pad_char: u8,
    pub base: Base,
    pub justify_left: bool,
    pub print_prefix: bool,
    pub capital: bool,
    pub precision: usize,
    pub min_length: usize,
}

/// The precision actually applied to the digit field: under an alternate-form
/// octal conversion the leading `0` prefix digit satisfies one digit of the
/// requested precision, so the precision drops by one.
pub open spec fn spec_unsigned_eff_precision(p: UnsignedIntFormatParams) -> int {
    if p.print_prefix && p.base is Octal {
        if p.precision > 0 {
            p.precision - 1
        } else {
            0
        }
    } else {
        p.precision as int
    }
}

/// The full rendering of an unsigned integer conversion: pad bytes (unless
/// left-justified), then the alternate-form prefix if requested, then the
/// digits zero-padded on the left to the effective precision, then trailing
/// pad bytes if left-justified.  The one case producing no digits at all is
/// octal zero with effective precision zero.
#[verifier::opaque]
pub open spec fn spec_unsigned_render(value: usize, p: UnsignedIntFormatParams) -> Seq<u8> {
    let prec = spec_unsigned_eff_precision(p);
    let number = spec_number_bytes(value as int, p.base.spec_radix(), p.capital);
    let digit_field = if p.base is Octal && value == 0 && prec == 0 {
        Seq::<u8>::empty()
    } else {
        spec_repeat(DIGIT_ZERO, prec - number.len()) + number
    };
    let prefix = if p.print_prefix {
        spec_prefix_bytes(p.base, p.capital)
    } else {
        Seq::<u8>::empty()
    };
    let content = (if p.print_prefix && !(p.base is Octal) {
        2int
    } else {
        0int
    }) + (if prec > number.len() {
        prec
    } else {
        number.len() as int
    });
    let pad = spec_repeat(p.pad_char, p.min_length - content);
    if p.justify_left {
        prefix + digit_field + pad
    } else {
        pad + prefix + digit_field
    }
}

/// The digit field of an integer conversion: the digits zero-padded on the
/// left to the precision, or nothing at all when `skip` asks for the empty
/// digit sequence.
pub open spec fn spec_digit_field(number: Seq<u8>, precision: int, skip: bool) -> Seq<u8> {
    if skip {
        Seq::<u8>::empty()
    } else {
        spec_repeat(DIGIT_ZERO, precision - number.len()) + number
    }
}

/// Appends the digit field to `out`: `precision - number.len()` zeros, then
/// the digits, or nothing when `skip` is set.
fn push_digit_field(out: &mut Vec<u8>, number: &Vec<u8>, precision: usize, skip: bool)
    ensures
        final(out)@ == old(out)@ + spec_digit_field(number@, precision as int, skip),
{
    if !skip {
        let zeros = precision.saturating_sub(number.len());
        push_repeat(out, DIGIT_ZERO, zeros);
        push_all(out, number.as_slice());
        proof {
            assert(out@ =~= old(out)@ + spec_digit_field(number@, precision as int, false));
        }
    } else {
        proof {
            assert(out@ =~= old(out)@ + spec_digit_field(number@, precision as int, true));
        }
    }
}

/// Concatenation is associative: appending three pieces one after another to
/// `base` yields `base` followed by the pieces' concatenation.
proof fn lemma_assemble(base: Seq<u8>, x: Seq<u8>, y: Seq<u8>, z: Seq<u8>)
    ensures
        ((base + x) + y) + z == base + (x + y + z),
{
    assert(((base + x) + y) + z =~= base + (x + y + z));
}

/// The empty sequence is a right identity of concatenation.
proof fn lemma_add_empty(a: Seq<u8>)
    ensures
        a + Seq::<u8>::empty() == a,
{
    assert(a + Seq::<u8>::empty() =~= a);
}

/// How [`spec_unsigned_render`] decomposes into pad, prefix and digit field.
proof fn lemma_unsigned_render_shape(value: usize, p: UnsignedIntFormatParams)
    ensures
        ({
            let prec = spec_unsigned_eff_precision(p);
            let number = spec_number_bytes(value as int, p.base.spec_radix(), p.capital);
            let digit_field = spec_digit_field(
                number,
                prec,
                p.base is Octal && value == 0 && prec == 0,
            );
            let prefix = if p.print_prefix {
                spec_prefix_bytes(p.base, p.capital)
            } else {
                Seq::<u8>::empty()
            };
            let content = (if p.print_prefix && !(p.base is Octal) {
                2int
            } else {
                0int
            }) + (if prec > number.len() {
                prec
            } else {
                number.len() as int
            });
            let pad = spec_repeat(p.pad_char, p.min_length - content);
            spec_unsigned_render(value, p) == if p.justify_left {
                prefix + digit_field + pad
            } else {
                pad + prefix + digit_field
            }
        }),
{
    reveal(spec_unsigned_render);
}

/// Renders an unsigned integer in base 8, 10 or 16 with zero or space
/// padding, alternate-form base prefixes, and left or right justification,
/// appending the rendering to `out`.
#[verifier::rlimit(60)]
pub fn format_int_unsigned(out: &mut Vec<u8>, value: usize, params: UnsignedIntFormatParams)
    ensures
        final(out)@ == old(out)@ + spec_unsigned_render(value, params),
{
    let mut precision = params.precision;
    let mut extra: usize = 0;
    if params.print_prefix {
        match params.base {
            Base::Octal => {
                precision = if precision > 0 {
                    precision - 1
                } else {
                    0
                };
            },
            _ => {
                extra = 2;
            },
        }
    }
    assert(precision as int == spec_unsigned_eff_precision(params));
    let number = digits_vec(value, params.base, params.capital);
    let dlen = number.len();
    let content_base = if precision > dlen {
        precision
    } else {
        dlen
    };
    let pad_n = params.min_length.saturating_sub(content_base).saturating_sub(extra);
    let skip_digits = match params.base {
        Base::Octal => value == 0 && precision == 0,
        _ => false,
    };
    let ghost prefix_s = (if params.print_prefix {
        spec_prefix_bytes(params.base, params.capital)
    } else {
        Seq::<u8>::empty()
    });
    let ghost digit_field_s = spec_digit_field(number@, precision as int, skip_digits);
    let ghost pad_s = spec_repeat(params.pad_char, pad_n as int);
    proof {
        lemma_unsigned_render_shape(value, params);
        let content = extra as int + (if precision > dlen {
            precision as int
        } else {
            dlen as int
        });
        assert(pad_n as int == (if params.min_length - content < 0 {
            0int
        } else {
            params.min_length - content
        }));
        assert(pad_s =~= spec_repeat(params.pad_char, params.min_length - content));
        assert(spec_unsigned_render(value, params) == (if params.justify_left {
            prefix_s + digit_field_s + pad_s
        } else {
            pad_s + prefix_s + digit_field_s
        }));
    }
    if !params.justify_left {
        push_repeat(out, params.pad_char, pad_n);
    }
    let ghost s1 = out@;
    if params.print_prefix {
        push_prefix(out, params.base, params.capital);
    }
    let ghost s2 = out@;
    push_digit_field(out, &number, precision, skip_digits);
    let ghost s3 = out@;
    if params.justify_left {
        push_repeat(out, params.pad_char, pad_n);
    }
    proof {
        if !params.print_prefix {
            lemma_add_empty(s1);
        }
        assert(s2 == s1 + prefix_s);
        if params.justify_left {
            assert(s1 == old(out)@);
            assert(out@ == ((old(out)@ + prefix_s) + digit_field_s) + pad_s);
            lemma_assemble(old(out)@, prefix_s, digit_field_s, pad_s);
        } else {
            assert(s1 == old(out)@ + pad_s);
            assert(out@ == ((old(out)@ + pad_s) + prefix_s) + digit_field_s);
            lemma_assemble(old(out)@, pad_s, prefix_s, digit_field_s);
        }
    }
}

/// How a signed decimal conversion is to be rendered.
#[derive(Clone, Copy, Debug)]
pub struct SignedIntFormatParams {
    pub pad_char: u8,
    pub justify_left: bool,
    pub precision: usize,
    pub min_length: usize,
    pub always_print_sign: bool,
    pub prepend_space: bool,
}

/// The absolute value of a signed machine integer, as a mathematical integer.
pub open spec fn spec_abs(v: isize) -> int {
    if v >= 0 {
        v as int
    } else {
        -(v as int)
    }
}

/// The sign bytes of a signed conversion: a negative sign always wins, then
/// the always-show-sign flag yields `+`, then the prepend-space flag yields a
/// space, else nothing.
pub open spec fn spec_sign_bytes(v: isize, p: SignedIntFormatParams) -> Seq<u8> {
    if v < 0 {
        seq![MINUS]
    } else if p.always_print_sign {
        seq![PLUS]
    } else if p.prepend_space {
        seq![SPACE]
    } else {
        Seq::<u8>::empty()
    }
}

/// The full rendering of a signed decimal conversion: pad bytes (unless
/// left-justified), then the sign, then the absolute value's digits
/// zero-padded to the precision, then trailing pad bytes if left-justified.
/// A `-` or `+` sign occupies one place of the field width; a prepended
/// space does not.
#[verifier::opaque]
pub open spec fn spec_signed_render(value: isize, p: SignedIntFormatParams) -> Seq<u8> {
    let number = spec_number_bytes(spec_abs(value), 10, false);
    let digit_field = spec_repeat(DIGIT_ZERO, p.precision - number.len()) + number;
    let content = (if p.precision > number.len() {
        p.precision as int
    } else {
        number.len() as int
    }) + (if value < 0 || p.always_print_sign {
        1int
    } else {
        0int
    });
    let pad = spec_repeat(p.pad_char, p.min_length - content);
    if p.justify_left {
        spec_sign_bytes(value, p) + digit_field + pad
    } else {
        pad + spec_sign_bytes(value, p) + digit_field
    }
}

/// The magnitude of a signed machine integer.
fn magnitude(v: isize) -> (r: usize)
    ensures
        r as int == spec_abs(v),
{
    if v >= 0 {
        v as usize
    } else {
        ((-(v + 1)) as usize) + 1
    }
}

/// Renders a signed integer in base 10 with sign handling, zero or space
/// padding, and left or right justification, appending the rendering to
/// `out`.
#[verifier::rlimit(60)]
pub fn format_int_signed(out: &mut Vec<u8>, value: isize, params: SignedIntFormatParams)
    ensures
        final(out)@ == old(out)@ + spec_signed_render(value, params),
{
    let mag = magnitude(value);
    let number = digits_vec(mag, Base::Decimal, false);
    let dlen = number.len();
    let content_base = if params.precision > dlen {
        params.precision
    } else {
        dlen
    };
    let sign_places: usize = if value < 0 || params.always_print_sign {
        1
    } else {
        0
    };
    let pad_n = params.min_length.saturating_sub(content_base).saturating_sub(sign_places);
    let ghost number_s = spec_number_bytes(spec_abs(value), 10, false);
    let ghost digit_field_s = spec_repeat(DIGIT_ZERO, params.precision - number_s.len()) + number_s;
    let ghost sign_s = spec_sign_bytes(value, params);
    let ghost pad_s = spec_repeat(params.pad_char, pad_n as int);
    proof {
        reveal(spec_signed_render);
        assert(pad_s == spec_repeat(
            params.pad_char,
            params.min_length - ((if params.precision > number_s.len() {
                params.precision as int
            } else {
                number_s.len() as int
            }) + (if value < 0 || params.always_print_sign {
                1int
            } else {
                0int
            })),
        ));
        assert(spec_signed_render(value, params) == (if params.justify_left {
            sign_s + digit_field_s + pad_s
        } else {
            pad_s + sign_s + digit_field_s
        }));
    }
    if !params.justify_left {
        push_repeat(out, params.pad_char, pad_n);
    }
    let ghost s1 = out@;
    if value < 0 {
        out.push(MINUS);
    } else if params.always_print_sign {
        out.push(PLUS);
    } else if params.prepend_space {
        out.push(SPACE);
    }
    proof {
        assert(out@ =~= s1 + sign_s);
    }
    let ghost s2 = out@;
    let zeros = params.precision.saturating_sub(dlen);
    push_repeat(out, DIGIT_ZERO, zeros);
    push_all(out, number.as_slice());
    proof {
        assert(out@ =~= s2 + digit_field_s);
    }
    let ghost s3 = out@;
    if params.justify_left {
        push_repeat(out, params.pad_char, pad_n);
    }
    proof {
        if params.justify_left {
            assert(s1 == old(out)@);
            assert(out@ =~= s3 + pad_s);
            assert(out@ =~= old(out)@ + (sign_s + digit_field_s + pad_s));
        } else {
            assert(s1 =~= old(out)@ + pad_s);
            assert(out@ == s3);
            assert(out@ =~= old(out)@ + (pad_s + sign_s + digit_field_s));
        }
    }
}

} // verus!
