//! Rendering integer values as text: hexadecimal, decimal, octal, binary
//! and scientific notation, with zero-padding, case and prefix options.
//!
//! Hexadecimal, octal and binary text is rendered from the value's
//! two's-complement bit pattern; decimal and scientific text from its
//! signed value.

use vstd::prelude::*;
use vstd::arithmetic::div_mod::lemma_div_decreases;

use crate::display_options::BinaryOptions;
use crate::display_options::HexOptions;

verus! {

/// The character for digit `d`, in the requested case.
pub open spec fn spec_digit_char(d: nat, uppercase: bool) -> char
    recommends
        d < 16,
{
    if uppercase {
        seq!['0', '1', '2', '3', '4', '5', '6', '7', '8', '9', 'A', 'B', 'C', 'D', 'E', 'F'][d as int]
    } else {
        seq!['0', '1', '2', '3', '4', '5', '6', '7', '8', '9', 'a', 'b', 'c', 'd', 'e', 'f'][d as int]
    }
}

/// The digits of `v` in the given base, most significant first, with no
/// leading zeros; empty for `v == 0`.
pub open spec fn spec_digits(v: nat, base: nat, uppercase: bool) -> Seq<char>
    recommends
        2 <= base <= 16,
    decreases v,
    via spec_digits_decreases
{
    if v == 0 || base < 2 {
        Seq::empty()
    } else {
        spec_digits(v / base, base, uppercase).push(spec_digit_char(v % base, uppercase))
    }
}

#[via_fn]
proof fn spec_digits_decreases(v: nat, base: nat, uppercase: bool) {
    if v > 0 && base >= 2 {
        lemma_div_decreases(v as int, base as int);
    }
}

/// The minimal digit string of `v` in the given base: at least one digit,
/// so `v == 0` renders as `"0"`.
pub open spec fn spec_min_digits(v: nat, base: nat, uppercase: bool) -> Seq<char>
    recommends
        2 <= base <= 16,
{
    if v == 0 {
        seq!['0']
    } else {
        spec_digits(v, base, uppercase)
    }
}

/// `s` extended on the left with `'0'` up to `width` characters; `s`
/// itself when it is already that long.
pub open spec fn spec_zero_pad(s: Seq<char>, width: nat) -> Seq<char> {
    if s.len() >= width {
        s
    } else {
        Seq::new((width - s.len()) as nat, |i: int| '0') + s
    }
}

/// True of the widths a number shape can have. Padding is defined by the
/// shape's width; a width outside this set falls back to the unpadded
/// rendering.
pub open spec fn spec_canonical_width(byte_width: nat) -> bool {
    byte_width == 1 || byte_width == 2 || byte_width == 4 || byte_width == 8 || byte_width == 16
}

/// Hexadecimal text of the bit pattern `bits` stored in `byte_width`
/// bytes: minimal digits, zero-extended to `2 * byte_width` digits when
/// `padded`, with case applied to the digits alone, and a literal `0x`
/// in front when `prefix`.
pub open spec fn spec_hex(bits: nat, byte_width: nat, options: HexOptions) -> Seq<char> {
    let digits = spec_min_digits(bits, 16, options.uppercase);
    let body = if options.padded && spec_canonical_width(byte_width) {
        spec_zero_pad(digits, 2 * byte_width)
    } else {
        digits
    };
    if options.prefix {
        seq!['0', 'x'] + body
    } else {
        body
    }
}

/// Octal text of the bit pattern `bits`: minimal digits, no prefix, no
/// padding.
pub open spec fn spec_octal(bits: nat) -> Seq<char> {
    spec_min_digits(bits, 8, false)
}

/// Binary text of the bit pattern `bits` stored in `byte_width` bytes:
/// minimal digits, zero-extended to the full `8 * byte_width` bits when
/// `padded`.
pub open spec fn spec_binary(bits: nat, byte_width: nat, options: BinaryOptions) -> Seq<char> {
    let digits = spec_min_digits(bits, 2, false);
    if options.padded && spec_canonical_width(byte_width) {
        spec_zero_pad(digits, 8 * byte_width)
    } else {
        digits
    }
}

/// Decimal text of `value`: its base-10 digits, with a leading `-` when
/// negative.
pub open spec fn spec_decimal(value: int) -> Seq<char> {
    if value < 0 {
        seq!['-'] + spec_min_digits((-value) as nat, 10, false)
    } else {
        spec_min_digits(value as nat, 10, false)
    }
}

/// `s` with its trailing `'0'` characters removed.
pub open spec fn spec_strip_zeros(s: Seq<char>) -> Seq<char>
    decreases s.len(),
{
    if s.len() > 0 && s.last() == '0' {
        spec_strip_zeros(s.drop_last())
    } else {
        s
    }
}

/// Scientific text of the non-negative value `v`: the leading decimal
/// digit, a fractional part holding the remaining digits with trailing
/// zeros dropped, `e` (or `E`), and the exponent — one less than the
/// number of decimal digits of `v`.
pub open spec fn spec_scientific_nat(v: nat, uppercase: bool) -> Seq<char> {
    let ds = spec_min_digits(v, 10, false);
    let frac = spec_strip_zeros(ds.drop_first());
    let e = if uppercase {
        seq!['E']
    } else {
        seq!['e']
    };
    let exp = spec_min_digits((ds.len() - 1) as nat, 10, false);
    if frac.len() == 0 {
        seq![ds[0]] + e + exp
    } else {
        seq![ds[0], '.'] + frac + e + exp
    }
}

/// Scientific text of `value`, with a leading `-` when negative.
pub open spec fn spec_scientific(value: int, uppercase: bool) -> Seq<char> {
    if value < 0 {
        seq!['-'] + spec_scientific_nat((-value) as nat, uppercase)
    } else {
        spec_scientific_nat(value as nat, uppercase)
    }
}

/// `c` uppercased when it is one of the six hex letter digits, and
/// unchanged otherwise; in particular decimal digits, `0x` and padding
/// are untouched.
pub open spec fn spec_to_upper_hex(c: char) -> char {
    if c == 'a' {
        'A'
    } else if c == 'b' {
        'B'
    } else if c == 'c' {
        'C'
    } else if c == 'd' {
        'D'
    } else if c == 'e' {
        'E'
    } else if c == 'f' {
        'F'
    } else {
        c
    }
}

/// `s` with each hex letter digit uppercased and every other character
/// kept.
pub open spec fn spec_upper_hex_of(s: Seq<char>) -> Seq<char> {
    s.map_values(|c: char| spec_to_upper_hex(c))
}

/// Uppercasing a digit character is uppercasing the digit.
proof fn lemma_digit_char_case(d: nat)
    requires
        d < 16,
    ensures
        spec_digit_char(d, true) == spec_to_upper_hex(spec_digit_char(d, false)),
{
}

/// Uppercasing a digit string is uppercasing each digit.
proof fn lemma_digits_case(v: nat, base: nat)
    requires
        2 <= base <= 16,
    ensures
        spec_digits(v, base, true) == spec_upper_hex_of(spec_digits(v, base, false)),
    decreases v,
{
    if v == 0 {
        assert(spec_digits(v, base, true) =~= spec_upper_hex_of(spec_digits(v, base, false)));
    } else {
        lemma_div_decreases(v as int, base as int);
        lemma_digits_case(v / base, base);
        lemma_digit_char_case(v % base);
        assert(spec_digits(v, base, true) =~= spec_upper_hex_of(spec_digits(v, base, false)));
    }
}

/// Uppercasing a minimal digit string is uppercasing each digit; the
/// `"0"` rendered for zero is untouched.
proof fn lemma_min_digits_case(v: nat, base: nat)
    requires
        2 <= base <= 16,
    ensures
        spec_min_digits(v, base, true) == spec_upper_hex_of(spec_min_digits(v, base, false)),
{
    if v == 0 {
        assert(spec_min_digits(v, base, true) =~= spec_upper_hex_of(
            spec_min_digits(v, base, false),
        ));
    } else {
        lemma_digits_case(v, base);
    }
}

/// Rendering the value zero with padding on gives exactly `2 × byte_width`
/// `'0'` digits in hexadecimal, whatever the case option says, because
/// padding width follows the source type's width, never the magnitude.
pub proof fn lemma_hex_padding_exactness(byte_width: nat, uppercase: bool)
    requires
        spec_canonical_width(byte_width),
    ensures
        spec_hex(0, byte_width, (HexOptions { uppercase, prefix: false, padded: true }))
            == Seq::new(2 * byte_width, |i: int| '0'),
{
    assert(spec_hex(0, byte_width, (HexOptions { uppercase, prefix: false, padded: true })) =~= Seq::new(
        2 * byte_width,
        |i: int| '0',
    ));
}

/// Rendering the value zero with padding on gives exactly `8 × byte_width`
/// `'0'` digits in binary.
pub proof fn lemma_binary_padding_exactness(byte_width: nat)
    requires
        spec_canonical_width(byte_width),
    ensures
        spec_binary(0, byte_width, (BinaryOptions { padded: true })) == Seq::new(
            8 * byte_width,
            |i: int| '0',
        ),
{
    assert(spec_binary(0, byte_width, (BinaryOptions { padded: true })) =~= Seq::new(
        8 * byte_width,
        |i: int| '0',
    ));
}

/// The prefix option adds exactly `0x` in front of the otherwise
/// unchanged rendering, for every value, width, case and padding choice.
pub proof fn lemma_hex_prefix(bits: nat, byte_width: nat, uppercase: bool, padded: bool)
    ensures
        spec_hex(bits, byte_width, (HexOptions { uppercase, prefix: true, padded })) == seq![
            '0',
            'x',
        ] + spec_hex(bits, byte_width, (HexOptions { uppercase, prefix: false, padded })),
{
}

/// The padding option zero-extends the digits of the otherwise unchanged
/// rendering to `2 × byte_width` characters, for every value, canonical
/// width and case choice; at any other width it changes nothing.
pub proof fn lemma_hex_padding(bits: nat, byte_width: nat, uppercase: bool)
    ensures
        spec_canonical_width(byte_width) ==> spec_hex(
            bits,
            byte_width,
            (HexOptions { uppercase, prefix: false, padded: true }),
        ) == spec_zero_pad(
            spec_hex(bits, byte_width, (HexOptions { uppercase, prefix: false, padded: false })),
            2 * byte_width,
        ),
        !spec_canonical_width(byte_width) ==> spec_hex(
            bits,
            byte_width,
            (HexOptions { uppercase, prefix: false, padded: true }),
        ) == spec_hex(
            bits,
            byte_width,
            (HexOptions { uppercase, prefix: false, padded: false }),
        ),
{
}

/// The case option uppercases the hex letter digits and nothing else:
/// the rendering with `uppercase` on is the rendering with it off mapped
/// through [`spec_to_upper_hex`], which fixes `0x` and the padding, for
/// every value, width, prefix and padding choice.
pub proof fn lemma_hex_case(bits: nat, byte_width: nat, prefix: bool, padded: bool)
    ensures
        spec_hex(bits, byte_width, (HexOptions { uppercase: true, prefix, padded }))
            == spec_upper_hex_of(
            spec_hex(bits, byte_width, (HexOptions { uppercase: false, prefix, padded })),
        ),
{
    lemma_min_digits_case(bits, 16);
    let lo_digits = spec_min_digits(bits, 16, false);
    let hi_digits = spec_min_digits(bits, 16, true);
    let lo_body = if padded && spec_canonical_width(byte_width) {
        spec_zero_pad(lo_digits, 2 * byte_width)
    } else {
        lo_digits
    };
    let hi_body = if padded && spec_canonical_width(byte_width) {
        spec_zero_pad(hi_digits, 2 * byte_width)
    } else {
        hi_digits
    };
    assert(hi_body =~= spec_upper_hex_of(lo_body));
    if prefix {
        assert(seq!['0', 'x'] + hi_body =~= spec_upper_hex_of(seq!['0', 'x'] + lo_body));
    }
}

/// The one-character string for digit `d`, in the requested case.
fn digit_str(d: u128, uppercase: bool) -> (r: &'static str)
    requires
        d < 16,
    ensures
        r@ == seq![spec_digit_char(d as nat, uppercase)],
{
    if uppercase {
        match d {
            0 => {
                proof {
                    reveal_strlit("0");
                    assert("0"@ =~= seq![spec_digit_char(0, true)]);
                }
                "0"
            },
            1 => {
                proof {
                    reveal_strlit("1");
                    assert("1"@ =~= seq![spec_digit_char(1, true)]);
                }
                "1"
            },
            2 => {
                proof {
                    reveal_strlit("2");
                    assert("2"@ =~= seq![spec_digit_char(2, true)]);
                }
                "2"
            },
            3 => {
                proof {
                    reveal_strlit("3");
                    assert("3"@ =~= seq![spec_digit_char(3, true)]);
                }
                "3"
            },
            4 => {
                proof {
                    reveal_strlit("4");
                    assert("4"@ =~= seq![spec_digit_char(4, true)]);
                }
                "4"
            },
            5 => {
                proof {
                    reveal_strlit("5");
                    assert("5"@ =~= seq![spec_digit_char(5, true)]);
                }
                "5"
            },
            6 => {
                proof {
                    reveal_strlit("6");
                    assert("6"@ =~= seq![spec_digit_char(6, true)]);
                }
                "6"
            },
            7 => {
                proof {
                    reveal_strlit("7");
                    assert("7"@ =~= seq![spec_digit_char(7, true)]);
                }
                "7"
            },
            8 => {
                proof {
                    reveal_strlit("8");
                    assert("8"@ =~= seq![spec_digit_char(8, true)]);
                }
                "8"
            },
            9 => {
                proof {
                    reveal_strlit("9");
                    assert("9"@ =~= seq![spec_digit_char(9, true)]);
                }
                "9"
            },
            10 => {
                proof {
                    reveal_strlit("A");
                    assert("A"@ =~= seq![spec_digit_char(10, true)]);
                }
                "A"
            },
            11 => {
                proof {
                    reveal_strlit("B");
                    assert("B"@ =~= seq![spec_digit_char(11, true)]);
                }
                "B"
            },
            12 => {
                proof {
                    reveal_strlit("C");
                    assert("C"@ =~= seq![spec_digit_char(12, true)]);
                }
                "C"
            },
            13 => {
                proof {
                    reveal_strlit("D");
                    assert("D"@ =~= seq![spec_digit_char(13, true)]);
                }
                "D"
            },
            14 => {
                proof {
                    reveal_strlit("E");
                    assert("E"@ =~= seq![spec_digit_char(14, true)]);
                }
                "E"
            },
            _ => {
                proof {
                    reveal_strlit("F");
                    assert("F"@ =~= seq![spec_digit_char(15, true)]);
                }
                "F"
            },
        }
    } else {
        match d {
            0 => {
                proof {
                    reveal_strlit("0");
                    assert("0"@ =~= seq![spec_digit_char(0, false)]);
                }
                "0"
            },
            1 => {
                proof {
                    reveal_strlit("1");
                    assert("1"@ =~= seq![spec_digit_char(1, false)]);
                }
                "1"
            },
            2 => {
                proof {
                    reveal_strlit("2");
                    assert("2"@ =~= seq![spec_digit_char(2, false)]);
                }
                "2"
            },
            3 => {
                proof {
                    reveal_strlit("3");
                    assert("3"@ =~= seq![spec_digit_char(3, false)]);
                }
                "3"
            },
            4 => {
                proof {
                    reveal_strlit("4");
                    assert("4"@ =~= seq![spec_digit_char(4, false)]);
                }
                "4"
            },
            5 => {
                proof {
                    reveal_strlit("5");
                    assert("5"@ =~= seq![spec_digit_char(5, false)]);
                }
                "5"
            },
            6 => {
                proof {
                    reveal_strlit("6");
                    assert("6"@ =~= seq![spec_digit_char(6, false)]);
                }
                "6"
            },
            7 => {
                proof {
                    reveal_strlit("7");
                    assert("7"@ =~= seq![spec_digit_char(7, false)]);
                }
                "7"
            },
            8 => {
                proof {
                    reveal_strlit("8");
                    assert("8"@ =~= seq![spec_digit_char(8, false)]);
                }
                "8"
            },
            9 => {
                proof {
                    reveal_strlit("9");
                    assert("9"@ =~= seq![spec_digit_char(9, false)]);
                }
                "9"
            },
            10 => {
                proof {
                    reveal_strlit("a");
                    assert("a"@ =~= seq![spec_digit_char(10, false)]);
                }
                "a"
            },
            11 => {
                proof {
                    reveal_strlit("b");
                    assert("b"@ =~= seq![spec_digit_char(11, false)]);
                }
                "b"
            },
            12 => {
                proof {
                    reveal_strlit("c");
                    assert("c"@ =~= seq![spec_digit_char(12, false)]);
                }
                "c"
            },
            13 => {
                proof {
                    reveal_strlit("d");
                    assert("d"@ =~= seq![spec_digit_char(13, false)]);
                }
                "d"
            },
            14 => {
                proof {
                    reveal_strlit("e");
                    assert("e"@ =~= seq![spec_digit_char(14, false)]);
                }
                "e"
            },
            _ => {
                proof {
                    reveal_strlit("f");
                    assert("f"@ =~= seq![spec_digit_char(15, false)]);
                }
                "f"
            },
        }
    }
}

/// The digit string of `v` with no leading zeros; empty for `v == 0`.
fn digit_string(v: u128, base: u128, uppercase: bool) -> (r: String)
    requires
        2 <= base <= 16,
    ensures
        r@ == spec_digits(v as nat, base as nat, uppercase),
    decreases v,
{
    if v == 0 {
        let r = String::new();
        proof {
            assert(r@ =~= spec_digits(0, base as nat, uppercase));
        }
        r
    } else {
        proof {
            lemma_div_decreases(v as int, base as int);
        }
        let mut s = digit_string(v / base, base, uppercase);
        s.append(digit_str(v % base, uppercase));
        proof {
            assert(s@ =~= spec_digits(v as nat, base as nat, uppercase));
        }
        s
    }
}

/// The minimal digit string of `v`: `"0"` for zero.
fn min_digit_string(v: u128, base: u128, uppercase: bool) -> (r: String)
    requires
        2 <= base <= 16,
    ensures
        r@ == spec_min_digits(v as nat, base as nat, uppercase),
{
    if v == 0 {
        let r = String::from_str("0");
        proof {
            reveal_strlit("0");
            assert(r@ =~= seq!['0']);
        }
        r
    } else {
        digit_string(v, base, uppercase)
    }
}

/// `s` extended on the left with zeros up to `width` characters.
fn zero_padded(s: String, width: usize) -> (r: String)
    ensures
        r@ == spec_zero_pad(s@, width as nat),
{
    let n = s.as_str().unicode_len();
    if n >= width {
        return s;
    }
    let mut out = String::new();
    let mut k: usize = width - n;
    while k > 0
        invariant
            k <= width - n,
            n == s@.len(),
            n < width,
            out@ == Seq::new((width - n - k) as nat, |i: int| '0'),
        decreases k,
    {
        out.append("0");
        k -= 1;
        proof {
            reveal_strlit("0");
            assert(out@ =~= Seq::new((width - n - k) as nat, |i: int| '0'));
        }
    }
    out.append(s.as_str());
    proof {
        assert(out@ =~= spec_zero_pad(s@, width as nat));
    }
    out
}

/// Hexadecimal text of the bit pattern `bits` stored in `byte_width`
/// bytes, under the given options.
pub fn render_hex(bits: u128, byte_width: usize, options: HexOptions) -> (r: String)
    ensures
        r@ == spec_hex(bits as nat, byte_width as nat, options),
{
    let digits = min_digit_string(bits, 16, options.uppercase);
    let body = if options.padded && canonical_width(byte_width) {
        zero_padded(digits, 2 * byte_width)
    } else {
        digits
    };
    if options.prefix {
        let mut out = String::from_str("0x");
        proof {
            reveal_strlit("0x");
            assert(out@ =~= seq!['0', 'x']);
        }
        out.append(body.as_str());
        out
    } else {
        body
    }
}

/// Octal text of the bit pattern `bits`.
pub fn render_octal(bits: u128) -> (r: String)
    ensures
        r@ == spec_octal(bits as nat),
{
    min_digit_string(bits, 8, false)
}

/// Binary text of the bit pattern `bits` stored in `byte_width` bytes,
/// under the given options.
pub fn render_binary(bits: u128, byte_width: usize, options: BinaryOptions) -> (r: String)
    ensures
        r@ == spec_binary(bits as nat, byte_width as nat, options),
{
    let digits = min_digit_string(bits, 2, false);
    if options.padded && canonical_width(byte_width) {
        zero_padded(digits, 8 * byte_width)
    } else {
        digits
    }
}

/// True of the widths a number shape can have.
fn canonical_width(byte_width: usize) -> (b: bool)
    ensures
        b == spec_canonical_width(byte_width as nat),
{
    byte_width == 1 || byte_width == 2 || byte_width == 4 || byte_width == 8 || byte_width == 16
}

/// The magnitude of `v` as an unsigned value.
fn magnitude(v: i128) -> (m: u128)
    ensures
        m == if v >= 0 {
            v as int
        } else {
            -(v as int)
        },
{
    if v >= 0 {
        v as u128
    } else if v == -0x8000_0000_0000_0000_0000_0000_0000_0000i128 {
        0x8000_0000_0000_0000_0000_0000_0000_0000u128
    } else {
        (-v) as u128
    }
}

/// Decimal text of the unsigned value `v`.
pub fn render_decimal_u128(v: u128) -> (r: String)
    ensures
        r@ == spec_decimal(v as int),
{
    min_digit_string(v, 10, false)
}

/// Decimal text of the signed value `v`.
pub fn render_decimal_i128(v: i128) -> (r: String)
    ensures
        r@ == spec_decimal(v as int),
{
    if v >= 0 {
        min_digit_string(v as u128, 10, false)
    } else {
        let ms = min_digit_string(magnitude(v), 10, false);
        let mut out = String::from_str("-");
        proof {
            reveal_strlit("-");
            assert(out@ =~= seq!['-']);
        }
        out.append(ms.as_str());
        proof {
            assert(out@ =~= spec_decimal(v as int));
        }
        out
    }
}

/// Scientific text of the non-negative value `v`.
pub fn render_scientific_u128(v: u128, uppercase: bool) -> (r: String)
    ensures
        r@ == spec_scientific(v as int, uppercase),
{
    let ds = min_digit_string(v, 10, false);
    let n = ds.as_str().unicode_len();
    assert(n >= 1);
    let mut end = n;
    while end > 1 && ds.as_str().get_char(end - 1) == '0'
        invariant
            1 <= end <= n,
            n == ds@.len(),
            ds@ == spec_min_digits(v as nat, 10, false),
            spec_strip_zeros(ds@.subrange(1, n as int)) == spec_strip_zeros(
                ds@.subrange(1, end as int),
            ),
        decreases end,
    {
        proof {
            assert(ds@.subrange(1, end as int).drop_last() =~= ds@.subrange(1, end - 1));
            assert(ds@.subrange(1, end as int).last() == ds@[end - 1]);
        }
        end -= 1;
    }
    let ghost frac_spec = spec_strip_zeros(ds@.drop_first());
    proof {
        assert(ds@.drop_first() =~= ds@.subrange(1, n as int));
        if end == 1 {
            assert(ds@.subrange(1, 1).len() == 0);
            assert(frac_spec =~= ds@.subrange(1, 1));
        } else {
            assert(ds@.subrange(1, end as int).last() != '0');
            assert(frac_spec == ds@.subrange(1, end as int));
        }
    }
    let mut out = String::new();
    let head = ds.as_str().substring_char(0, 1);
    out.append(head);
    if end > 1 {
        out.append(".");
        let frac = ds.as_str().substring_char(1, end);
        out.append(frac);
    }
    if uppercase {
        out.append("E");
    } else {
        out.append("e");
    }
    let exp_s = min_digit_string((n - 1) as u128, 10, false);
    out.append(exp_s.as_str());
    proof {
        reveal_strlit(".");
        reveal_strlit("E");
        reveal_strlit("e");
        assert(out@ =~= spec_scientific_nat(v as nat, uppercase));
    }
    out
}

/// Scientific text of the signed value `v`.
pub fn render_scientific_i128(v: i128, uppercase: bool) -> (r: String)
    ensures
        r@ == spec_scientific(v as int, uppercase),
{
    if v >= 0 {
        render_scientific_u128(v as u128, uppercase)
    } else {
        let ms = render_scientific_u128(magnitude(v), uppercase);
        let mut out = String::from_str("-");
        proof {
            reveal_strlit("-");
            assert(out@ =~= seq!['-']);
        }
        out.append(ms.as_str());
        proof {
            assert(out@ =~= spec_scientific(v as int, uppercase));
        }
        out
    }
}

} // verus!
