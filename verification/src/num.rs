//! The language's numbers are IEEE-754 binary64 values, carried everywhere as
//! their raw bit patterns in a `u64`. Equality, ordering, negation and the
//! classification predicates are defined here directly over the bits; the
//! rounding arithmetic, conversions and decimal text come from the soft-float
//! crate `rustc_apfloat` through trusted wrappers, each result named by an
//! uninterpreted function of the operand bits.
use crate::strutil::{chars_to_string, string_to_chars, vec_append_all, vec_skip, vec_take,
    zero_seq, zeros_vec};
use vstd::prelude::*;
use vstd::string::*;

use rustc_apfloat::ieee::Double;
use rustc_apfloat::Float;
use rustc_apfloat::Round;
use rustc_apfloat::Status;

verus! {

pub const SIGN_MASK: u64 = 0x8000_0000_0000_0000;

pub const EXP_MASK: u64 = 0x7FF0_0000_0000_0000;

pub const FRAC_MASK: u64 = 0x000F_FFFF_FFFF_FFFF;

pub const ABS_MASK: u64 = 0x7FFF_FFFF_FFFF_FFFF;

/// Bits of the double 1.0.
pub const ONE_BITS: u64 = 0x3FF0_0000_0000_0000;

pub open spec fn is_nan_bits(b: u64) -> bool {
    b & EXP_MASK == EXP_MASK && b & FRAC_MASK != 0
}

pub open spec fn is_inf_bits(b: u64) -> bool {
    b & ABS_MASK == EXP_MASK
}

pub open spec fn is_zero_bits(b: u64) -> bool {
    b & ABS_MASK == 0
}

pub open spec fn is_neg_bits(b: u64) -> bool {
    b & SIGN_MASK != 0
}

pub open spec fn mag_bits(b: u64) -> u64 {
    b & ABS_MASK
}

/// Sign-magnitude ordering key: two finite or infinite doubles compare as
/// their keys compare, and exactly the two zeros share the key 0.
pub open spec fn key_bits(b: u64) -> int {
    if is_neg_bits(b) {
        -(mag_bits(b) as int)
    } else {
        mag_bits(b) as int
    }
}

/// Number equality as the language sees it: a total relation in which the
/// NaNs form one equivalence class and the two zeros another.
pub open spec fn num_eq_bits(a: u64, b: u64) -> bool {
    if is_nan_bits(a) || is_nan_bits(b) {
        is_nan_bits(a) && is_nan_bits(b)
    } else {
        a == b || (is_zero_bits(a) && is_zero_bits(b))
    }
}

/// Number ordering as the language sees it: the total order in which every
/// NaN is greater than every other value.
pub open spec fn num_lt_bits(a: u64, b: u64) -> bool {
    if is_nan_bits(a) {
        false
    } else if is_nan_bits(b) {
        true
    } else {
        key_bits(a) < key_bits(b)
    }
}

pub open spec fn num_le_bits(a: u64, b: u64) -> bool {
    !num_lt_bits(b, a)
}

/// IEEE-754 negation flips the sign bit and nothing else.
pub open spec fn neg_bits(a: u64) -> u64 {
    a ^ SIGN_MASK
}

pub fn num_is_nan(b: u64) -> (r: bool)
    ensures
        r == is_nan_bits(b),
{
    b & EXP_MASK == EXP_MASK && b & FRAC_MASK != 0
}

pub fn num_is_inf(b: u64) -> (r: bool)
    ensures
        r == is_inf_bits(b),
{
    b & ABS_MASK == EXP_MASK
}

pub fn num_is_zero(b: u64) -> (r: bool)
    ensures
        r == is_zero_bits(b),
{
    b & ABS_MASK == 0
}

pub fn num_is_neg(b: u64) -> (r: bool)
    ensures
        r == is_neg_bits(b),
{
    b & SIGN_MASK != 0
}

pub fn num_eq(a: u64, b: u64) -> (r: bool)
    ensures
        r == num_eq_bits(a, b),
{
    if num_is_nan(a) || num_is_nan(b) {
        num_is_nan(a) && num_is_nan(b)
    } else {
        a == b || (num_is_zero(a) && num_is_zero(b))
    }
}

pub fn num_lt(a: u64, b: u64) -> (r: bool)
    ensures
        r == num_lt_bits(a, b),
{
    if num_is_nan(a) {
        false
    } else if num_is_nan(b) {
        true
    } else {
        let na = num_is_neg(a);
        let nb = num_is_neg(b);
        let ma = a & ABS_MASK;
        let mb = b & ABS_MASK;
        if na {
            if nb {
                mb < ma
            } else {
                ma != 0 || mb != 0
            }
        } else {
            if nb {
                false
            } else {
                ma < mb
            }
        }
    }
}

pub fn num_le(a: u64, b: u64) -> (r: bool)
    ensures
        r == num_le_bits(a, b),
{
    !num_lt(b, a)
}

pub fn num_neg(a: u64) -> (r: u64)
    ensures
        r == neg_bits(a),
{
    a ^ SIGN_MASK
}

/// The language's equality on numbers is reflexive, on NaN as on every
/// other value.
pub proof fn lemma_num_eq_reflexive(a: u64)
    ensures
        num_eq_bits(a, a),
{
}

/// The language's equality on numbers is symmetric.
pub proof fn lemma_num_eq_symmetric(a: u64, b: u64)
    ensures
        num_eq_bits(a, b) == num_eq_bits(b, a),
{
}

pub uninterp spec fn add_bits(a: u64, b: u64) -> u64;

pub uninterp spec fn sub_bits(a: u64, b: u64) -> u64;

pub uninterp spec fn mul_bits(a: u64, b: u64) -> u64;

pub uninterp spec fn div_bits(a: u64, b: u64) -> u64;

pub uninterp spec fn bits_of_str(s: Seq<char>) -> Option<u64>;

pub uninterp spec fn bits_of_u64(n: u64) -> u64;

pub uninterp spec fn int_of_bits(b: u64) -> Option<u64>;

pub uninterp spec fn round_int_bits(b: u64, mode: u8) -> u64;

pub uninterp spec fn str_of_bits_prec(b: u64, p: usize) -> Seq<char>;

pub open spec fn is_digit_char(c: char) -> bool {
    '0' <= c && c <= '9'
}

pub open spec fn all_digits_range(s: Seq<char>, lo: int, hi: int) -> bool {
    forall|i: int| lo <= i < hi ==> is_digit_char(#[trigger] s[i])
}

/// The shape of a number lexeme: digits, optionally followed by a point and
/// more digits.
pub open spec fn digits_form(s: Seq<char>) -> bool {
    s.len() > 0 && (all_digits_range(s, 0, s.len() as int) || (exists|k: int|
        0 < k < s.len() - 1 && #[trigger] s[k] == '.' && all_digits_range(s, 0, k)
            && all_digits_range(s, k + 1, s.len() as int)))
}

/// Relies on the `Add` impl of `rustc_apfloat::ieee::Double` (correctly
/// rounded to nearest even): the result bits depend on the operand bits alone.
#[verifier::external_body]
pub(crate) fn num_add(a: u64, b: u64) -> (r: u64)
    ensures
        r == add_bits(a, b),
{
    (Double::from_bits(a as u128) + Double::from_bits(b as u128)).value.to_bits() as u64
}

/// Relies on the `Sub` impl of `rustc_apfloat::ieee::Double` (correctly
/// rounded to nearest even): the result bits depend on the operand bits alone.
#[verifier::external_body]
pub(crate) fn num_sub(a: u64, b: u64) -> (r: u64)
    ensures
        r == sub_bits(a, b),
{
    (Double::from_bits(a as u128) - Double::from_bits(b as u128)).value.to_bits() as u64
}

/// Relies on the `Mul` impl of `rustc_apfloat::ieee::Double` (correctly
/// rounded to nearest even): the result bits depend on the operand bits alone.
#[verifier::external_body]
pub(crate) fn num_mul(a: u64, b: u64) -> (r: u64)
    ensures
        r == mul_bits(a, b),
{
    (Double::from_bits(a as u128) * Double::from_bits(b as u128)).value.to_bits() as u64
}

/// Relies on the `Div` impl of `rustc_apfloat::ieee::Double` (correctly
/// rounded to nearest even; division by zero yields an infinity or NaN, as
/// IEEE-754 asks): the result bits depend on the operand bits alone.
#[verifier::external_body]
pub(crate) fn num_div(a: u64, b: u64) -> (r: u64)
    ensures
        r == div_bits(a, b),
{
    (Double::from_bits(a as u128) / Double::from_bits(b as u128)).value.to_bits() as u64
}

/// Relies on `rustc_apfloat::ieee::Double`'s `FromStr` (correctly rounded
/// decimal conversion): the result depends on the characters alone, and its
/// grammar accepts every nonempty digit string with an optional fractional
/// part.
#[verifier::external_body]
pub(crate) fn num_parse(s: &str) -> (r: Option<u64>)
    ensures
        r == bits_of_str(s@),
        digits_form(s@) ==> r is Some,
{
    match s.parse::<Double>() {
        Ok(d) => Some(d.to_bits() as u64),
        Err(_) => None,
    }
}

/// Relies on `rustc_apfloat::ieee::Double::from_u128` (round to nearest
/// even): the result bits depend on the argument alone, the sign is never
/// set, and an integer up to 2^53 converts exactly and reads back as
/// itself.
#[verifier::external_body]
pub(crate) fn num_from_u64(n: u64) -> (r: u64)
    ensures
        r == bits_of_u64(n),
        !is_neg_bits(r),
        n <= 0x20_0000_0000_0000u64 ==> int_of_bits(r) == Some(n),
{
    Double::from_u128(n as u128).value.to_bits() as u64
}

/// Relies on `rustc_apfloat::ieee::Double::to_u128_r` with truncation: the
/// call reports OK exactly when the value is a non-negative integer below
/// 2^64 (counting negative zero as 0), and then returns that integer. The
/// result depends on the argument alone.
#[verifier::external_body]
pub(crate) fn num_to_u64(a: u64) -> (r: Option<u64>)
    ensures
        r == int_of_bits(a),
{
    let mut exact = false;
    let conv = Double::from_bits(a as u128).to_u128_r(64, Round::TowardZero, &mut exact);
    if conv.status == Status::OK {
        Some(conv.value as u64)
    } else {
        None
    }
}

/// Relies on `rustc_apfloat::ieee::Double::round_to_integral`; mode 0 rounds
/// toward negative infinity, mode 1 toward positive infinity, and any other
/// mode to the nearest integer with ties away from zero. The result bits
/// depend on the arguments alone.
#[verifier::external_body]
pub(crate) fn num_round_int(a: u64, mode: u8) -> (r: u64)
    ensures
        r == round_int_bits(a, mode),
{
    let round = match mode {
        0u8 => Round::TowardNegative,
        1u8 => Round::TowardPositive,
        _ => Round::NearestTiesToAway,
    };
    Double::from_bits(a as u128).round_to_integral(round).value.to_bits() as u64
}

/// Relies on the `Display` impl of `rustc_apfloat::ieee::Double` with the
/// given precision (0 asks for the value's full natural precision): the text
/// depends on the arguments alone.
#[verifier::external_body]
fn num_format_prec(a: u64, p: usize) -> (r: String)
    ensures
        r@ == str_of_bits_prec(a, p),
{
    format!("{:.*}", p, Double::from_bits(a as u128))
}

/// The decimal text of a finite nonzero double: the fewest significant
/// digits, at most 17, whose text reads back as the same bits.
pub open spec fn shortest_from(a: u64, p: usize) -> Seq<char>
    decreases 17 - p,
{
    if p >= 17 {
        str_of_bits_prec(a, 17)
    } else if bits_of_str(str_of_bits_prec(a, p)) == Some(a) {
        str_of_bits_prec(a, p)
    } else {
        shortest_from(a, (p + 1) as usize)
    }
}

pub open spec fn has_exponent_mark(s: Seq<char>) -> bool {
    exists|i: int| 0 <= i < s.len() && s[i] == 'E'
}

/// The fewest digits whose text is plain decimal, without an exponent, and
/// reads back as the same bits; values of extreme magnitude have none.
pub open spec fn shortest_plain_from(a: u64, p: usize) -> Option<Seq<char>>
    decreases 17 - p,
{
    if bits_of_str(str_of_bits_prec(a, p)) == Some(a) && !has_exponent_mark(
        str_of_bits_prec(a, p),
    ) {
        Some(str_of_bits_prec(a, p))
    } else if p >= 17 {
        None
    } else {
        shortest_plain_from(a, (p + 1) as usize)
    }
}

/// What a number prints as: NaN and the infinities and zeros by name, and
/// every other value as its shortest round-tripping decimal.
pub open spec fn display_bits(a: u64) -> Seq<char> {
    if is_nan_bits(a) {
        "NaN"@
    } else if is_inf_bits(a) {
        if is_neg_bits(a) {
            "-inf"@
        } else {
            "inf"@
        }
    } else if is_zero_bits(a) {
        if is_neg_bits(a) {
            "-0"@
        } else {
            "0"@
        }
    } else {
        match shortest_plain_from(a, 1) {
            Some(s) => s,
            None => spec_expand_sci(shortest_from(a, 1)),
        }
    }
}

#[verifier::loop_isolation(false)]
fn has_e(s: &String) -> (r: bool)
    ensures
        r == has_exponent_mark(s@),
{
    let cs = s.as_str();
    let n = cs.unicode_len();
    let mut i: usize = 0;
    while i < n
        invariant
            n == s@.len(),
            i <= n,
            forall|j: int| 0 <= j < i ==> s@[j] != 'E',
        decreases n - i,
    {
        if cs.get_char(i) == 'E' {
            return true;
        }
        i = i + 1;
    }
    false
}

fn shortest_plain_rec(a: u64, p: usize) -> (r: Option<String>)
    requires
        1 <= p <= 17,
    ensures
        (match r {
            Some(s) => shortest_plain_from(a, p) == Some(s@),
            None => shortest_plain_from(a, p) is None,
        }),
    decreases 17 - p,
{
    let s = num_format_prec(a, p);
    let parsed = num_parse(s.as_str());
    let good = match parsed {
        Option::Some(b) => b == a,
        Option::None => false,
    };
    if good && !has_e(&s) {
        return Some(s);
    }
    if p == 17 {
        return None;
    }
    shortest_plain_rec(a, p + 1)
}

fn shortest_rec(a: u64, p: usize) -> (r: String)
    requires
        1 <= p <= 17,
    ensures
        r@ == shortest_from(a, p),
    decreases 17 - p,
{
    let s = num_format_prec(a, p);
    if p >= 17 {
        return s;
    }
    let parsed = num_parse(s.as_str());
    match parsed {
        Option::Some(b) => {
            if b == a {
                return s;
            }
        },
        Option::None => {},
    }
    shortest_rec(a, p + 1)
}

pub fn num_to_display(a: u64) -> (r: String)
    ensures
        r@ == display_bits(a),
{
    if num_is_nan(a) {
        String::from_str("NaN")
    } else if num_is_inf(a) {
        if num_is_neg(a) {
            String::from_str("-inf")
        } else {
            String::from_str("inf")
        }
    } else if num_is_zero(a) {
        if num_is_neg(a) {
            String::from_str("-0")
        } else {
            String::from_str("0")
        }
    } else {
        match shortest_plain_rec(a, 1) {
            Some(s) => s,
            None => {
                let sci = shortest_rec(a, 1);
                let cs = string_to_chars(sci.as_str());
                let expanded = expand_scientific(&cs);
                chars_to_string(&expanded)
            },
        }
    }
}


pub open spec fn find_e(s: Seq<char>, i: int) -> int
    decreases s.len() - i,
{
    if i < 0 || i >= s.len() {
        -1
    } else if s[i] == 'E' {
        i
    } else {
        find_e(s, i + 1)
    }
}

pub open spec fn char_digit_val(c: char) -> int {
    if c == '0' {
        0
    } else if c == '1' {
        1
    } else if c == '2' {
        2
    } else if c == '3' {
        3
    } else if c == '4' {
        4
    } else if c == '5' {
        5
    } else if c == '6' {
        6
    } else if c == '7' {
        7
    } else if c == '8' {
        8
    } else if c == '9' {
        9
    } else {
        -1
    }
}

pub open spec fn dec_digits_val(s: Seq<char>, i: int, acc: int) -> int
    decreases s.len() - i,
{
    if i < 0 || i >= s.len() {
        acc
    } else {
        dec_digits_val(s, i + 1, acc * 10 + char_digit_val(s[i]))
    }
}

pub open spec fn strip_tail_zeros(s: Seq<char>) -> Seq<char>
    decreases s.len(),
{
    if s.len() > 0 && s.last() == '0' {
        strip_tail_zeros(s.drop_last())
    } else {
        s
    }
}

/// The plain positional reading of a short scientific text `d.fffE(+|-)nn`:
/// the digits shifted by the exponent, with the sign kept in front; text of
/// any other shape is left as it stands.
pub open spec fn spec_expand_sci(s: Seq<char>) -> Seq<char> {
    let e = find_e(s, 0);
    if e < 0 || e > 20 {
        s
    } else {
        let neg = s.len() > 0 && s[0] == '-';
        let core = if neg {
            s.subrange(1, e)
        } else {
            s.subrange(0, e)
        };
        let rest = s.skip(e + 1);
        if core.len() == 0 || !is_digit_char(core[0]) {
            s
        } else if core.len() >= 2 && core[1] != '.' {
            s
        } else if !all_digits_range(core, 2, core.len() as int) {
            s
        } else if rest.len() < 2 || rest.len() > 5 {
            s
        } else if rest[0] != '+' && rest[0] != '-' {
            s
        } else if !all_digits_range(rest, 1, rest.len() as int) {
            s
        } else {
            let frac = strip_tail_zeros(
                if core.len() >= 2 {
                    core.skip(2)
                } else {
                    Seq::<char>::empty()
                },
            );
            let ev = dec_digits_val(rest, 1, 0);
            let n = if rest[0] == '-' {
                -ev
            } else {
                ev
            };
            let digits = core.take(1) + frac;
            let k = n - frac.len();
            let body = if k >= 0 {
                digits + zero_seq(k)
            } else if digits.len() + k > 0 {
                digits.take(digits.len() + k) + seq!['.'] + digits.skip(digits.len() + k)
            } else {
                seq!['0', '.'] + zero_seq(-(digits.len() as int) - k) + digits
            };
            if neg {
                seq!['-'] + body
            } else {
                body
            }
        }
    }
}

fn char_digit(c: char) -> (r: i64)
    ensures
        r as int == char_digit_val(c),
        is_digit_char(c) <==> 0 <= r <= 9,
{
    if c == '0' {
        0
    } else if c == '1' {
        1
    } else if c == '2' {
        2
    } else if c == '3' {
        3
    } else if c == '4' {
        4
    } else if c == '5' {
        5
    } else if c == '6' {
        6
    } else if c == '7' {
        7
    } else if c == '8' {
        8
    } else if c == '9' {
        9
    } else {
        -1
    }
}

#[verifier::loop_isolation(false)]
fn all_digits(v: &Vec<char>, lo: usize) -> (r: bool)
    requires
        lo <= v@.len(),
    ensures
        r == all_digits_range(v@, lo as int, v@.len() as int),
{
    let mut i: usize = lo;
    while i < v.len()
        invariant
            lo <= i <= v@.len(),
            forall|j: int| lo <= j < i ==> is_digit_char(#[trigger] v@[j]),
        decreases v@.len() - i,
    {
        let d = char_digit(v[i]);
        if d < 0 {
            return false;
        }
        i = i + 1;
    }
    true
}

#[verifier::loop_isolation(false)]
fn find_e_exec(v: &Vec<char>) -> (r: Option<usize>)
    ensures
        (match r {
            Some(i) => i < v@.len() && find_e(v@, 0) == i as int && v@[i as int] == 'E',
            None => find_e(v@, 0) == -1,
        }),
{
    let mut epos: usize = 0;
    loop
        invariant
            epos <= v@.len(),
            find_e(v@, 0) == find_e(v@, epos as int),
        decreases v@.len() - epos,
    {
        if epos >= v.len() {
            return None;
        }
        if v[epos] == 'E' {
            return Some(epos);
        }
        epos = epos + 1;
    }
}

spec fn p10(n: int) -> int
    decreases n,
{
    if n <= 0 {
        1
    } else {
        10 * p10(n - 1)
    }
}

/// Rewrites a short scientific text into plain positional digits; text of
/// any other shape comes back unchanged.
#[verifier::loop_isolation(false)]
fn expand_scientific(v: &Vec<char>) -> (r: Vec<char>)
    ensures
        r@ == spec_expand_sci(v@),
{
    let unchanged = vec_take(v, v.len());
    proof {
        assert(v@.take(v@.len() as int) =~= v@);
    }
    let e = match find_e_exec(v) {
        Some(i) => i,
        None => {
            return unchanged;
        },
    };
    if e > 20 {
        return unchanged;
    }
    let neg = v[0] == '-';
    let whole = vec_take(v, e);
    let core = if neg {
        vec_skip(&whole, 1)
    } else {
        whole
    };
    proof {
        if neg {
            assert(v@.take(e as int).skip(1) =~= v@.subrange(1, e as int));
        } else {
            assert(v@.take(e as int) =~= v@.subrange(0, e as int));
        }
    }
    let rest = vec_skip(v, e + 1);
    if core.len() == 0 || char_digit(core[0]) < 0 {
        return unchanged;
    }
    if core.len() >= 2 && core[1] != '.' {
        return unchanged;
    }
    let frac0 = if core.len() >= 2 {
        vec_skip(&core, 2)
    } else {
        Vec::new()
    };
    proof {
        if core@.len() < 2 {
            assert(frac0@ =~= Seq::<char>::empty());
        }
        if all_digits_range(frac0@, 0, frac0@.len() as int) {
            assert forall|j: int| 2 <= j < core@.len() implies is_digit_char(
                #[trigger] core@[j],
            ) by {
                assert(core@[j] == frac0@[j - 2]);
            }
        }
        if all_digits_range(core@, 2, core@.len() as int) {
            assert forall|j: int| 0 <= j < frac0@.len() implies is_digit_char(
                #[trigger] frac0@[j],
            ) by {
                assert(frac0@[j] == core@[j + 2]);
            }
        }
    }
    if !all_digits(&frac0, 0) {
        return unchanged;
    }
    if rest.len() < 2 || rest.len() > 5 {
        return unchanged;
    }
    if rest[0] != '+' && rest[0] != '-' {
        return unchanged;
    }
    if !all_digits(&rest, 1) {
        return unchanged;
    }
    let mut m: usize = frac0.len();
    proof {
        assert(frac0@.take(frac0@.len() as int) =~= frac0@);
    }
    while m > 0
        invariant
            m <= frac0@.len(),
            strip_tail_zeros(frac0@) == strip_tail_zeros(frac0@.take(m as int)),
        decreases m,
    {
        if frac0[m - 1] != '0' {
            break ;
        }
        proof {
            assert(frac0@.take(m as int).drop_last() =~= frac0@.take(m - 1));
            assert(frac0@.take(m as int).last() == frac0@[m - 1]);
        }
        m = m - 1;
    }
    let frac = vec_take(&frac0, m);
    proof {
        if m > 0 {
            assert(frac0@.take(m as int).last() == frac0@[m - 1]);
        }
        assert(strip_tail_zeros(frac0@.take(m as int)) == frac0@.take(m as int));
    }
    let mut acc: u32 = 0;
    let mut j: usize = 1;
    proof {
        assert(p10(0) == 1);
        assert(p10(1) == 10);
        assert(p10(2) == 100);
        assert(p10(3) == 1000);
        assert(p10(4) == 10000);
    }
    while j < rest.len()
        invariant
            1 <= j <= rest@.len(),
            (acc as int) < p10(j - 1),
            dec_digits_val(rest@, j as int, acc as int) == dec_digits_val(rest@, 1, 0),
        decreases rest@.len() - j,
    {
        let d = char_digit(rest[j]);
        acc = acc * 10 + (d as u32);
        j = j + 1;
    }
    let ev: i64 = acc as i64;
    let n: i64 = if rest[0] == '-' {
        -ev
    } else {
        ev
    };
    let mut digits = vec_take(&core, 1);
    vec_append_all(&mut digits, &frac);
    let flen: i64 = frac.len() as i64;
    let dlen: i64 = digits.len() as i64;
    let k: i64 = n - flen;
    let body: Vec<char>;
    if k >= 0 {
        let mut b = digits;
        let z = zeros_vec(k as usize);
        vec_append_all(&mut b, &z);
        body = b;
    } else if dlen + k > 0 {
        let cut = (dlen + k) as usize;
        let mut b = vec_take(&digits, cut);
        b.push('.');
        let tail = vec_skip(&digits, cut);
        vec_append_all(&mut b, &tail);
        proof {
            assert(b@ =~= digits@.take(cut as int) + seq!['.'] + digits@.skip(cut as int));
        }
        body = b;
    } else {
        let mut b: Vec<char> = Vec::new();
        b.push('0');
        b.push('.');
        let z = zeros_vec((-(dlen + k)) as usize);
        vec_append_all(&mut b, &z);
        vec_append_all(&mut b, &digits);
        proof {
            assert(b@ =~= seq!['0', '.'] + zero_seq(-(digits@.len() as int) - (k as int))
                + digits@);
        }
        body = b;
    }
    if neg {
        let mut out: Vec<char> = Vec::new();
        out.push('-');
        vec_append_all(&mut out, &body);
        proof {
            assert(out@ =~= seq!['-'] + body@);
        }
        out
    } else {
        body
    }
}

/// A printed decimal that the shortest-form search chose parses back to
/// exactly the bits it was printed from: `str2num` undoes the display of
/// every finite nonzero number whose text the round-trip check picked.
pub proof fn lemma_shortest_plain_round_trips(a: u64, p: usize)
    requires
        1 <= p <= 17,
    ensures
        (match shortest_plain_from(a, p) {
            Some(s) => bits_of_str(s) == Some(a),
            None => true,
        }),
    decreases 17 - p,
{
    if !(bits_of_str(str_of_bits_prec(a, p)) == Some(a) && !has_exponent_mark(
        str_of_bits_prec(a, p),
    )) && p < 17 {
        lemma_shortest_plain_round_trips(a, (p + 1) as usize);
    }
}

/// The same, for the search that allows an exponent, short of its final
/// fallback at the largest precision.
pub proof fn lemma_shortest_round_trips(a: u64, p: usize)
    requires
        1 <= p <= 17,
    ensures
        p < 17 && bits_of_str(shortest_from(a, p)) != Some(a) ==> shortest_from(a, p)
            == str_of_bits_prec(a, 17),
    decreases 17 - p,
{
    if p < 17 && !(bits_of_str(str_of_bits_prec(a, p)) == Some(a)) {
        lemma_shortest_round_trips(a, (p + 1) as usize);
    }
}

/// Negation touches the sign bit alone: the magnitude is kept and the sign
/// inverted.
pub proof fn lemma_neg_bits_parts(b: u64)
    ensures
        mag_bits(neg_bits(b)) == mag_bits(b),
        is_neg_bits(neg_bits(b)) == !is_neg_bits(b),
{
    assert((b ^ 0x8000_0000_0000_0000u64) & 0x7FFF_FFFF_FFFF_FFFFu64 == b
        & 0x7FFF_FFFF_FFFF_FFFFu64) by (bit_vector);
    assert(((b ^ 0x8000_0000_0000_0000u64) & 0x8000_0000_0000_0000u64 != 0) == !(b
        & 0x8000_0000_0000_0000u64 != 0)) by (bit_vector);
}

/// A non-negative double is its own magnitude.
pub proof fn lemma_nonneg_mag(b: u64)
    requires
        !is_neg_bits(b),
    ensures
        mag_bits(b) == b,
{
    assert(b & 0x8000_0000_0000_0000u64 == 0 ==> b & 0x7FFF_FFFF_FFFF_FFFFu64 == b)
        by (bit_vector);
}

/// Repeated squaring over the rounded multiplication: the accumulator times
/// base^exp, as the exponentiation native computes it.
pub open spec fn pow_sq_bits(acc: u64, base: u64, e: u64) -> u64
    decreases e,
{
    if e == 0 {
        acc
    } else {
        pow_sq_bits(
            if e % 2 == 1 {
                mul_bits(acc, base)
            } else {
                acc
            },
            mul_bits(base, base),
            e / 2,
        )
    }
}

pub fn num_pow_int(base: u64, e: u64) -> (r: u64)
    ensures
        r == pow_sq_bits(ONE_BITS, base, e),
{
    let mut acc: u64 = ONE_BITS;
    let mut b: u64 = base;
    let mut k: u64 = e;
    while k != 0
        invariant
            pow_sq_bits(acc, b, k) == pow_sq_bits(ONE_BITS, base, e),
        decreases k,
    {
        if k % 2 == 1 {
            acc = num_mul(acc, b);
        }
        b = num_mul(b, b);
        k = k / 2;
    }
    acc
}

} // verus!
