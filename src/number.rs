use vstd::prelude::*;

verus! {

/// Numbers are fixed-point: `value` counts units of ten to the minus ten,
/// the precision at which stylesheet numbers are printed.
pub const SCALE: i64 = 10_000_000_000;

/// The largest integer part that the fixed-point range holds.
pub const MAX_INT: i32 = 922_337_203;

/// The character of a decimal digit.
pub open spec fn digit_char(d: nat) -> char {
    if d == 0 { '0' } else if d == 1 { '1' } else if d == 2 { '2' } else if d == 3 { '3' }
    else if d == 4 { '4' } else if d == 5 { '5' } else if d == 6 { '6' } else if d == 7 { '7' }
    else if d == 8 { '8' } else { '9' }
}

/// Decimal digits of `n`, without leading zeros (`0` is written `0`).
pub open spec fn decimal_text(n: nat) -> Seq<char>
    decreases n,
{
    if n < 10 {
        seq![digit_char(n)]
    } else {
        decimal_text(n / 10).push(digit_char(n % 10))
    }
}

/// The last `k` decimal digits of `f`, zero-padded on the left.
pub open spec fn padded_text(f: nat, k: nat) -> Seq<char>
    decreases k,
{
    if k == 0 {
        seq![]
    } else {
        padded_text(f / 10, (k - 1) as nat).push(digit_char(f % 10))
    }
}

/// The `k`-digit fraction `f` with its trailing zeros dropped.
pub open spec fn fraction_text(f: nat, k: nat) -> Seq<char>
    decreases k,
{
    if k == 0 || f == 0 {
        seq![]
    } else if f % 10 == 0 {
        fraction_text(f / 10, (k - 1) as nat)
    } else {
        padded_text(f, k)
    }
}

/// How a non-negative fixed-point magnitude is printed.
pub open spec fn magnitude_text(m: nat) -> Seq<char> {
    let whole = m / (SCALE as nat);
    let frac = m % (SCALE as nat);
    if frac == 0 {
        decimal_text(whole)
    } else {
        decimal_text(whole) + seq!['.'] + fraction_text(frac, 10)
    }
}

/// How a fixed-point value is printed: a minus sign for negative values, the
/// integer part, and the fraction without trailing zeros.
pub open spec fn fixed_text(v: int) -> Seq<char> {
    if v < 0 {
        seq!['-'] + magnitude_text((-v) as nat)
    } else {
        magnitude_text(v as nat)
    }
}

/// Relies on String::push: appends one character.
#[verifier::external_body]
pub(crate) fn push_char(s: &mut String, c: char)
    ensures
        final(s)@ == old(s)@.push(c),
{
    s.push(c)
}

pub fn digit_to_char(d: u64) -> (c: char)
    requires
        d < 10,
    ensures
        c == digit_char(d as nat),
{
    if d == 0 { '0' } else if d == 1 { '1' } else if d == 2 { '2' } else if d == 3 { '3' }
    else if d == 4 { '4' } else if d == 5 { '5' } else if d == 6 { '6' } else if d == 7 { '7' }
    else if d == 8 { '8' } else { '9' }
}

/// Appends the decimal digits of `n` to `out`.
pub fn write_decimal(out: &mut String, n: u64)
    ensures
        final(out)@ == old(out)@ + decimal_text(n as nat),
    decreases n,
{
    if n < 10 {
        push_char(out, digit_to_char(n));
        assert(old(out)@.push(digit_char(n as nat)) =~= old(out)@ + decimal_text(n as nat));
    } else {
        write_decimal(out, n / 10);
        push_char(out, digit_to_char(n % 10));
        assert(old(out)@ + decimal_text(n as nat) =~= old(out)@ + decimal_text((n / 10) as nat)
            + seq![digit_char((n % 10) as nat)]);
    }
}

fn write_padded(out: &mut String, f: u64, k: u64)
    ensures
        final(out)@ == old(out)@ + padded_text(f as nat, k as nat),
    decreases k,
{
    if k > 0 {
        write_padded(out, f / 10, k - 1);
        push_char(out, digit_to_char(f % 10));
        assert(old(out)@ + padded_text(f as nat, k as nat) =~= old(out)@ + padded_text(
            (f / 10) as nat,
            (k - 1) as nat,
        ) + seq![digit_char((f % 10) as nat)]);
    } else {
        assert(old(out)@ + padded_text(f as nat, k as nat) =~= old(out)@);
    }
}

fn write_fraction(out: &mut String, f: u64, k: u64)
    ensures
        final(out)@ == old(out)@ + fraction_text(f as nat, k as nat),
    decreases k,
{
    if k == 0 || f == 0 {
        assert(old(out)@ + fraction_text(f as nat, k as nat) =~= old(out)@);
    } else if f % 10 == 0 {
        write_fraction(out, f / 10, k - 1);
    } else {
        write_padded(out, f, k);
    }
}

/// Appends the printed form of a fixed-point value to `out`.
pub fn write_fixed(out: &mut String, v: i64)
    ensures
        final(out)@ == old(out)@ + fixed_text(v as int),
{
    let m: u64 = if v < 0 {
        push_char(out, '-');
        (-(v as i128)) as u64
    } else {
        v as u64
    };
    let ghost mid = out@;
    let whole = m / (SCALE as u64);
    let frac = m % (SCALE as u64);
    write_decimal(out, whole);
    if frac != 0 {
        push_char(out, '.');
        write_fraction(out, frac, 10);
    }
    assert(out@ =~= mid + magnitude_text(m as nat));
    assert(out@ =~= old(out)@ + fixed_text(v as int));
}

/// A number with its unit (`px`, `%`, `deg`, ...); the empty unit means
/// the number is unitless.
pub struct Number {
    pub value: i64,
    pub unit: String,
}

/// Why an arithmetic operation on values failed.
#[derive(Debug, Clone, Copy, PartialEq, Eq)]
pub enum ArithError {
    /// The units of the two operands cannot be combined.
    IncompatibleUnits,
    /// The result does not fit the fixed-point range.
    Overflow,
}

pub open spec fn in_fixed_range(v: int) -> bool {
    i64::MIN <= v <= i64::MAX
}

/// How many of an absolute length unit make an inch, as a fraction.
pub open spec fn per_inch(u: Seq<char>) -> Option<(int, int)> {
    if u == "in"@ {
        Some((1, 1))
    } else if u == "px"@ {
        Some((96, 1))
    } else if u == "pt"@ {
        Some((72, 1))
    } else if u == "pc"@ {
        Some((6, 1))
    } else if u == "cm"@ {
        Some((254, 100))
    } else if u == "mm"@ {
        Some((254, 10))
    } else if u == "q"@ {
        Some((1016, 10))
    } else {
        None
    }
}

/// A bound on a converted length.
pub const LENGTH_BOUND: i128 = 2_000_000_000_000_000_000_000_000;

/// `n / d` rounded to the nearest integer, halves away from zero.
pub open spec fn round_div(n: int, d: int) -> int {
    if n >= 0 {
        (2 * n + d) / (2 * d)
    } else {
        -((-2 * n + d) / (2 * d))
    }
}

/// A length `v` in the unit with `from` per inch, in the unit with `to` per
/// inch.
pub open spec fn converted(v: int, from: (int, int), to: (int, int)) -> int {
    round_div(v * to.0 * from.1, to.1 * from.0)
}

/// Two units combine: they agree, one is empty, or both are lengths.
pub open spec fn units_compatible(a: Seq<char>, b: Seq<char>) -> bool {
    a == b || a.len() == 0 || b.len() == 0 || (per_inch(a) is Some && per_inch(b) is Some)
}

/// The value `bv` (in unit `bu`) in the unit `au`.
pub open spec fn in_left_unit(au: Seq<char>, bv: int, bu: Seq<char>) -> int {
    if au == bu || au.len() == 0 || bu.len() == 0 {
        bv
    } else {
        converted(bv, per_inch(bu)->Some_0, per_inch(au)->Some_0)
    }
}

/// The sum (or, with `negate`, the difference) of two numbers given by
/// value and unit, in the unit of the left one unless it has none: an error
/// where the units do not combine, or where the result leaves the
/// fixed-point range.
pub open spec fn sum_spec(av: int, au: Seq<char>, bv: int, bu: Seq<char>, negate: bool) -> Result<
    (i64, Seq<char>),
    ArithError,
> {
    let b_in_a = in_left_unit(au, bv, bu);
    let exact = if negate {
        av - b_in_a
    } else {
        av + b_in_a
    };
    if !units_compatible(au, bu) {
        Err(ArithError::IncompatibleUnits)
    } else if !in_fixed_range(exact) {
        Err(ArithError::Overflow)
    } else {
        Ok(
            (
                exact as i64,
                if au.len() == 0 {
                    bu
                } else {
                    au
                },
            ),
        )
    }
}

fn unit_per_inch(u: &String) -> (r: Option<(i128, i128)>)
    ensures
        match r {
            Some((p, q)) => per_inch(u@) == Some((p as int, q as int)) && 1 <= p <= 1016 && 1 <= q
                <= 100,
            None => per_inch(u@) is None,
        },
{
    if *u == String::from_str("in") {
        Some((1, 1))
    } else if *u == String::from_str("px") {
        Some((96, 1))
    } else if *u == String::from_str("pt") {
        Some((72, 1))
    } else if *u == String::from_str("pc") {
        Some((6, 1))
    } else if *u == String::from_str("cm") {
        Some((254, 100))
    } else if *u == String::from_str("mm") {
        Some((254, 10))
    } else if *u == String::from_str("q") {
        Some((1016, 10))
    } else {
        None
    }
}

fn convert(v: i64, from: (i128, i128), to: (i128, i128)) -> (r: i128)
    requires
        1 <= from.0 <= 1016,
        1 <= from.1 <= 100,
        1 <= to.0 <= 1016,
        1 <= to.1 <= 100,
    ensures
        r == converted(v as int, (from.0 as int, from.1 as int), (to.0 as int, to.1 as int)),
        -LENGTH_BOUND <= r <= LENGTH_BOUND,
{
    let m: i128 = if v < 0 { -(v as i128) } else { v as i128 };
    assert(0 <= m * to.0 <= 9223372036854775808 * 1016) by (nonlinear_arith)
        requires
            0 <= m <= 9223372036854775808,
            1 <= to.0 <= 1016,
    ;
    let mt = m * to.0;
    assert(0 <= mt * from.1 <= 9223372036854775808 * 1016 * 100) by (nonlinear_arith)
        requires
            0 <= mt <= 9223372036854775808 * 1016,
            1 <= from.1 <= 100,
    ;
    assert(1 <= to.1 * from.0 <= 100 * 1016) by (nonlinear_arith)
        requires
            1 <= from.0 <= 1016,
            1 <= to.1 <= 100,
    ;
    let n = mt * from.1;
    let d = to.1 * from.0;
    let q = (2 * n + d) / (2 * d);
    proof {
        vstd::arithmetic::div_mod::lemma_div_is_ordered_by_denominator(2 * n + d, 1, 2 * d);
        if v < 0 {
            assert(v * to.0 * from.1 == -(m * to.0 * from.1)) by (nonlinear_arith)
                requires
                    m == -v,
            ;
            assert(m * to.0 * from.1 > 0) by (nonlinear_arith)
                requires
                    m > 0,
                    to.0 >= 1,
                    from.1 >= 1,
            ;
        } else {
            assert(v * to.0 * from.1 == m * to.0 * from.1);
        }
    }
    if v < 0 {
        -q
    } else {
        q
    }
}

impl Number {
    pub fn copy(&self) -> (r: Number)
        ensures
            r == *self,
    {
        Number { value: self.value, unit: self.unit.clone() }
    }

    /// A unitless number with an integer value.
    pub fn from_int(n: i32) -> (r: Number)
        requires
            -MAX_INT <= n <= MAX_INT,
        ensures
            r.value == n * SCALE,
            r.unit@.len() == 0,
    {
        proof {
            vstd::arithmetic::mul::lemma_mul_inequality(n as int, MAX_INT as int, SCALE as int);
            vstd::arithmetic::mul::lemma_mul_inequality(-MAX_INT, n as int, SCALE as int);
        }
        Number { value: (n as i64) * SCALE, unit: String::new() }
    }

    /// A number with an integer value and a unit.
    pub fn with_unit(n: i32, unit: &str) -> (r: Number)
        requires
            -MAX_INT <= n <= MAX_INT,
        ensures
            r.value == n * SCALE,
            r.unit@ == unit@,
    {
        proof {
            vstd::arithmetic::mul::lemma_mul_inequality(n as int, MAX_INT as int, SCALE as int);
            vstd::arithmetic::mul::lemma_mul_inequality(-MAX_INT, n as int, SCALE as int);
        }
        Number { value: (n as i64) * SCALE, unit: String::from_str(unit) }
    }

    /// Adds (`negate == false`) or subtracts two numbers; a length in
    /// another length unit is converted to the unit of the left one.
    pub fn add_or_sub(&self, other: &Number, negate: bool) -> (r: Result<Number, ArithError>)
        ensures
            match r {
                Ok(n) => sum_spec(
                    self.value as int,
                    self.unit@,
                    other.value as int,
                    other.unit@,
                    negate,
                ) == Ok::<(i64, Seq<char>), ArithError>((n.value, n.unit@)),
                Err(e) => sum_spec(
                    self.value as int,
                    self.unit@,
                    other.value as int,
                    other.unit@,
                    negate,
                ) == Err::<(i64, Seq<char>), ArithError>(e),
            },
    {
        let same = self.unit == other.unit;
        let left_empty = self.unit.as_str().unicode_len() == 0;
        let right_empty = other.unit.as_str().unicode_len() == 0;
        let bv: i128 = if same || left_empty || right_empty {
            other.value as i128
        } else {
            match (unit_per_inch(&other.unit), unit_per_inch(&self.unit)) {
                (Some(from), Some(to)) => convert(other.value, from, to),
                _ => {
                    return Err(ArithError::IncompatibleUnits);
                },
            }
        };
        let unit = if left_empty {
            other.unit.clone()
        } else {
            self.unit.clone()
        };
        let exact: i128 = if negate {
            self.value as i128 - bv
        } else {
            self.value as i128 + bv
        };
        if exact < i64::MIN as i128 || exact > i64::MAX as i128 {
            return Err(ArithError::Overflow);
        }
        Ok(Number { value: exact as i64, unit })
    }

    /// The printed form, `1.5px`, `-0.25`, `50%`.
    pub fn to_css(&self) -> (r: String)
        ensures
            r@ == fixed_text(self.value as int) + self.unit@,
    {
        let mut out = String::new();
        write_fixed(&mut out, self.value);
        out.append(self.unit.as_str());
        out
    }
}

} // verus!
