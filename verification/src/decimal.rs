//! Fixed-point decimal values held as `mantissa × 10^(-scale)`.
//!
//! The arithmetic and comparisons are those of `decimalx::Decimal`; this type
//! keeps the two plain fields so that contracts can speak of them.
use decimalx::DecimalError as Dx;
use std::cmp::Ordering;
use vstd::prelude::*;
use vstd::std_specs::cmp::{PartialEqSpecImpl, PartialOrdSpecImpl};

verus! {

/// Largest scale a decimal may carry.
pub const MAX_SCALE: u8 = 18;

/// `10^n`.
pub open spec fn pow10(n: nat) -> int
    decreases n,
{
    if n == 0 {
        1
    } else {
        10 * pow10((n - 1) as nat)
    }
}

/// Whether an integer fits in `i128`.
pub open spec fn fits_i128(x: int) -> bool {
    i128::MIN <= x <= i128::MAX
}

/// The larger of two scales.
pub open spec fn max_nat(a: nat, b: nat) -> nat {
    if a >= b {
        a
    } else {
        b
    }
}

/// `m × 10^(-s)` written at the larger scale `t` (for `t >= s`): `m × 10^(t - s)`.
pub open spec fn aligned_mantissa(m: int, s: nat, t: nat) -> int {
    m * pow10((t - s) as nat)
}

/// What `decimalx`'s checked addition of `am × 10^(-a_s)` and `bm × 10^(-b_s)`
/// gives: both mantissas are brought to the larger scale, then added; `None`
/// when one of the two alignments or the sum leaves `i128`.
pub open spec fn add_model(am: int, a_s: nat, bm: int, b_s: nat) -> Option<(int, nat)> {
    let t = max_nat(a_s, b_s);
    let x = aligned_mantissa(am, a_s, t);
    let y = aligned_mantissa(bm, b_s, t);
    if fits_i128(x) && fits_i128(y) && fits_i128(x + y) {
        Some((x + y, t))
    } else {
        None
    }
}

/// Sign of the numeric comparison of `am × 10^(-a_s)` with `bm × 10^(-b_s)`:
/// `-1`, `0` or `1`.
pub open spec fn compare_model(am: int, a_s: nat, bm: int, b_s: nat) -> int {
    let t = max_nat(a_s, b_s);
    let x = aligned_mantissa(am, a_s, t);
    let y = aligned_mantissa(bm, b_s, t);
    if x < y {
        -1
    } else if x == y {
        0
    } else {
        1
    }
}

/// Errors of decimal construction and arithmetic, one for each kind that
/// `decimalx` reports.
#[derive(Debug, Clone, PartialEq, Eq)]
pub enum DecimalError {
    /// The scale exceeds the allowed maximum.
    ScaleOutOfRange { scale: u8, max: u8 },
    /// The mantissa overflowed while parsing or computing.
    MantissaOverflow,
    /// Division by zero.
    DivisionByZero,
    /// A rounding step overflowed.
    RoundingOverflow,
    /// An aligned or intermediate value does not fit.
    RepresentationOverflow,
    /// The text is not a decimal.
    Parse(String),
    /// The currency code is not three upper-case ASCII letters.
    InvalidCurrency,
}

/// Checked addition of `decimalx::Decimal`, on the plain parts of both
/// operands (`Decimal::checked_add`). Claimed: the result is the sum of both
/// operands written at the larger scale, and the call fails, with
/// `RepresentationOverflow`, exactly when an aligned operand or the sum leaves
/// `i128`.
#[verifier::external_body]
fn decimalx_checked_add(am: i128, a_s: u8, bm: i128, b_s: u8) -> (r: Result<(i128, u8), DecimalError>)
    requires
        a_s <= MAX_SCALE,
        b_s <= MAX_SCALE,
    ensures
        match r {
            Ok((m, s)) => add_model(am as int, a_s as nat, bm as int, b_s as nat) == Some((m as int, s as nat)),
            Err(e) => add_model(am as int, a_s as nat, bm as int, b_s as nat) is None
                && e == DecimalError::RepresentationOverflow,
        },
{
    match decimalx::Decimal::new(am, a_s).checked_add(decimalx::Decimal::new(bm, b_s)) {
        Ok(d) => Ok((d.mantissa(), d.scale())),
        Err(Dx::ScaleOutOfRange { scale, max }) => Err(DecimalError::ScaleOutOfRange { scale, max }),
        Err(Dx::MantissaOverflow) => Err(DecimalError::MantissaOverflow),
        Err(Dx::DivisionByZero) => Err(DecimalError::DivisionByZero),
        Err(Dx::RoundingOverflow) => Err(DecimalError::RoundingOverflow),
        Err(Dx::RepresentationOverflow) => Err(DecimalError::RepresentationOverflow),
        Err(Dx::Parse(msg)) => Err(DecimalError::Parse(msg)),
        Err(Dx::InvalidCurrency) => Err(DecimalError::InvalidCurrency),
    }
}

/// The text that `decimalx` displays for the decimal `mantissa × 10^(-scale)`.
pub uninterp spec fn decimal_text(mantissa: int, scale: nat) -> Seq<char>;

/// The display text of a `decimalx::Decimal` given by its parts (`Display`
/// of `Decimal`, through `to_string`). Claimed: a function of the two parts
/// alone, named `decimal_text`.
#[verifier::external_body]
fn decimalx_display(m: i128, s: u8) -> (r: String)
    requires
        s <= MAX_SCALE,
    ensures
        r@ == decimal_text(m as int, s as nat),
{
    decimalx::Decimal::new(m, s).to_string()
}

/// The decimal digit `d` (`0..=9`) as a character.
pub open spec fn digit_char(d: nat) -> char {
    (48 + d) as char
}

/// The decimal text of `n`, without leading zeros.
pub open spec fn nat_text(n: nat) -> Seq<char>
    decreases n,
{
    if n < 10 {
        seq![digit_char(n)]
    } else {
        nat_text(n / 10) + seq![digit_char(n % 10)]
    }
}

/// The message `decimalx` displays for each kind of decimal error.
pub open spec fn error_text(e: DecimalError) -> Seq<char> {
    match e {
        DecimalError::ScaleOutOfRange { scale, max } => "十进制 scale "@ + nat_text(scale as nat)
            + " 超过上限 "@ + nat_text(max as nat),
        DecimalError::MantissaOverflow => "十进制 mantissa 溢出"@,
        DecimalError::DivisionByZero => "十进制除零"@,
        DecimalError::RoundingOverflow => "十进制舍入溢出"@,
        DecimalError::RepresentationOverflow => "十进制表示范围不足（中间值溢出）"@,
        DecimalError::Parse(msg) => "十进制解析失败: "@ + msg@,
        DecimalError::InvalidCurrency => "币种必须为 3 个大写 ASCII 字母"@,
    }
}

/// The display text of the `decimalx::DecimalError` that `e` mirrors
/// (`Display` of `DecimalError`, through `to_string`). Claimed: the fixed
/// message of each variant, with the scale numbers in decimal and the parse
/// message appended, as `error_text` spells out.
#[verifier::external_body]
fn decimalx_error_display(e: &DecimalError) -> (r: String)
    ensures
        r@ == error_text(*e),
{
    match e {
        DecimalError::ScaleOutOfRange { scale, max } => Dx::ScaleOutOfRange { scale: *scale, max: *max },
        DecimalError::MantissaOverflow => Dx::MantissaOverflow,
        DecimalError::DivisionByZero => Dx::DivisionByZero,
        DecimalError::RoundingOverflow => Dx::RoundingOverflow,
        DecimalError::RepresentationOverflow => Dx::RepresentationOverflow,
        DecimalError::Parse(msg) => Dx::Parse(msg.clone()),
        DecimalError::InvalidCurrency => Dx::InvalidCurrency,
    }.to_string()
}

impl DecimalError {
    /// The message `decimalx` shows for this error.
    pub fn to_string(&self) -> (r: String)
        ensures
            r@ == error_text(*self),
    {
        decimalx_error_display(self)
    }
}

/// Numeric equality of two `decimalx::Decimal` values given by their parts
/// (`Decimal::eq_value`). Claimed: true exactly when both are equal once
/// written at the larger scale.
#[verifier::external_body]
fn decimalx_eq_value(am: i128, a_s: u8, bm: i128, b_s: u8) -> (r: bool)
    requires
        a_s <= MAX_SCALE,
        b_s <= MAX_SCALE,
    ensures
        r == (compare_model(am as int, a_s as nat, bm as int, b_s as nat) == 0),
{
    decimalx::Decimal::new(am, a_s).eq_value(decimalx::Decimal::new(bm, b_s))
}

/// `compare_model` on the machine parts of two decimals.
pub open spec fn compare_parts(am: i128, a_s: u8, bm: i128, b_s: u8) -> int {
    compare_model(am as int, a_s as nat, bm as int, b_s as nat)
}

/// The ordering that a sign `-1`, `0` or `1` stands for.
pub open spec fn ordering_of(sign: int) -> Ordering {
    if sign < 0 {
        Ordering::Less
    } else if sign == 0 {
        Ordering::Equal
    } else {
        Ordering::Greater
    }
}

/// Numeric three-way comparison of two `decimalx::Decimal` values given by
/// their parts (`Decimal::cmp_value`). Claimed: the order of both values once
/// written at the larger scale.
#[verifier::external_body]
fn decimalx_cmp_value(am: i128, a_s: u8, bm: i128, b_s: u8) -> (r: Ordering)
    requires
        a_s <= MAX_SCALE,
        b_s <= MAX_SCALE,
    ensures
        r == ordering_of(compare_parts(am, a_s, bm, b_s)),
{
    decimalx::Decimal::new(am, a_s).cmp_value(decimalx::Decimal::new(bm, b_s))
}

/// The sign of `m`: `-1`, `0` or `1`.
pub open spec fn sign(m: int) -> int {
    if m < 0 {
        -1
    } else if m == 0 {
        0
    } else {
        1
    }
}

/// Comparing with zero (`0 × 10^0`) gives the sign of the mantissa.
pub proof fn lemma_compare_with_zero(m: int, s: nat)
    ensures
        compare_model(m, s, 0, 0) == sign(m),
        compare_model(0, 0, m, s) == -sign(m),
{
    assert(max_nat(s, 0) == s);
    assert(max_nat(0, s) == s);
    assert(pow10(0) == 1);
    assert(aligned_mantissa(m, s, s) == m);
    assert(aligned_mantissa(0, 0, s) == 0);
}

/// A decimal number `mantissa × 10^(-scale)` with `scale <= MAX_SCALE`.
///
/// Its view is the pair `(mantissa, scale)`. Equality and order are numeric:
/// `1.0 == 1.00`.
#[derive(Debug, Clone, Copy)]
pub struct Decimal {
    mantissa: i128,
    scale: u8,
}

impl View for Decimal {
    type V = (int, nat);

    closed spec fn view(&self) -> (int, nat) {
        (self.mantissa as int, self.scale as nat)
    }
}

/// The sum of two decimals as `decimalx` computes it, over their views.
pub open spec fn sum_model(a: (int, nat), b: (int, nat)) -> Option<(int, nat)> {
    add_model(a.0, a.1, b.0, b.1)
}

/// Numeric equality of two decimals, over their views.
pub open spec fn same_value(a: (int, nat), b: (int, nat)) -> bool {
    compare_model(a.0, a.1, b.0, b.1) == 0
}

impl Decimal {
    #[verifier::type_invariant]
    closed spec fn scale_in_range(self) -> bool {
        self.scale <= MAX_SCALE
    }

    /// The decimal `mantissa × 10^(-scale)`.
    pub fn new(mantissa: i128, scale: u8) -> (d: Decimal)
        requires
            scale <= MAX_SCALE,
        ensures
            d@ == (mantissa as int, scale as nat),
    {
        Decimal { mantissa, scale }
    }

    /// The decimal `mantissa × 10^(-scale)`, or `ScaleOutOfRange` when the
    /// scale exceeds `MAX_SCALE`.
    pub fn try_new(mantissa: i128, scale: u8) -> (r: Result<Decimal, DecimalError>)
        ensures
            scale <= MAX_SCALE ==> (r matches Ok(d) && d@ == (mantissa as int, scale as nat)),
            scale > MAX_SCALE ==> r == Err::<Decimal, DecimalError>(
                DecimalError::ScaleOutOfRange { scale: scale, max: MAX_SCALE },
            ),
    {
        if scale > MAX_SCALE {
            Err(DecimalError::ScaleOutOfRange { scale, max: MAX_SCALE })
        } else {
            Ok(Decimal { mantissa, scale })
        }
    }

    /// Zero, `0 × 10^0`.
    pub fn zero() -> (d: Decimal)
        ensures
            d@ == (0int, 0nat),
    {
        Decimal { mantissa: 0, scale: 0 }
    }

    /// The mantissa.
    pub fn mantissa(&self) -> (m: i128)
        ensures
            m == self@.0,
    {
        self.mantissa
    }

    /// The scale.
    pub fn scale(&self) -> (s: u8)
        ensures
            s == self@.1,
            s <= MAX_SCALE,
    {
        proof {
            use_type_invariant(self);
        }
        self.scale
    }

    /// The decimal's text as `decimalx` displays it (trailing fractional
    /// zeros dropped).
    pub fn to_string(&self) -> (r: String)
        ensures
            r@ == decimal_text(self@.0, self@.1),
    {
        proof {
            use_type_invariant(self);
        }
        decimalx_display(self.mantissa, self.scale)
    }

    /// Checked addition: both operands are written at the larger scale and
    /// added; fails with `RepresentationOverflow` when that leaves `i128`.
    pub fn checked_add(self, rhs: Decimal) -> (r: Result<Decimal, DecimalError>)
        ensures
            match r {
                Ok(d) => sum_model(self@, rhs@) == Some(d@),
                Err(e) => sum_model(self@, rhs@) is None && e == DecimalError::RepresentationOverflow,
            },
    {
        proof {
            use_type_invariant(&self);
            use_type_invariant(&rhs);
        }
        match decimalx_checked_add(self.mantissa, self.scale, rhs.mantissa, rhs.scale) {
            Ok((m, s)) => {
                assert(s as nat == max_nat(self.scale as nat, rhs.scale as nat));
                Ok(Decimal { mantissa: m, scale: s })
            },
            Err(e) => Err(e),
        }
    }

    /// Numeric equality: equal once written at the larger scale.
    pub fn eq_value(&self, other: &Decimal) -> (r: bool)
        ensures
            r == same_value(self@, other@),
    {
        proof {
            use_type_invariant(self);
            use_type_invariant(other);
        }
        decimalx_eq_value(self.mantissa, self.scale, other.mantissa, other.scale)
    }
}

/// `10^(p + q) == 10^p × 10^q`, and every power of ten is positive.
proof fn lemma_pow10_add(p: nat, q: nat)
    ensures
        pow10(p + q) == pow10(p) * pow10(q),
        pow10(p) >= 1,
    decreases p,
{
    if p > 0 {
        lemma_pow10_add((p - 1) as nat, q);
        assert(pow10(p + q) == 10 * pow10((p - 1 + q) as nat));
        assert(10 * (pow10((p - 1) as nat) * pow10(q)) == (10 * pow10((p - 1) as nat)) * pow10(q))
            by (nonlinear_arith);
    }
}

/// Aligning to `t` and then to `u` is aligning to `u` at once.
pub proof fn lemma_align_twice(m: int, s: nat, t: nat, u: nat)
    requires
        s <= t <= u,
    ensures
        aligned_mantissa(aligned_mantissa(m, s, t), t, u) == aligned_mantissa(m, s, u),
{
    lemma_pow10_add((t - s) as nat, (u - t) as nat);
    assert((u - s) as nat == ((t - s) as nat + (u - t) as nat));
    let a = pow10((t - s) as nat);
    let b = pow10((u - t) as nat);
    assert((m * a) * b == m * (a * b)) by (nonlinear_arith);
}

/// Alignment keeps the sign and does not shrink the magnitude.
proof fn lemma_align_grows(m: int, s: nat, t: nat)
    requires
        s <= t,
    ensures
        m >= 0 ==> m <= aligned_mantissa(m, s, t),
        m <= 0 ==> aligned_mantissa(m, s, t) <= m,
{
    lemma_pow10_add((t - s) as nat, 0);
    let a = pow10((t - s) as nat);
    assert(m >= 0 ==> m <= m * a) by (nonlinear_arith)
        requires
            a >= 1,
    ;
    assert(m <= 0 ==> m * a <= m) by (nonlinear_arith)
        requires
            a >= 1,
    ;
}

/// Alignment distributes over a sum.
pub proof fn lemma_align_sum(x: int, y: int, t: nat, u: nat)
    requires
        t <= u,
    ensures
        aligned_mantissa(x + y, t, u) == aligned_mantissa(x, t, u) + aligned_mantissa(y, t, u),
{
    let a = pow10((u - t) as nat);
    assert((x + y) * a == x * a + y * a) by (nonlinear_arith);
}

/// Aligning to one's own scale changes nothing.
pub proof fn lemma_align_same(m: int, s: nat)
    ensures
        aligned_mantissa(m, s, s) == m,
{
    assert(pow10(0) == 1);
}

/// Checked decimal addition is commutative: `a + b` and `b + a` both
/// overflow or give the same decimal.
pub proof fn law_sum_commutative(a: (int, nat), b: (int, nat))
    ensures
        sum_model(a, b) == sum_model(b, a),
{
    assert(max_nat(a.1, b.1) == max_nat(b.1, a.1));
}

/// The exact sum of three decimals, written at the largest of their scales.
pub open spec fn exact_sum3(a: (int, nat), b: (int, nat), c: (int, nat)) -> (int, nat) {
    let t = max_nat(max_nat(a.1, b.1), c.1);
    (aligned_mantissa(a.0, a.1, t) + aligned_mantissa(b.0, b.1, t) + aligned_mantissa(c.0, c.1, t), t)
}

/// `(a + b) + c` with checked addition.
pub open spec fn sum_left(a: (int, nat), b: (int, nat), c: (int, nat)) -> Option<(int, nat)> {
    match sum_model(a, b) {
        Some(ab) => sum_model(ab, c),
        None => None,
    }
}

/// `a + (b + c)` with checked addition.
pub open spec fn sum_right(a: (int, nat), b: (int, nat), c: (int, nat)) -> Option<(int, nat)> {
    match sum_model(b, c) {
        Some(bc) => sum_model(a, bc),
        None => None,
    }
}

/// `(a + b) + c`, when it does not overflow, is the exact sum at the largest
/// scale; for operands of one sign it overflows exactly when that sum
/// leaves `i128`.
proof fn lemma_sum_left(a: (int, nat), b: (int, nat), c: (int, nat))
    requires
        fits_i128(a.0),
        fits_i128(b.0),
        fits_i128(c.0),
    ensures
        sum_left(a, b, c) matches Some(l) ==> l == exact_sum3(a, b, c),
        (a.0 >= 0 && b.0 >= 0 && c.0 >= 0) || (a.0 <= 0 && b.0 <= 0 && c.0 <= 0) ==> (sum_left(
            a,
            b,
            c,
        ) is Some <==> fits_i128(exact_sum3(a, b, c).0)),
{
    let t1 = max_nat(a.1, b.1);
    let t = max_nat(t1, c.1);
    let x = aligned_mantissa(a.0, a.1, t1);
    let y = aligned_mantissa(b.0, b.1, t1);
    let xa = aligned_mantissa(a.0, a.1, t);
    let yb = aligned_mantissa(b.0, b.1, t);
    let zc = aligned_mantissa(c.0, c.1, t);
    lemma_align_twice(a.0, a.1, t1, t);
    lemma_align_twice(b.0, b.1, t1, t);
    lemma_align_sum(x, y, t1, t);
    lemma_align_same(x + y, t1);
    lemma_align_same(c.0, c.1);
    assert(max_nat(t1, c.1) == t);
    lemma_align_grows(a.0, a.1, t1);
    lemma_align_grows(b.0, b.1, t1);
    lemma_align_grows(x, t1, t);
    lemma_align_grows(y, t1, t);
    lemma_align_grows(x + y, t1, t);
    lemma_align_grows(c.0, c.1, t);
}

/// Checked decimal addition is associative: when `(a + b) + c` and
/// `a + (b + c)` both succeed they are the same decimal, and when all three
/// operands have one sign, one side overflows exactly when the other does.
pub proof fn law_sum_associative(a: (int, nat), b: (int, nat), c: (int, nat))
    requires
        fits_i128(a.0),
        fits_i128(b.0),
        fits_i128(c.0),
    ensures
        sum_left(a, b, c) matches Some(l) ==> (sum_right(a, b, c) matches Some(r) ==> l == r),
        (a.0 >= 0 && b.0 >= 0 && c.0 >= 0) || (a.0 <= 0 && b.0 <= 0 && c.0 <= 0) ==> (sum_left(
            a,
            b,
            c,
        ) is Some <==> sum_right(a, b, c) is Some),
{
    lemma_sum_left(a, b, c);
    lemma_sum_left(b, c, a);
    law_sum_commutative(b, c);
    match sum_model(b, c) {
        Some(bc) => law_sum_commutative(a, bc),
        None => {},
    }
    let t = max_nat(max_nat(a.1, b.1), c.1);
    assert(max_nat(max_nat(b.1, c.1), a.1) == t);
}

/// Numeric equality is cross-multiplication: `a.0 / 10^a.1 == b.0 / 10^b.1`
/// exactly when `a.0 × 10^b.1 == b.0 × 10^a.1`, whatever the two scales.
pub proof fn lemma_same_value_cross(a: (int, nat), b: (int, nat))
    ensures
        same_value(a, b) <==> a.0 * pow10(b.1) == b.0 * pow10(a.1),
{
    let t = max_nat(a.1, b.1);
    let qa = pow10((t - a.1) as nat);
    let qb = pow10((t - b.1) as nat);
    let pa = pow10(a.1);
    let pb = pow10(b.1);
    let pt = pow10(t);
    lemma_pow10_add((t - a.1) as nat, a.1);
    lemma_pow10_add((t - b.1) as nat, b.1);
    lemma_pow10_add(a.1, 0);
    lemma_pow10_add(b.1, 0);
    assert(((t - a.1) as nat + a.1) == t);
    assert(((t - b.1) as nat + b.1) == t);
    assert(qa * pa == pt);
    assert(qb * pb == pt);
    let x = a.0 * qa;
    let y = b.0 * qb;
    let a0 = a.0;
    let b0 = b.0;
    assert(x * (pa * pb) == (a0 * pb) * pt) by (nonlinear_arith)
        requires
            x == a0 * qa,
            qa * pa == pt,
    ;
    assert(y * (pa * pb) == (b0 * pa) * pt) by (nonlinear_arith)
        requires
            y == b0 * qb,
            qb * pb == pt,
    ;
    assert(pa * pb >= 1) by (nonlinear_arith)
        requires
            pa >= 1,
            pb >= 1,
    ;
    assert(x == y <==> x * (pa * pb) == y * (pa * pb)) by (nonlinear_arith)
        requires
            pa * pb >= 1,
    ;
    assert((a0 * pb) * pt == (b0 * pa) * pt <==> a0 * pb == b0 * pa) by (nonlinear_arith)
        requires
            pt >= 1,
    ;
}

/// Every decimal equals itself.
pub proof fn lemma_same_value_reflexive(a: (int, nat))
    ensures
        same_value(a, a),
{
}

/// The sum of two non-negative decimals is non-negative.
pub proof fn lemma_sum_keeps_sign(a: (int, nat), b: (int, nat))
    requires
        a.0 >= 0,
        b.0 >= 0,
    ensures
        sum_model(a, b) matches Some(s) ==> s.0 >= 0,
{
    let t = max_nat(a.1, b.1);
    lemma_align_grows(a.0, a.1, t);
    lemma_align_grows(b.0, b.1, t);
}

/// Adding a positive decimal gives a strictly larger value.
pub proof fn lemma_sum_exceeds(a: (int, nat), d: (int, nat))
    requires
        d.0 > 0,
    ensures
        sum_model(a, d) matches Some(s) ==> !same_value(a, s),
{
    let t = max_nat(a.1, d.1);
    lemma_align_grows(d.0, d.1, t);
    lemma_align_same(aligned_mantissa(a.0, a.1, t) + aligned_mantissa(d.0, d.1, t), t);
    assert(max_nat(a.1, t) == t);
}

/// A decimal's mantissa fits in `i128`.
pub proof fn lemma_mantissa_fits(d: Decimal)
    ensures
        fits_i128(d@.0),
{
}

/// Adding a decimal to zero gives that decimal unchanged.
pub proof fn lemma_zero_plus(d: (int, nat))
    requires
        fits_i128(d.0),
    ensures
        sum_model((0, 0), d) == Some(d),
{
    assert(max_nat(0, d.1) == d.1);
    lemma_align_same(d.0, d.1);
    assert(aligned_mantissa(0, 0, d.1) == 0);
}

impl PartialEq for Decimal {
    fn eq(&self, other: &Decimal) -> (r: bool) {
        self.eq_value(other)
    }
}

impl PartialEqSpecImpl for Decimal {
    open spec fn obeys_eq_spec() -> bool {
        true
    }

    open spec fn eq_spec(&self, other: &Decimal) -> bool {
        same_value(self@, other@)
    }
}

/// Hashes the decimal as `decimalx::Decimal`'s `Hash` does: by its form
/// without trailing fractional zeros, so that numerically equal decimals
/// hash alike. Nothing is claimed of it.
impl core::hash::Hash for Decimal {
    #[verifier::external_body]
    fn hash<H: core::hash::Hasher>(&self, state: &mut H) {
        decimalx::Decimal::new(self.mantissa, self.scale).hash(state)
    }
}

impl Eq for Decimal {

}

impl PartialOrd for Decimal {
    fn partial_cmp(&self, other: &Decimal) -> (r: Option<Ordering>) {
        proof {
            use_type_invariant(self);
            use_type_invariant(other);
        }
        Some(decimalx_cmp_value(self.mantissa, self.scale, other.mantissa, other.scale))
    }
}

impl PartialOrdSpecImpl for Decimal {
    open spec fn obeys_partial_cmp_spec() -> bool {
        true
    }

    open spec fn partial_cmp_spec(&self, other: &Decimal) -> Option<Ordering> {
        Some(ordering_of(compare_model(self@.0, self@.1, other@.0, other@.1)))
    }
}

} // verus!
