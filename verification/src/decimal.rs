//! Fixed-point decimal numbers in the layout of `rust_decimal`: a 96-bit
//! magnitude held in three 32-bit words, a sign flag and a base-ten scale.
//!
//! The arithmetic itself is done by `rust_decimal`; this module states what
//! its results are.
use vstd::prelude::*;

verus! {

/// Two to the 32nd power: the base of one magnitude word.
pub open spec fn word() -> int {
    0x1_0000_0000
}

/// Two to the 96th power: every magnitude is below it.
pub open spec fn magnitude_limit() -> int {
    0x1_0000_0000_0000_0000_0000_0000
}

/// Ten to the power `n`.
pub open spec fn pow10(n: nat) -> nat
    decreases n,
{
    if n == 0 {
        1
    } else {
        10 * pow10((n - 1) as nat)
    }
}

/// A decimal number: `(-1)^negative * (hi * 2^64 + mid * 2^32 + lo) / 10^scale`.
#[derive(Clone, Copy, Debug)]
pub struct Decimal {
    pub negative: bool,
    pub scale: u32,
    pub hi: u32,
    pub mid: u32,
    pub lo: u32,
}

impl Decimal {
    /// The unsigned 96-bit integer that the three words spell.
    pub open spec fn magnitude(self) -> int {
        self.lo + self.mid * 0x1_0000_0000int + self.hi * 0x1_0000_0000_0000_0000int
    }

    /// The shape of every value that `rust_decimal`'s parser and arithmetic
    /// produce: a scale of at most 28, and no negative zero.
    pub open spec fn wf(self) -> bool {
        &&& self.scale <= 28
        &&& self.magnitude() == 0 ==> !self.negative
    }

    /// The magnitude with the sign applied.
    pub open spec fn signed(self) -> int {
        if self.negative {
            -self.magnitude()
        } else {
            self.magnitude()
        }
    }

    /// The number counted in units of `10^-s`, for a scale `s` at least as
    /// fine as the number's own.
    pub open spec fn at_scale(self, s: nat) -> int {
        self.signed() * pow10((s - self.scale) as nat)
    }

    /// The exact rational value, counted in units of `10^-28`.
    pub open spec fn value(self) -> int {
        self.at_scale(28)
    }

    /// Zero with scale 0.
    pub fn zero() -> (r: Decimal)
        ensures
            r == (Decimal { negative: false, scale: 0, hi: 0, mid: 0, lo: 0 }),
            r.wf(),
    {
        Decimal { negative: false, scale: 0, hi: 0, mid: 0, lo: 0 }
    }

    /// The decimal `num * 10^-scale`, as `rust_decimal::Decimal::new` builds it.
    pub fn new(num: i64, scale: u32) -> (r: Decimal)
        requires
            scale <= 28,
        ensures
            r == from_signed(num as int, scale as nat),
            r.wf(),
            r.signed() == num,
            r.scale == scale,
    {
        let negative = num < 0;
        let m: u64 = if negative {
            (-(num as i128)) as u64
        } else {
            num as u64
        };
        let lo = (m & 0xffff_ffff) as u32;
        let mid = (m >> 32u64) as u32;
        proof {
            assert(m & 0xffff_ffff == m % 0x1_0000_0000) by (bit_vector);
            assert(m >> 32u64 == m / 0x1_0000_0000) by (bit_vector);
            assert((m / 0x1_0000_0000) / 0x1_0000_0000 == 0) by (bit_vector);
            assert((m / 0x1_0000_0000) % 0x1_0000_0000 == m / 0x1_0000_0000) by (bit_vector);
            lemma_from_signed(num as int, scale as nat);
        }
        Decimal { negative, scale, hi: 0, mid, lo }
    }

    /// The decimal with the given words, sign and scale; a zero magnitude is
    /// never negative, as in `rust_decimal::Decimal::from_parts`.
    pub fn from_parts(lo: u32, mid: u32, hi: u32, negative: bool, scale: u32) -> (r: Decimal)
        requires
            scale <= 28,
        ensures
            r.lo == lo,
            r.mid == mid,
            r.hi == hi,
            r.scale == scale,
            r.negative == (negative && !(lo == 0 && mid == 0 && hi == 0)),
            r.wf(),
    {
        let negative = if lo == 0 && mid == 0 && hi == 0 {
            false
        } else {
            negative
        };
        Decimal { negative, scale, hi, mid, lo }
    }
}

/// The decimal with signed value `v` at scale `s`, its magnitude split into
/// words.
pub open spec fn from_signed(v: int, s: nat) -> Decimal {
    let m = if v < 0 {
        -v
    } else {
        v
    };
    Decimal {
        negative: v < 0,
        scale: s as u32,
        lo: (m % word()) as u32,
        mid: ((m / word()) % word()) as u32,
        hi: ((m / word()) / word()) as u32,
    }
}

/// The magnitude of `v` fits in 96 bits.
pub open spec fn fits(v: int) -> bool {
    -magnitude_limit() < v < magnitude_limit()
}

/// The finer of the two scales.
pub open spec fn common_scale(a: Decimal, b: Decimal) -> nat {
    if a.scale >= b.scale {
        a.scale as nat
    } else {
        b.scale as nat
    }
}

/// The number with a zero magnitude made non-negative, as
/// `rust_decimal::Decimal::from_parts` builds it.
pub open spec fn normalized(d: Decimal) -> Decimal {
    if d.magnitude() == 0 {
        Decimal { negative: false, ..d }
    } else {
        d
    }
}

/// The number with its sign flipped; zero stays non-negative.
pub open spec fn negated(d: Decimal) -> Decimal {
    if d.magnitude() == 0 {
        normalized(d)
    } else {
        Decimal { negative: !d.negative, ..d }
    }
}

/// What `rust_decimal::Decimal::checked_add` returns when neither operand is
/// zero and the exact sum needs more than 96 bits at the finer scale: it
/// either rounds to a coarser scale or reports overflow.
pub uninterp spec fn checked_add_beyond_96_bits(a: Decimal, b: Decimal) -> Option<Decimal>;

/// What `rust_decimal::Decimal::checked_sub` returns when neither operand is
/// zero and the exact difference needs more than 96 bits at the finer scale.
pub uninterp spec fn checked_sub_beyond_96_bits(a: Decimal, b: Decimal) -> Option<Decimal>;

/// A result of rounding to fit 96 bits: a well-formed decimal whose scale
/// is no finer than `s`, or nothing.
pub open spec fn rounded(r: Option<Decimal>, s: nat) -> Option<Decimal> {
    match r {
        Some(d) => if d.wf() && d.scale <= s {
            Some(d)
        } else {
            None
        },
        None => None,
    }
}

/// The sum is computed without rounding: an operand is zero, or the exact
/// sum fits in 96 bits at the finer scale.
pub open spec fn add_is_exact(a: Decimal, b: Decimal) -> bool {
    a.magnitude() == 0 || b.magnitude() == 0 || fits(
        a.at_scale(common_scale(a, b)) + b.at_scale(common_scale(a, b)),
    )
}

/// The difference is computed without rounding.
pub open spec fn sub_is_exact(a: Decimal, b: Decimal) -> bool {
    a.magnitude() == 0 || b.magnitude() == 0 || fits(
        a.at_scale(common_scale(a, b)) - b.at_scale(common_scale(a, b)),
    )
}

/// The result of `rust_decimal`'s checked addition: a zero operand hands back
/// the other one (a zero of either sign comes back non-negative), otherwise
/// the exact sum at the finer scale.
pub open spec fn decimal_sum(a: Decimal, b: Decimal) -> Option<Decimal> {
    if a.magnitude() == 0 {
        Some(normalized(b))
    } else if b.magnitude() == 0 {
        Some(normalized(a))
    } else if add_is_exact(a, b) {
        let s = common_scale(a, b);
        Some(from_signed(a.at_scale(s) + b.at_scale(s), s))
    } else {
        rounded(checked_add_beyond_96_bits(a, b), common_scale(a, b))
    }
}

/// The result of `rust_decimal`'s checked subtraction: subtracting from zero
/// negates, subtracting zero hands back the minuend, otherwise the exact
/// difference at the finer scale.
pub open spec fn decimal_difference(a: Decimal, b: Decimal) -> Option<Decimal> {
    if a.magnitude() == 0 {
        Some(negated(b))
    } else if b.magnitude() == 0 {
        Some(normalized(a))
    } else if sub_is_exact(a, b) {
        let s = common_scale(a, b);
        Some(from_signed(a.at_scale(s) - b.at_scale(s), s))
    } else {
        rounded(checked_sub_beyond_96_bits(a, b), common_scale(a, b))
    }
}

/// Calls `rust_decimal::Decimal::checked_add`, after `from_parts` has made a
/// zero operand non-negative. Claimed of it: a zero operand yields the other
/// operand (non-negative if zero); two non-zero operands whose exact sum
/// fits in 96 bits at the finer of their scales yield that exact sum at that
/// scale; any result is a well-formed decimal whose scale is no finer than the
/// finer operand's (rounding only lowers the scale). What it returns when the
/// sum does not fit (a rounded value or `None`) is otherwise left to the name
/// `checked_add_beyond_96_bits`.
#[verifier::external_body]
pub(crate) fn checked_add(a: Decimal, b: Decimal) -> (r: Option<Decimal>)
    requires
        a.scale <= 28,
        b.scale <= 28,
    ensures
        r == decimal_sum(a, b),
        !add_is_exact(a, b) ==> r == checked_add_beyond_96_bits(a, b),
        r matches Some(d) ==> d.wf() && d.scale <= common_scale(a, b),
{
    let x = rust_decimal::Decimal::from_parts(a.lo, a.mid, a.hi, a.negative, a.scale);
    let y = rust_decimal::Decimal::from_parts(b.lo, b.mid, b.hi, b.negative, b.scale);
    match x.checked_add(y) {
        Some(d) => {
            let u = d.unpack();
            Some(Decimal { negative: u.negative, scale: u.scale, hi: u.hi, mid: u.mid, lo: u.lo })
        },
        None => None,
    }
}

/// Calls `rust_decimal::Decimal::checked_sub`, after `from_parts` has made a
/// zero operand non-negative. Claimed of it: subtracting from zero yields the
/// subtrahend negated (zero stays non-negative); subtracting zero yields the
/// minuend (non-negative if zero); two non-zero operands whose
/// exact difference fits in 96 bits at the finer scale yield that exact
/// difference at that scale; any result is well formed, with a scale no finer
/// than the finer operand's. The result when the difference does not fit is
/// otherwise left to the name `checked_sub_beyond_96_bits`.
#[verifier::external_body]
pub(crate) fn checked_sub(a: Decimal, b: Decimal) -> (r: Option<Decimal>)
    requires
        a.scale <= 28,
        b.scale <= 28,
    ensures
        r == decimal_difference(a, b),
        !sub_is_exact(a, b) ==> r == checked_sub_beyond_96_bits(a, b),
        r matches Some(d) ==> d.wf() && d.scale <= common_scale(a, b),
{
    let x = rust_decimal::Decimal::from_parts(a.lo, a.mid, a.hi, a.negative, a.scale);
    let y = rust_decimal::Decimal::from_parts(b.lo, b.mid, b.hi, b.negative, b.scale);
    match x.checked_sub(y) {
        Some(d) => {
            let u = d.unpack();
            Some(Decimal { negative: u.negative, scale: u.scale, hi: u.hi, mid: u.mid, lo: u.lo })
        },
        None => None,
    }
}

/// Compares with `>=` on `rust_decimal::Decimal`, whose ordering is that of
/// the exact rational values (zero equals zero at any scale).
#[verifier::external_body]
pub(crate) fn greater_or_equal(a: Decimal, b: Decimal) -> (r: bool)
    requires
        a.scale <= 28,
        b.scale <= 28,
    ensures
        r == (a.value() >= b.value()),
{
    let x = rust_decimal::Decimal::from_parts(a.lo, a.mid, a.hi, a.negative, a.scale);
    let y = rust_decimal::Decimal::from_parts(b.lo, b.mid, b.hi, b.negative, b.scale);
    x >= y
}

/// Compares with `==` on `rust_decimal::Decimal`, which holds exactly when
/// the rational values are equal (whatever the scales, and with zero equal
/// to zero of either sign).
#[verifier::external_body]
fn decimal_equal(a: Decimal, b: Decimal) -> (r: bool)
    requires
        a.scale <= 28,
        b.scale <= 28,
    ensures
        r == (a.value() == b.value()),
{
    let x = rust_decimal::Decimal::from_parts(a.lo, a.mid, a.hi, a.negative, a.scale);
    let y = rust_decimal::Decimal::from_parts(b.lo, b.mid, b.hi, b.negative, b.scale);
    x == y
}

/// Decimals are equal when their values are, as in `rust_decimal`; one whose
/// scale is out of range equals only an identical one.
pub open spec fn decimal_eq(a: Decimal, b: Decimal) -> bool {
    if a.scale <= 28 && b.scale <= 28 {
        a.value() == b.value()
    } else {
        a == b
    }
}

impl PartialEq for Decimal {
    fn eq(&self, other: &Decimal) -> (r: bool) {
        if self.scale <= 28 && other.scale <= 28 {
            decimal_equal(*self, *other)
        } else {
            self.negative == other.negative && self.scale == other.scale && self.hi == other.hi
                && self.mid == other.mid && self.lo == other.lo
        }
    }
}

impl vstd::std_specs::cmp::PartialEqSpecImpl for Decimal {
    open spec fn obeys_eq_spec() -> bool {
        true
    }

    open spec fn eq_spec(&self, other: &Decimal) -> bool {
        decimal_eq(*self, *other)
    }
}

impl Eq for Decimal {}

/// `from_signed` spells back the value it was given.
pub proof fn lemma_from_signed(v: int, s: nat)
    requires
        fits(v),
        s <= 28,
    ensures
        from_signed(v, s).signed() == v,
        from_signed(v, s).wf(),
        from_signed(v, s).scale == s,
        from_signed(v, s).magnitude() == (if v < 0 { -v } else { v }),
{
    let m = if v < 0 {
        -v
    } else {
        v
    };
    let b = word();
    let q = m / b;
    assert(m == b * q + m % b) by {
        vstd::arithmetic::div_mod::lemma_fundamental_div_mod(m, b);
    }
    assert(q == b * (q / b) + q % b) by {
        vstd::arithmetic::div_mod::lemma_fundamental_div_mod(q, b);
    }
    assert(0 <= m % b < b) by {
        vstd::arithmetic::div_mod::lemma_mod_bound(m, b);
    }
    assert(0 <= q % b < b) by {
        vstd::arithmetic::div_mod::lemma_mod_bound(q, b);
    }
    assert(0 <= q < b * b) by {
        vstd::arithmetic::div_mod::lemma_div_pos_is_pos(m, b);
        vstd::arithmetic::div_mod::lemma_div_is_ordered(m, magnitude_limit() - 1, b);
    }
    assert(0 <= q / b < b) by {
        vstd::arithmetic::div_mod::lemma_div_pos_is_pos(q, b);
        vstd::arithmetic::div_mod::lemma_div_is_ordered(q, b * b - 1, b);
    }
    let d = from_signed(v, s);
    assert(d.magnitude() == m);
}

/// Powers of ten multiply by adding exponents.
pub proof fn lemma_pow10_add(x: nat, y: nat)
    ensures
        pow10(x + y) == pow10(x) * pow10(y),
    decreases y,
{
    if y > 0 {
        let y1 = (y - 1) as nat;
        lemma_pow10_add(x, y1);
        assert((x + y1) as nat == (x + y - 1) as nat);
        assert(pow10(x + y) == 10 * pow10(x + y1));
        assert(pow10(y) == 10 * pow10(y1));
        let a = pow10(x);
        let b = pow10(y1);
        assert(a * (10 * b) == 10 * (a * b)) by (nonlinear_arith);
        assert(pow10(x + y) == a * pow10(y));
    } else {
        assert(pow10(y) == 1);
        assert(x + y == x);
    }
}

/// Every power of ten is positive.
pub proof fn lemma_pow10_positive(n: nat)
    ensures
        pow10(n) >= 1,
    decreases n,
{
    if n > 0 {
        lemma_pow10_positive((n - 1) as nat);
    }
}

/// Every result of `rust_decimal`'s addition is well formed, at a scale no
/// finer than the finer operand's.
pub proof fn lemma_sum_shape(a: Decimal, b: Decimal)
    requires
        a.scale <= 28,
        b.scale <= 28,
    ensures
        decimal_sum(a, b) matches Some(d) ==> d.wf() && d.scale <= common_scale(a, b),
{
    if a.magnitude() != 0 && b.magnitude() != 0 && add_is_exact(a, b) {
        let s = common_scale(a, b);
        lemma_from_signed(a.at_scale(s) + b.at_scale(s), s);
    }
}

/// Every result of `rust_decimal`'s subtraction is well formed, at a scale no
/// finer than the finer operand's.
pub proof fn lemma_difference_shape(a: Decimal, b: Decimal)
    requires
        a.scale <= 28,
        b.scale <= 28,
    ensures
        decimal_difference(a, b) matches Some(d) ==> d.wf() && d.scale <= common_scale(a, b),
{
    if a.magnitude() != 0 && b.magnitude() != 0 && sub_is_exact(a, b) {
        let s = common_scale(a, b);
        lemma_from_signed(a.at_scale(s) - b.at_scale(s), s);
    }
}

/// Counting a number in a finer unit multiplies it by the ratio of the units.
pub proof fn lemma_rescale(d: Decimal, s: nat, t: nat)
    requires
        d.scale <= s <= t,
    ensures
        d.at_scale(t) == d.at_scale(s) * pow10((t - s) as nat),
{
    let i = (s - d.scale) as nat;
    let j = (t - s) as nat;
    lemma_pow10_add(i, j);
    assert((t - d.scale) as nat == i + j);
    let x = d.signed();
    let p = pow10(i);
    let q = pow10(j);
    assert(x * (p * q) == (x * p) * q) by (nonlinear_arith);
}

/// The decimal built from a value that fits, counted at a finer scale.
pub proof fn lemma_from_signed_at(v: int, s: nat, t: nat)
    requires
        fits(v),
        s <= 28,
        s <= t,
    ensures
        from_signed(v, s).wf(),
        from_signed(v, s).scale == s,
        from_signed(v, s).at_scale(t) == v * pow10((t - s) as nat),
{
    lemma_from_signed(v, s);
}

/// A sum computed without rounding is the exact sum, counted at any scale at
/// least as fine as both operands'.
pub proof fn lemma_exact_sum(a: Decimal, b: Decimal, t: nat)
    requires
        a.scale <= 28,
        b.scale <= 28,
        add_is_exact(a, b),
        a.scale <= t,
        b.scale <= t,
    ensures
        decimal_sum(a, b) matches Some(r) && r.wf() && r.scale <= common_scale(a, b),
        decimal_sum(a, b) matches Some(r) && r.scale <= t && r.at_scale(t) == a.at_scale(t)
            + b.at_scale(t),
{
    lemma_pow10_positive((t - a.scale) as nat);
    lemma_pow10_positive((t - b.scale) as nat);
    if a.magnitude() == 0 {
        assert(a.signed() == 0);
        assert(a.at_scale(t) == 0);
    } else if b.magnitude() == 0 {
        assert(b.signed() == 0);
        assert(b.at_scale(t) == 0);
    } else {
        let s = common_scale(a, b);
        let v = a.at_scale(s) + b.at_scale(s);
        lemma_from_signed_at(v, s, t);
        lemma_rescale(a, s, t);
        lemma_rescale(b, s, t);
        let k = pow10((t - s) as nat);
        let x = a.at_scale(s);
        let y = b.at_scale(s);
        assert((x + y) * k == x * k + y * k) by (nonlinear_arith);
    }
}

/// A difference computed without rounding is the exact difference, counted at
/// any scale at least as fine as both operands'.
pub proof fn lemma_exact_difference(a: Decimal, b: Decimal, t: nat)
    requires
        a.scale <= 28,
        b.scale <= 28,
        sub_is_exact(a, b),
        a.scale <= t,
        b.scale <= t,
    ensures
        decimal_difference(a, b) matches Some(r) && r.wf() && r.scale <= common_scale(a, b),
        decimal_difference(a, b) matches Some(r) && r.scale <= t && r.at_scale(t) == a.at_scale(
            t,
        ) - b.at_scale(t),
{
    lemma_pow10_positive((t - a.scale) as nat);
    lemma_pow10_positive((t - b.scale) as nat);
    if a.magnitude() == 0 {
        assert(a.signed() == 0);
        assert(a.at_scale(t) == 0);
        let r = negated(b);
        assert(r.signed() == -b.signed());
        let x = b.signed();
        let k = pow10((t - b.scale) as nat);
        assert((-x) * k == -(x * k)) by (nonlinear_arith);
    } else if b.magnitude() == 0 {
        assert(b.signed() == 0);
        assert(b.at_scale(t) == 0);
    } else {
        let s = common_scale(a, b);
        let v = a.at_scale(s) - b.at_scale(s);
        lemma_from_signed_at(v, s, t);
        lemma_rescale(a, s, t);
        lemma_rescale(b, s, t);
        let k = pow10((t - s) as nat);
        let x = a.at_scale(s);
        let y = b.at_scale(s);
        assert((x - y) * k == x * k - y * k) by (nonlinear_arith);
    }
}

} // verus!
