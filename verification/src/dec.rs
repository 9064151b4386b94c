//! Exact decimal numbers.
//!
//! A [`Dec`] holds what `rust_decimal::Decimal` holds: a sign, a 96-bit magnitude and a
//! decimal scale between 0 and 28. Its value is `(-1)^negative * magnitude / 10^scale`.
//! Comparison, sign handling, rounding to decimal places, normalisation and rendering are
//! proved here against short statements; the rounding arithmetic and the parsers are
//! `rust_decimal`'s own and are reached through small trusted wrappers.

use vstd::prelude::*;

use crate::text::string_from_chars;

verus! {

/// `2^96`: every magnitude is strictly below this.
pub open spec fn magnitude_bound() -> nat {
    0x1_0000_0000_0000_0000_0000_0000nat
}

/// `10^n`.
pub open spec fn pow10(n: nat) -> nat
    decreases n,
{
    if n == 0 {
        1
    } else {
        10 * pow10((n - 1) as nat)
    }
}

pub proof fn lemma_pow10_positive(n: nat)
    ensures
        pow10(n) >= 1,
    decreases n,
{
    if n > 0 {
        lemma_pow10_positive((n - 1) as nat);
    }
}

pub proof fn lemma_pow10_add(a: nat, b: nat)
    ensures
        pow10(a + b) == pow10(a) * pow10(b),
    decreases a,
{
    if a > 0 {
        let a1 = (a - 1) as nat;
        lemma_pow10_add(a1, b);
        assert(((a + b) - 1) as nat == a1 + b);
        assert(pow10(a + b) == 10 * pow10(a1 + b));
        assert(pow10(a) == 10 * pow10(a1));
        let x = pow10(a1);
        let y = pow10(b);
        assert(10 * (x * y) == (10 * x) * y) by (nonlinear_arith);
        assert(pow10(a + b) == pow10(a) * pow10(b));
    } else {
        assert(a + b == b);
        assert(pow10(a) == 1);
        assert(1 * pow10(b) == pow10(b));
    }
}

pub proof fn lemma_pow10_monotonic(a: nat, b: nat)
    requires
        a <= b,
    ensures
        pow10(a) <= pow10(b),
    decreases b,
{
    if a < b {
        lemma_pow10_monotonic(a, (b - 1) as nat);
        lemma_pow10_positive((b - 1) as nat);
    }
}

/// A zero magnitude is the value zero, whatever the sign and scale.
pub proof fn lemma_zero_units(v: DecView)
    requires
        v.magnitude == 0,
    ensures
        v.units() == 0,
        v.abs_units() == 0,
{
    let p = pow10((28 - v.scale) as nat);
    assert(v.magnitude * p == 0) by (nonlinear_arith)
        requires
            v.magnitude == 0;
}

/// The plain content of a decimal.
pub struct DecView {
    pub negative: bool,
    pub magnitude: nat,
    pub scale: nat,
}

impl DecView {
    /// The magnitude of the value, in units of `10^-28`.
    pub open spec fn abs_units(self) -> nat {
        self.magnitude * pow10((28 - self.scale) as nat)
    }

    /// The value in units of `10^-28`: every decimal value is a whole number of these.
    pub open spec fn units(self) -> int {
        if self.negative {
            -self.abs_units()
        } else {
            self.abs_units() as int
        }
    }

    pub open spec fn wf(self) -> bool {
        self.magnitude < magnitude_bound() && self.scale <= 28
    }

    pub open spec fn is_zero(self) -> bool {
        self.magnitude == 0
    }
}

/// An exact decimal number (sign, 96-bit magnitude, scale 0..=28).
#[derive(Debug)]
pub struct Dec {
    negative: bool,
    magnitude: u128,
    scale: u32,
}

impl View for Dec {
    type V = DecView;

    closed spec fn view(&self) -> DecView {
        DecView { negative: self.negative, magnitude: self.magnitude as nat, scale: self.scale as nat }
    }
}

impl Clone for Dec {
    fn clone(&self) -> (r: Dec)
        ensures
            r@ == self@,
    {
        proof {
            use_type_invariant(self);
        }
        Dec { negative: self.negative, magnitude: self.magnitude, scale: self.scale }
    }
}

impl Copy for Dec {
}

impl Dec {
    #[verifier::type_invariant]
    closed spec fn inv(self) -> bool {
        self.magnitude < 0x1_0000_0000_0000_0000_0000_0000u128 && self.scale <= 28
    }

    /// The invariant, made available to callers that hold a decimal.
    pub fn check_wf(&self)
        ensures
            self@.wf(),
    {
        proof {
            use_type_invariant(self);
        }
    }

    /// `num / 10^scale`, as `Decimal::new` builds it.
    pub fn new(num: i64, scale: u32) -> (r: Dec)
        requires
            scale <= 28,
        ensures
            r@ == (DecView { negative: num < 0, magnitude: (if num < 0 { -(num as int) } else { num as int }) as nat, scale: scale as nat }),
    {
        let negative = num < 0;
        let magnitude: u128 = if negative {
            (0i128 - (num as i128)) as u128
        } else {
            num as u128
        };
        Dec { negative, magnitude, scale }
    }

    /// The whole number `n`, as `Decimal::from(i64)` builds it.
    pub fn from_i64(n: i64) -> (r: Dec)
        ensures
            r@ == (DecView { negative: n < 0, magnitude: (if n < 0 { -(n as int) } else { n as int }) as nat, scale: 0 }),
    {
        Dec::new(n, 0)
    }

    pub fn zero() -> (r: Dec)
        ensures
            r@ == (DecView { negative: false, magnitude: 0, scale: 0 }),
    {
        Dec { negative: false, magnitude: 0, scale: 0 }
    }

    pub fn one() -> (r: Dec)
        ensures
            r@ == (DecView { negative: false, magnitude: 1, scale: 0 }),
    {
        Dec { negative: false, magnitude: 1, scale: 0 }
    }

    /// Builds a decimal from its parts; `None` when they are out of range.
    pub fn from_parts(negative: bool, magnitude: u128, scale: u32) -> (r: Option<Dec>)
        ensures
            r is Some <==> (magnitude < magnitude_bound() && scale <= 28),
            r matches Some(d) ==> d@ == (DecView { negative, magnitude: magnitude as nat, scale: scale as nat }),
    {
        if magnitude < 0x1_0000_0000_0000_0000_0000_0000u128 && scale <= 28 {
            Some(Dec { negative, magnitude, scale })
        } else {
            None
        }
    }

    pub fn is_sign_negative(&self) -> (r: bool)
        ensures
            r == self@.negative,
    {
        self.negative
    }

    pub fn magnitude(&self) -> (r: u128)
        ensures
            r == self@.magnitude,
    {
        self.magnitude
    }

    pub fn scale(&self) -> (r: u32)
        ensures
            r == self@.scale,
    {
        self.scale
    }

    pub fn is_zero(&self) -> (r: bool)
        ensures
            r == (self@.magnitude == 0),
    {
        self.magnitude == 0
    }

    /// Flips the sign, keeping magnitude and scale (zero included, as `Neg` does).
    pub fn neg(&self) -> (r: Dec)
        ensures
            r@ == (DecView { negative: !self@.negative, ..self@ }),
    {
        proof {
            use_type_invariant(self);
        }
        Dec { negative: !self.negative, magnitude: self.magnitude, scale: self.scale }
    }

    /// Clears the sign, keeping magnitude and scale.
    pub fn abs(&self) -> (r: Dec)
        ensures
            r@ == (DecView { negative: false, ..self@ }),
    {
        proof {
            use_type_invariant(self);
        }
        Dec { negative: false, magnitude: self.magnitude, scale: self.scale }
    }
}

/// Sign of `x`: -1, 0 or 1.
pub open spec fn signum(x: int) -> int {
    if x < 0 {
        -1
    } else if x == 0 {
        0
    } else {
        1
    }
}

proof fn lemma_scaled_compare(x: nat, k: nat, y: nat, j: nat)
    requires
        x >= magnitude_bound(),
        y < magnitude_bound(),
        k <= j,
        j <= 28,
    ensures
        x * pow10((28 - k) as nat) > y * pow10((28 - j) as nat),
{
    lemma_pow10_monotonic((28 - j) as nat, (28 - k) as nat);
    lemma_pow10_positive((28 - j) as nat);
    let pj = pow10((28 - j) as nat);
    let pk = pow10((28 - k) as nat);
    assert(y * pj < x * pj) by (nonlinear_arith)
        requires
            y < x,
            pj >= 1,
    ;
    assert(x * pj <= x * pk) by (nonlinear_arith)
        requires
            pj <= pk,
    ;
}

/// Compares two magnitudes given with their scales: the sign of `|a| - |b|`.
fn magnitude_order(am: u128, ascale: u32, bm: u128, bscale: u32) -> (r: i8)
    requires
        am < magnitude_bound(),
        bm < magnitude_bound(),
        ascale <= 28,
        bscale <= 28,
    ensures
        r as int == signum(
            (am as nat * pow10((28 - ascale) as nat)) as int - (bm as nat * pow10((28 - bscale) as nat)) as int,
        ),
{
    if ascale <= bscale {
        order_rescaled(am, ascale, bm, bscale)
    } else {
        let r = order_rescaled(bm, bscale, am, ascale);
        -r
    }
}

/// [`magnitude_order`] when `a` has the smaller scale: `a` is brought up to `b`'s scale.
fn order_rescaled(am: u128, ascale: u32, bm: u128, bscale: u32) -> (r: i8)
    requires
        am < magnitude_bound(),
        bm < magnitude_bound(),
        ascale <= bscale <= 28,
    ensures
        r as int == signum(
            (am as nat * pow10((28 - ascale) as nat)) as int - (bm as nat * pow10((28 - bscale) as nat)) as int,
        ),
{
    {
        let mut x: u128 = am;
        let mut k: u32 = ascale;
        while k < bscale
            invariant
                ascale <= k <= bscale <= 28,
                x < magnitude_bound(),
                bm < magnitude_bound(),
                x as nat * pow10((28 - k) as nat) == am as nat * pow10((28 - ascale) as nat),
            decreases bscale - k,
        {
            let ghost k0 = k;
            let ghost x0 = x;
            x = x * 10;
            k = k + 1;
            proof {
                assert(pow10((28 - k0) as nat) == 10 * pow10((28 - k) as nat));
                assert(x as nat * pow10((28 - k) as nat) == x0 as nat * pow10((28 - k0) as nat)) by (nonlinear_arith)
                    requires
                        x == x0 * 10,
                        pow10((28 - k0) as nat) == 10 * pow10((28 - k) as nat),
                ;
            }
            if x >= 0x1_0000_0000_0000_0000_0000_0000u128 {
                proof {
                    lemma_scaled_compare(x as nat, k as nat, bm as nat, bscale as nat);
                }
                return 1;
            }
        }
        proof {
            let p = pow10((28 - bscale) as nat);
            lemma_pow10_positive((28 - bscale) as nat);
            if x < bm {
                assert(x * p < bm * p) by (nonlinear_arith) requires x < bm, p >= 1;
            } else if x > bm {
                assert(x * p > bm * p) by (nonlinear_arith) requires x > bm, p >= 1;
            }
        }
        if x < bm {
            -1
        } else if x == bm {
            0
        } else {
            1
        }
    }
}

impl Dec {
    /// The sign of `self - other`, compared by value (so `2.50` and `2.5` are equal, and
    /// `-0` equals `0`).
    pub fn compare(&self, other: &Dec) -> (r: i8)
        ensures
            r as int == signum(self@.units() - other@.units()),
    {
        proof {
            use_type_invariant(self);
            use_type_invariant(other);
            lemma_pow10_positive((28 - self.scale) as nat);
            lemma_pow10_positive((28 - other.scale) as nat);
        }
        let c = magnitude_order(self.magnitude, self.scale, other.magnitude, other.scale);
        let a_zero = self.magnitude == 0;
        let b_zero = other.magnitude == 0;
        proof {
            let pa = pow10((28 - self.scale) as nat);
            let pb = pow10((28 - other.scale) as nat);
            assert(self.magnitude == 0 ==> self.magnitude * pa == 0) by (nonlinear_arith);
            assert(other.magnitude == 0 ==> other.magnitude * pb == 0) by (nonlinear_arith);
            assert(self.magnitude > 0 ==> self.magnitude * pa > 0) by (nonlinear_arith)
                requires pa >= 1;
            assert(other.magnitude > 0 ==> other.magnitude * pb > 0) by (nonlinear_arith)
                requires pb >= 1;
        }
        if a_zero && b_zero {
            0
        } else if a_zero {
            if other.negative { 1 } else { -1 }
        } else if b_zero {
            if self.negative { -1 } else { 1 }
        } else if self.negative != other.negative {
            if self.negative { -1 } else { 1 }
        } else if self.negative {
            -c
        } else {
            c
        }
    }

    /// `self < other` by value.
    pub fn lt(&self, other: &Dec) -> (r: bool)
        ensures
            r == (self@.units() < other@.units()),
    {
        self.compare(other) < 0
    }

    /// `self <= other` by value.
    pub fn le(&self, other: &Dec) -> (r: bool)
        ensures
            r == (self@.units() <= other@.units()),
    {
        self.compare(other) <= 0
    }

    /// `self == other` by value.
    pub fn value_eq(&self, other: &Dec) -> (r: bool)
        ensures
            r == (self@.units() == other@.units()),
    {
        self.compare(other) == 0
    }

    /// The smaller of the two, as `Decimal::min` picks it (`other` only when `self > other`).
    pub fn min(self, other: Dec) -> (r: Dec)
        ensures
            r@ == (if self@.units() > other@.units() { other@ } else { self@ }),
    {
        if other.lt(&self) {
            other
        } else {
            self
        }
    }
}

impl PartialEq for Dec {
    fn eq(&self, other: &Dec) -> (r: bool) {
        self.value_eq(other)
    }
}

impl vstd::std_specs::cmp::PartialEqSpecImpl for Dec {
    open spec fn obeys_eq_spec() -> bool {
        true
    }

    open spec fn eq_spec(&self, other: &Dec) -> bool {
        self@.units() == other@.units()
    }
}



/// The decimal digits of `n`, most significant first; empty for zero.
pub open spec fn digits(n: nat) -> Seq<char>
    decreases n,
{
    if n == 0 {
        Seq::empty()
    } else {
        digits(n / 10).push(((48 + n % 10) as u8) as char)
    }
}

/// `s`, with `'0'`s added on the left until it is at least `len` long.
pub open spec fn pad_zeros(s: Seq<char>, len: nat) -> Seq<char> {
    if s.len() >= len {
        s
    } else {
        Seq::new((len - s.len()) as nat, |i: int| '0') + s
    }
}

/// How a decimal renders with `prec` fraction digits: the whole part (`0` when empty),
/// then, when `prec > 0`, a point and the fraction truncated or zero-filled to `prec`
/// digits; `-` in front when the value is negative (a zero has no sign).
pub open spec fn render(v: DecView, prec: nat) -> Seq<char> {
    let ds = pad_zeros(digits(v.magnitude), v.scale);
    let whole_len = (ds.len() - v.scale) as nat;
    let whole = ds.subrange(0, whole_len as int);
    let frac = ds.subrange(whole_len as int, ds.len() as int);
    let whole_text = if whole.len() == 0 { seq!['0'] } else { whole };
    let frac_text = Seq::new(prec, |i: int| if i < frac.len() { frac[i] } else { '0' });
    let body = if prec == 0 { whole_text } else { whole_text + seq!['.'] + frac_text };
    if v.negative && v.magnitude != 0 { seq!['-'] + body } else { body }
}



/// The decimal digits of `n`, most significant first; empty for zero.
pub(crate) fn digits_exec(n: u128) -> (r: Vec<char>)
    ensures
        r@ == digits(n as nat),
{
    let mut rev: Vec<char> = Vec::new();
    let mut m: u128 = n;
    while m > 0
        invariant
            digits(n as nat) == digits(m as nat) + rev@.reverse(),
        decreases m,
    {
        let d = (m % 10) as u8;
        let c = (48u8 + d) as char;
        proof {
            assert(digits(m as nat) == digits((m / 10) as nat).push(c));
            assert(digits((m / 10) as nat) + rev@.push(c).reverse() =~= digits((m / 10) as nat).push(c) + rev@.reverse());
        }
        rev.push(c);
        m = m / 10;
    }
    let mut out: Vec<char> = Vec::new();
    let mut i = rev.len();
    while i > 0
        invariant
            i <= rev.len(),
            out@ == rev@.subrange(i as int, rev.len() as int).reverse(),
        decreases i,
    {
        i = i - 1;
        out.push(rev[i]);
        proof {
            assert(rev@.subrange(i as int, rev.len() as int).reverse() =~= rev@.subrange(i + 1, rev.len() as int).reverse().push(rev@[i as int]));
        }
    }
    proof {
        assert(rev@.subrange(0, rev.len() as int) =~= rev@);
        assert(digits(n as nat) =~= rev@.reverse());
    }
    out
}


/// The text `Decimal`'s `Display` builds before the sign is added: at most 32
/// characters fit its buffer.
pub open spec fn fixed_text_fits(v: DecView, prec: nat) -> bool {
    render(DecView { negative: false, ..v }, prec).len() <= 32
}

/// `n` has at most `k` digits when it is below `10^k`.
proof fn lemma_digits_len(n: nat, k: nat)
    requires
        n < pow10(k),
    ensures
        digits(n).len() <= k,
    decreases n,
{
    if n > 0 {
        if k == 0 {
            assert(pow10(0) == 1);
        } else {
            assert(pow10(k) == 10 * pow10((k - 1) as nat));
            lemma_digits_len(n / 10, (k - 1) as nat);
        }
    }
}

/// A 96-bit magnitude with at most two places renders with two places in 32 characters.
pub proof fn lemma_two_places_fit(v: DecView)
    requires
        v.wf(),
        v.scale <= 2,
    ensures
        fixed_text_fits(v, 2),
{
    reveal_with_fuel(pow10, 30);
    assert(pow10(29) == 100000000000000000000000000000nat);
    lemma_digits_len(v.magnitude, 29);
    let ds = pad_zeros(digits(v.magnitude), v.scale);
    assert(ds.len() <= 29);
}

/// Writes `d` with `prec` fraction digits through `Decimal`'s `Display`, as
/// `format!("{:.prec$}", d)` does: cut or zero-filled, never rounded. The text must fit
/// the 32-character buffer the formatter writes it into, or the call panics.
#[verifier::external_body]
fn decimal_fixed_text(d: &Dec, prec: u32) -> (s: String)
    requires
        prec <= 28,
        fixed_text_fits(d@, prec as nat),
    ensures
        s@ == render(d@, prec as nat),
{
    let (lo, mid, hi) = d.limbs();
    let x = rust_decimal::Decimal::from_parts(lo, mid, hi, d.negative, d.scale);
    format!("{:.1$}", x, prec as usize)
}

/// Writes `d` through `Decimal`'s `Display`: every stored fraction digit kept.
#[verifier::external_body]
fn decimal_text(d: &Dec) -> (s: String)
    ensures
        s@ == render(d@, d@.scale),
{
    let (lo, mid, hi) = d.limbs();
    let x = rust_decimal::Decimal::from_parts(lo, mid, hi, d.negative, d.scale);
    x.to_string()
}

impl Dec {
    /// Renders the value with exactly `prec` fraction digits, as `format!("{:.prec$}", d)`
    /// prints a `Decimal` (digits beyond `prec` are cut, missing ones are zero).
    pub fn to_string_fixed(&self, prec: u32) -> (s: String)
        requires
            prec <= 28,
            fixed_text_fits(self@, prec as nat),
        ensures
            s@ == render(self@, prec as nat),
    {
        decimal_fixed_text(self, prec)
    }

    /// Renders the value as `Decimal`'s `Display` does: every stored fraction digit kept.
    pub fn to_string(&self) -> (s: String)
        ensures
            s@ == render(self@, self@.scale),
    {
        decimal_text(self)
    }
}

/// Strips trailing zero fraction digits from `(magnitude, scale)`.
pub open spec fn strip_zeros(m: nat, s: nat) -> (nat, nat)
    decreases s,
{
    if s > 0 && m % 10 == 0 {
        strip_zeros(m / 10, (s - 1) as nat)
    } else {
        (m, s)
    }
}

/// What `Decimal::normalize` gives: trailing zeros stripped, and zero as plain `0`.
pub open spec fn normalized(v: DecView) -> DecView {
    if v.magnitude == 0 {
        DecView { negative: false, magnitude: 0, scale: 0 }
    } else {
        DecView { negative: v.negative, magnitude: strip_zeros(v.magnitude, v.scale).0, scale: strip_zeros(v.magnitude, v.scale).1 }
    }
}

/// What `Decimal::round_dp(dp)` gives: at most `dp` fraction digits, ties to even; a
/// result of zero has no sign.
pub open spec fn rounded_dp(v: DecView, dp: nat) -> DecView {
    let r = if v.scale <= dp {
        v
    } else {
        let p = pow10((v.scale - dp) as nat);
        let q = v.magnitude / p;
        let rem = v.magnitude % p;
        let half = p / 2;
        let up = rem > half || (rem == half && q % 2 == 1);
        DecView { negative: v.negative, magnitude: if up { q + 1 } else { q }, scale: dp }
    };
    DecView { negative: r.negative && r.magnitude != 0, ..r }
}


/// `Decimal::normalize`: trailing fraction zeros stripped, and zero as a positive `0`.
#[verifier::external_body]
fn decimal_normalize(d: &Dec) -> (r: Dec)
    ensures
        r@ == normalized(d@),
{
    let (lo, mid, hi) = d.limbs();
    let z = rust_decimal::Decimal::from_parts(lo, mid, hi, d.negative, d.scale).normalize();
    Dec { negative: z.is_sign_negative(), magnitude: z.mantissa().unsigned_abs(), scale: z.scale() }
}

/// `Decimal::round_dp`: at most `dp` fraction digits, ties to even.
#[verifier::external_body]
fn decimal_round_dp(d: &Dec, dp: u32) -> (r: Dec)
    ensures
        r@ == rounded_dp(d@, dp as nat),
{
    let (lo, mid, hi) = d.limbs();
    let z = rust_decimal::Decimal::from_parts(lo, mid, hi, d.negative, d.scale).round_dp(dp);
    Dec { negative: z.is_sign_negative(), magnitude: z.mantissa().unsigned_abs(), scale: z.scale() }
}

impl Dec {
    /// Trailing fraction zeros stripped; zero becomes a positive `0` (`Decimal::normalize`).
    pub fn normalize(&self) -> (r: Dec)
        ensures
            r@ == normalized(self@),
    {
        decimal_normalize(self)
    }

    /// Rounded to at most `dp` fraction digits, ties to even (`Decimal::round_dp`).
    pub fn round_dp(&self, dp: u32) -> (r: Dec)
        ensures
            r@ == rounded_dp(self@, dp as nat),
    {
        decimal_round_dp(self, dp)
    }
}

impl Dec {
    /// The magnitude as the three 32-bit words `Decimal::from_parts` takes, low first.
    pub fn limbs(&self) -> (r: (u32, u32, u32))
        ensures
            r.0 as nat + r.1 as nat * 0x1_0000_0000nat + r.2 as nat * 0x1_0000_0000_0000_0000nat == self@.magnitude,
    {
        proof {
            use_type_invariant(self);
        }
        let m = self.magnitude;
        let lo = (m % 0x1_0000_0000) as u32;
        let mid = ((m / 0x1_0000_0000) % 0x1_0000_0000) as u32;
        let hi = (m / 0x1_0000_0000_0000_0000) as u32;
        proof {
            let q1 = m / 0x1_0000_0000;
            assert(m == q1 * 0x1_0000_0000 + m % 0x1_0000_0000);
            assert(q1 == (q1 / 0x1_0000_0000) * 0x1_0000_0000 + q1 % 0x1_0000_0000);
            assert(q1 / 0x1_0000_0000 == m / 0x1_0000_0000_0000_0000);
        }
        (lo, mid, hi)
    }
}

/// What `Decimal::checked_add` returns, on the parts of its operands.
pub uninterp spec fn decimal_sum(a: DecView, b: DecView) -> Option<DecView>;

/// What `Decimal::checked_sub` returns, on the parts of its operands.
pub uninterp spec fn decimal_difference(a: DecView, b: DecView) -> Option<DecView>;

/// What `Decimal::checked_mul` returns, on the parts of its operands.
pub uninterp spec fn decimal_product(a: DecView, b: DecView) -> Option<DecView>;

/// What `Decimal::checked_div` returns, on the parts of its operands.
pub uninterp spec fn decimal_quotient(a: DecView, b: DecView) -> Option<DecView>;

/// What `Decimal::saturating_add` returns, on the parts of its operands.
pub uninterp spec fn decimal_saturating_sum(a: DecView, b: DecView) -> DecView;

/// The view of an optional decimal.
pub open spec fn opt_view(d: Option<Dec>) -> Option<DecView> {
    match d {
        Some(x) => Some(x@),
        None => None,
    }
}

/// The value of an optional decimal, in units of `10^-28`.
pub open spec fn opt_units(d: Option<Dec>) -> Option<int> {
    match d {
        Some(x) => Some(x@.units()),
        None => None,
    }
}

/// The larger of the two scales.
pub open spec fn max_scale(a: DecView, b: DecView) -> nat {
    if a.scale >= b.scale { a.scale } else { b.scale }
}

/// `x` fits in 96 bits at `scale`: `|x| < 2^96 * 10^(28 - scale)` in units of `10^-28`.
pub open spec fn fits_at(x: int, scale: nat) -> bool {
    -(magnitude_bound() * pow10((28 - scale) as nat)) < x < magnitude_bound() * pow10((28 - scale) as nat)
}

/// A plain zero: positive, scale 0.
pub open spec fn zero_view() -> DecView {
    DecView { negative: false, magnitude: 0, scale: 0 }
}

/// Both operands are non-zero and their product is representable without rounding.
pub open spec fn exact_product_fits(a: DecView, b: DecView) -> bool {
    a.magnitude != 0 && b.magnitude != 0 && a.scale + b.scale <= 28 && a.magnitude * b.magnitude < magnitude_bound()
}

/// The product kept exactly: signs combined, magnitudes multiplied, scales added.
pub open spec fn exact_product(a: DecView, b: DecView) -> DecView {
    DecView { negative: a.negative != b.negative, magnitude: a.magnitude * b.magnitude, scale: a.scale + b.scale }
}

/// `a + b` through `Decimal::checked_add`; `None` on overflow. The sum is exact whenever it
/// fits in 96 bits at the larger of the two scales.
#[verifier::external_body]
pub(crate) fn checked_add(a: Dec, b: Dec) -> (r: Option<Dec>)
    ensures
        opt_view(r) == decimal_sum(a@, b@),
        fits_at(a@.units() + b@.units(), max_scale(a@, b@)) ==> opt_units(r) == Some(a@.units() + b@.units()),
{
    let (a_lo, a_mid, a_hi) = a.limbs();
    let (b_lo, b_mid, b_hi) = b.limbs();
    let x = rust_decimal::Decimal::from_parts(a_lo, a_mid, a_hi, a.negative, a.scale);
    let y = rust_decimal::Decimal::from_parts(b_lo, b_mid, b_hi, b.negative, b.scale);
    match x.checked_add(y) {
        Some(z) => Some(Dec { negative: z.is_sign_negative(), magnitude: z.mantissa().unsigned_abs(), scale: z.scale() }),
        None => None,
    }
}

/// `a - b` through `Decimal::checked_sub`; `None` on overflow. The difference is exact
/// whenever it fits in 96 bits at the larger of the two scales.
#[verifier::external_body]
pub(crate) fn checked_sub(a: Dec, b: Dec) -> (r: Option<Dec>)
    ensures
        opt_view(r) == decimal_difference(a@, b@),
        fits_at(a@.units() - b@.units(), max_scale(a@, b@)) ==> opt_units(r) == Some(a@.units() - b@.units()),
{
    let (a_lo, a_mid, a_hi) = a.limbs();
    let (b_lo, b_mid, b_hi) = b.limbs();
    let x = rust_decimal::Decimal::from_parts(a_lo, a_mid, a_hi, a.negative, a.scale);
    let y = rust_decimal::Decimal::from_parts(b_lo, b_mid, b_hi, b.negative, b.scale);
    match x.checked_sub(y) {
        Some(z) => Some(Dec { negative: z.is_sign_negative(), magnitude: z.mantissa().unsigned_abs(), scale: z.scale() }),
        None => None,
    }
}

/// `a * b` through `Decimal::checked_mul`; `None` on overflow. A zero operand gives a plain
/// zero; when the scales add up to at most 28 and the magnitudes multiply within 96 bits,
/// the product is exact and carries the summed scale.
#[verifier::external_body]
pub(crate) fn checked_mul(a: Dec, b: Dec) -> (r: Option<Dec>)
    ensures
        opt_view(r) == decimal_product(a@, b@),
        (a@.magnitude == 0 || b@.magnitude == 0) ==> opt_view(r) == Some(zero_view()),
        exact_product_fits(a@, b@) ==> opt_view(r) == Some(exact_product(a@, b@)),
{
    let (a_lo, a_mid, a_hi) = a.limbs();
    let (b_lo, b_mid, b_hi) = b.limbs();
    let x = rust_decimal::Decimal::from_parts(a_lo, a_mid, a_hi, a.negative, a.scale);
    let y = rust_decimal::Decimal::from_parts(b_lo, b_mid, b_hi, b.negative, b.scale);
    match x.checked_mul(y) {
        Some(z) => Some(Dec { negative: z.is_sign_negative(), magnitude: z.mantissa().unsigned_abs(), scale: z.scale() }),
        None => None,
    }
}

/// `a / b` through `Decimal::checked_div`: the quotient to 28 significant digits, `None`
/// when `b` is zero or the quotient overflows. A zero dividend gives a plain zero.
#[verifier::external_body]
pub(crate) fn checked_div(a: Dec, b: Dec) -> (r: Option<Dec>)
    ensures
        opt_view(r) == decimal_quotient(a@, b@),
        b@.magnitude == 0 ==> r is None,
        (a@.magnitude == 0 && b@.magnitude != 0) ==> opt_view(r) == Some(zero_view()),
{
    let (a_lo, a_mid, a_hi) = a.limbs();
    let (b_lo, b_mid, b_hi) = b.limbs();
    let x = rust_decimal::Decimal::from_parts(a_lo, a_mid, a_hi, a.negative, a.scale);
    let y = rust_decimal::Decimal::from_parts(b_lo, b_mid, b_hi, b.negative, b.scale);
    match x.checked_div(y) {
        Some(z) => Some(Dec { negative: z.is_sign_negative(), magnitude: z.mantissa().unsigned_abs(), scale: z.scale() }),
        None => None,
    }
}

/// `a + b` through `Decimal::saturating_add`: clamped to the largest or smallest decimal on
/// overflow, and exact whenever the sum fits in 96 bits at the larger of the two scales, in
/// which case it carries no more than that scale.
#[verifier::external_body]
pub(crate) fn saturating_add(a: Dec, b: Dec) -> (r: Dec)
    ensures
        r@ == decimal_saturating_sum(a@, b@),
        fits_at(a@.units() + b@.units(), max_scale(a@, b@)) ==> r@.units() == a@.units() + b@.units(),
        fits_at(a@.units() + b@.units(), max_scale(a@, b@)) ==> r@.scale <= max_scale(a@, b@),
{
    let (a_lo, a_mid, a_hi) = a.limbs();
    let (b_lo, b_mid, b_hi) = b.limbs();
    let x = rust_decimal::Decimal::from_parts(a_lo, a_mid, a_hi, a.negative, a.scale);
    let y = rust_decimal::Decimal::from_parts(b_lo, b_mid, b_hi, b.negative, b.scale);
    let z = x.saturating_add(y);
    Dec { negative: z.is_sign_negative(), magnitude: z.mantissa().unsigned_abs(), scale: z.scale() }
}

/// What `Decimal::from_scientific` returns for a text, as parts (`None` for an error).
pub uninterp spec fn decimal_from_scientific(s: Seq<char>) -> Option<DecView>;

/// What `Decimal::from_str_exact` returns for a text, as parts (`None` for an error).
pub uninterp spec fn decimal_from_str_exact(s: Seq<char>) -> Option<DecView>;

/// What `Decimal::from_str` returns for a text, as parts (`None` for an error).
pub uninterp spec fn decimal_from_str(s: Seq<char>) -> Option<DecView>;

/// Parses scientific notation (`1.5e+3`, `0E-20`) with `Decimal::from_scientific`.
#[verifier::external_body]
pub(crate) fn from_scientific(s: &str) -> (r: Option<Dec>)
    ensures
        opt_view(r) == decimal_from_scientific(s@),
{
    match rust_decimal::Decimal::from_scientific(s) {
        Ok(z) => Some(Dec { negative: z.is_sign_negative(), magnitude: z.mantissa().unsigned_abs(), scale: z.scale() }),
        Err(_) => None,
    }
}

/// Parses plain decimal text with `Decimal::from_str_exact`, which refuses to round.
#[verifier::external_body]
pub(crate) fn from_str_exact(s: &str) -> (r: Option<Dec>)
    ensures
        opt_view(r) == decimal_from_str_exact(s@),
{
    match rust_decimal::Decimal::from_str_exact(s) {
        Ok(z) => Some(Dec { negative: z.is_sign_negative(), magnitude: z.mantissa().unsigned_abs(), scale: z.scale() }),
        Err(_) => None,
    }
}

/// Parses plain decimal text with `Decimal::from_str` (`FromStr`), which rounds past 28
/// significant digits.
#[verifier::external_body]
pub(crate) fn from_str_rounding(s: &str) -> (r: Option<Dec>)
    ensures
        opt_view(r) == decimal_from_str(s@),
{
    match <rust_decimal::Decimal as std::str::FromStr>::from_str(s) {
        Ok(z) => Some(Dec { negative: z.is_sign_negative(), magnitude: z.mantissa().unsigned_abs(), scale: z.scale() }),
        Err(_) => None,
    }
}

proof fn lemma_strip_zeros_units(m: nat, s: nat)
    requires
        s <= 28,
    ensures
        strip_zeros(m, s).1 <= s,
        strip_zeros(m, s).0 * pow10((28 - strip_zeros(m, s).1) as nat) == m * pow10((28 - s) as nat),
    decreases s,
{
    if s > 0 && m % 10 == 0 {
        let q = m / 10;
        lemma_strip_zeros_units(q, (s - 1) as nat);
        let k = (28 - s) as nat;
        assert(((28 - (s - 1)) as nat) == k + 1);
        assert(pow10(k + 1) == 10 * pow10(k));
        let p = pow10(k);
        assert(q * (10 * p) == (q * 10) * p) by (nonlinear_arith);
        assert(q * 10 == m);
    }
}

/// Normalising never changes a value: `Decimal::normalize` only strips trailing zeros (and
/// the sign of zero).
pub proof fn law_normalize_keeps_the_value(v: DecView)
    requires
        v.scale <= 28,
    ensures
        normalized(v).units() == v.units(),
        normalized(v).scale <= v.scale,
{
    if v.magnitude == 0 {
        lemma_zero_units(v);
        lemma_zero_units(normalized(v));
    } else {
        lemma_strip_zeros_units(v.magnitude, v.scale);
    }
}

} // verus!
