//! How a number prints: the shortest decimal numeral that reads back as
//! the same binary64 value, in positional notation.
//!
//! The digits are stated over exact integers. A finite value is
//! `mant * 2^exp`; the values that round to it lie between
//! `(mant - minus) * 2^exp` and `(mant + plus) * 2^exp`, bounds included
//! where the value's own significand is even. The digits are produced one
//! at a time, and production stops as soon as the numeral so far, or the
//! numeral one unit higher in its last place, lies between the bounds.

use vstd::prelude::*;
use vstd::string::StringExecFns;
use crate::bignum::{power, Big, Order};
use crate::number::{is_nan, magnitude, sign_set, Number, INFINITY_BITS, SIGN_BIT};
use crate::text::{digit_char, digit_to_char};

verus! {

/// Two to the power 52: the weight of the hidden bit of a significand.
pub const HIDDEN_BIT: u64 = 0x10_0000_0000_0000;

/// How many times the search for the decimal exponent may step either way,
/// and how many digits may be produced. No binary64 value comes near them.
pub const SEARCH_LIMIT: u32 = 400;

pub const DIGIT_LIMIT: u32 = 40;

/// A finite value with the interval of the values that round to it.
pub struct Decoded {
    pub mant: nat,
    pub minus: nat,
    pub plus: nat,
    pub exp: int,
    pub inclusive: bool,
}

/// The value of a finite, non-zero magnitude and its rounding interval.
/// At the lowest value of a binade the interval is half as wide below.
pub open spec fn decoded(magnitude: u64) -> Decoded {
    let fraction = (magnitude % 0x10_0000_0000_0000) as nat;
    let exponent = (magnitude / 0x10_0000_0000_0000) as int;
    if exponent == 0 {
        Decoded {
            mant: 2 * fraction,
            minus: 1,
            plus: 1,
            exp: -1075,
            inclusive: fraction % 2 == 0,
        }
    } else if fraction == 0 {
        Decoded {
            mant: 0x40_0000_0000_0000,
            minus: 1,
            plus: 2,
            exp: exponent - 1077,
            inclusive: true,
        }
    } else {
        Decoded {
            mant: 2 * (fraction + 0x10_0000_0000_0000),
            minus: 1,
            plus: 1,
            exp: exponent - 1076,
            inclusive: fraction % 2 == 0,
        }
    }
}

/// The state of digit production: the value is `mant / scale` times a
/// power of ten, and `minus / scale` and `plus / scale` are the distances
/// to the bounds of the interval.
pub struct Scaled {
    pub mant: nat,
    pub minus: nat,
    pub plus: nat,
    pub scale: nat,
}

/// The state at the start: the value as a ratio of integers.
pub open spec fn start(d: Decoded) -> Scaled {
    if d.exp < 0 {
        Scaled { mant: d.mant, minus: d.minus, plus: d.plus, scale: power(2, (-d.exp) as nat) }
    } else {
        Scaled {
            mant: d.mant * power(2, d.exp as nat),
            minus: d.minus * power(2, d.exp as nat),
            plus: d.plus * power(2, d.exp as nat),
            scale: 1,
        }
    }
}

/// Whether `x` lies beyond `scale`: at it counts where the bound is
/// included.
pub open spec fn reaches(x: nat, scale: nat, inclusive: bool) -> bool {
    if inclusive {
        x >= scale
    } else {
        x > scale
    }
}

/// The state and the decimal exponent after the scale is raised by powers
/// of ten until the upper bound lies below it.
pub open spec fn raised(s: Scaled, k: int, inclusive: bool, fuel: nat) -> (Scaled, int)
    decreases fuel,
{
    if fuel > 0 && reaches(s.mant + s.plus, s.scale, inclusive) {
        raised(Scaled { scale: s.scale * 10, ..s }, k + 1, inclusive, (fuel - 1) as nat)
    } else {
        (s, k)
    }
}

/// The state with the value and the distances ten times as large.
pub open spec fn times_ten(s: Scaled) -> Scaled {
    Scaled { mant: s.mant * 10, minus: s.minus * 10, plus: s.plus * 10, scale: s.scale }
}

/// The state and the decimal exponent after the value is raised by powers
/// of ten until ten times the upper bound reaches the scale.
pub open spec fn lowered(s: Scaled, k: int, inclusive: bool, fuel: nat) -> (Scaled, int)
    decreases fuel,
{
    if fuel > 0 && !reaches((s.mant + s.plus) * 10, s.scale, inclusive) {
        lowered(times_ten(s), k - 1, inclusive, (fuel - 1) as nat)
    } else {
        (s, k)
    }
}

/// How often `scale` goes into `mant`, counted up to `cap`, and what is
/// left of `mant`.
pub open spec fn taken(mant: nat, scale: nat, cap: nat) -> (nat, nat)
    decreases cap,
{
    if cap == 0 || mant < scale {
        (0, mant)
    } else {
        let rest = taken((mant - scale) as nat, scale, (cap - 1) as nat);
        (rest.0 + 1, rest.1)
    }
}

/// The digits produced and whether the last one is to be rounded up.
pub struct Produced {
    pub digits: Seq<u8>,
    pub round_up: bool,
}

/// The digits of the value after those given: one digit at a time, until
/// the numeral produced lies within the lower bound (`down`) or the next
/// higher numeral within the upper bound (`up`). The last digit is rounded
/// up where only `up` holds, or where both hold and the rest is at least
/// half a unit.
pub open spec fn produced(s: Scaled, inclusive: bool, digits: Seq<u8>, fuel: nat) -> Produced
    decreases fuel,
{
    let split = taken(s.mant, s.scale, 9);
    let digit = split.0 as u8;
    let rest = split.1;
    let down = if inclusive {
        rest <= s.minus
    } else {
        rest < s.minus
    };
    let up = reaches(rest + s.plus, s.scale, inclusive);
    if down || up || fuel == 0 {
        Produced { digits: digits.push(digit), round_up: up && (!down || rest * 2 >= s.scale) }
    } else {
        produced(
            Scaled { mant: rest * 10, minus: s.minus * 10, plus: s.plus * 10, scale: s.scale },
            inclusive,
            digits.push(digit),
            (fuel - 1) as nat,
        )
    }
}

/// Whether every digit is a nine.
pub open spec fn all_nines(digits: Seq<u8>) -> bool {
    forall|i: int| 0 <= i < digits.len() ==> digits[i] == 9
}

/// The numeral one unit higher in its last place, with as many digits;
/// a numeral of nines alone gives zeros alone.
pub open spec fn bumped(digits: Seq<u8>) -> Seq<u8>
    decreases digits.len(),
{
    if digits.len() == 0 {
        digits
    } else if digits.last() == 9 {
        bumped(digits.drop_last()).push(0)
    } else {
        digits.drop_last().push((digits.last() + 1) as u8)
    }
}

/// The shortest digits of a value and its decimal exponent: the value is
/// `0.d1 d2 ... dn` times ten to the power of the exponent.
pub struct Shortest {
    pub digits: Seq<u8>,
    pub exponent: int,
}

/// The shortest digits of a finite, non-zero magnitude.
pub open spec fn shortest(magnitude: u64) -> Shortest {
    let d = decoded(magnitude);
    let up = raised(start(d), 0, d.inclusive, 400);
    let down = lowered(up.0, up.1, d.inclusive, 400);
    let made = produced(times_ten(down.0), d.inclusive, Seq::empty(), 40);
    if made.round_up {
        if all_nines(made.digits) {
            Shortest {
                digits: seq![1u8] + bumped(made.digits.drop_first()).push(0),
                exponent: down.1 + 1,
            }
        } else {
            Shortest { digits: bumped(made.digits), exponent: down.1 }
        }
    } else {
        Shortest { digits: made.digits, exponent: down.1 }
    }
}

/// The characters of a list of digits.
pub open spec fn numeral(digits: Seq<u8>) -> Seq<char> {
    Seq::new(digits.len(), |i: int| digit_char(digits[i] as nat))
}

/// So many zeros.
pub open spec fn zeros(count: nat) -> Seq<char> {
    Seq::new(count, |i: int| '0')
}

/// Digits and a decimal exponent in positional notation, without an
/// exponent part and without a fraction where the value has none.
pub open spec fn positional(digits: Seq<u8>, exponent: int) -> Seq<char> {
    if exponent <= 0 {
        "0."@ + zeros((-exponent) as nat) + numeral(digits)
    } else if exponent < digits.len() {
        numeral(digits.subrange(0, exponent)) + "."@ + numeral(
            digits.subrange(exponent, digits.len() as int),
        )
    } else {
        numeral(digits) + zeros((exponent - digits.len()) as nat)
    }
}

/// The text of a magnitude: of a value without its sign.
pub open spec fn magnitude_text(magnitude: u64) -> Seq<char> {
    if magnitude == 0 {
        "0"@
    } else if magnitude == 0x7ff0_0000_0000_0000 {
        "inf"@
    } else {
        let found = shortest(magnitude);
        positional(found.digits, found.exponent)
    }
}

/// The text that a number prints as.
pub open spec fn number_text(bits: u64) -> Seq<char> {
    if is_nan(bits) {
        "NaN"@
    } else if sign_set(bits) {
        "-"@ + magnitude_text((bits - 0x8000_0000_0000_0000) as u64)
    } else {
        magnitude_text(bits)
    }
}

/// The integers of digit production, each of any size.
pub struct Work {
    pub mant: Big,
    pub minus: Big,
    pub plus: Big,
    pub scale: Big,
}

impl View for Work {
    type V = Scaled;

    open spec fn view(&self) -> Scaled {
        Scaled { mant: self.mant@, minus: self.minus@, plus: self.plus@, scale: self.scale@ }
    }
}

/// Whether every digit is a decimal digit.
pub open spec fn decimal_digits(digits: Seq<u8>) -> bool {
    forall|i: int| 0 <= i < digits.len() ==> digits[i] <= 9
}

/// Whether `x` lies beyond `scale`.
fn reaches_scale(x: &Big, scale: &Big, inclusive: bool) -> (r: bool)
    ensures
        r == reaches(x@, scale@, inclusive),
{
    match scale.compare(x) {
        Order::Less => true,
        Order::Equal => inclusive,
        Order::Greater => false,
    }
}

impl Work {
    /// The state at the start, for a value with its rounding interval.
    fn start(mant: u64, minus: u64, plus: u64, exp: i64) -> (r: Work)
        requires
            -2000 <= exp <= 2000,
        ensures
            r@ == start(
                Decoded {
                    mant: mant as nat,
                    minus: minus as nat,
                    plus: plus as nat,
                    exp: exp as int,
                    inclusive: true,
                },
            ),
    {
        let mut work = Work {
            mant: Big::from_u64(mant),
            minus: Big::from_u64(minus),
            plus: Big::from_u64(plus),
            scale: Big::from_u64(1),
        };
        if exp < 0 {
            work.scale.mul_pow2((-exp) as usize);
            proof {
                assert(1 * power(2, (-exp) as nat) == power(2, (-exp) as nat)) by (nonlinear_arith);
            }
        } else {
            work.mant.mul_pow2(exp as usize);
            work.minus.mul_pow2(exp as usize);
            work.plus.mul_pow2(exp as usize);
        }
        work
    }

    /// Raises the scale by powers of ten until the upper bound lies below
    /// it; returns how many.
    #[verifier::loop_isolation(false)]
    fn raise(&mut self, inclusive: bool) -> (k: i64)
        ensures
            (final(self)@, k as int) == raised(old(self)@, 0, inclusive, 400),
            0 <= k <= 400,
    {
        let mut k: i64 = 0;
        let mut fuel: u32 = SEARCH_LIMIT;
        loop
            invariant
                k == 400 - fuel,
                fuel <= 400,
                raised(old(self)@, 0, inclusive, 400) == raised(
                    self@,
                    k as int,
                    inclusive,
                    fuel as nat,
                ),
            decreases fuel,
        {
            if fuel == 0 {
                return k;
            }
            let upper = self.mant.plus(&self.plus);
            if !reaches_scale(&upper, &self.scale, inclusive) {
                return k;
            }
            self.scale.mul_small(10);
            k += 1;
            fuel -= 1;
        }
    }

    /// Multiplies the value and the distances by ten.
    fn times_ten(&mut self)
        ensures
            final(self)@ == times_ten(old(self)@),
    {
        self.mant.mul_small(10);
        self.minus.mul_small(10);
        self.plus.mul_small(10);
    }

    /// Raises the value by powers of ten until ten times the upper bound
    /// reaches the scale; returns the decimal exponent, which starts at
    /// `from`.
    #[verifier::loop_isolation(false)]
    fn lower(&mut self, from: i64, inclusive: bool) -> (k: i64)
        requires
            0 <= from <= 400,
        ensures
            (final(self)@, k as int) == lowered(old(self)@, from as int, inclusive, 400),
            -400 <= k <= 400,
    {
        let mut k: i64 = from;
        let mut fuel: u32 = SEARCH_LIMIT;
        loop
            invariant
                k == from - (400 - fuel),
                fuel <= 400,
                lowered(old(self)@, from as int, inclusive, 400) == lowered(
                    self@,
                    k as int,
                    inclusive,
                    fuel as nat,
                ),
            decreases fuel,
        {
            if fuel == 0 {
                return k;
            }
            let mut upper = self.mant.plus(&self.plus);
            upper.mul_small(10);
            if reaches_scale(&upper, &self.scale, inclusive) {
                return k;
            }
            self.times_ten();
            k -= 1;
            fuel -= 1;
        }
    }

    /// Takes the next digit off the value: how often the scale goes into
    /// it, which is left as the rest.
    #[verifier::loop_isolation(false)]
    fn take_digit(&mut self) -> (digit: u8)
        ensures
            digit == taken(old(self)@.mant, old(self)@.scale, 9).0,
            digit <= 9,
            final(self)@ == (Scaled {
                mant: taken(old(self)@.mant, old(self)@.scale, 9).1,
                ..old(self)@
            }),
    {
        let mut digit: u8 = 0;
        loop
            invariant
                digit <= 9,
                self@.minus == old(self)@.minus,
                self@.plus == old(self)@.plus,
                self@.scale == old(self)@.scale,
                taken(old(self)@.mant, old(self)@.scale, 9).0 == digit + taken(
                    self@.mant,
                    self@.scale,
                    (9 - digit) as nat,
                ).0,
                taken(old(self)@.mant, old(self)@.scale, 9).1 == taken(
                    self@.mant,
                    self@.scale,
                    (9 - digit) as nat,
                ).1,
            decreases 9 - digit,
        {
            if digit >= 9 {
                return digit;
            }
            match self.mant.compare(&self.scale) {
                Order::Less => {
                    return digit;
                },
                _ => {},
            }
            self.mant.subtract(&self.scale);
            digit += 1;
        }
    }

    /// Produces the digits of the value; says whether the last one is to
    /// be rounded up.
    #[verifier::loop_isolation(false)]
    fn produce(&mut self, inclusive: bool) -> (r: (Vec<u8>, bool))
        ensures
            r.0@ == produced(old(self)@, inclusive, Seq::empty(), 40).digits,
            r.1 == produced(old(self)@, inclusive, Seq::empty(), 40).round_up,
            r.0@.len() >= 1,
            decimal_digits(r.0@),
    {
        let mut digits: Vec<u8> = Vec::new();
        let mut fuel: u32 = DIGIT_LIMIT;
        loop
            invariant
                fuel <= 40,
                decimal_digits(digits@),
                produced(old(self)@, inclusive, Seq::empty(), 40) == produced(
                    self@,
                    inclusive,
                    digits@,
                    fuel as nat,
                ),
            decreases fuel,
        {
            let digit = self.take_digit();
            let down = match self.mant.compare(&self.minus) {
                Order::Less => true,
                Order::Equal => inclusive,
                Order::Greater => false,
            };
            let upper = self.mant.plus(&self.plus);
            let up = reaches_scale(&upper, &self.scale, inclusive);
            digits.push(digit);
            if down || up || fuel == 0 {
                let mut twice = self.mant.copy();
                twice.mul_small(2);
                let half = match twice.compare(&self.scale) {
                    Order::Less => false,
                    _ => true,
                };
                return (digits, up && (!down || half));
            }
            self.times_ten();
            fuel -= 1;
        }
    }
}

/// Whether every digit is a nine.
fn only_nines(digits: &Vec<u8>) -> (r: bool)
    ensures
        r == all_nines(digits@),
{
    let mut i: usize = 0;
    while i < digits.len()
        invariant
            i <= digits@.len(),
            forall|j: int| 0 <= j < i ==> digits@[j] == 9,
        decreases digits@.len() - i,
    {
        if digits[i] != 9 {
            return false;
        }
        i += 1;
    }
    true
}

/// Bumping leaves the number of digits and their being decimal digits.
proof fn lemma_bumped(digits: Seq<u8>)
    requires
        decimal_digits(digits),
    ensures
        bumped(digits).len() == digits.len(),
        decimal_digits(bumped(digits)),
    decreases digits.len(),
{
    if digits.len() > 0 && digits.last() == 9 {
        lemma_bumped(digits.drop_last());
    }
}

/// Raises a numeral by one unit in its last place.
#[verifier::loop_isolation(false)]
fn bump(digits: &mut Vec<u8>)
    requires
        decimal_digits(old(digits)@),
    ensures
        final(digits)@ == bumped(old(digits)@),
        decimal_digits(final(digits)@),
        final(digits)@.len() == old(digits)@.len(),
{
    proof {
        lemma_bumped(old(digits)@);
    }
    let count = digits.len();
    let mut i: usize = count;
    proof {
        assert(old(digits)@.subrange(0, count as int) =~= old(digits)@);
        assert(bumped(old(digits)@) + Seq::<u8>::empty() =~= bumped(old(digits)@));
    }
    let ghost mut tail: Seq<u8> = Seq::empty();
    while i > 0
        invariant
            i <= count,
            count == old(digits)@.len(),
            digits@.len() == count,
            tail.len() == count - i,
            forall|j: int| 0 <= j < i ==> digits@[j] == old(digits)@[j],
            forall|j: int| i <= j < count ==> digits@[j] == tail[j - i],
            bumped(old(digits)@) == bumped(old(digits)@.subrange(0, i as int)) + tail,
        decreases i,
    {
        i -= 1;
        let ghost prefix = old(digits)@.subrange(0, i + 1);
        proof {
            assert(prefix.drop_last() =~= old(digits)@.subrange(0, i as int));
            assert(prefix.last() == old(digits)@[i as int]);
        }
        if digits[i] == 9 {
            digits.set(i, 0);
            proof {
                let shorter = bumped(old(digits)@.subrange(0, i as int));
                assert(shorter.push(0) + tail =~= shorter + (seq![0u8] + tail));
                tail = seq![0u8] + tail;
            }
        } else {
            let raised: u8 = digits[i] + 1;
            digits.set(i, raised);
            proof {
                assert(digits@ =~= bumped(old(digits)@));
            }
            return ;
        }
    }
    proof {
        assert(old(digits)@.subrange(0, 0) =~= Seq::<u8>::empty());
        assert(digits@ =~= bumped(old(digits)@));
    }
}

/// The value of a finite, non-zero magnitude and its rounding interval.
fn decode(magnitude: u64) -> (r: (u64, u64, u64, i64, bool))
    requires
        magnitude < 0x7ff0_0000_0000_0000,
    ensures
        ({
            let d = decoded(magnitude);
            &&& r.0 == d.mant
            &&& r.1 == d.minus
            &&& r.2 == d.plus
            &&& r.3 == d.exp
            &&& r.4 == d.inclusive
            &&& -1077 <= d.exp <= 971
        }),
{
    let fraction: u64 = magnitude % HIDDEN_BIT;
    let exponent: u64 = magnitude / HIDDEN_BIT;
    if exponent == 0 {
        (2 * fraction, 1, 1, -1075, fraction % 2 == 0)
    } else if fraction == 0 {
        (4 * HIDDEN_BIT, 1, 2, exponent as i64 - 1077, true)
    } else {
        (2 * (fraction + HIDDEN_BIT), 1, 1, exponent as i64 - 1076, fraction % 2 == 0)
    }
}

/// The shortest digits of a finite, non-zero magnitude and its decimal
/// exponent.
pub fn shortest_digits(magnitude: u64) -> (r: (Vec<u8>, i64))
    requires
        magnitude < 0x7ff0_0000_0000_0000,
    ensures
        r.0@ == shortest(magnitude).digits,
        r.1 == shortest(magnitude).exponent,
        decimal_digits(r.0@),
        -401 <= r.1 <= 401,
{
    let (mant, minus, plus, exp, inclusive) = decode(magnitude);
    let mut work = Work::start(mant, minus, plus, exp);
    let raised = work.raise(inclusive);
    let k = work.lower(raised, inclusive);
    work.times_ten();
    let (mut digits, round_up) = work.produce(inclusive);
    if round_up {
        if only_nines(&digits) {
            let mut out: Vec<u8> = Vec::new();
            out.push(1);
            let mut i: usize = 1;
            while i < digits.len()
                invariant
                    1 <= i <= digits@.len(),
                    out@ == seq![1u8] + digits@.subrange(1, i as int),
                decreases digits@.len() - i,
            {
                out.push(digits[i]);
                i += 1;
                assert(out@ =~= seq![1u8] + digits@.subrange(1, i as int));
            }
            let mut rest: Vec<u8> = Vec::new();
            let mut j: usize = 1;
            while j < digits.len()
                invariant
                    1 <= j <= digits@.len(),
                    rest@ == digits@.subrange(1, j as int),
                decreases digits@.len() - j,
            {
                rest.push(digits[j]);
                j += 1;
                assert(rest@ =~= digits@.subrange(1, j as int));
            }
            proof {
                assert(rest@ =~= digits@.drop_first());
                assert(decimal_digits(rest@));
            }
            bump(&mut rest);
            let mut made: Vec<u8> = Vec::new();
            made.push(1);
            let mut n: usize = 0;
            while n < rest.len()
                invariant
                    n <= rest@.len(),
                    made@ == seq![1u8] + rest@.subrange(0, n as int),
                decreases rest@.len() - n,
            {
                made.push(rest[n]);
                n += 1;
                assert(made@ =~= seq![1u8] + rest@.subrange(0, n as int));
            }
            made.push(0);
            proof {
                assert(rest@.subrange(0, rest@.len() as int) =~= rest@);
                assert(made@ =~= seq![1u8] + rest@.push(0));
            }
            return (made, k + 1);
        }
        bump(&mut digits);
    }
    (digits, k)
}

/// Appends so many zeros.
fn push_zeros(out: &mut String, count: u64)
    ensures
        final(out)@ == old(out)@ + zeros(count as nat),
{
    let mut i: u64 = 0;
    proof {
        assert(out@ =~= old(out)@ + zeros(0));
    }
    while i < count
        invariant
            i <= count,
            out@ == old(out)@ + zeros(i as nat),
        decreases count - i,
    {
        out.push('0');
        i += 1;
        assert(out@ =~= old(out)@ + zeros(i as nat));
    }
}

/// Appends the characters of the digits `digits[from..to]`.
fn push_numeral(out: &mut String, digits: &Vec<u8>, from: usize, to: usize)
    requires
        from <= to <= digits@.len(),
        decimal_digits(digits@),
    ensures
        final(out)@ == old(out)@ + numeral(digits@.subrange(from as int, to as int)),
{
    let mut i: usize = from;
    proof {
        assert(out@ =~= old(out)@ + numeral(digits@.subrange(from as int, from as int)));
    }
    while i < to
        invariant
            from <= i <= to <= digits@.len(),
            decimal_digits(digits@),
            out@ == old(out)@ + numeral(digits@.subrange(from as int, i as int)),
        decreases to - i,
    {
        out.push(digit_to_char(digits[i]));
        i += 1;
        assert(out@ =~= old(out)@ + numeral(digits@.subrange(from as int, i as int)));
    }
}

/// Digits and a decimal exponent in positional notation.
pub fn positional_string(digits: &Vec<u8>, exponent: i64) -> (r: String)
    requires
        decimal_digits(digits@),
        -0x7fff_ffff <= exponent <= 0x7fff_ffff,
    ensures
        r@ == positional(digits@, exponent as int),
{
    let count = digits.len();
    if exponent <= 0 {
        let mut out = String::from_str("0.");
        push_zeros(&mut out, (-exponent) as u64);
        push_numeral(&mut out, digits, 0, count);
        proof {
            assert(digits@.subrange(0, count as int) =~= digits@);
        }
        out
    } else if (exponent as u64) < (count as u64) {
        let mut out = String::new();
        push_numeral(&mut out, digits, 0, exponent as usize);
        out.append(".");
        push_numeral(&mut out, digits, exponent as usize, count);
        proof {
            assert(Seq::<char>::empty() + numeral(digits@.subrange(0, exponent as int))
                =~= numeral(digits@.subrange(0, exponent as int)));
        }
        out
    } else {
        let mut out = String::new();
        push_numeral(&mut out, digits, 0, count);
        push_zeros(&mut out, exponent as u64 - count as u64);
        proof {
            assert(digits@.subrange(0, count as int) =~= digits@);
            assert(Seq::<char>::empty() + numeral(digits@) =~= numeral(digits@));
        }
        out
    }
}

/// The text of a magnitude.
fn magnitude_string(magnitude: u64) -> (r: String)
    requires
        magnitude <= 0x7ff0_0000_0000_0000,
    ensures
        r@ == magnitude_text(magnitude),
{
    if magnitude == 0 {
        String::from_str("0")
    } else if magnitude == INFINITY_BITS {
        String::from_str("inf")
    } else {
        let (digits, exponent) = shortest_digits(magnitude);
        positional_string(&digits, exponent)
    }
}

impl Number {
    /// The text that the number prints as: the shortest decimal numeral
    /// that reads back as the same value, `inf` for infinity and `NaN`
    /// for a value that is no number.
    pub fn to_text(&self) -> (r: String)
        ensures
            r@ == number_text(self.bits),
    {
        if self.is_nan() {
            String::from_str("NaN")
        } else if self.bits >= SIGN_BIT {
            let mut out = String::from_str("-");
            out.append(magnitude_string(self.bits - SIGN_BIT).as_str());
            out
        } else {
            magnitude_string(self.bits)
        }
    }
}

} // verus!
