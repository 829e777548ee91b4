//! Natural numbers of any size, as lists of 32-bit limbs, least
//! significant first. Printing a binary64 number exactly needs integers of
//! more than a thousand bits.

use vstd::prelude::*;

verus! {

/// The base of the limbs.
pub open spec fn base() -> nat {
    0x1_0000_0000
}

/// `b` to the power `e`.
pub open spec fn power(b: nat, e: nat) -> nat
    decreases e,
{
    if e == 0 {
        1
    } else {
        b * power(b, (e - 1) as nat)
    }
}

/// The limb at position `i`; zero beyond the list.
pub open spec fn limb_at(limbs: Seq<u32>, i: int) -> nat {
    if 0 <= i < limbs.len() {
        limbs[i] as nat
    } else {
        0
    }
}

/// The number that the first `n` limbs denote.
pub open spec fn value_upto(limbs: Seq<u32>, n: nat) -> nat
    decreases n,
{
    if n == 0 {
        0
    } else {
        value_upto(limbs, (n - 1) as nat) + limb_at(limbs, n - 1) * power(base(), (n - 1) as nat)
    }
}

/// The number that a list of limbs denotes.
pub open spec fn value_of(limbs: Seq<u32>) -> nat {
    value_upto(limbs, limbs.len())
}

/// The first `n` limbs denote a number below the `n`th power of the base.
pub proof fn lemma_value_bound(limbs: Seq<u32>, n: nat)
    ensures
        value_upto(limbs, n) < power(base(), n),
    decreases n,
{
    if n > 0 {
        lemma_value_bound(limbs, (n - 1) as nat);
        let low = value_upto(limbs, (n - 1) as nat);
        let top = limb_at(limbs, n - 1);
        let unit = power(base(), (n - 1) as nat);
        assert(top <= base() - 1);
        assert(low + top * unit < base() * unit) by (nonlinear_arith)
            requires
                low < unit,
                top <= base() - 1,
        ;
    }
}

/// Lists that agree on their first `n` limbs denote the same number there.
pub proof fn lemma_value_agrees(a: Seq<u32>, b: Seq<u32>, n: nat)
    requires
        forall|i: int| 0 <= i < n ==> limb_at(a, i) == limb_at(b, i),
    ensures
        value_upto(a, n) == value_upto(b, n),
    decreases n,
{
    if n > 0 {
        lemma_value_agrees(a, b, (n - 1) as nat);
    }
}

/// Limbs beyond the end of a list are zero and add nothing.
pub proof fn lemma_value_beyond(limbs: Seq<u32>, n: nat)
    requires
        n >= limbs.len(),
    ensures
        value_upto(limbs, n) == value_of(limbs),
    decreases n,
{
    if n > limbs.len() {
        lemma_value_beyond(limbs, (n - 1) as nat);
        assert(0 * power(base(), (n - 1) as nat) == 0) by (nonlinear_arith);
    }
}

/// A list with one more limb denotes the old number plus the limb at its
/// place.
pub proof fn lemma_value_push(limbs: Seq<u32>, limb: u32)
    ensures
        value_of(limbs.push(limb)) == value_of(limbs) + limb * power(base(), limbs.len()),
{
    lemma_value_agrees(limbs.push(limb), limbs, limbs.len());
}

/// Where two lists agree above position `k` and differ at `k`, the limb
/// there decides which denotes the smaller number.
pub proof fn lemma_value_decided(a: Seq<u32>, b: Seq<u32>, k: nat, n: nat)
    requires
        k < n,
        limb_at(a, k as int) < limb_at(b, k as int),
        forall|i: int| k < i < n ==> limb_at(a, i) == limb_at(b, i),
    ensures
        value_upto(a, n) < value_upto(b, n),
    decreases n,
{
    if n == k + 1 {
        lemma_value_bound(a, k);
        let unit = power(base(), k);
        let x = limb_at(a, k as int);
        let y = limb_at(b, k as int);
        assert(value_upto(a, k) + x * unit < y * unit) by (nonlinear_arith)
            requires
                value_upto(a, k) < unit,
                x < y,
        ;
    } else {
        lemma_value_decided(a, b, k, (n - 1) as nat);
    }
}

/// A natural number of any size.
#[derive(Debug)]
pub struct Big {
    pub limbs: Vec<u32>,
}

impl View for Big {
    type V = nat;

    open spec fn view(&self) -> nat {
        value_of(self.limbs@)
    }
}

/// How two numbers compare.
#[derive(Debug, Clone, Copy, PartialEq, Eq, Structural)]
pub enum Order {
    Less,
    Equal,
    Greater,
}

/// How two natural numbers compare.
pub open spec fn order_of(a: nat, b: nat) -> Order {
    if a < b {
        Order::Less
    } else if a == b {
        Order::Equal
    } else {
        Order::Greater
    }
}

impl Big {
    /// The number `x`.
    pub fn from_u64(x: u64) -> (r: Big)
        ensures
            r@ == x,
    {
        let mut limbs: Vec<u32> = Vec::new();
        let low: u32 = (x % 0x1_0000_0000) as u32;
        let high: u32 = (x / 0x1_0000_0000) as u32;
        limbs.push(low);
        limbs.push(high);
        proof {
            assert(power(base(), 0) == 1);
            assert(power(base(), 1) == base()) by {
                assert(power(base(), 1) == base() * power(base(), 0));
            }
            assert(value_upto(limbs@, 1) == low) by {
                assert(value_upto(limbs@, 0) == 0);
                assert(low * 1 == low) by (nonlinear_arith);
            }
            assert(value_upto(limbs@, 2) == low + high * base());
        }
        Big { limbs }
    }

    /// A copy of the number.
    pub fn copy(&self) -> (r: Big)
        ensures
            r@ == self@,
            r.limbs@ == self.limbs@,
    {
        let mut limbs: Vec<u32> = Vec::new();
        let mut i: usize = 0;
        while i < self.limbs.len()
            invariant
                i <= self.limbs@.len(),
                limbs@ == self.limbs@.subrange(0, i as int),
            decreases self.limbs@.len() - i,
        {
            limbs.push(self.limbs[i]);
            i += 1;
            assert(limbs@ =~= self.limbs@.subrange(0, i as int));
        }
        assert(limbs@ =~= self.limbs@);
        Big { limbs }
    }

    /// Multiplies the number by `m`.
    pub fn mul_small(&mut self, m: u32)
        ensures
            final(self)@ == old(self)@ * m,
    {
        let ghost before = self.limbs@;
        let count = self.limbs.len();
        let mut carry: u64 = 0;
        let mut i: usize = 0;
        proof {
            assert(0 * power(base(), 0) == 0) by (nonlinear_arith);
            assert(0 * (m as nat) == 0) by (nonlinear_arith);
        }
        while i < count
            invariant
                i <= count,
                count == before.len(),
                self.limbs@.len() == count,
                carry < 0x1_0000_0000,
                forall|j: int| i <= j < count ==> self.limbs@[j] == before[j],
                value_upto(self.limbs@, i as nat) + carry * power(base(), i as nat) == value_upto(
                    before,
                    i as nat,
                ) * m,
            decreases count - i,
        {
            let limb: u64 = self.limbs[i] as u64;
            let ghost low_before = value_upto(self.limbs@, i as nat);
            let ghost limbs_before = self.limbs@;
            assert(limb * (m as u64) + carry < 0x1_0000_0000 * 0x1_0000_0000) by (nonlinear_arith)
                requires
                    limb < 0x1_0000_0000,
                    m < 0x1_0000_0000,
                    carry < 0x1_0000_0000,
            ;
            let product: u64 = limb * (m as u64) + carry;
            let digit: u32 = (product % 0x1_0000_0000) as u32;
            let next: u64 = product / 0x1_0000_0000;
            self.limbs.set(i, digit);
            proof {
                let unit = power(base(), i as nat);
                lemma_value_agrees(self.limbs@, limbs_before, i as nat);
                assert(power(base(), (i + 1) as nat) == base() * unit);
                assert(value_upto(self.limbs@, (i + 1) as nat) == low_before + digit * unit);
                assert(value_upto(before, (i + 1) as nat) == value_upto(before, i as nat) + limb
                    * unit);
                assert(low_before + digit * unit + next * (base() * unit) == (value_upto(
                    before,
                    i as nat,
                ) + limb * unit) * m) by (nonlinear_arith)
                    requires
                        low_before + carry * unit == value_upto(before, i as nat) * m,
                        digit + next * base() == limb * m + carry,
                ;
            }
            carry = next;
            i += 1;
        }
        if carry > 0 {
            let ghost full = self.limbs@;
            self.limbs.push(carry as u32);
            proof {
                lemma_value_push(full, carry as u32);
            }
        } else {
            proof {
                assert(0 * power(base(), count as nat) == 0) by (nonlinear_arith);
            }
        }
    }

    /// Multiplies the number by 2 to the power `bits`.
    pub fn mul_pow2(&mut self, bits: usize)
        ensures
            final(self)@ == old(self)@ * power(2, bits as nat),
    {
        let mut left: usize = bits;
        proof {
            assert(self@ * 1 == self@) by (nonlinear_arith);
        }
        while left > 0
            invariant
                left <= bits,
                self@ * power(2, left as nat) == old(self)@ * power(2, bits as nat),
            decreases left,
        {
            let ghost now = self@;
            self.mul_small(2);
            left -= 1;
            proof {
                let rest = power(2, left as nat);
                assert(power(2, (left + 1) as nat) == 2 * rest);
                assert((now * 2) * rest == now * (2 * rest)) by (nonlinear_arith);
            }
        }
        proof {
            assert(self@ * 1 == self@) by (nonlinear_arith);
        }
    }

    /// The limb at position `i`; zero beyond the list.
    fn limb(&self, i: usize) -> (r: u32)
        ensures
            r == limb_at(self.limbs@, i as int),
    {
        if i < self.limbs.len() {
            self.limbs[i]
        } else {
            0
        }
    }

    /// How this number compares with another.
    pub fn compare(&self, other: &Big) -> (r: Order)
        ensures
            r == order_of(self@, other@),
    {
        let count = if self.limbs.len() > other.limbs.len() {
            self.limbs.len()
        } else {
            other.limbs.len()
        };
        proof {
            lemma_value_beyond(self.limbs@, count as nat);
            lemma_value_beyond(other.limbs@, count as nat);
        }
        let mut i: usize = count;
        while i > 0
            invariant
                i <= count,
                forall|j: int|
                    i <= j < count ==> limb_at(self.limbs@, j) == limb_at(other.limbs@, j),
                value_upto(self.limbs@, count as nat) == self@,
                value_upto(other.limbs@, count as nat) == other@,
            decreases i,
        {
            i -= 1;
            let a = self.limb(i);
            let b = other.limb(i);
            if a < b {
                proof {
                    lemma_value_decided(self.limbs@, other.limbs@, i as nat, count as nat);
                }
                return Order::Less;
            }
            if a > b {
                proof {
                    lemma_value_decided(other.limbs@, self.limbs@, i as nat, count as nat);
                }
                return Order::Greater;
            }
        }
        proof {
            lemma_value_agrees(self.limbs@, other.limbs@, count as nat);
        }
        Order::Equal
    }

    /// The sum of this number and another.
    pub fn plus(&self, other: &Big) -> (r: Big)
        ensures
            r@ == self@ + other@,
    {
        let count = if self.limbs.len() > other.limbs.len() {
            self.limbs.len()
        } else {
            other.limbs.len()
        };
        let mut limbs: Vec<u32> = Vec::new();
        let mut carry: u64 = 0;
        let mut i: usize = 0;
        while i < count
            invariant
                i <= count,
                limbs@.len() == i,
                carry <= 1,
                value_of(limbs@) + carry * power(base(), i as nat) == value_upto(
                    self.limbs@,
                    i as nat,
                ) + value_upto(other.limbs@, i as nat),
            decreases count - i,
        {
            let a: u64 = self.limb(i) as u64;
            let b: u64 = other.limb(i) as u64;
            let sum: u64 = a + b + carry;
            let digit: u32 = (sum % 0x1_0000_0000) as u32;
            let next: u64 = sum / 0x1_0000_0000;
            let ghost so_far = limbs@;
            limbs.push(digit);
            proof {
                let unit = power(base(), i as nat);
                lemma_value_push(so_far, digit);
                assert(power(base(), (i + 1) as nat) == base() * unit);
                assert(value_of(so_far) + digit * unit + next * (base() * unit) == (value_upto(
                    self.limbs@,
                    i as nat,
                ) + a * unit) + (value_upto(other.limbs@, i as nat) + b * unit))
                    by (nonlinear_arith)
                    requires
                        value_of(so_far) + carry * unit == value_upto(self.limbs@, i as nat)
                            + value_upto(other.limbs@, i as nat),
                        digit + next * base() == a + b + carry,
                ;
            }
            carry = next;
            i += 1;
        }
        proof {
            lemma_value_beyond(self.limbs@, count as nat);
            lemma_value_beyond(other.limbs@, count as nat);
        }
        if carry > 0 {
            let ghost full = limbs@;
            limbs.push(carry as u32);
            proof {
                lemma_value_push(full, carry as u32);
            }
        } else {
            proof {
                assert(0 * power(base(), count as nat) == 0) by (nonlinear_arith);
            }
        }
        Big { limbs }
    }

    /// Subtracts another number, which must not be larger, from this one.
    pub fn subtract(&mut self, other: &Big)
        requires
            old(self)@ >= other@,
        ensures
            final(self)@ == old(self)@ - other@,
    {
        let count = if self.limbs.len() > other.limbs.len() {
            self.limbs.len()
        } else {
            other.limbs.len()
        };
        let mut limbs: Vec<u32> = Vec::new();
        let mut borrow: u64 = 0;
        let mut i: usize = 0;
        while i < count
            invariant
                i <= count,
                limbs@.len() == i,
                borrow <= 1,
                value_upto(self.limbs@, i as nat) + borrow * power(base(), i as nat) == value_of(
                    limbs@,
                ) + value_upto(other.limbs@, i as nat),
            decreases count - i,
        {
            let a: u64 = self.limb(i) as u64;
            let b: u64 = other.limb(i) as u64 + borrow;
            let digit: u32;
            let next: u64;
            if a >= b {
                digit = (a - b) as u32;
                next = 0;
            } else {
                digit = (a + 0x1_0000_0000 - b) as u32;
                next = 1;
            }
            let ghost so_far = limbs@;
            limbs.push(digit);
            proof {
                let unit = power(base(), i as nat);
                lemma_value_push(so_far, digit);
                assert(power(base(), (i + 1) as nat) == base() * unit);
                assert((value_upto(self.limbs@, i as nat) + a * unit) + next * (base() * unit)
                    == (value_of(so_far) + digit * unit) + (value_upto(other.limbs@, i as nat)
                    + (b - borrow) * unit)) by (nonlinear_arith)
                    requires
                        value_upto(self.limbs@, i as nat) + borrow * unit == value_of(so_far)
                            + value_upto(other.limbs@, i as nat),
                        a + next * base() == digit + b,
                ;
            }
            borrow = next;
            i += 1;
        }
        proof {
            lemma_value_beyond(self.limbs@, count as nat);
            lemma_value_beyond(other.limbs@, count as nat);
            lemma_value_bound(limbs@, count as nat);
            if borrow == 1 {
                assert(1 * power(base(), count as nat) == power(base(), count as nat))
                    by (nonlinear_arith);
            } else {
                assert(0 * power(base(), count as nat) == 0) by (nonlinear_arith);
            }
        }
        self.limbs = limbs;
    }
}

} // verus!
