//! Small helpers on characters and strings that the rest of the crate shares.

use vstd::prelude::*;
use vstd::std_specs::iter::IteratorSpec;

verus! {

/// `String::push` appends one character at the end of the string and leaves
/// the characters before it as they were.
pub assume_specification[ std::string::String::push ](s: &mut std::string::String, ch: char)
    ensures
        final(s)@ == old(s)@.push(ch),
;

/// The characters of `s`, in order.
pub fn chars_of(s: &str) -> (r: Vec<char>)
    ensures
        r@ == s@,
{
    let mut out: Vec<char> = Vec::new();
    let mut it = s.chars();
    loop
        invariant
            out@ + it.remaining() == s@,
            it.obeys_prophetic_iter_laws(),
            it.decrease() is Some,
        decreases it.decrease()->0,
    {
        match it.next() {
            Some(c) => {
                out.push(c);
                assert(out@ + it.remaining() =~= s@);
            },
            None => {
                assert(out@ =~= s@);
                return out;
            },
        }
    }
}

/// The string made of `chars[from..to]`.
pub fn string_of(chars: &Vec<char>, from: usize, to: usize) -> (r: String)
    requires
        from <= to <= chars@.len(),
    ensures
        r@ == chars@.subrange(from as int, to as int),
{
    let mut out = String::new();
    let mut i: usize = from;
    while i < to
        invariant
            from <= i <= to <= chars@.len(),
            out@ == chars@.subrange(from as int, i as int),
        decreases to - i,
    {
        out.push(chars[i]);
        i += 1;
        assert(out@ =~= chars@.subrange(from as int, i as int));
    }
    out
}

/// `str::eq` compares two string slices character by character.
pub assume_specification[ <str as PartialEq>::eq ](a: &str, b: &str) -> (r: bool)
    ensures
        r == (a@ == b@),
;

/// Whether two strings hold the same characters.
pub fn same_text(a: &str, b: &str) -> (r: bool)
    ensures
        r == (a@ == b@),
{
    a.eq(b)
}

/// The character of a decimal digit.
pub open spec fn digit_char(digit: nat) -> char {
    if digit == 0 {
        '0'
    } else if digit == 1 {
        '1'
    } else if digit == 2 {
        '2'
    } else if digit == 3 {
        '3'
    } else if digit == 4 {
        '4'
    } else if digit == 5 {
        '5'
    } else if digit == 6 {
        '6'
    } else if digit == 7 {
        '7'
    } else if digit == 8 {
        '8'
    } else {
        '9'
    }
}

/// The decimal numeral of a natural number, without leading zeros.
pub open spec fn decimal(n: nat) -> Seq<char>
    decreases n,
{
    if n < 10 {
        seq![digit_char(n)]
    } else {
        decimal(n / 10).push(digit_char(n % 10))
    }
}

/// The character of a decimal digit.
pub fn digit_to_char(digit: u8) -> (r: char)
    requires
        digit < 10,
    ensures
        r == digit_char(digit as nat),
{
    if digit == 0 {
        '0'
    } else if digit == 1 {
        '1'
    } else if digit == 2 {
        '2'
    } else if digit == 3 {
        '3'
    } else if digit == 4 {
        '4'
    } else if digit == 5 {
        '5'
    } else if digit == 6 {
        '6'
    } else if digit == 7 {
        '7'
    } else if digit == 8 {
        '8'
    } else {
        '9'
    }
}

/// The decimal numeral of `n`.
pub fn decimal_string(n: u64) -> (r: String)
    ensures
        r@ == decimal(n as nat),
{
    let mut digits: Vec<char> = Vec::new();
    let mut rest: u64 = n;
    // The digits come out last first.
    while rest >= 10
        invariant
            forall|tail: Seq<char>| #[trigger]
                (decimal(n as nat) + tail) == (decimal(rest as nat) + digits@.reverse() + tail),
        decreases rest,
    {
        let ghost before = digits@;
        let ghost rest_before = rest;
        let d: u8 = (rest % 10) as u8;
        digits.push(digit_to_char(d));
        rest = rest / 10;
        proof {
            assert forall|tail: Seq<char>| #[trigger]
                (decimal(n as nat) + tail) == (decimal(rest as nat) + digits@.reverse()
                    + tail) by {
                let c = digit_char((rest_before % 10) as nat);
                assert(decimal(rest_before as nat) == decimal(rest as nat).push(c));
                assert(digits@.reverse() =~= seq![c] + before.reverse());
                assert(decimal(rest as nat) + digits@.reverse() + tail =~= decimal(
                    rest_before as nat,
                ) + before.reverse() + tail);
            }
        }
    }
    let mut out = String::new();
    out.push(digit_to_char(rest as u8));
    let mut i: usize = digits.len();
    while i > 0
        invariant
            i <= digits@.len(),
            out@ == decimal(rest as nat) + digits@.reverse().subrange(
                0,
                digits@.len() - i,
            ),
        decreases i,
    {
        i -= 1;
        out.push(digits[i]);
        assert(out@ =~= decimal(rest as nat) + digits@.reverse().subrange(
            0,
            digits@.len() - i,
        ));
    }
    proof {
        assert(digits@.reverse().subrange(0, digits@.len() as int) =~= digits@.reverse());
        assert(decimal(n as nat) + Seq::<char>::empty() == decimal(rest as nat)
            + digits@.reverse() + Seq::<char>::empty());
        assert(decimal(n as nat) + Seq::<char>::empty() =~= decimal(n as nat));
        assert(decimal(rest as nat) + digits@.reverse() + Seq::<char>::empty() =~= decimal(
            rest as nat,
        ) + digits@.reverse());
    }
    out
}

} // verus!
