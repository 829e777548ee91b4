use rlox::number::Number;
use rlox::run_string;

fn number(x: f64) -> Number {
    Number::from_bits(x.to_bits())
}

fn text(x: f64) -> String {
    number(x).to_text()
}

/// A fixed sequence of bit patterns that covers all exponents.
fn patterns(count: usize) -> Vec<u64> {
    let mut state: u64 = 0x9e37_79b9_7f4a_7c15;
    let mut out = Vec::new();
    for _ in 0..count {
        state ^= state << 13;
        state ^= state >> 7;
        state ^= state << 17;
        out.push(state);
    }
    out
}

#[test]
fn whole_numbers_print_without_a_fraction() {
    assert_eq!(text(0.0), "0");
    assert_eq!(text(1.0), "1");
    assert_eq!(text(3.0), "3");
    assert_eq!(text(42.0), "42");
    assert_eq!(text(610.0), "610");
    assert_eq!(text(1e21), "1000000000000000000000");
    assert_eq!(text(9007199254740993.0), "9007199254740992");
}

#[test]
fn fractions_print_with_their_shortest_digits() {
    assert_eq!(text(0.5), "0.5");
    assert_eq!(text(0.1), "0.1");
    assert_eq!(text(123.45), "123.45");
    assert_eq!(text(0.1 + 0.2), "0.30000000000000004");
    assert_eq!(text(1.0 / 3.0), "0.3333333333333333");
    assert_eq!(text(1e-7), "0.0000001");
    assert_eq!(text(5e-324), format!("{}", 5e-324_f64));
    assert_eq!(text(f64::MAX), format!("{}", f64::MAX));
    assert_eq!(text(f64::MIN_POSITIVE), format!("{}", f64::MIN_POSITIVE));
}

#[test]
fn signs_and_special_values() {
    assert_eq!(text(-1.5), "-1.5");
    assert_eq!(text(-0.0), "-0");
    assert_eq!(text(f64::INFINITY), "inf");
    assert_eq!(text(f64::NEG_INFINITY), "-inf");
    assert_eq!(text(f64::NAN), "NaN");
}

#[test]
fn text_agrees_with_the_standard_library() {
    for bits in patterns(6000) {
        let x = f64::from_bits(bits);
        assert_eq!(text(x), format!("{}", x), "bits {:#x}", bits);
    }
}

#[test]
fn text_agrees_with_the_standard_library_near_powers_of_two() {
    for exponent in 1..2047u64 {
        for fraction in [0u64, 1, 2, 0xf_ffff_ffff_ffff, 0x8_0000_0000_0000] {
            let bits = (exponent << 52) | fraction;
            let x = f64::from_bits(bits);
            assert_eq!(text(x), format!("{}", x), "bits {:#x}", bits);
        }
    }
}

#[test]
fn text_agrees_with_the_standard_library_on_small_decimals() {
    for i in 0..3000u32 {
        let x = f64::from(i) / 100.0;
        assert_eq!(text(x), format!("{}", x));
        let y = f64::from(i) * 1e15 + 0.25;
        assert_eq!(text(y), format!("{}", y));
    }
}

#[test]
fn arithmetic_agrees_with_the_hardware() {
    let values = patterns(4000);
    for pair in values.chunks(2) {
        let (a, b) = (f64::from_bits(pair[0]), f64::from_bits(pair[1]));
        if a.is_nan() || b.is_nan() {
            continue;
        }
        let (x, y) = (number(a), number(b));
        let same = |got: Number, want: f64| {
            if want.is_nan() {
                assert!(got.is_nan());
            } else {
                assert_eq!(got.bits, want.to_bits(), "{} and {}", a, b);
            }
        };
        same(x.sum(&y), a + b);
        same(x.difference(&y), a - b);
        same(x.product(&y), a * b);
        same(x.quotient(&y), a / b);
    }
}

#[test]
fn arithmetic_on_everyday_values() {
    let cases = [(1.0, 2.0), (0.1, 0.2), (1e308, 1e308), (-3.5, 3.5), (7.0, 3.0), (1e-320, 3.0)];
    for (a, b) in cases {
        let (x, y) = (number(a), number(b));
        assert_eq!(x.sum(&y).bits, (a + b).to_bits());
        assert_eq!(x.difference(&y).bits, (a - b).to_bits());
        assert_eq!(x.product(&y).bits, (a * b).to_bits());
        assert_eq!(x.quotient(&y).bits, (a / b).to_bits());
    }
}

#[test]
fn comparison_agrees_with_the_hardware() {
    let mut values: Vec<f64> = patterns(60).into_iter().map(f64::from_bits).collect();
    values.extend([0.0, -0.0, 1.0, -1.0, f64::INFINITY, f64::NEG_INFINITY, f64::NAN]);
    for &a in &values {
        for &b in &values {
            let (x, y) = (number(a), number(b));
            assert_eq!(x.less_than(&y), a < b, "{} < {}", a, b);
            assert_eq!(x.equals(&y), a == b, "{} == {}", a, b);
        }
        assert_eq!(number(a).negate().bits, (-a).to_bits());
        assert_eq!(number(a).is_zero(), a == 0.0);
        assert_eq!(number(a).is_nan(), a.is_nan());
        assert_eq!(number(a).is_negative(), a.is_sign_negative());
    }
}

#[test]
fn parsing_agrees_with_the_standard_library() {
    let texts = [
        "0", "1", "42", "123.45", "0.1", "3.14159", "1000000000000000000000000",
        "0.000000000000000000000001", "9007199254740993", "179769313486231580793728971405303415079934132710037826936173778980444968292764750946649017977587207096330286416692887910946555547851940402630657488671505820681908902000708383676273854845817711531764475730270069855571366959622842914819860834936475292719074168444365510704342711559699508093042880177904174497791.9",
        "2.2250738585072011", "0.30000000000000004", "00012.5000", "17.", "4.35",
    ];
    for text in texts {
        let want: f64 = text.parse().unwrap();
        assert_eq!(Number::parse(text).map(|n| n.bits), Some(want.to_bits()), "{}", text);
    }
    assert_eq!(Number::parse("1.2.3"), None);
    assert_eq!(Number::parse("."), None);
    assert_eq!(Number::parse(""), None);
}

#[test]
fn parsing_reads_back_what_printing_wrote() {
    for i in 0..2000u32 {
        let x = f64::from(i) / 7.0;
        let printed = text(x);
        assert_eq!(Number::parse(&printed).map(|n| n.bits), Some(x.to_bits()), "{}", printed);
    }
}

#[test]
fn integers_convert_to_the_nearest_number() {
    for n in [0u64, 1, 2, 1_700_000_000, 1 << 53, (1 << 53) + 1, u64::MAX] {
        assert_eq!(Number::from_integer(n).bits, (n as f64).to_bits());
    }
}

#[test]
fn printed_arithmetic() {
    let output = run_string(
        "print 1 + 2; print 0.1 + 0.2; print 7 / 2; print -3 * 1.5; print 10 - 0.5;".to_string(),
    );

    assert_eq!(output, "3\n0.30000000000000004\n3.5\n-4.5\n9.5\n");
}

#[test]
fn dividing_by_zero_differs_from_dividing_by_a_string() {
    assert_eq!(run_string("print 1/0;".to_string()), "[line 1] Cannot divide by zero");
    assert_eq!(
        run_string("print 1/\"x\";".to_string()),
        "[line 1] Both sides of a division must be numbers"
    );
    assert_eq!(run_string("print 1/-0;".to_string()), "[line 1] Cannot divide by zero");
}
