use std::cmp::Ordering;
use bprog::float::{eq, from_int, lt, nan, neg, truncate, zero, ONE};
use bprog::numeric::{binary_numerical, FloatOp, FloatTask, Numeric, Reckoned};
use bprog::stack_error::StackError;

fn samples() -> Vec<f64> {
    vec![
        0.0,
        -0.0,
        1.0,
        -1.0,
        0.5,
        -0.5,
        1.5,
        2.5,
        -2.5,
        3.999999,
        1e-320,
        -1e-320,
        f64::MIN_POSITIVE,
        f64::MAX,
        f64::MIN,
        f64::INFINITY,
        f64::NEG_INFINITY,
        f64::NAN,
        -f64::NAN,
        9007199254740992.0,
        9007199254740994.0,
        1e19,
        -1e19,
        1e38,
        1.7014118346046923e38,
        -1.7014118346046923e38,
        1.7014118346046921e38,
        3.4e38,
        -3.4e38,
        1e300,
        123456789.125,
        4503599627370496.5,
        f64::from_bits(0x7FF0_0000_0000_0001),
    ]
}

fn integers() -> Vec<i128> {
    let mut out = vec![
        0,
        1,
        -1,
        2,
        3,
        10,
        -10,
        255,
        (1 << 52) - 1,
        1 << 52,
        (1 << 53) - 1,
        1 << 53,
        (1 << 53) + 1,
        (1 << 53) + 2,
        (1 << 53) + 3,
        (1 << 54) + 1,
        (1 << 54) + 2,
        (1 << 54) + 3,
        (1 << 54) + 5,
        (1 << 54) + 6,
        (1 << 54) + 7,
        -((1 << 53) + 1),
        -((1 << 54) + 6),
        (1i128 << 64) - 1,
        1i128 << 64,
        (1i128 << 100) + (1i128 << 47),
        (1i128 << 100) + (1i128 << 47) + 1,
        (1i128 << 100) + (1i128 << 47) - 1,
        (1i128 << 100) + 3 * (1i128 << 47),
        i128::MAX,
        i128::MAX - 1,
        i128::MIN,
        i128::MIN + 1,
        (1i128 << 126) + (1i128 << 73),
        (1i128 << 126) + (1i128 << 73) + 1,
        i128::MAX - (1i128 << 73),
        i128::MAX - (1i128 << 74),
        9007199254740993,
        123456789012345678901234567890,
    ];
    let mut x: i128 = 1;
    for i in 0..126 {
        out.push(x);
        out.push(x + 1);
        out.push(x - 1);
        out.push(-x);
        out.push(x + (x >> 1));
        out.push(x + (x >> 53));
        out.push(x + (x >> 54));
        out.push(x + (x >> 54) + (i as i128));
        x *= 2;
    }
    let mut seed: u128 = 0x9E37_79B9_7F4A_7C15_F39C_C060_5CED_C834;
    for _ in 0..2000 {
        seed = seed.wrapping_mul(0x2545_F491_4F6C_DD1D_0000_0000_0000_0001).wrapping_add(0x1234_5678_9ABC_DEF1);
        seed ^= seed >> 43;
        out.push(seed as i128);
        out.push((seed >> 20) as i128);
        out.push((seed >> 64) as i128);
    }
    out
}

#[test]
fn nearest_double_of_an_integer() {
    for v in integers() {
        assert_eq!(from_int(v), (v as f64).to_bits(), "from_int({})", v);
    }
    assert_eq!(from_int(1), ONE);
    assert_eq!(from_int(5), 5.0f64.to_bits());
    // a tie goes to the even significand
    assert_eq!(from_int((1 << 53) + 1), ((1u64 << 53) as f64).to_bits());
    assert_eq!(from_int((1 << 53) + 3), (((1u64 << 53) + 4) as f64).to_bits());
}

#[test]
fn integer_of_a_float() {
    for f in samples() {
        assert_eq!(truncate(f.to_bits()), f as i128, "truncate({})", f);
    }
    for v in integers() {
        let f = v as f64;
        assert_eq!(truncate(f.to_bits()), f as i128, "truncate({})", f);
        let g = f / 3.0;
        assert_eq!(truncate(g.to_bits()), g as i128, "truncate({})", g);
    }
    assert_eq!(truncate(2.75f64.to_bits()), 2);
    assert_eq!(truncate((-2.75f64).to_bits()), -2);
    assert_eq!(truncate(f64::NAN.to_bits()), 0);
    assert_eq!(truncate(f64::INFINITY.to_bits()), i128::MAX);
    assert_eq!(truncate(f64::NEG_INFINITY.to_bits()), i128::MIN);
}

#[test]
fn order_and_equality_of_floats() {
    for a in samples() {
        assert_eq!(nan(a.to_bits()), a.is_nan());
        assert_eq!(zero(a.to_bits()), a == 0.0);
        assert_eq!(neg(a.to_bits()), (-a).to_bits());
        for b in samples() {
            assert_eq!(lt(a.to_bits(), b.to_bits()), a < b, "{} < {}", a, b);
            assert_eq!(eq(a.to_bits(), b.to_bits()), a == b, "{} == {}", a, b);
        }
    }
}

#[test]
fn numbers_compare_as_their_doubles() {
    let five = Numeric::Integer(5);
    let five_float = Numeric::Float(5.0f64.to_bits());
    assert!(five.equals(&five_float));
    assert!(five_float.equals(&five));
    assert!(!five.lt(&five_float));
    assert!(five.le(&five_float));
    assert!(five.ge(&five_float));
    assert!(Numeric::Integer(4).lt(&five_float));
    assert!(five_float.gt(&Numeric::Integer(4)));
    // beyond 53 bits two integers can have one double
    let big = Numeric::Integer((1 << 53) + 1);
    assert!(big.equals(&Numeric::Float(((1u64 << 53) as f64).to_bits())));
    assert!(!big.equals(&Numeric::Integer(1 << 53)));
    assert!(!Numeric::Integer(1 << 53).lt(&big));
    let nan = Numeric::Float(f64::NAN.to_bits());
    assert!(!nan.equals(&nan));
    assert!(!nan.lt(&five) && !five.lt(&nan));
    let overflow = Numeric::NumError(StackError::Overflow);
    assert!(overflow.equals(&Numeric::NumError(StackError::Overflow)));
    assert!(!overflow.equals(&Numeric::NumError(StackError::ZeroDiv)));
    assert!(!overflow.equals(&five));
    assert!(!overflow.lt(&five));
}

#[test]
fn conversions_of_numbers() {
    assert_eq!(Numeric::Integer(3).as_float(), Numeric::Float(3.0f64.to_bits()));
    assert_eq!(Numeric::Float(3.9f64.to_bits()).as_integer(), Numeric::Integer(3));
    assert_eq!(Numeric::Float(3.9f64.to_bits()).as_float(), Numeric::Float(3.9f64.to_bits()));
    assert_eq!(Numeric::Integer(3).as_integer(), Numeric::Integer(3));
    assert_eq!(Numeric::Integer(3).neg(), Numeric::Integer(-3));
    assert_eq!(Numeric::Integer(i128::MIN).neg(), Numeric::NumError(StackError::Overflow));
    assert!(Numeric::Integer(3).is_true());
    assert!(!Numeric::Integer(0).is_true());
    assert!(!Numeric::Float((-0.0f64).to_bits()).is_true());
    assert!(Numeric::Float(f64::NAN.to_bits()).is_true());
    assert!(!Numeric::NumError(StackError::Overflow).is_true());
}

#[test]
fn arithmetic_of_numbers() {
    let a = Numeric::Integer(7);
    let b = Numeric::Integer(-2);
    assert_eq!(a.add(&b), Reckoned::Done(Numeric::Integer(5)));
    assert_eq!(b.add(&a), Reckoned::Done(Numeric::Integer(5)));
    assert_eq!(a.sub(&b), Reckoned::Done(Numeric::Integer(9)));
    assert_eq!(a.mul(&b), Reckoned::Done(Numeric::Integer(-14)));
    assert_eq!(a.div(&b), Reckoned::Done(Numeric::Integer(-3)));
    assert_eq!(b.div(&a), Reckoned::Done(Numeric::Integer(0)));
    assert_eq!(
        a.div(&Numeric::Integer(0)),
        Reckoned::Done(Numeric::NumError(StackError::ZeroDiv))
    );
    assert_eq!(
        Numeric::Integer(i128::MAX).mul(&Numeric::Integer(2)),
        Reckoned::Done(Numeric::NumError(StackError::Overflow))
    );
    let half = Numeric::Float(0.5f64.to_bits());
    assert_eq!(
        a.add(&half),
        Reckoned::Ask(FloatTask { op: FloatOp::Add, left: 7.0f64.to_bits(), right: 0.5f64.to_bits() })
    );
    assert_eq!(
        half.add(&a),
        Reckoned::Ask(FloatTask { op: FloatOp::Add, left: 0.5f64.to_bits(), right: 7.0f64.to_bits() })
    );
    assert_eq!(
        half.div(&Numeric::Float((-0.0f64).to_bits())),
        Reckoned::Done(Numeric::NumError(StackError::ZeroDiv))
    );
    assert_eq!(
        binary_numerical(&Numeric::NumError(StackError::ZeroDiv), &half, FloatOp::Mul),
        Reckoned::Done(Numeric::NumError(StackError::ZeroDiv))
    );
    assert_eq!(
        binary_numerical(&a, &Numeric::NumError(StackError::Overflow), FloatOp::Mul),
        Reckoned::Done(Numeric::NumError(StackError::Overflow))
    );
}

#[test]
fn numbers_stand_below_equal_or_above() {
    let five = Numeric::Integer(5);
    let half = Numeric::Float(0.5f64.to_bits());
    assert_eq!(five.partial_cmp(&half), Some(Ordering::Greater));
    assert_eq!(half.partial_cmp(&five), Some(Ordering::Less));
    assert_eq!(five.partial_cmp(&Numeric::Float(5.0f64.to_bits())), Some(Ordering::Equal));
    assert_eq!(five.partial_cmp(&Numeric::Float(f64::NAN.to_bits())), None);
    assert_eq!(five.partial_cmp(&Numeric::NumError(StackError::ZeroDiv)), None);
    for a in samples() {
        for b in samples() {
            assert_eq!(
                Numeric::Float(a.to_bits()).partial_cmp(&Numeric::Float(b.to_bits())),
                a.partial_cmp(&b)
            );
        }
    }
}
