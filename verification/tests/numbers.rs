use qalam::environment::Heap;
use qalam::interpreter::apply_binary;
use qalam::literal::Literal;
use qalam::native::{CeilFn, CodeFn, FloorFn, LenFn, NumFn, RoundFn};
use qalam::num;
use qalam::token::{Token, TokenType};

fn num_arg(x: f64) -> Option<Literal> {
    Some(Literal::Number(x.to_bits()))
}

fn binary(op: TokenType, x: f64, y: f64) -> u64 {
    let tok = Token::dummy();
    match apply_binary(op, &num_arg(x), &num_arg(y), &tok) {
        Ok(Some(Literal::Number(b))) => b,
        _ => panic!("expected a number"),
    }
}

#[test]
fn arithmetic_agrees_with_hardware_floats() {
    let pairs: [(f64, f64); 6] = [
        (1.5, 2.25),
        (0.1, 0.2),
        (-3.75, 10.0),
        (1e300, 1e300),
        (5.0, 0.0),
        (-0.0, 7.5),
    ];
    for (x, y) in pairs {
        assert_eq!(binary(TokenType::Plus, x, y), (x + y).to_bits(), "add {} {}", x, y);
        assert_eq!(binary(TokenType::Minus, x, y), (x - y).to_bits(), "sub {} {}", x, y);
        assert_eq!(binary(TokenType::Star, x, y), (x * y).to_bits(), "mul {} {}", x, y);
        assert_eq!(binary(TokenType::Slash, x, y), (x / y).to_bits(), "div {} {}", x, y);
    }
}

#[test]
fn parsing_agrees_with_hardware_parsing() {
    let tok = Token::dummy();
    for text in ["2.5", "0", "55", "0.1", "12345.6789", "007"] {
        let expected: f64 = text.parse().unwrap();
        let args = vec![Some(Literal::String(text.to_string()))];
        match NumFn::init().call(&args, &tok) {
            Ok(Some(Literal::Number(b))) => {
                assert_eq!(b, expected.to_bits(), "{}", text);
            }
            _ => panic!("expected a number for {}", text),
        }
    }
    let bad = vec![Some(Literal::String("zzz".to_string()))];
    assert!(NumFn::init().call(&bad, &tok).is_err());
}

#[test]
fn integer_conversions_are_exact() {
    let heap = Heap::new();
    let tok = Token::dummy();
    let args = vec![Some(Literal::String("abc".to_string()))];
    match LenFn::init().call(&args, &heap, &tok) {
        Ok(Some(Literal::Number(b))) => assert_eq!(b, 3.0f64.to_bits()),
        _ => panic!("expected a number"),
    }
    let cargs = vec![Some(Literal::String("A".to_string()))];
    match CodeFn::init().call(&cargs, &tok) {
        Ok(Some(Literal::Number(b))) => assert_eq!(b, 65.0f64.to_bits()),
        _ => panic!("expected a number"),
    }
}

#[test]
fn rounding_matches_floor_ceil_round() {
    let tok = Token::dummy();
    for x in [2.5f64, -2.5, 0.4, -0.4, 7.0] {
        let args = vec![num_arg(x)];
        match FloorFn::init().call(&args, &tok) {
            Ok(Some(Literal::Number(b))) => assert_eq!(b, x.floor().to_bits(), "floor {}", x),
            _ => panic!("expected a number"),
        }
        match CeilFn::init().call(&args, &tok) {
            Ok(Some(Literal::Number(b))) => assert_eq!(b, x.ceil().to_bits(), "ceil {}", x),
            _ => panic!("expected a number"),
        }
        match RoundFn::init().call(&args, &tok) {
            Ok(Some(Literal::Number(b))) => assert_eq!(b, x.round().to_bits(), "round {}", x),
            _ => panic!("expected a number"),
        }
    }
}

#[test]
fn display_matches_shortest_decimal() {
    for (x, want) in [
        (55.0f64, "55"),
        (2.5, "2.5"),
        (0.1, "0.1"),
        (-1.0, "-1"),
        (0.0, "0"),
        (100.0, "100"),
        (1024.0, "1024"),
        (0.25, "0.25"),
    ] {
        assert_eq!(num::num_to_display(x.to_bits()), want);
    }
    for x in [1e21f64, 1.5e300, 1e-7, 2.5e-10] {
        assert_eq!(num::num_to_display(x.to_bits()), x.to_string(), "{}", x);
    }
    assert_eq!(num::num_to_display(f64::NAN.to_bits()), "NaN");
    assert_eq!(num::num_to_display(f64::INFINITY.to_bits()), "inf");
    assert_eq!(num::num_to_display(f64::NEG_INFINITY.to_bits()), "-inf");
    assert_eq!(num::num_to_display((-0.0f64).to_bits()), "-0");
}

#[test]
fn equality_and_order_treat_nan_as_one_greatest_value() {
    let nan = f64::NAN.to_bits();
    let one = 1.0f64.to_bits();
    let zero = 0.0f64.to_bits();
    let negzero = (-0.0f64).to_bits();
    assert!(num::num_eq(nan, nan));
    assert!(!num::num_eq(nan, one));
    assert!(num::num_eq(zero, negzero));
    assert!(num::num_eq(one, one));
    assert!(num::num_lt(one, nan));
    assert!(!num::num_lt(nan, one));
    assert!(!num::num_lt(nan, nan));
    assert!(num::num_lt((-2.0f64).to_bits(), one));
    assert!(!num::num_lt(zero, negzero));
    assert!(!num::num_lt(negzero, zero));
    assert!(num::num_le(zero, negzero));
}

#[test]
fn negation_flips_the_sign_bit_only() {
    assert_eq!(num::num_neg(1.5f64.to_bits()), (-1.5f64).to_bits());
    assert_eq!(num::num_neg(0.0f64.to_bits()), (-0.0f64).to_bits());
}
