use bytecode_vm::arith::{ArithOp, FloatRequest, Outcome};
use bytecode_vm::compare::Relation;
use bytecode_vm::single;
use bytecode_vm::{CompareOps, Value, VmError};

fn text(s: &str) -> Value {
    Value::Str(String::from(s))
}

fn float(x: f32) -> Value {
    Value::Float(x.to_bits())
}

fn ready_int(r: Result<Outcome, VmError>) -> i32 {
    match r {
        Ok(Outcome::Ready(Value::Int(i))) => i,
        other => panic!("expected an integer, got {:?}", other),
    }
}

fn ready_text(r: Result<Outcome, VmError>) -> String {
    match r {
        Ok(Outcome::Ready(Value::Str(s))) => s,
        other => panic!("expected a string, got {:?}", other),
    }
}

fn request(r: Result<Outcome, VmError>) -> FloatRequest {
    match r {
        Ok(Outcome::Deferred(request)) => request,
        other => panic!("expected a request, got {:?}", other),
    }
}

fn mismatch(r: Result<Outcome, VmError>) -> bool {
    matches!(r, Err(VmError::TypeMismatch))
}

#[test]
fn integers_add_subtract_and_multiply_to_integers() {
    assert_eq!(ready_int(Value::Int(5).add(&Value::Int(3))), 8);
    assert_eq!(ready_int(Value::Int(5).sub(&Value::Int(3))), 2);
    assert_eq!(ready_int(Value::Int(5).mul(&Value::Int(3))), 15);
    assert_eq!(ready_int(Value::Int(-7).sub(&Value::Int(2))), -9);
}

#[test]
fn integer_arithmetic_wraps_around() {
    assert_eq!(ready_int(Value::Int(i32::MAX).add(&Value::Int(1))), i32::MIN);
    assert_eq!(ready_int(Value::Int(i32::MIN).sub(&Value::Int(1))), i32::MAX);
    assert_eq!(ready_int(Value::Int(65536).mul(&Value::Int(65536))), 0);
}

#[test]
fn truth_values_widen_to_zero_and_one() {
    assert_eq!(ready_int(Value::Bool(true).add(&Value::Bool(true))), 2);
    assert_eq!(ready_int(Value::Bool(true).sub(&Value::Bool(false))), 1);
    assert_eq!(ready_int(Value::Bool(false).sub(&Value::Bool(true))), -1);
    assert_eq!(ready_int(Value::Bool(true).mul(&Value::Bool(false))), 0);
    assert_eq!(ready_int(Value::Bool(true).add(&Value::Int(41))), 42);
    assert_eq!(ready_int(Value::Int(41).add(&Value::Bool(true))), 42);
    assert_eq!(ready_int(Value::Bool(true).mul(&Value::Int(7))), 7);
}

#[test]
fn a_mixed_pair_keeps_its_operands_in_order() {
    assert_eq!(ready_int(Value::Bool(true).sub(&Value::Int(5))), -4);
    assert_eq!(ready_int(Value::Int(5).sub(&Value::Bool(true))), 4);
    assert_eq!(
        request(Value::Int(5).sub(&float(2.0))),
        FloatRequest { op: ArithOp::Sub, lhs: 5.0f32.to_bits(), rhs: 2.0f32.to_bits() }
    );
    assert_eq!(
        request(float(2.0).sub(&Value::Int(5))),
        FloatRequest { op: ArithOp::Sub, lhs: 2.0f32.to_bits(), rhs: 5.0f32.to_bits() }
    );
    assert_eq!(
        request(Value::Bool(true).div(&float(4.0))),
        FloatRequest { op: ArithOp::Div, lhs: 1.0f32.to_bits(), rhs: 4.0f32.to_bits() }
    );
}

#[test]
fn division_is_always_deferred() {
    assert_eq!(
        request(Value::Int(7).div(&Value::Int(2))),
        FloatRequest { op: ArithOp::Div, lhs: 7.0f32.to_bits(), rhs: 2.0f32.to_bits() }
    );
    assert_eq!(
        request(Value::Bool(true).div(&Value::Bool(false))),
        FloatRequest { op: ArithOp::Div, lhs: 1.0f32.to_bits(), rhs: 0.0f32.to_bits() }
    );
    assert_eq!(
        request(float(1.5).div(&float(0.5))),
        FloatRequest { op: ArithOp::Div, lhs: 1.5f32.to_bits(), rhs: 0.5f32.to_bits() }
    );
    assert_eq!(
        request(Value::Int(4).div(&Value::Bool(true))),
        FloatRequest { op: ArithOp::Div, lhs: 4.0f32.to_bits(), rhs: 1.0f32.to_bits() }
    );
}

#[test]
fn single_precision_operands_defer_every_operator() {
    assert_eq!(
        request(float(1.5).add(&float(2.25))),
        FloatRequest { op: ArithOp::Add, lhs: 1.5f32.to_bits(), rhs: 2.25f32.to_bits() }
    );
    assert_eq!(
        request(float(1.5).mul(&Value::Int(3))),
        FloatRequest { op: ArithOp::Mul, lhs: 1.5f32.to_bits(), rhs: 3.0f32.to_bits() }
    );
    assert_eq!(
        request(float(1.5).add(&Value::Bool(true))),
        FloatRequest { op: ArithOp::Add, lhs: 1.5f32.to_bits(), rhs: 1.0f32.to_bits() }
    );
    assert_eq!(
        request(float(1.5).arith(ArithOp::Sub, &float(0.5))),
        FloatRequest { op: ArithOp::Sub, lhs: 1.5f32.to_bits(), rhs: 0.5f32.to_bits() }
    );
}

#[test]
fn deferred_tells_a_request_without_computing() {
    assert_eq!(Value::Int(1).deferred(ArithOp::Add, &Value::Int(2)), None);
    assert_eq!(
        Value::Int(1).deferred(ArithOp::Div, &Value::Int(2)),
        Some(FloatRequest { op: ArithOp::Div, lhs: 1.0f32.to_bits(), rhs: 2.0f32.to_bits() })
    );
    assert_eq!(text("a").deferred(ArithOp::Add, &text("b")), None);
    assert_eq!(text("a").deferred(ArithOp::Div, &Value::Int(2)), None);
}

#[test]
fn unsupported_pairs_are_type_mismatches() {
    assert!(mismatch(text("a").sub(&text("b"))));
    assert!(mismatch(text("a").div(&text("b"))));
    assert!(mismatch(text("a").mul(&text("b"))));
    assert!(mismatch(text("a").add(&Value::Int(1))));
    assert!(mismatch(Value::Int(1).add(&text("a"))));
    assert!(mismatch(text("a").mul(&Value::Bool(true))));
    assert!(mismatch(text("a").mul(&float(2.0))));
    assert!(mismatch(Value::Unit.add(&Value::Int(1))));
    assert!(mismatch(Value::Int(1).mul(&Value::Unit)));
    assert!(mismatch(Value::Unit.div(&Value::Unit)));
}

#[test]
fn strings_are_joined_by_addition() {
    assert_eq!(ready_text(text("foo").add(&text("bar"))), "foobar");
    assert_eq!(ready_text(text("").add(&text(""))), "");
}

#[test]
fn repetition_by_zero_or_one_gives_one_copy() {
    assert_eq!(ready_text(text("ab").mul(&Value::Int(0))), "ab");
    assert_eq!(ready_text(text("ab").mul(&Value::Int(1))), "ab");
    assert_eq!(ready_text(Value::Int(0).mul(&text("ab"))), "ab");
    assert_eq!(ready_text(Value::Int(1).mul(&text("ab"))), "ab");
}

#[test]
fn repetition_by_more_gives_that_many_copies() {
    assert_eq!(ready_text(text("ab").mul(&Value::Int(2))), "abab");
    assert_eq!(ready_text(text("ab").mul(&Value::Int(3))), "ababab");
    assert_eq!(ready_text(Value::Int(4).mul(&text("x"))), "xxxx");
}

#[test]
fn repetition_by_a_negative_count_is_refused() {
    assert!(mismatch(text("ab").mul(&Value::Int(-1))));
    assert!(mismatch(Value::Int(i32::MIN).mul(&text("ab"))));
}

#[test]
fn a_truth_value_compares_as_zero_or_one() {
    assert_eq!(Value::Bool(true).compare(CompareOps::LessThan, &Value::Int(2)), Ok(true));
    assert_eq!(Value::Bool(true).compare(CompareOps::Equal, &Value::Int(1)), Ok(true));
    assert_eq!(Value::Bool(false).compare(CompareOps::Equal, &Value::Int(0)), Ok(true));
    assert_eq!(Value::Bool(false).compare(CompareOps::LessThan, &Value::Bool(true)), Ok(true));
    assert_eq!(Value::Bool(true).compare(CompareOps::GreaterThan, &Value::Bool(true)), Ok(false));
}

#[test]
fn integers_compare_in_all_six_ways() {
    let two = Value::Int(2);
    let three = Value::Int(3);
    assert_eq!(two.compare(CompareOps::LessThan, &three), Ok(true));
    assert_eq!(two.compare(CompareOps::LessThanOrEqual, &three), Ok(true));
    assert_eq!(two.compare(CompareOps::Equal, &three), Ok(false));
    assert_eq!(two.compare(CompareOps::NotEqual, &three), Ok(true));
    assert_eq!(two.compare(CompareOps::GreaterThan, &three), Ok(false));
    assert_eq!(two.compare(CompareOps::GreaterThanOrEqual, &three), Ok(false));
    assert_eq!(two.compare(CompareOps::GreaterThanOrEqual, &two), Ok(true));
    assert_eq!(two.compare(CompareOps::LessThanOrEqual, &two), Ok(true));
}

#[test]
fn a_mixed_pair_compares_with_its_operands_in_order() {
    assert_eq!(Value::Int(2).relation(&Value::Bool(true)), Ok(Relation::Greater));
    assert_eq!(Value::Bool(true).relation(&Value::Int(2)), Ok(Relation::Less));
    assert_eq!(Value::Int(1).relation(&float(2.0)), Ok(Relation::Less));
    assert_eq!(float(2.0).relation(&Value::Int(1)), Ok(Relation::Greater));
    assert_eq!(float(0.5).relation(&Value::Bool(true)), Ok(Relation::Less));
    assert_eq!(Value::Bool(true).relation(&float(0.5)), Ok(Relation::Greater));
    assert_eq!(Value::Int(2).compare(CompareOps::GreaterThan, &Value::Bool(true)), Ok(true));
    assert_eq!(Value::Int(3).compare(CompareOps::Equal, &float(3.0)), Ok(true));
}

#[test]
fn single_precision_numbers_compare_by_value() {
    assert_eq!(float(1.5).relation(&float(2.5)), Ok(Relation::Less));
    assert_eq!(float(-1.5).relation(&float(-2.5)), Ok(Relation::Greater));
    assert_eq!(float(0.0).relation(&float(-0.0)), Ok(Relation::Equal));
    assert_eq!(float(f32::NAN).relation(&float(1.0)), Ok(Relation::Unordered));
    assert_eq!(float(f32::NAN).compare(CompareOps::NotEqual, &float(f32::NAN)), Ok(true));
    assert_eq!(float(f32::NAN).compare(CompareOps::Equal, &float(f32::NAN)), Ok(false));
    assert_eq!(float(f32::NAN).compare(CompareOps::LessThanOrEqual, &float(1.0)), Ok(false));
    assert_eq!(float(f32::INFINITY).relation(&float(f32::MAX)), Ok(Relation::Greater));
    assert_eq!(float(16777216.0).relation(&Value::Int(16777217)), Ok(Relation::Equal));
}

#[test]
fn strings_compare_in_dictionary_order() {
    assert_eq!(text("abc").relation(&text("abd")), Ok(Relation::Less));
    assert_eq!(text("abc").relation(&text("ab")), Ok(Relation::Greater));
    assert_eq!(text("").relation(&text("")), Ok(Relation::Equal));
    assert_eq!(text("").relation(&text("a")), Ok(Relation::Less));
    assert_eq!(text("Z").relation(&text("a")), Ok(Relation::Less));
    assert_eq!(text("same").compare(CompareOps::Equal, &text("same")), Ok(true));
    assert_eq!(text("same").compare(CompareOps::NotEqual, &text("same")), Ok(false));
    assert_eq!(text("\u{e9}").relation(&text("z")), Ok(Relation::Greater));
}

#[test]
fn values_of_other_kinds_cannot_be_compared() {
    assert_eq!(text("1").relation(&Value::Int(1)), Err(VmError::TypeMismatch));
    assert_eq!(Value::Unit.relation(&Value::Unit), Err(VmError::TypeMismatch));
    assert_eq!(Value::Int(1).compare(CompareOps::Equal, &Value::Unit), Err(VmError::TypeMismatch));
    assert_eq!(text("a").compare(CompareOps::LessThan, &float(1.0)), Err(VmError::TypeMismatch));
}

#[test]
fn comparison_codes_decode_in_order() {
    assert_eq!(CompareOps::from(0), Ok(CompareOps::LessThan));
    assert_eq!(CompareOps::from(1), Ok(CompareOps::LessThanOrEqual));
    assert_eq!(CompareOps::from(2), Ok(CompareOps::Equal));
    assert_eq!(CompareOps::from(3), Ok(CompareOps::NotEqual));
    assert_eq!(CompareOps::from(4), Ok(CompareOps::GreaterThan));
    assert_eq!(CompareOps::from(5), Ok(CompareOps::GreaterThanOrEqual));
    assert_eq!(CompareOps::from(6), Err(VmError::InvalidOperand));
    assert_eq!(CompareOps::from(usize::MAX), Err(VmError::InvalidOperand));
}

#[test]
fn from_int_agrees_with_the_hardware_conversion() {
    let samples: [i32; 30] = [
        0, 1, -1, 2, 3, 7, -7, 10, 255, 256, 65535, 8388607, 8388608, 16777215, 16777216, 16777217,
        16777218, 16777219, -16777217, 33554431, 33554433, 33554435, 123456789, -123456789,
        2147483520, 2147483583, 2147483584, 2147483647, -2147483647, -2147483648,
    ];
    for x in samples {
        assert_eq!(single::from_int(x), (x as f32).to_bits(), "at {}", x);
    }
    let mut x: i32 = 1;
    for _ in 0..200000 {
        x = x.wrapping_mul(1103515245).wrapping_add(12345);
        assert_eq!(single::from_int(x), (x as f32).to_bits(), "at {}", x);
    }
}

#[test]
fn truncate_agrees_with_the_hardware_conversion() {
    let samples: [f32; 24] = [
        0.0, -0.0, 0.5, -0.5, 0.99, 1.0, -1.0, 1.5, -1.5, -3.5, 3.5, 8388608.5, 16777216.0, 1e9,
        -1e9, 2147483520.0, 2147483648.0, -2147483648.0, -2147483904.0, 1e30, -1e30,
        f32::INFINITY, f32::NEG_INFINITY, f32::NAN,
    ];
    for x in samples {
        assert_eq!(single::truncate(x.to_bits()), x as i32, "at {}", x);
    }
    let mut bits: u32 = 1;
    for _ in 0..200000 {
        bits = bits.wrapping_mul(1664525).wrapping_add(1013904223);
        assert_eq!(single::truncate(bits), f32::from_bits(bits) as i32, "at {:#x}", bits);
    }
}

#[test]
fn truncation_goes_toward_zero() {
    assert_eq!(single::truncate((-3.5f32).to_bits()), -3);
    assert_eq!(single::truncate((3.5f32).to_bits()), 3);
    assert_eq!(single::truncate((-0.75f32).to_bits()), 0);
    assert_eq!(single::truncate((-7.0f32 / 2.0f32).to_bits()), -3);
}

#[test]
fn order_of_patterns_agrees_with_the_hardware_order() {
    let mut a: u32 = 7;
    let mut b: u32 = 11;
    for _ in 0..200000 {
        a = a.wrapping_mul(1664525).wrapping_add(1013904223);
        b = b.wrapping_mul(22695477).wrapping_add(1);
        let x = f32::from_bits(a);
        let y = f32::from_bits(b);
        assert_eq!(single::less(a, b), x < y);
        assert_eq!(single::equal(a, b), x == y);
        assert_eq!(single::not_a_number(a), x.is_nan());
    }
    assert!(single::equal(0, 0x8000_0000));
    assert!(!single::less(0x8000_0000, 0));
    assert!(!single::equal(0x7fc0_0000, 0x7fc0_0000));
}

#[test]
fn bit_lengths_and_powers() {
    assert_eq!(single::length_of(0), 0);
    assert_eq!(single::length_of(1), 1);
    assert_eq!(single::length_of(255), 8);
    assert_eq!(single::length_of(256), 9);
    assert_eq!(single::length_of(u32::MAX), 32);
    assert_eq!(single::power_of_two(0), 1);
    assert_eq!(single::power_of_two(10), 1024);
    assert_eq!(single::power_of_two(31), 0x8000_0000);
    assert_eq!(single::key_of(0x8000_0001), -1);
    assert_eq!(single::key_of(0x0000_0001), 1);
}

#[test]
fn text_of_values() {
    assert_eq!(Value::Int(8).text(), Some(String::from("8")));
    assert_eq!(Value::Int(0).text(), Some(String::from("0")));
    assert_eq!(Value::Int(-45).text(), Some(String::from("-45")));
    assert_eq!(Value::Int(1000).text(), Some(String::from("1000")));
    assert_eq!(Value::Int(i32::MAX).text(), Some(String::from("2147483647")));
    assert_eq!(Value::Int(i32::MIN).text(), Some(String::from("-2147483648")));
    assert_eq!(Value::Bool(true).text(), Some(String::from("true")));
    assert_eq!(Value::Bool(false).text(), Some(String::from("false")));
    assert_eq!(text("hello world").text(), Some(String::from("hello world")));
    assert_eq!(Value::Unit.text(), Some(String::from("None")));
    assert_eq!(float(1.5).text(), None);
}

#[test]
fn text_of_integers_agrees_with_the_standard_rendering() {
    let mut x: i32 = 1;
    for _ in 0..20000 {
        x = x.wrapping_mul(1103515245).wrapping_add(12345);
        assert_eq!(Value::Int(x).text(), Some(format!("{}", x)));
    }
}

#[test]
fn exit_codes_are_distinct_and_not_zero() {
    let all = [
        VmError::StackUnderflow,
        VmError::NameError,
        VmError::TypeMismatch,
        VmError::ArityMismatch,
        VmError::InvalidOperand,
        VmError::DepthOverflow,
    ];
    for (i, a) in all.iter().enumerate() {
        assert_ne!(a.exit_code(), 0);
        for b in all.iter().skip(i + 1) {
            assert_ne!(a.exit_code(), b.exit_code());
        }
    }
}

#[test]
fn numbers_are_told_from_other_values() {
    assert!(Value::Int(1).is_number());
    assert!(Value::Bool(false).is_number());
    assert!(float(1.0).is_number());
    assert!(!text("1").is_number());
    assert!(!Value::Unit.is_number());
}

#[test]
fn every_failure_has_a_sentence_of_its_own() {
    let all = [
        VmError::StackUnderflow,
        VmError::NameError,
        VmError::TypeMismatch,
        VmError::ArityMismatch,
        VmError::InvalidOperand,
        VmError::DepthOverflow,
    ];
    for (i, a) in all.iter().enumerate() {
        assert!(!a.message().is_empty());
        for b in all.iter().skip(i + 1) {
            assert_ne!(a.message(), b.message());
        }
    }
    assert_eq!(VmError::NameError.message(), "name error: the name is not bound");
    assert_eq!(VmError::StackUnderflow.exit_code(), 2);
    assert_eq!(VmError::DepthOverflow.exit_code(), 7);
}
