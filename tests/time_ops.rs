use native_registry::time_basic::{
    before, elapsed_since, now, same_time, subtract, BasicTimePackage, DurationMode, NumericConfig,
    TimeFn, MAX_INT,
};
use native_registry::value::{arg_tags, ExactDuration, NativeError, ScriptError, Timestamp, TypeTag, Value};

const FIXED: NumericConfig = NumericConfig { mode: DurationMode::FixedWidth, checked: true };
const FIXED_UNCHECKED: NumericConfig = NumericConfig { mode: DurationMode::FixedWidth, checked: false };
const FLOATING: NumericConfig = NumericConfig { mode: DurationMode::Floating, checked: true };

fn ts(secs: u64, nanos: u32) -> Timestamp {
    Timestamp { secs, nanos }
}

fn times(a: Timestamp, b: Timestamp) -> Vec<Value> {
    vec![Value::Timestamp(a), Value::Timestamp(b)]
}

fn boolean(r: Result<Value, ScriptError>) -> bool {
    match r {
        Ok(Value::Bool(b)) => b,
        other => panic!("expected a bool, got {:?}", other),
    }
}

#[test]
fn fixed_width_subtraction_counts_whole_seconds() {
    let a = ts(10, 0);
    let b = ts(12, 500_000_000);
    assert!(matches!(subtract(a, b, FIXED), Ok(Value::Int(-2))));
    assert!(matches!(subtract(b, a, FIXED), Ok(Value::Int(2))));
    assert!(matches!(subtract(a, a, FIXED), Ok(Value::Int(0))));
    assert!(matches!(subtract(ts(5, 900_000_000), ts(6, 100_000_000), FIXED), Ok(Value::Int(0))));
}

#[test]
fn floating_subtraction_is_exact() {
    let a = ts(10, 700_000_000);
    let b = ts(12, 500_000_000);
    match subtract(a, b, FLOATING) {
        Ok(Value::Duration(d)) => {
            assert_eq!(d, ExactDuration { negative: true, secs: 1, nanos: 800_000_000 })
        }
        other => panic!("expected a duration, got {:?}", other),
    }
    match subtract(b, a, FLOATING) {
        Ok(Value::Duration(d)) => {
            assert_eq!(d, ExactDuration { negative: false, secs: 1, nanos: 800_000_000 })
        }
        other => panic!("expected a duration, got {:?}", other),
    }
}

#[test]
fn overflow_policy_by_mode() {
    let a = ts(0, 0);
    let b = ts(u64::MAX, 0);
    match subtract(a, b, FIXED) {
        Err(NativeError::Overflow { negative, magnitude }) => {
            assert!(negative);
            assert_eq!(magnitude, u64::MAX);
        }
        other => panic!("expected an overflow, got {:?}", other),
    }
    assert!(matches!(subtract(b, a, FIXED), Err(NativeError::Overflow { negative: false, .. })));
    assert!(matches!(subtract(a, b, FIXED_UNCHECKED), Ok(Value::Int(1))));
    assert!(matches!(subtract(b, a, FIXED_UNCHECKED), Ok(Value::Int(-1))));
    match subtract(a, b, FLOATING) {
        Ok(Value::Duration(d)) => {
            assert_eq!(d, ExactDuration { negative: true, secs: u64::MAX, nanos: 0 })
        }
        other => panic!("expected a duration, got {:?}", other),
    }
    let edge = ts(MAX_INT as u64, 0);
    assert!(matches!(subtract(edge, a, FIXED), Ok(Value::Int(MAX_INT))));
    assert!(matches!(subtract(a, edge, FIXED), Ok(Value::Int(v)) if v == -MAX_INT));
    let over = ts(MAX_INT as u64 + 1, 0);
    assert!(matches!(subtract(over, a, FIXED), Err(NativeError::Overflow { .. })));
}

#[test]
fn overflow_reaches_the_script_as_arithmetic_error() {
    let pkg = BasicTimePackage::new(FIXED);
    match pkg.get().call_fn("-", &times(ts(0, 0), ts(u64::MAX, 1))) {
        Err(ScriptError::ArithmeticOverflow { negative, magnitude }) => {
            assert!(negative);
            assert_eq!(magnitude, u64::MAX);
        }
        other => panic!("expected an arithmetic error, got {:?}", other),
    }
    assert!(matches!(
        BasicTimePackage::new(FLOATING).get().call_fn("-", &times(ts(0, 0), ts(u64::MAX, 1))),
        Ok(Value::Duration(ExactDuration { negative: true, secs: u64::MAX, nanos: 1 }))
    ));
}

#[test]
fn later_compares_greater() {
    let pkg = BasicTimePackage::new(FIXED);
    let lib = pkg.get();
    let early = ts(100, 5);
    let late = ts(100, 6);
    assert!(boolean(lib.call_fn(">", &times(late, early))));
    assert!(boolean(lib.call_fn(">=", &times(late, early))));
    assert!(!boolean(lib.call_fn("<", &times(late, early))));
    assert!(!boolean(lib.call_fn("<=", &times(late, early))));
    assert!(boolean(lib.call_fn("<", &times(early, late))));
    assert!(boolean(lib.call_fn("!=", &times(early, late))));
    assert!(!boolean(lib.call_fn("==", &times(early, late))));
    assert!(boolean(lib.call_fn("==", &times(late, late))));
    assert!(boolean(lib.call_fn(">=", &times(late, late))));
    assert!(before(early, late));
    assert!(!before(late, early));
    assert!(same_time(late, late));
    assert!(!same_time(early, late));
    assert!(matches!(lib.call_fn("-", &times(ts(1, 0), ts(3, 0))), Ok(Value::Int(-2))));
    assert!(boolean(pkg.call_fn(">", &times(late, early))));
}

#[test]
fn elapsed_never_goes_negative() {
    assert!(matches!(elapsed_since(ts(50, 0), ts(40, 0), FIXED), Ok(Value::Int(0))));
    assert!(matches!(elapsed_since(ts(40, 0), ts(50, 1), FIXED), Ok(Value::Int(10))));
    assert!(matches!(
        elapsed_since(ts(40, 0), ts(50, 1), FLOATING),
        Ok(Value::Duration(ExactDuration { negative: false, secs: 10, nanos: 1 }))
    ));
}

#[test]
fn clock_and_elapsed_through_dispatch() {
    let t = now();
    assert!(t.nanos < 1_000_000_000);
    let pkg = BasicTimePackage::new(FLOATING);
    match pkg.get().call_fn("timestamp", &vec![]) {
        Ok(Value::Timestamp(t)) => assert!(t.nanos < 1_000_000_000),
        other => panic!("expected a timestamp, got {:?}", other),
    }
    match pkg.get().call_fn("elapsed", &vec![Value::Timestamp(ts(0, 0))]) {
        Ok(Value::Duration(d)) => assert!(!d.negative && d.secs > 0),
        other => panic!("expected a duration, got {:?}", other),
    }
}

#[test]
fn malformed_timestamps_fail_natively() {
    let pkg = BasicTimePackage::new(FIXED);
    let bad = Timestamp { secs: 1, nanos: 2_000_000_000 };
    assert!(matches!(
        pkg.get().call_fn("<", &times(bad, ts(1, 0))),
        Err(ScriptError::NativeFailure { position: None, .. })
    ));
    assert!(matches!(
        pkg.get().call_fn("<", &vec![Value::Int(1), Value::Int(2)]),
        Err(ScriptError::FunctionNotFound { .. })
    ));
}

#[test]
fn init_keeps_other_bindings() {
    let mut lib = BasicTimePackage::new(FIXED).0;
    lib.register("<", &vec![TypeTag::Int, TypeTag::Int], TimeFn::Lt);
    BasicTimePackage::init(&mut lib, FLOATING);
    assert!(matches!(
        lib.call_fn("-", &times(ts(1, 0), ts(2, 0))),
        Ok(Value::Duration(ExactDuration { negative: true, secs: 1, nanos: 0 }))
    ));
    assert!(matches!(
        lib.call_fn("<", &vec![Value::Int(1), Value::Int(2)]),
        Err(ScriptError::NativeFailure { .. })
    ));
}

#[test]
fn argument_tags_follow_values() {
    let args = vec![Value::Unit, Value::Int(1), Value::Str("s".to_string()), Value::Timestamp(ts(0, 0))];
    assert_eq!(
        arg_tags(&args),
        vec![TypeTag::Unit, TypeTag::Int, TypeTag::Str, TypeTag::Timestamp]
    );
}

#[test]
fn unchecked_fixed_width_wraps() {
    let zero = ts(0, 0);
    let half = ts(1u64 << 63, 0);
    assert!(matches!(subtract(half, zero, FIXED_UNCHECKED), Ok(Value::Int(i64::MIN))));
    assert!(matches!(subtract(zero, half, FIXED_UNCHECKED), Ok(Value::Int(i64::MIN))));
    let past = ts((1u64 << 63) + 5, 0);
    assert!(matches!(subtract(past, zero, FIXED_UNCHECKED), Ok(Value::Int(v)) if v == i64::MIN + 5));
    assert!(matches!(subtract(zero, past, FIXED_UNCHECKED), Ok(Value::Int(v)) if v == i64::MAX - 4));
    assert!(matches!(elapsed_since(zero, past, FIXED_UNCHECKED), Ok(Value::Int(v)) if v == i64::MIN + 5));
    assert!(matches!(
        elapsed_since(zero, past, FIXED),
        Err(NativeError::Overflow { negative: false, magnitude }) if magnitude == (1u64 << 63) + 5
    ));
}

#[test]
fn new_binds_exactly_the_time_operators() {
    let pkg = BasicTimePackage::new(FIXED);
    let other = BasicTimePackage::new(FIXED);
    let pair = times(ts(1, 0), ts(2, 0));
    for op in ["<", "<=", ">", ">=", "==", "!="] {
        assert_eq!(boolean(pkg.call_fn(op, &pair)), boolean(other.call_fn(op, &pair)));
    }
    assert!(matches!(pkg.call_fn("+", &pair), Err(ScriptError::FunctionNotFound { .. })));
    assert!(matches!(
        pkg.call_fn("-", &vec![Value::Timestamp(ts(1, 0))]),
        Err(ScriptError::FunctionNotFound { .. })
    ));
    assert!(matches!(
        pkg.call_fn("<", &vec![Value::Timestamp(ts(1, 0)), Value::Int(1)]),
        Err(ScriptError::FunctionNotFound { .. })
    ));
    assert!(pkg.get_const("anything").is_none());
}
