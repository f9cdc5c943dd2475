use native_registry::registry::{Decl, Module, NativeFn};
use native_registry::resolver::StaticModuleResolver;
use native_registry::time_basic::{BasicTimePackage, DurationMode, NumericConfig, TimeFn, TimeNative};
use native_registry::value::Timestamp;
use native_registry::value::{NativeError, ScriptError, TypeTag, Value};

#[derive(Clone, Copy, Debug, PartialEq)]
enum PluginFn {
    Hash,
    ArrayLenTimes,
    FunkyAdd,
    IntAdd,
    First,
    Greet,
    Time(TimeFn),
}

impl TimeNative for PluginFn {
    fn from_time(t: TimeFn) -> Self {
        PluginFn::Time(t)
    }
}

fn copy_value(v: &Value) -> Value {
    match v {
        Value::Unit => Value::Unit,
        Value::Int(i) => Value::Int(*i),
        Value::Bool(b) => Value::Bool(*b),
        Value::Char(c) => Value::Char(*c),
        Value::Str(s) => Value::Str(s.clone()),
        Value::Array(a) => Value::Array(a.iter().map(copy_value).collect()),
        Value::Timestamp(t) => Value::Timestamp(*t),
        Value::Duration(d) => Value::Duration(*d),
    }
}

impl NativeFn for PluginFn {
    fn call(&self, args: &Vec<Value>) -> Result<Value, NativeError> {
        match (self, args.as_slice()) {
            (PluginFn::Hash, [_]) => Ok(Value::Int(42)),
            (PluginFn::ArrayLenTimes, [Value::Array(a), Value::Int(m)]) => {
                Ok(Value::Int(a.len() as i64 * m))
            }
            (PluginFn::FunkyAdd, [Value::Int(x), Value::Int(y)]) => Ok(Value::Int(x / 2 + y * 2)),
            (PluginFn::IntAdd, [Value::Int(x), Value::Int(y)]) => match x.checked_add(*y) {
                Some(v) => Ok(Value::Int(v)),
                None => Err(NativeError::Failure("addition overflow".to_string())),
            },
            (PluginFn::First, [Value::Array(a)]) => match a.first() {
                Some(v) => Ok(copy_value(v)),
                None => Err(NativeError::Failure("empty array".to_string())),
            },
            (PluginFn::Greet, [Value::Int(n)]) => Ok(Value::Str(format!("{} kitties", n))),
            (PluginFn::Greet, [Value::Bool(b)]) => Ok(Value::Str(format!("{} kitties", b))),
            (PluginFn::Greet, [Value::Char(c)]) => Ok(Value::Str(format!("{} kitties", c))),
            (PluginFn::Time(t), _) => t.call(args),
            _ => Err(NativeError::Failure("bad arguments".to_string())),
        }
    }
}

fn special_array_package() -> Vec<Decl<PluginFn>> {
    vec![
        Decl::Constant { name: "MYSTIC_NUMBER".to_string(), value: Value::Int(42) },
        Decl::Getter { prop: "foo".to_string(), receiver: TypeTag::Array, func: PluginFn::First },
        Decl::Function { names: vec!["hash".to_string()], sig: vec![TypeTag::Str], func: PluginFn::Hash },
        Decl::Function { names: vec!["hash2".to_string()], sig: vec![TypeTag::Str], func: PluginFn::Hash },
        Decl::Function {
            names: vec!["test".to_string(), "hi".to_string()],
            sig: vec![TypeTag::Array, TypeTag::Int],
            func: PluginFn::ArrayLenTimes,
        },
        Decl::Function {
            names: vec!["+".to_string()],
            sig: vec![TypeTag::Int, TypeTag::Int],
            func: PluginFn::FunkyAdd,
        },
    ]
}

fn array123() -> Value {
    Value::Array(vec![Value::Int(1), Value::Int(2), Value::Int(3)])
}

fn int_of(r: Result<Value, ScriptError>) -> i64 {
    match r {
        Ok(Value::Int(i)) => i,
        other => panic!("expected an integer, got {:?}", other),
    }
}

fn engine() -> Module<PluginFn> {
    let mut lib = Module::new();
    lib.register("+", &vec![TypeTag::Int, TypeTag::Int], PluginFn::IntAdd);
    lib.combine(Module::build(special_array_package()));
    for tag in [TypeTag::Int, TypeTag::Bool, TypeTag::Char] {
        lib.register("greet", &vec![tag], PluginFn::Greet);
    }
    lib
}

#[test]
fn test_plugins_package() {
    let lib = engine();

    assert_eq!(int_of(lib.get_property("foo", array123())), 1);
    assert_eq!(int_of(lib.call_fn("hash", &vec![Value::Str("hello".to_string())])), 42);
    assert_eq!(int_of(lib.call_fn("hash2", &vec![Value::Str("hello".to_string())])), 42);
    assert_eq!(int_of(lib.call_fn("test", &vec![array123(), Value::Int(2)])), 6);
    assert_eq!(int_of(lib.call_fn("hi", &vec![array123(), Value::Int(2)])), 6);
    assert_eq!(int_of(lib.call_fn("test", &vec![array123(), Value::Int(2)])), 6);
    assert_eq!(int_of(lib.call_fn("+", &vec![Value::Int(2), Value::Int(2)])), 5);

    let inner = lib.call_fn("test", &vec![array123(), Value::Int(2)]).unwrap();
    match lib.call_fn("greet", &vec![inner]) {
        Ok(Value::Str(s)) => assert_eq!(s, "6 kitties"),
        other => panic!("expected a string, got {:?}", other),
    }

    let mut resolver = StaticModuleResolver::new();
    resolver.insert("test", Module::build(special_array_package()));
    assert!(matches!(resolver.import_const("test", "MYSTIC_NUMBER"), Ok(Value::Int(42))));
}

#[test]
fn unregistered_key_is_function_not_found() {
    let lib = engine();
    match lib.call_fn("test", &vec![array123(), Value::Bool(true)]) {
        Err(ScriptError::FunctionNotFound { name, tags }) => {
            assert_eq!(name, "test");
            assert_eq!(tags, vec![TypeTag::Array, TypeTag::Bool]);
        }
        other => panic!("expected FunctionNotFound, got {:?}", other),
    }
    assert!(matches!(
        lib.call_fn("nothing", &vec![]),
        Err(ScriptError::FunctionNotFound { .. })
    ));
}

#[test]
fn default_add_before_override() {
    let mut lib: Module<PluginFn> = Module::new();
    lib.register("+", &vec![TypeTag::Int, TypeTag::Int], PluginFn::IntAdd);
    assert_eq!(int_of(lib.call_fn("+", &vec![Value::Int(2), Value::Int(2)])), 4);
    lib.register("+", &vec![TypeTag::Int, TypeTag::Int], PluginFn::FunkyAdd);
    assert_eq!(int_of(lib.call_fn("+", &vec![Value::Int(2), Value::Int(2)])), 5);
    assert_eq!(int_of(lib.call_fn("+", &vec![Value::Int(10), Value::Int(1)])), 7);
    lib.register("greet", &vec![TypeTag::Int], PluginFn::Greet);
    assert_eq!(int_of(lib.call_fn("+", &vec![Value::Int(2), Value::Int(2)])), 5);
}

#[test]
fn native_failure_has_unknown_position() {
    let lib = engine();
    match lib.get_property("foo", Value::Array(vec![])) {
        Err(ScriptError::NativeFailure { message, position }) => {
            assert_eq!(message, "empty array");
            assert_eq!(position, None);
        }
        other => panic!("expected NativeFailure, got {:?}", other),
    }
    assert!(matches!(
        lib.get_property("bar", array123()),
        Err(ScriptError::FunctionNotFound { .. })
    ));
}

#[test]
fn building_twice_binds_the_same() {
    let a = Module::build(special_array_package());
    let b = Module::build(special_array_package());
    for name in ["hash", "hash2"] {
        let args = vec![Value::Str("x".to_string())];
        assert_eq!(int_of(a.call_fn(name, &args)), int_of(b.call_fn(name, &args)));
    }
    assert_eq!(int_of(a.call_fn("+", &vec![Value::Int(6), Value::Int(1)])), 5);
    assert_eq!(int_of(b.call_fn("+", &vec![Value::Int(6), Value::Int(1)])), 5);
    assert!(matches!(a.get_const("MYSTIC_NUMBER"), Some(Value::Int(42))));
    assert!(matches!(b.get_const("MYSTIC_NUMBER"), Some(Value::Int(42))));
    assert!(a.get_const("OTHER").is_none());
}

#[test]
fn resolver_paths_are_exact() {
    let mut resolver = StaticModuleResolver::new();
    resolver.insert("test", Module::build(special_array_package()));
    assert!(matches!(resolver.import_const("test", "MYSTIC_NUMBER"), Ok(Value::Int(42))));
    assert!(matches!(resolver.import_const("test", "MYSTIC_NUMBER"), Ok(Value::Int(42))));
    assert!(resolver.resolve("test").is_ok());
    match resolver.resolve("test/") {
        Err(ScriptError::ModuleNotFound(p)) => assert_eq!(p, "test/"),
        _ => panic!("expected ModuleNotFound"),
    }
    match resolver.import_const("test", "NOPE") {
        Err(ScriptError::VariableNotFound(n)) => assert_eq!(n, "NOPE"),
        other => panic!("expected VariableNotFound, got {:?}", other),
    }
    assert!(matches!(
        resolver.import_const("other", "MYSTIC_NUMBER"),
        Err(ScriptError::ModuleNotFound(_))
    ));
}

#[test]
fn combine_prefers_the_later_module() {
    let mut lib: Module<PluginFn> = Module::new();
    lib.set_const("MYSTIC_NUMBER", Value::Int(7));
    lib.set_const("KEEP", Value::Int(1));
    lib.combine(Module::build(special_array_package()));
    assert!(matches!(lib.get_const("MYSTIC_NUMBER"), Some(Value::Int(42))));
    assert!(matches!(lib.get_const("KEEP"), Some(Value::Int(1))));
}

#[test]
fn time_package_joins_a_mixed_library() {
    let mut lib = engine();
    lib.set_const("KEEP", Value::Int(3));
    let cfg = NumericConfig { mode: DurationMode::FixedWidth, checked: true };
    BasicTimePackage::init(&mut lib, cfg);

    assert_eq!(int_of(lib.get_property("foo", array123())), 1);
    assert_eq!(int_of(lib.call_fn("test", &vec![array123(), Value::Int(2)])), 6);
    assert_eq!(int_of(lib.call_fn("hi", &vec![array123(), Value::Int(2)])), 6);
    assert_eq!(int_of(lib.call_fn("+", &vec![Value::Int(2), Value::Int(2)])), 5);
    assert!(matches!(lib.get_const("KEEP"), Some(Value::Int(3))));
    assert!(matches!(lib.get_const("MYSTIC_NUMBER"), Some(Value::Int(42))));

    let early = Value::Timestamp(Timestamp { secs: 1, nanos: 0 });
    let late = Value::Timestamp(Timestamp { secs: 4, nanos: 0 });
    assert!(matches!(lib.call_fn("<", &vec![early, late]), Ok(Value::Bool(true))));
    let early = Value::Timestamp(Timestamp { secs: 1, nanos: 0 });
    let late = Value::Timestamp(Timestamp { secs: 4, nanos: 0 });
    assert_eq!(int_of(lib.call_fn("-", &vec![early, late])), -3);
    let early = Value::Timestamp(Timestamp { secs: 1, nanos: 0 });
    let late = Value::Timestamp(Timestamp { secs: 4, nanos: 0 });
    assert!(matches!(
        lib.call_fn("+", &vec![early, late]),
        Err(ScriptError::FunctionNotFound { .. })
    ));
}
