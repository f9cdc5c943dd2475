use vstd::prelude::*;
use vstd::arithmetic::div_mod::{lemma_fundamental_div_mod, lemma_fundamental_div_mod_converse};
use crate::registry::{call_outcome, spec_adapt, Module, NativeFn};
use crate::value::{tags_of, ExactDuration, NativeError, ScriptError, Timestamp, TypeTag, Value, NANOS_PER_SEC};

verus! {

/// The largest value of the script's fixed-width integer type.
pub const MAX_INT: i64 = 9223372036854775807;

/// How spans of time reach a script.
#[derive(Clone, Copy, Debug, PartialEq, Eq, Structural)]
pub enum DurationMode {
    /// As an exact span, with no range check on its magnitude.
    Floating,
    /// As whole seconds in a fixed-width integer.
    FixedWidth,
}

/// The numeric configuration that the time operators follow.
#[derive(Clone, Copy, Debug, PartialEq, Eq, Structural)]
pub struct NumericConfig {
    pub mode: DurationMode,
    /// Whether a fixed-width magnitude above `MAX_INT` fails rather than wraps.
    pub checked: bool,
}

/// `a` lies strictly before `b`.
pub open spec fn spec_before(a: Timestamp, b: Timestamp) -> bool {
    a.total_nanos() < b.total_nanos()
}

/// The unsigned distance between two points, in nanoseconds.
pub open spec fn distance_nanos(a: Timestamp, b: Timestamp) -> int {
    if a.total_nanos() < b.total_nanos() {
        b.total_nanos() - a.total_nanos()
    } else {
        a.total_nanos() - b.total_nanos()
    }
}

/// Whole seconds above `MAX_INT` as the fixed-width integer wraps them: the
/// count less 2^64, negated when `negative` holds, except at `i64::MIN`, whose
/// negation wraps back to itself.
pub open spec fn wrapped(secs: int, negative: bool) -> i64 {
    let w = secs - 18446744073709551616;
    (if negative && w != i64::MIN {
        -w
    } else {
        w
    }) as i64
}

/// The result of `a - b` under the configuration.
pub open spec fn spec_sub(a: Timestamp, b: Timestamp, cfg: NumericConfig) -> Result<Value, NativeError> {
    let negative = spec_before(a, b);
    let dist = distance_nanos(a, b);
    let secs = dist / NANOS_PER_SEC as int;
    match cfg.mode {
        DurationMode::Floating => Ok(
            Value::Duration(
                ExactDuration {
                    negative,
                    secs: secs as u64,
                    nanos: (dist % NANOS_PER_SEC as int) as u32,
                },
            ),
        ),
        DurationMode::FixedWidth => if secs <= MAX_INT {
            Ok(Value::Int((if negative { -secs } else { secs }) as i64))
        } else if cfg.checked {
            Err(NativeError::Overflow { negative, magnitude: secs as u64 })
        } else {
            Ok(Value::Int(wrapped(secs, negative)))
        },
    }
}

/// Compares two points in time by their fields.
pub fn before(a: Timestamp, b: Timestamp) -> (r: bool)
    requires
        a.wf(),
        b.wf(),
    ensures
        r == spec_before(a, b),
{
    proof {
        if a.secs < b.secs {
            assert(a.secs as int * 1_000_000_000 + 1_000_000_000 <= b.secs as int * 1_000_000_000)
                by (nonlinear_arith)
                requires
                    a.secs < b.secs,
            ;
        } else if a.secs > b.secs {
            assert(b.secs as int * 1_000_000_000 + 1_000_000_000 <= a.secs as int * 1_000_000_000)
                by (nonlinear_arith)
                requires
                    a.secs > b.secs,
            ;
        }
    }
    a.secs < b.secs || (a.secs == b.secs && a.nanos < b.nanos)
}

/// Whether two points in time are the same.
pub fn same_time(a: Timestamp, b: Timestamp) -> (r: bool)
    requires
        a.wf(),
        b.wf(),
    ensures
        r == (a.total_nanos() == b.total_nanos()),
{
    let lt = before(a, b);
    let gt = before(b, a);
    !lt && !gt
}

/// The span from `earlier` to `later` as whole seconds and the nanoseconds
/// past them.
fn span(later: Timestamp, earlier: Timestamp) -> (r: (u64, u32))
    requires
        later.wf(),
        earlier.wf(),
        earlier.total_nanos() <= later.total_nanos(),
    ensures
        r.1 < NANOS_PER_SEC,
        r.0 as int == (later.total_nanos() - earlier.total_nanos()) / NANOS_PER_SEC as int,
        r.1 as int == (later.total_nanos() - earlier.total_nanos()) % NANOS_PER_SEC as int,
{
    let ord = before(earlier, later);
    proof {
        if later.secs < earlier.secs {
            assert(later.secs as int * 1_000_000_000 + 1_000_000_000 <= earlier.secs as int
                * 1_000_000_000) by (nonlinear_arith)
                requires
                    later.secs < earlier.secs,
            ;
        }
    }
    let (secs, nanos) = if later.nanos >= earlier.nanos {
        (later.secs - earlier.secs, later.nanos - earlier.nanos)
    } else {
        proof {
            if later.secs == earlier.secs {
                assert(later.total_nanos() < earlier.total_nanos());
            }
        }
        (later.secs - earlier.secs - 1, later.nanos + NANOS_PER_SEC - earlier.nanos)
    };
    proof {
        let d = later.total_nanos() - earlier.total_nanos();
        assert(d == secs as int * 1_000_000_000 + nanos as int) by (nonlinear_arith)
            requires
                d == later.secs as int * 1_000_000_000 + later.nanos as int - (earlier.secs as int
                    * 1_000_000_000 + earlier.nanos as int),
                later.nanos >= earlier.nanos ==> secs == later.secs - earlier.secs && nanos
                    == later.nanos - earlier.nanos,
                later.nanos < earlier.nanos ==> secs == later.secs - earlier.secs - 1 && nanos
                    == later.nanos + 1_000_000_000 - earlier.nanos,
        ;
        lemma_fundamental_div_mod_converse(d, 1_000_000_000, secs as int, nanos as int);
    }
    (secs, nanos)
}

/// `a - b` as the script sees it: negative when `b` lies after `a`; in
/// fixed-width mode whole seconds, range-checked when `cfg.checked` holds.
pub fn subtract(a: Timestamp, b: Timestamp, cfg: NumericConfig) -> (r: Result<Value, NativeError>)
    requires
        a.wf(),
        b.wf(),
    ensures
        r == spec_sub(a, b, cfg),
{
    let negative = before(a, b);
    let (secs, nanos) = if negative {
        span(b, a)
    } else {
        span(a, b)
    };
    match cfg.mode {
        DurationMode::Floating => Ok(Value::Duration(ExactDuration { negative, secs, nanos })),
        DurationMode::FixedWidth => {
            if secs <= MAX_INT as u64 {
                let s = secs as i64;
                Ok(Value::Int(if negative { -s } else { s }))
            } else if cfg.checked {
                Err(NativeError::Overflow { negative, magnitude: secs })
            } else {
                let w: i64 = (secs - 9223372036854775808u64) as i64 - 9223372036854775807 - 1;
                Ok(Value::Int(if negative && w != i64::MIN { -w } else { w }))
            }
        },
    }
}

/// The time passed from `since` to `now`, as the script sees it; zero when
/// `now` lies before `since`.
pub fn elapsed_since(since: Timestamp, now: Timestamp, cfg: NumericConfig) -> (r: Result<
    Value,
    NativeError,
>)
    requires
        since.wf(),
        now.wf(),
    ensures
        r == spec_elapsed(since, now, cfg),
{
    if before(now, since) {
        subtract(since, since, cfg)
    } else {
        subtract(now, since, cfg)
    }
}


#[verifier::external_type_specification]
#[verifier::external_body]
pub struct ExSystemTime(std::time::SystemTime);

#[verifier::external_type_specification]
#[verifier::external_body]
pub struct ExSystemTimeError(std::time::SystemTimeError);

/// Relies on std::time::SystemTime::now to read the system clock; nothing is
/// known of the value read.
pub assume_specification[ std::time::SystemTime::now ]() -> std::time::SystemTime;

/// Relies on std::time::Duration::as_secs for the whole seconds of a span.
pub assume_specification[ core::time::Duration::as_secs ](d: &core::time::Duration) -> u64;

/// Relies on std::time::Duration::subsec_nanos, which is documented to be
/// below one billion.
pub assume_specification[ core::time::Duration::subsec_nanos ](d: &core::time::Duration) -> (r: u32)
    ensures
        r < 1_000_000_000,
;

/// Relies on std::time::SystemTime::duration_since, measured from the Unix
/// epoch; it fails when `t` lies before the epoch.
#[verifier::external_body]
fn since_unix_epoch(t: std::time::SystemTime) -> std::result::Result<
    core::time::Duration,
    std::time::SystemTimeError,
> {
    t.duration_since(std::time::UNIX_EPOCH)
}

/// The current time of the system's wall clock, counted from the Unix epoch;
/// a clock set before the epoch reads as the epoch. The wall clock may be set
/// back, so two successive readings can compare backwards.
pub fn now() -> (r: Timestamp)
    ensures
        r.wf(),
{
    match since_unix_epoch(std::time::SystemTime::now()) {
        Ok(d) => Timestamp { secs: d.as_secs(), nanos: d.subsec_nanos() },
        Err(_) => Timestamp { secs: 0, nanos: 0 },
    }
}

/// What elapsed time reads as for a start and a reading of the clock: the
/// span from the start, or zero when the reading lies before it.
pub open spec fn spec_elapsed(since: Timestamp, now: Timestamp, cfg: NumericConfig) -> Result<
    Value,
    NativeError,
> {
    if spec_before(now, since) {
        spec_sub(since, since, cfg)
    } else {
        spec_sub(now, since, cfg)
    }
}

/// The time operators of the basic package.
#[derive(Clone, Copy, Debug, PartialEq, Eq, Structural)]
pub enum TimeFn {
    /// `timestamp()`: the current time.
    Now,
    /// `a - b` on two timestamps.
    Sub(NumericConfig),
    Lt,
    Lte,
    Gt,
    Gte,
    Eq,
    Ne,
    /// `elapsed(t)`: the time passed since `t`.
    Elapsed(NumericConfig),
}

/// The two timestamps of a binary operator's arguments, when that is their shape.
pub open spec fn two_times(args: Seq<Value>) -> Option<(Timestamp, Timestamp)> {
    if args.len() == 2 {
        match (args[0], args[1]) {
            (Value::Timestamp(a), Value::Timestamp(b)) => if a.wf() && b.wf() {
                Some((a, b))
            } else {
                None
            },
            _ => None,
        }
    } else {
        None
    }
}

/// The timestamp of a unary operator's argument, when that is its shape.
pub open spec fn one_time(args: Seq<Value>) -> Option<Timestamp> {
    if args.len() == 1 {
        match args[0] {
            Value::Timestamp(a) => if a.wf() {
                Some(a)
            } else {
                None
            },
            _ => None,
        }
    } else {
        None
    }
}

/// The truth of a comparison operator on two points in time.
pub open spec fn spec_compare(op: TimeFn, a: Timestamp, b: Timestamp) -> bool {
    let x = a.total_nanos();
    let y = b.total_nanos();
    match op {
        TimeFn::Lt => x < y,
        TimeFn::Lte => x <= y,
        TimeFn::Gt => x > y,
        TimeFn::Gte => x >= y,
        TimeFn::Eq => x == y,
        _ => x != y,
    }
}

fn get_two(args: &Vec<Value>) -> (r: Option<(Timestamp, Timestamp)>)
    ensures
        r == two_times(args@),
{
    if args.len() != 2 {
        return None;
    }
    match (&args[0], &args[1]) {
        (Value::Timestamp(a), Value::Timestamp(b)) => if a.nanos < NANOS_PER_SEC && b.nanos
            < NANOS_PER_SEC {
            Some((*a, *b))
        } else {
            None
        },
        _ => None,
    }
}

fn get_one(args: &Vec<Value>) -> (r: Option<Timestamp>)
    ensures
        r == one_time(args@),
{
    if args.len() != 1 {
        return None;
    }
    match &args[0] {
        Value::Timestamp(a) => if a.nanos < NANOS_PER_SEC {
            Some(*a)
        } else {
            None
        },
        _ => None,
    }
}

fn bad_arguments() -> (r: Result<Value, NativeError>)
    ensures
        r matches Err(NativeError::Failure(_)),
{
    Err(NativeError::Failure(String::from_str("expected valid timestamp arguments")))
}

impl NativeFn for TimeFn {
    open spec fn spec_call(&self, args: Seq<Value>, r: Result<Value, NativeError>) -> bool {
        match *self {
            TimeFn::Now => if args.len() == 0 {
                r matches Ok(Value::Timestamp(t)) && t.wf()
            } else {
                r matches Err(NativeError::Failure(_))
            },
            TimeFn::Sub(cfg) => match two_times(args) {
                Some((a, b)) => r == spec_sub(a, b, cfg),
                None => r matches Err(NativeError::Failure(_)),
            },
            TimeFn::Elapsed(cfg) => match one_time(args) {
                Some(since) => exists|t: Timestamp| t.wf() && r == #[trigger] spec_elapsed(since, t, cfg),
                None => r matches Err(NativeError::Failure(_)),
            },
            op => match two_times(args) {
                Some((a, b)) => r == Ok::<Value, NativeError>(Value::Bool(spec_compare(op, a, b))),
                None => r matches Err(NativeError::Failure(_)),
            },
        }
    }

    fn call(&self, args: &Vec<Value>) -> (r: Result<Value, NativeError>) {
        match *self {
            TimeFn::Now => if args.len() == 0 {
                Ok(Value::Timestamp(now()))
            } else {
                bad_arguments()
            },
            TimeFn::Sub(cfg) => match get_two(args) {
                Some((a, b)) => subtract(a, b, cfg),
                None => bad_arguments(),
            },
            TimeFn::Elapsed(cfg) => match get_one(args) {
                Some(since) => {
                    let t = now();
                    let r = elapsed_since(since, t, cfg);
                    proof {
                        assert(r == spec_elapsed(since, t, cfg));
                    }
                    r
                },
                None => bad_arguments(),
            },
            op => match get_two(args) {
                Some((a, b)) => {
                    let lt = before(a, b);
                    let gt = before(b, a);
                    let v = match op {
                        TimeFn::Lt => lt,
                        TimeFn::Lte => !gt,
                        TimeFn::Gt => gt,
                        TimeFn::Gte => !lt,
                        TimeFn::Eq => !lt && !gt,
                        _ => lt || gt,
                    };
                    Ok(Value::Bool(v))
                },
                None => bad_arguments(),
            },
        }
    }
}

/// `f` behaves as the time operator `t`: the two allow the same results on
/// every argument list.
pub open spec fn acts_as<F: NativeFn>(f: F, t: TimeFn) -> bool {
    forall|args: Seq<Value>, res: Result<Value, NativeError>| #[trigger]
        f.spec_call(args, res) <==> t.spec_call(args, res)
}

/// A native-function type able to carry the time operators, so that they
/// can join a library that holds other functions too. `from_time` gives a
/// value that behaves as the operator; `carries` may say more of which value
/// that is, and by default says nothing.
pub trait TimeNative: NativeFn + Copy {
    open spec fn carries(&self, t: TimeFn) -> bool {
        true
    }

    fn from_time(t: TimeFn) -> (r: Self)
        ensures
            r.carries(t),
            acts_as(r, t),
    ;
}

impl TimeNative for TimeFn {
    open spec fn carries(&self, t: TimeFn) -> bool {
        *self == t
    }

    fn from_time(t: TimeFn) -> (r: Self) {
        t
    }
}

/// A package of operators on points in time: `timestamp`, `-`, the six
/// comparisons, and `elapsed`.
pub struct BasicTimePackage(pub Module<TimeFn>);

/// The signature of a binary operator on two timestamps.
pub open spec fn two_time_sig() -> Seq<TypeTag> {
    seq![TypeTag::Timestamp, TypeTag::Timestamp]
}

/// The name of the nullary clock function.
pub open spec fn timestamp_name() -> Seq<char> {
    seq!['t', 'i', 'm', 'e', 's', 't', 'a', 'm', 'p']
}

/// The name of the unary elapsed-time function.
pub open spec fn elapsed_name() -> Seq<char> {
    seq!['e', 'l', 'a', 'p', 's', 'e', 'd']
}

/// The names of the seven binary operators on two timestamps.
pub open spec fn is_binary_time_op(n: Seq<char>) -> bool {
    n == seq!['-'] || n == seq!['<'] || n == seq!['<', '='] || n == seq!['>'] || n == seq![
        '>',
        '=',
    ] || n == seq!['=', '='] || n == seq!['!', '=']
}

/// The nine keys that the package binds.
pub open spec fn is_time_key(n: Seq<char>, s: Seq<TypeTag>) -> bool {
    ||| (n == timestamp_name() && s == Seq::<TypeTag>::empty())
    ||| (is_binary_time_op(n) && s == two_time_sig())
    ||| (n == elapsed_name() && s == seq![TypeTag::Timestamp])
}

/// `m` binds the key to a function that stands for, and behaves as, the
/// operator `t`.
pub open spec fn bound_to<F: TimeNative>(m: Module<F>, n: Seq<char>, s: Seq<TypeTag>, t: TimeFn) -> bool {
    m.spec_lookup(n, s) matches Some(f) && f.carries(t) && acts_as(f, t)
}

/// The package's nine keys, each bound to its operator.
pub open spec fn binds_time_ops<F: TimeNative>(m: Module<F>, cfg: NumericConfig) -> bool {
    &&& bound_to(m, timestamp_name(), Seq::<TypeTag>::empty(), TimeFn::Now)
    &&& bound_to(m, seq!['-'], two_time_sig(), TimeFn::Sub(cfg))
    &&& bound_to(m, seq!['<'], two_time_sig(), TimeFn::Lt)
    &&& bound_to(m, seq!['<', '='], two_time_sig(), TimeFn::Lte)
    &&& bound_to(m, seq!['>'], two_time_sig(), TimeFn::Gt)
    &&& bound_to(m, seq!['>', '='], two_time_sig(), TimeFn::Gte)
    &&& bound_to(m, seq!['=', '='], two_time_sig(), TimeFn::Eq)
    &&& bound_to(m, seq!['!', '='], two_time_sig(), TimeFn::Ne)
    &&& bound_to(m, elapsed_name(), seq![TypeTag::Timestamp], TimeFn::Elapsed(cfg))
}

impl core::ops::Deref for BasicTimePackage {
    type Target = Module<TimeFn>;

    fn deref(&self) -> (r: &Module<TimeFn>)
        ensures
            *r == self.0,
    {
        &self.0
    }
}

impl BasicTimePackage {
    /// Registers the package's operators into `lib`, which may hold other
    /// functions too; every key but the package's nine keeps its binding,
    /// and the constants stay as they were.
    pub fn init<F: TimeNative>(lib: &mut Module<F>, cfg: NumericConfig)
        ensures
            binds_time_ops(*final(lib), cfg),
            final(lib).consts@ == old(lib).consts@,
            forall|n: Seq<char>, s: Seq<TypeTag>|
                !is_time_key(n, s) ==> #[trigger] final(lib).spec_lookup(n, s) == old(lib).spec_lookup(
                    n,
                    s,
                ),
    {
        let none: Vec<TypeTag> = Vec::new();
        let two: Vec<TypeTag> = vec![TypeTag::Timestamp, TypeTag::Timestamp];
        let one: Vec<TypeTag> = vec![TypeTag::Timestamp];
        proof {
            assert(none@ == Seq::<TypeTag>::empty());
            assert(two@ == two_time_sig());
            assert(one@ == seq![TypeTag::Timestamp]);
            reveal_strlit("timestamp");
            reveal_strlit("-");
            reveal_strlit("<");
            reveal_strlit("<=");
            reveal_strlit(">");
            reveal_strlit(">=");
            reveal_strlit("==");
            reveal_strlit("!=");
            reveal_strlit("elapsed");
            assert("timestamp"@ =~= seq!['t', 'i', 'm', 'e', 's', 't', 'a', 'm', 'p']);
            assert("-"@ =~= seq!['-']);
            assert("<"@ =~= seq!['<']);
            assert("<="@ =~= seq!['<', '=']);
            assert(">"@ =~= seq!['>']);
            assert(">="@ =~= seq!['>', '=']);
            assert("=="@ =~= seq!['=', '=']);
            assert("!="@ =~= seq!['!', '=']);
            assert("elapsed"@ =~= seq!['e', 'l', 'a', 'p', 's', 'e', 'd']);
            assert(seq!['-'][0] == '-' && seq!['<'][0] == '<' && seq!['>'][0] == '>');
            assert(seq!['<', '='][0] == '<' && seq!['>', '='][0] == '>' && seq!['=', '='][0] == '='
                && seq!['!', '='][0] == '!');
        }
        lib.register("timestamp", &none, F::from_time(TimeFn::Now));
        lib.register("-", &two, F::from_time(TimeFn::Sub(cfg)));
        lib.register("<", &two, F::from_time(TimeFn::Lt));
        lib.register("<=", &two, F::from_time(TimeFn::Lte));
        lib.register(">", &two, F::from_time(TimeFn::Gt));
        lib.register(">=", &two, F::from_time(TimeFn::Gte));
        lib.register("==", &two, F::from_time(TimeFn::Eq));
        lib.register("!=", &two, F::from_time(TimeFn::Ne));
        lib.register("elapsed", &one, F::from_time(TimeFn::Elapsed(cfg)));
    }

    /// A package holding the time operators and nothing else: exactly its
    /// nine keys are bound, and it has no constants.
    pub fn new(cfg: NumericConfig) -> (r: Self)
        ensures
            binds_time_ops(r.0, cfg),
            r.0.consts@.len() == 0,
            forall|n: Seq<char>, s: Seq<TypeTag>| #[trigger] r.0.spec_lookup(n, s) is Some <==> is_time_key(n, s),
    {
        let mut lib = Module::new();
        Self::init(&mut lib, cfg);
        BasicTimePackage(lib)
    }

    /// The package's module.
    pub fn get(&self) -> (r: &Module<TimeFn>)
        ensures
            *r == self.0,
    {
        &self.0
    }
}

/// A call of a time operator in any library where it is bound as `init`
/// binds it gives what the operator gives; on two well-formed timestamps a
/// comparison gives its truth value and `-` gives `spec_sub`.
pub proof fn lemma_time_dispatch<F: TimeNative>(
    m: Module<F>,
    n: Seq<char>,
    t: TimeFn,
    args: Seq<Value>,
    r: Result<Value, ScriptError>,
)
    requires
        bound_to(m, n, tags_of(args), t),
        call_outcome(m, n, args, r),
    ensures
        exists|nr: Result<Value, NativeError>| #[trigger] t.spec_call(args, nr) && r == spec_adapt(nr),
        two_times(args) matches Some((a, b)) ==> match t {
            TimeFn::Sub(cfg) => r == spec_adapt(spec_sub(a, b, cfg)),
            TimeFn::Lt | TimeFn::Lte | TimeFn::Gt | TimeFn::Gte | TimeFn::Eq | TimeFn::Ne => r
                == Ok::<Value, ScriptError>(Value::Bool(spec_compare(t, a, b))),
            _ => true,
        },
{
    let f = m.spec_lookup(n, tags_of(args))->0;
    let nr = choose|nr: Result<Value, NativeError>| #[trigger] f.spec_call(args, nr) && r == spec_adapt(nr);
    assert(t.spec_call(args, nr));
}

/// Building the package is deterministic: two packages made with `new` under
/// one configuration bind the same functions to the same keys.
pub proof fn lemma_new_same(p1: BasicTimePackage, p2: BasicTimePackage, cfg: NumericConfig)
    requires
        binds_time_ops(p1.0, cfg),
        binds_time_ops(p2.0, cfg),
        forall|n: Seq<char>, s: Seq<TypeTag>| #[trigger] p1.0.spec_lookup(n, s) is Some <==> is_time_key(n, s),
        forall|n: Seq<char>, s: Seq<TypeTag>| #[trigger] p2.0.spec_lookup(n, s) is Some <==> is_time_key(n, s),
    ensures
        forall|n: Seq<char>, s: Seq<TypeTag>| #[trigger] p1.0.spec_lookup(n, s) == p2.0.spec_lookup(n, s),
{
    assert forall|n: Seq<char>, s: Seq<TypeTag>| #[trigger] p1.0.spec_lookup(n, s) == p2.0.spec_lookup(n, s) by {
        if !is_time_key(n, s) {
            assert(p1.0.spec_lookup(n, s) is None && p2.0.spec_lookup(n, s) is None);
        }
    }
}

/// The overflow policy: where the whole seconds between two points exceed
/// `MAX_INT`, checked fixed-width subtraction fails with an overflow,
/// unchecked fixed-width subtraction wraps, and floating mode gives the exact
/// span, of magnitude the full distance.
pub proof fn lemma_overflow_policy(a: Timestamp, b: Timestamp)
    requires
        a.wf(),
        b.wf(),
        distance_nanos(a, b) / NANOS_PER_SEC as int > MAX_INT,
    ensures
        spec_sub(a, b, NumericConfig { mode: DurationMode::FixedWidth, checked: true }) == Err::<
            Value,
            NativeError,
        >(
            NativeError::Overflow {
                negative: spec_before(a, b),
                magnitude: (distance_nanos(a, b) / NANOS_PER_SEC as int) as u64,
            },
        ),
        spec_sub(a, b, NumericConfig { mode: DurationMode::FixedWidth, checked: false }) == Ok::<
            Value,
            NativeError,
        >(Value::Int(wrapped(distance_nanos(a, b) / NANOS_PER_SEC as int, spec_before(a, b)))),
        forall|checked: bool| #[trigger]
            spec_sub(a, b, NumericConfig { mode: DurationMode::Floating, checked }) matches Ok(
                Value::Duration(d),
            ) && d.magnitude_nanos() == distance_nanos(a, b) && d.negative == spec_before(a, b),
{
    assert forall|checked: bool| #[trigger]
        spec_sub(a, b, NumericConfig { mode: DurationMode::Floating, checked }) matches Ok(
            Value::Duration(d),
        ) && d.magnitude_nanos() == distance_nanos(a, b) && d.negative == spec_before(a, b) by {
        lemma_span_floating(a, b, checked);
    }
}

/// The overflow policy for elapsed time: where more whole seconds than
/// `MAX_INT` have passed since `since`, checked fixed-width mode fails with an
/// overflow and floating mode gives the exact span.
pub proof fn lemma_elapsed_overflow(since: Timestamp, now: Timestamp)
    requires
        since.wf(),
        now.wf(),
        !spec_before(now, since),
        distance_nanos(now, since) / NANOS_PER_SEC as int > MAX_INT,
    ensures
        spec_elapsed(since, now, NumericConfig { mode: DurationMode::FixedWidth, checked: true })
            == Err::<Value, NativeError>(
            NativeError::Overflow {
                negative: false,
                magnitude: (distance_nanos(now, since) / NANOS_PER_SEC as int) as u64,
            },
        ),
        forall|checked: bool| #[trigger]
            spec_elapsed(since, now, NumericConfig { mode: DurationMode::Floating, checked })
                matches Ok(Value::Duration(d)) && !d.negative && d.magnitude_nanos()
                == now.total_nanos() - since.total_nanos(),
{
    lemma_overflow_policy(now, since);
}

/// Ordering of points in time: the later of two points compares greater
/// and greater-or-equal against the earlier, and subtracting the later from
/// the earlier gives a negative span (in fixed-width mode within range, a
/// count of whole seconds that is at most zero, and below zero once a second
/// apart).
pub proof fn lemma_later_is_greater(a: Timestamp, b: Timestamp, cfg: NumericConfig)
    requires
        a.wf(),
        b.wf(),
        spec_before(a, b),
    ensures
        spec_compare(TimeFn::Gt, b, a),
        spec_compare(TimeFn::Gte, b, a),
        !spec_compare(TimeFn::Lt, b, a),
        cfg.mode == DurationMode::Floating ==> (spec_sub(a, b, cfg) matches Ok(Value::Duration(d))
            && d.negative && d.signed_nanos() < 0),
        cfg.mode == DurationMode::FixedWidth && distance_nanos(a, b) / NANOS_PER_SEC as int
            <= MAX_INT ==> (spec_sub(a, b, cfg) matches Ok(Value::Int(v)) && v <= 0 && (
        distance_nanos(a, b) >= NANOS_PER_SEC ==> v < 0)),
{
    let dist = distance_nanos(a, b);
    lemma_fundamental_div_mod(dist, 1_000_000_000);
    let q = dist / 1_000_000_000;
    let r = dist % 1_000_000_000;
    assert(q >= 0) by (nonlinear_arith)
        requires
            dist > 0,
            dist == 1_000_000_000 * q + r,
            0 <= r < 1_000_000_000,
    ;
    if dist >= 1_000_000_000 {
        assert(q >= 1) by (nonlinear_arith)
            requires
                dist >= 1_000_000_000,
                dist == 1_000_000_000 * q + r,
                0 <= r < 1_000_000_000,
        ;
    }
    if cfg.mode == DurationMode::Floating {
        lemma_span_floating(a, b, cfg.checked);
    }
}

proof fn lemma_span_floating(a: Timestamp, b: Timestamp, checked: bool)
    requires
        a.wf(),
        b.wf(),
    ensures
        spec_sub(a, b, NumericConfig { mode: DurationMode::Floating, checked }) matches Ok(
            Value::Duration(d),
        ) && d.magnitude_nanos() == distance_nanos(a, b) && d.negative == spec_before(a, b),
{
    let dist = distance_nanos(a, b);
    let q = dist / 1_000_000_000;
    let r = dist % 1_000_000_000;
    lemma_fundamental_div_mod(dist, 1_000_000_000);
    assert(0 <= dist < 18446744073709551616 * 1_000_000_000) by (nonlinear_arith)
        requires
            dist == distance_nanos(a, b),
            a.total_nanos() == a.secs as int * 1_000_000_000 + a.nanos as int,
            b.total_nanos() == b.secs as int * 1_000_000_000 + b.nanos as int,
            a.nanos < 1_000_000_000,
            b.nanos < 1_000_000_000,
    ;
    assert(0 <= q < 18446744073709551616) by (nonlinear_arith)
        requires
            0 <= dist < 18446744073709551616 * 1_000_000_000,
            dist == 1_000_000_000 * q + r,
            0 <= r < 1_000_000_000,
    ;
    let d = ExactDuration { negative: spec_before(a, b), secs: q as u64, nanos: r as u32 };
    assert(d.magnitude_nanos() == q * 1_000_000_000 + r);
}

} // verus!
