use vstd::prelude::*;

verus! {

/// The runtime type of a dynamic value, as used in dispatch signatures.
#[derive(Clone, Copy, Debug, PartialEq, Eq, Structural)]
pub enum TypeTag {
    Unit,
    Int,
    Bool,
    Char,
    Str,
    Array,
    Timestamp,
    Duration,
}

/// A point in time: whole seconds and the nanoseconds past them.
#[derive(Clone, Copy, Debug, PartialEq, Eq, Structural)]
pub struct Timestamp {
    pub secs: u64,
    pub nanos: u32,
}

pub const NANOS_PER_SEC: u32 = 1_000_000_000;

impl Timestamp {
    pub open spec fn wf(self) -> bool {
        self.nanos < NANOS_PER_SEC
    }

    /// The point in time as a count of nanoseconds.
    pub open spec fn total_nanos(self) -> int {
        self.secs as int * NANOS_PER_SEC as int + self.nanos as int
    }
}

/// A signed span of time held exactly, with no bound on its magnitude
/// beyond that of its fields.
#[derive(Clone, Copy, Debug, PartialEq, Eq, Structural)]
pub struct ExactDuration {
    pub negative: bool,
    pub secs: u64,
    pub nanos: u32,
}

impl ExactDuration {
    pub open spec fn magnitude_nanos(self) -> int {
        self.secs as int * NANOS_PER_SEC as int + self.nanos as int
    }

    /// The signed span in nanoseconds.
    pub open spec fn signed_nanos(self) -> int {
        if self.negative {
            -self.magnitude_nanos()
        } else {
            self.magnitude_nanos()
        }
    }
}

/// A dynamic value of the scripting runtime.
#[derive(Debug)]
pub enum Value {
    Unit,
    Int(i64),
    Bool(bool),
    Char(char),
    Str(String),
    Array(Vec<Value>),
    Timestamp(Timestamp),
    Duration(ExactDuration),
}

impl Value {
    pub open spec fn spec_tag(&self) -> TypeTag {
        match self {
            Value::Unit => TypeTag::Unit,
            Value::Int(_) => TypeTag::Int,
            Value::Bool(_) => TypeTag::Bool,
            Value::Char(_) => TypeTag::Char,
            Value::Str(_) => TypeTag::Str,
            Value::Array(_) => TypeTag::Array,
            Value::Timestamp(_) => TypeTag::Timestamp,
            Value::Duration(_) => TypeTag::Duration,
        }
    }

    /// The runtime type tag of this value.
    pub fn tag(&self) -> (r: TypeTag)
        ensures
            r == self.spec_tag(),
    {
        match self {
            Value::Unit => TypeTag::Unit,
            Value::Int(_) => TypeTag::Int,
            Value::Bool(_) => TypeTag::Bool,
            Value::Char(_) => TypeTag::Char,
            Value::Str(_) => TypeTag::Str,
            Value::Array(_) => TypeTag::Array,
            Value::Timestamp(_) => TypeTag::Timestamp,
            Value::Duration(_) => TypeTag::Duration,
        }
    }
}

/// The type tags of a sequence of arguments, in order.
pub open spec fn tags_of(args: Seq<Value>) -> Seq<TypeTag> {
    args.map_values(|v: Value| v.spec_tag())
}

/// The type tags of the given arguments.
pub fn arg_tags(args: &Vec<Value>) -> (r: Vec<TypeTag>)
    ensures
        r@ == tags_of(args@),
{
    let mut r: Vec<TypeTag> = Vec::new();
    let mut i: usize = 0;
    while i < args.len()
        invariant
            i <= args@.len(),
            r@ == tags_of(args@.take(i as int)),
        decreases args@.len() - i,
    {
        r.push(args[i].tag());
        proof {
            assert(args@.take(i as int + 1) == args@.take(i as int).push(args@[i as int]));
        }
        i = i + 1;
    }
    proof {
        assert(args@.take(args@.len() as int) == args@);
    }
    r
}

/// Where in a script an error arose.
#[derive(Clone, Copy, Debug, PartialEq, Eq, Structural)]
pub struct Position {
    pub line: u32,
    pub column: u32,
}

/// What a native function reports when it fails.
#[derive(Clone, Debug)]
pub enum NativeError {
    /// A computed magnitude does not fit the integer type; the value that did
    /// not fit is `-magnitude` when `negative` holds, else `magnitude`.
    Overflow { negative: bool, magnitude: u64 },
    /// Any other failure, with its message.
    Failure(String),
}

/// The errors that reach a script.
#[derive(Clone, Debug)]
pub enum ScriptError {
    /// No function matches the name and argument types.
    FunctionNotFound { name: String, tags: Vec<TypeTag> },
    /// No module is registered under the import path.
    ModuleNotFound(String),
    /// A module holds no constant of that name.
    VariableNotFound(String),
    /// A fixed-width magnitude exceeded the largest integer.
    ArithmeticOverflow { negative: bool, magnitude: u64 },
    /// A native function failed; the position is unknown when the failure
    /// arose outside a script.
    NativeFailure { message: String, position: Option<Position> },
}

} // verus!
