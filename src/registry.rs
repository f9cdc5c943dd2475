use vstd::prelude::*;
use crate::value::{tags_of, arg_tags, NativeError, ScriptError, TypeTag, Value};

verus! {

/// A host function that scripts can call. `spec_call` relates the arguments
/// to every result that the call may give; a function that states nothing of
/// its results allows every one.
pub trait NativeFn: Sized {
    open spec fn spec_call(&self, args: Seq<Value>, r: Result<Value, NativeError>) -> bool {
        true
    }

    fn call(&self, args: &Vec<Value>) -> (r: Result<Value, NativeError>)
        ensures
            self.spec_call(args@, r),
    ;
}

/// One registered function: its dispatch key and the host function.
pub struct Entry<F> {
    pub name: String,
    pub sig: Vec<TypeTag>,
    pub func: F,
}

/// One registered constant.
pub struct Constant {
    pub name: String,
    pub value: Value,
}

/// A collection of functions keyed by name and argument types, and of named
/// constants. Entries are kept in the order registered; a later entry with
/// the same key shadows an earlier one.
pub struct Module<F> {
    pub fns: Vec<Entry<F>>,
    pub consts: Vec<Constant>,
}

/// The function that a log of entries binds to a key: the last one registered.
pub open spec fn lookup_in<F>(s: Seq<Entry<F>>, name: Seq<char>, sig: Seq<TypeTag>) -> Option<F>
    decreases s.len(),
{
    if s.len() == 0 {
        None
    } else if s.last().name@ == name && s.last().sig@ == sig {
        Some(s.last().func)
    } else {
        lookup_in(s.drop_last(), name, sig)
    }
}

/// The value that a log of constants binds to a name: the last one registered.
pub open spec fn const_in(s: Seq<Constant>, name: Seq<char>) -> Option<Value>
    decreases s.len(),
{
    if s.len() == 0 {
        None
    } else if s.last().name@ == name {
        Some(s.last().value)
    } else {
        const_in(s.drop_last(), name)
    }
}

/// The bindings of `fore` overlaid by those of `aft`.
pub open spec fn overlay<T>(fore: Option<T>, aft: Option<T>) -> Option<T> {
    match aft {
        Some(x) => Some(x),
        None => fore,
    }
}

proof fn lemma_lookup_append<F>(a: Seq<Entry<F>>, b: Seq<Entry<F>>, name: Seq<char>, sig: Seq<TypeTag>)
    ensures
        lookup_in(a + b, name, sig) == overlay(lookup_in(a, name, sig), lookup_in(b, name, sig)),
    decreases b.len(),
{
    if b.len() == 0 {
        assert(a + b == a);
    } else {
        assert((a + b).drop_last() == a + b.drop_last());
        lemma_lookup_append(a, b.drop_last(), name, sig);
    }
}

proof fn lemma_const_append(a: Seq<Constant>, b: Seq<Constant>, name: Seq<char>)
    ensures
        const_in(a + b, name) == overlay(const_in(a, name), const_in(b, name)),
    decreases b.len(),
{
    if b.len() == 0 {
        assert(a + b == a);
    } else {
        assert((a + b).drop_last() == a + b.drop_last());
        lemma_const_append(a, b.drop_last(), name);
    }
}

/// The name under which a property getter is registered.
pub open spec fn getter_name(prop: Seq<char>) -> Seq<char> {
    seq!['g', 'e', 't', '$'] + prop
}

/// Whether two signatures are the same sequence of tags.
fn same_sig(a: &Vec<TypeTag>, b: &Vec<TypeTag>) -> (r: bool)
    ensures
        r == (a@ == b@),
{
    if a.len() != b.len() {
        return false;
    }
    let mut i: usize = 0;
    while i < a.len()
        invariant
            a@.len() == b@.len(),
            i <= a@.len(),
            forall|j: int| 0 <= j < i ==> a@[j] == b@[j],
        decreases a@.len() - i,
    {
        if a[i] != b[i] {
            return false;
        }
        i = i + 1;
    }
    proof {
        assert(a@ =~= b@);
    }
    true
}

fn copy_sig(s: &Vec<TypeTag>) -> (r: Vec<TypeTag>)
    ensures
        r@ == s@,
{
    let mut r: Vec<TypeTag> = Vec::new();
    let mut i: usize = 0;
    while i < s.len()
        invariant
            i <= s@.len(),
            r@ == s@.take(i as int),
        decreases s@.len() - i,
    {
        r.push(s[i]);
        proof {
            assert(s@.take(i as int + 1) == s@.take(i as int).push(s@[i as int]));
        }
        i = i + 1;
    }
    proof {
        assert(s@.take(s@.len() as int) == s@);
    }
    r
}

impl<F: NativeFn + Copy> Module<F> {
    /// The function bound to a name and signature.
    pub open spec fn spec_lookup(&self, name: Seq<char>, sig: Seq<TypeTag>) -> Option<F> {
        lookup_in(self.fns@, name, sig)
    }

    /// The constant bound to a name.
    pub open spec fn spec_const(&self, name: Seq<char>) -> Option<Value> {
        const_in(self.consts@, name)
    }

    /// A module with no functions and no constants.
    pub fn new() -> (r: Self)
        ensures
            r.fns@.len() == 0,
            r.consts@.len() == 0,
            forall|n: Seq<char>, s: Seq<TypeTag>| #[trigger] r.spec_lookup(n, s) is None,
            forall|n: Seq<char>| #[trigger] r.spec_const(n) is None,
    {
        Module { fns: Vec::new(), consts: Vec::new() }
    }

    /// Binds `func` to `name` and `sig`, replacing any function bound to that
    /// exact key; every other key keeps its binding.
    pub fn register(&mut self, name: &str, sig: &Vec<TypeTag>, func: F)
        ensures
            final(self).consts@ == old(self).consts@,
            final(self).spec_lookup(name@, sig@) == Some(func),
            forall|n: Seq<char>, s: Seq<TypeTag>|
                !(n == name@ && s == sig@) ==> #[trigger] final(self).spec_lookup(n, s)
                    == old(self).spec_lookup(n, s),
    {
        let entry = Entry { name: String::from_str(name), sig: copy_sig(sig), func };
        self.fns.push(entry);
        proof {
            assert(self.fns@.drop_last() == old(self).fns@);
        }
    }

    /// Binds one function under each of `names`, with the same signature.
    pub fn register_aliases(&mut self, names: &Vec<String>, sig: &Vec<TypeTag>, func: F)
        ensures
            final(self).consts@ == old(self).consts@,
            forall|i: int|
                0 <= i < names@.len() ==> #[trigger] final(self).spec_lookup(names@[i]@, sig@)
                    == Some(func),
            forall|n: Seq<char>, s: Seq<TypeTag>|
                !(s == sig@ && exists|i: int| 0 <= i < names@.len() && names@[i]@ == n)
                    ==> #[trigger] final(self).spec_lookup(n, s) == old(self).spec_lookup(n, s),
    {
        let mut i: usize = 0;
        while i < names.len()
            invariant
                i <= names@.len(),
                self.consts@ == old(self).consts@,
                forall|j: int| 0 <= j < i ==> #[trigger] self.spec_lookup(names@[j]@, sig@) == Some(func),
                forall|n: Seq<char>, s: Seq<TypeTag>|
                    !(s == sig@ && exists|j: int| 0 <= j < i && names@[j]@ == n)
                        ==> #[trigger] self.spec_lookup(n, s) == old(self).spec_lookup(n, s),
            decreases names@.len() - i,
        {
            self.register(names[i].as_str(), sig, func);
            proof {
                assert forall|n: Seq<char>, s: Seq<TypeTag>|
                    !(s == sig@ && exists|j: int| 0 <= j < i + 1 && names@[j]@ == n)
                        implies #[trigger] self.spec_lookup(n, s) == old(self).spec_lookup(n, s) by {
                    if s == sig@ && exists|j: int| 0 <= j < i && names@[j]@ == n {
                        let j = choose|j: int| 0 <= j < i && names@[j]@ == n;
                        assert(0 <= j < i + 1 && names@[j]@ == n);
                    }
                }
            }
            i = i + 1;
        }
    }

    /// Binds `func` as the getter of property `prop` on values of type
    /// `receiver`: a call of `getter_name(prop)` on one argument.
    pub fn register_getter(&mut self, prop: &str, receiver: TypeTag, func: F)
        ensures
            final(self).consts@ == old(self).consts@,
            final(self).spec_lookup(getter_name(prop@), seq![receiver]) == Some(func),
            forall|n: Seq<char>, s: Seq<TypeTag>|
                !(n == getter_name(prop@) && s == seq![receiver]) ==> #[trigger] final(self).spec_lookup(n, s)
                    == old(self).spec_lookup(n, s),
    {
        let name = String::from_str("get$").concat(prop);
        proof {
            reveal_strlit("get$");
            assert(name@ == getter_name(prop@));
        }
        let sig: Vec<TypeTag> = vec![receiver];
        proof {
            assert(sig@ == seq![receiver]);
        }
        self.register(name.as_str(), &sig, func);
    }

    /// Binds `value` to the constant `name`, replacing any earlier binding.
    pub fn set_const(&mut self, name: &str, value: Value)
        ensures
            final(self).fns@ == old(self).fns@,
            final(self).spec_const(name@) == Some(value),
            forall|n: Seq<char>|
                n != name@ ==> #[trigger] final(self).spec_const(n) == old(self).spec_const(n),
    {
        self.consts.push(Constant { name: String::from_str(name), value });
        proof {
            assert(self.consts@.drop_last() == old(self).consts@);
        }
    }
}


/// How a native failure reaches the script.
pub open spec fn spec_adapt(r: Result<Value, NativeError>) -> Result<Value, ScriptError> {
    match r {
        Ok(v) => Ok(v),
        Err(NativeError::Overflow { negative, magnitude }) => Err(
            ScriptError::ArithmeticOverflow { negative, magnitude },
        ),
        Err(NativeError::Failure(message)) => Err(
            ScriptError::NativeFailure { message, position: None },
        ),
    }
}

fn adapt(r: Result<Value, NativeError>) -> (out: Result<Value, ScriptError>)
    ensures
        out == spec_adapt(r),
{
    match r {
        Ok(v) => Ok(v),
        Err(NativeError::Overflow { negative, magnitude }) => Err(
            ScriptError::ArithmeticOverflow { negative, magnitude },
        ),
        Err(NativeError::Failure(message)) => Err(
            ScriptError::NativeFailure { message, position: None },
        ),
    }
}

/// What a call of `name` on `args` gives when `m` binds the key to `f`, or
/// reports no function.
pub open spec fn call_outcome<F: NativeFn + Copy>(
    m: Module<F>,
    name: Seq<char>,
    args: Seq<Value>,
    r: Result<Value, ScriptError>,
) -> bool {
    match m.spec_lookup(name, tags_of(args)) {
        None => r matches Err(ScriptError::FunctionNotFound { name: n, tags }) && n@ == name
            && tags@ == tags_of(args),
        Some(f) => exists|nr: Result<Value, NativeError>| #[trigger]
            f.spec_call(args, nr) && r == spec_adapt(nr),
    }
}

/// One item of a module's declaration.
pub enum Decl<F> {
    /// A function under one or more public names.
    Function { names: Vec<String>, sig: Vec<TypeTag>, func: F },
    /// A getter of a property on values of one type.
    Getter { prop: String, receiver: TypeTag, func: F },
    /// A constant, evaluated once.
    Constant { name: String, value: Value },
}

/// The function that a declaration binds to a key: the last item that binds it.
pub open spec fn decl_lookup<F>(d: Seq<Decl<F>>, name: Seq<char>, sig: Seq<TypeTag>) -> Option<F>
    decreases d.len(),
{
    if d.len() == 0 {
        None
    } else {
        match d.last() {
            Decl::Function { names, sig: s, func } => if s@ == sig && exists|i: int|
                0 <= i < names@.len() && #[trigger] names@[i]@ == name {
                Some(func)
            } else {
                decl_lookup(d.drop_last(), name, sig)
            },
            Decl::Getter { prop, receiver, func } => if name == getter_name(prop@) && sig
                == seq![receiver] {
                Some(func)
            } else {
                decl_lookup(d.drop_last(), name, sig)
            },
            Decl::Constant { .. } => decl_lookup(d.drop_last(), name, sig),
        }
    }
}

/// The value that a declaration binds to a constant name.
pub open spec fn decl_const<F>(d: Seq<Decl<F>>, name: Seq<char>) -> Option<Value>
    decreases d.len(),
{
    if d.len() == 0 {
        None
    } else {
        match d.last() {
            Decl::Constant { name: n, value } => if n@ == name {
                Some(value)
            } else {
                decl_const(d.drop_last(), name)
            },
            _ => decl_const(d.drop_last(), name),
        }
    }
}

impl<F: NativeFn + Copy> Module<F> {
    /// `m` binds exactly what the declaration `d` binds.
    pub open spec fn built_from(&self, d: Seq<Decl<F>>) -> bool {
        &&& forall|n: Seq<char>, s: Seq<TypeTag>| #[trigger]
            self.spec_lookup(n, s) == decl_lookup(d, n, s)
        &&& forall|n: Seq<char>| #[trigger] self.spec_const(n) == decl_const(d, n)
    }

    /// The index of the entry bound to `name` and `sig`.
    fn find(&self, name: &String, sig: &Vec<TypeTag>) -> (r: Option<usize>)
        ensures
            r is None ==> self.spec_lookup(name@, sig@) is None,
            r matches Some(i) ==> i < self.fns@.len() && self.spec_lookup(name@, sig@) == Some(
                self.fns@[i as int].func,
            ),
    {
        let mut i: usize = self.fns.len();
        proof {
            assert(self.fns@.take(i as int) == self.fns@);
        }
        while i > 0
            invariant
                i <= self.fns@.len(),
                lookup_in(self.fns@, name@, sig@) == lookup_in(self.fns@.take(i as int), name@, sig@),
            decreases i,
        {
            let e = &self.fns[i - 1];
            proof {
                let t = self.fns@.take(i as int);
                assert(t.last() == self.fns@[i - 1]);
                assert(t.drop_last() == self.fns@.take(i - 1));
            }
            if e.name == *name && same_sig(&e.sig, sig) {
                return Some(i - 1);
            }
            i = i - 1;
        }
        None
    }

    /// Calls the function bound to `name` and the types of `args`; fails with
    /// `FunctionNotFound` when none is bound.
    pub fn call_fn(&self, name: &str, args: &Vec<Value>) -> (r: Result<Value, ScriptError>)
        ensures
            call_outcome(*self, name@, args@, r),
    {
        let tags = arg_tags(args);
        let key = String::from_str(name);
        match self.find(&key, &tags) {
            None => {
                proof {
                    assert(self.spec_lookup(name@, tags_of(args@)) is None);
                }
                let r = Err(ScriptError::FunctionNotFound { name: key, tags });
                proof {
                    assert(call_outcome(*self, name@, args@, r));
                }
                r
            },
            Some(i) => {
                let f = self.fns[i].func;
                proof {
                    assert(self.spec_lookup(name@, tags_of(args@)) == Some(f));
                }
                let nr = f.call(args);
                let r = adapt(nr);
                proof {
                    assert(exists|x: Result<Value, NativeError>| #[trigger] f.spec_call(args@, x)
                        && r == spec_adapt(x));
                    assert(self.spec_lookup(name@, tags_of(args@))->0 == f);
                }
                r
            },
        }
    }

    /// Reads property `prop` of `receiver` through its registered getter.
    pub fn get_property(&self, prop: &str, receiver: Value) -> (r: Result<Value, ScriptError>)
        ensures
            call_outcome(*self, getter_name(prop@), seq![receiver], r),
    {
        let name = String::from_str("get$").concat(prop);
        proof {
            reveal_strlit("get$");
            assert(name@ == getter_name(prop@));
        }
        let args: Vec<Value> = vec![receiver];
        proof {
            assert(args@ == seq![receiver]);
        }
        self.call_fn(name.as_str(), &args)
    }

    /// The constant bound to `name`.
    pub fn get_const(&self, name: &str) -> (r: Option<&Value>)
        ensures
            r is None ==> self.spec_const(name@) is None,
            r matches Some(v) ==> self.spec_const(name@) == Some(*v),
    {
        let key = String::from_str(name);
        let mut i: usize = self.consts.len();
        proof {
            assert(self.consts@.take(i as int) == self.consts@);
        }
        while i > 0
            invariant
                i <= self.consts@.len(),
                key@ == name@,
                const_in(self.consts@, name@) == const_in(self.consts@.take(i as int), name@),
            decreases i,
        {
            proof {
                let t = self.consts@.take(i as int);
                assert(t.last() == self.consts@[i - 1]);
                assert(t.drop_last() == self.consts@.take(i - 1));
            }
            if self.consts[i - 1].name == key {
                return Some(&self.consts[i - 1].value);
            }
            i = i - 1;
        }
        None
    }

    /// Merges `other` into this module; where both bind a key, `other` wins.
    pub fn combine(&mut self, other: Module<F>)
        ensures
            forall|n: Seq<char>, s: Seq<TypeTag>| #[trigger] final(self).spec_lookup(n, s)
                == overlay(old(self).spec_lookup(n, s), other.spec_lookup(n, s)),
            forall|n: Seq<char>| #[trigger] final(self).spec_const(n)
                == overlay(old(self).spec_const(n), other.spec_const(n)),
    {
        let ghost of = other.fns@;
        let ghost oc = other.consts@;
        let mut other = other;
        self.fns.append(&mut other.fns);
        self.consts.append(&mut other.consts);
        proof {
            assert forall|n: Seq<char>, s: Seq<TypeTag>| #[trigger] self.spec_lookup(n, s)
                == overlay(old(self).spec_lookup(n, s), lookup_in(of, n, s)) by {
                lemma_lookup_append(old(self).fns@, of, n, s);
            }
            assert forall|n: Seq<char>| #[trigger] self.spec_const(n)
                == overlay(old(self).spec_const(n), const_in(oc, n)) by {
                lemma_const_append(old(self).consts@, oc, n);
            }
        }
    }

    /// Builds a module from a declaration, item by item in order.
    pub fn build(decls: Vec<Decl<F>>) -> (r: Self)
        ensures
            r.built_from(decls@),
    {
        let ghost orig = decls@;
        let mut decls = decls;
        let total: usize = decls.len();
        let mut m = Module::new();
        let mut k: usize = 0;
        while decls.len() > 0
            invariant
                k + decls@.len() == orig.len(),
                orig.len() == total,
                decls@ == orig.skip(k as int),
                m.built_from(orig.take(k as int)),
            decreases decls@.len(),
        {
            let d = decls.remove(0);
            let ghost pre = m;
            proof {
                assert(d == orig[k as int]);
                assert(orig.take(k as int + 1).drop_last() == orig.take(k as int));
                assert(orig.take(k as int + 1).last() == orig[k as int]);
            }
            let ghost dk = orig.take(k as int + 1);
            match d {
                Decl::Function { names, sig, func } => {
                    m.register_aliases(&names, &sig, func);
                    proof {
                        assert forall|n: Seq<char>, s: Seq<TypeTag>| #[trigger]
                            m.spec_lookup(n, s) == decl_lookup(dk, n, s) by {
                            if s == sig@ && exists|i: int|
                                0 <= i < names@.len() && #[trigger] names@[i]@ == n {
                                let i = choose|i: int|
                                    0 <= i < names@.len() && #[trigger] names@[i]@ == n;
                                assert(m.spec_lookup(names@[i]@, sig@) == Some(func));
                            }
                        }
                        assert forall|n: Seq<char>| #[trigger] m.spec_const(n) == decl_const(dk, n) by {
                            assert(m.spec_const(n) == pre.spec_const(n));
                        }
                    }
                },
                Decl::Getter { prop, receiver, func } => {
                    m.register_getter(prop.as_str(), receiver, func);
                    proof {
                        assert forall|n: Seq<char>, s: Seq<TypeTag>| #[trigger]
                            m.spec_lookup(n, s) == decl_lookup(dk, n, s) by {
                            if !(n == getter_name(prop@) && s == seq![receiver]) {
                                assert(m.spec_lookup(n, s) == pre.spec_lookup(n, s));
                            }
                        }
                        assert forall|n: Seq<char>| #[trigger] m.spec_const(n) == decl_const(dk, n) by {
                            assert(m.spec_const(n) == pre.spec_const(n));
                        }
                    }
                },
                Decl::Constant { name, value } => {
                    m.set_const(name.as_str(), value);
                    proof {
                        assert forall|n: Seq<char>, s: Seq<TypeTag>| #[trigger]
                            m.spec_lookup(n, s) == decl_lookup(dk, n, s) by {
                            assert(m.spec_lookup(n, s) == pre.spec_lookup(n, s));
                        }
                        assert forall|n: Seq<char>| #[trigger] m.spec_const(n) == decl_const(dk, n) by {
                            if n != name@ {
                                assert(m.spec_const(n) == pre.spec_const(n));
                            }
                        }
                    }
                },
            }
            proof {
                assert(decls@ =~= orig.skip(k as int + 1));
            }
            k = k + 1;
        }
        proof {
            assert(orig.take(k as int) == orig);
        }
        m
    }
}

/// Building is deterministic: two declarations that bind the same functions
/// and constants give modules with identical bindings, so building the same
/// declaration twice gives the same module.
pub proof fn lemma_build_same<F: NativeFn + Copy>(
    d1: Seq<Decl<F>>,
    d2: Seq<Decl<F>>,
    m1: Module<F>,
    m2: Module<F>,
)
    requires
        m1.built_from(d1),
        m2.built_from(d2),
        forall|n: Seq<char>, s: Seq<TypeTag>| #[trigger] decl_lookup(d1, n, s) == decl_lookup(d2, n, s),
        forall|n: Seq<char>| #[trigger] decl_const(d1, n) == decl_const(d2, n),
    ensures
        forall|n: Seq<char>, s: Seq<TypeTag>| #[trigger] m1.spec_lookup(n, s) == m2.spec_lookup(n, s),
        forall|n: Seq<char>| #[trigger] m1.spec_const(n) == m2.spec_const(n),
{
    assert forall|n: Seq<char>, s: Seq<TypeTag>| #[trigger] m1.spec_lookup(n, s) == m2.spec_lookup(n, s) by {
        assert(m1.spec_lookup(n, s) == decl_lookup(d1, n, s));
        assert(m2.spec_lookup(n, s) == decl_lookup(d2, n, s));
    }
    assert forall|n: Seq<char>| #[trigger] m1.spec_const(n) == m2.spec_const(n) by {
        assert(m1.spec_const(n) == decl_const(d1, n));
        assert(m2.spec_const(n) == decl_const(d2, n));
    }
}

/// Dispatch finds exactly what was registered: a call whose name and
/// argument types are bound to `f` gives what `f` gives, adapted to the
/// script's errors, and a call on an unbound key reports `FunctionNotFound`.
pub proof fn lemma_dispatch<F: NativeFn + Copy>(
    m: Module<F>,
    name: Seq<char>,
    args: Seq<Value>,
    r: Result<Value, ScriptError>,
)
    requires
        call_outcome(m, name, args, r),
    ensures
        m.spec_lookup(name, tags_of(args)) matches Some(f) ==> exists|nr: Result<Value, NativeError>|
            #[trigger] f.spec_call(args, nr) && r == spec_adapt(nr),
        m.spec_lookup(name, tags_of(args)) is None ==> r matches Err(
            ScriptError::FunctionNotFound { .. },
        ),
{
}

/// Aliases are transparent: two names bound to one function with the same
/// signature give the same result on the same arguments, for a function
/// whose result the arguments decide.
pub proof fn lemma_alias_transparent<F: NativeFn + Copy>(
    m: Module<F>,
    f: F,
    a: Seq<char>,
    b: Seq<char>,
    args: Seq<Value>,
    ra: Result<Value, ScriptError>,
    rb: Result<Value, ScriptError>,
)
    requires
        m.spec_lookup(a, tags_of(args)) == Some(f),
        m.spec_lookup(b, tags_of(args)) == Some(f),
        forall|x: Result<Value, NativeError>, y: Result<Value, NativeError>|
            #[trigger] f.spec_call(args, x) && #[trigger] f.spec_call(args, y) ==> x == y,
        call_outcome(m, a, args, ra),
        call_outcome(m, b, args, rb),
    ensures
        ra == rb,
{
    let x = choose|x: Result<Value, NativeError>| #[trigger] f.spec_call(args, x) && ra == spec_adapt(x);
    let y = choose|y: Result<Value, NativeError>| #[trigger] f.spec_call(args, y) && rb == spec_adapt(y);
    assert(x == y);
}

/// Registering a key again overrides it: the last registration of a name and
/// signature is what the key is bound to, however many registrations of other
/// keys follow it.
pub proof fn lemma_reregister_overrides<F>(s: Seq<Entry<F>>, e: Entry<F>, rest: Seq<Entry<F>>)
    requires
        forall|i: int| 0 <= i < rest.len() ==> !(#[trigger] rest[i].name@ == e.name@ && rest[i].sig@
            == e.sig@),
    ensures
        lookup_in(s.push(e) + rest, e.name@, e.sig@) == Some(e.func),
    decreases rest.len(),
{
    if rest.len() == 0 {
        assert(s.push(e) + rest == s.push(e));
        assert(s.push(e).drop_last() == s);
    } else {
        assert((s.push(e) + rest).drop_last() == s.push(e) + rest.drop_last());
        assert(rest.last() == rest[rest.len() - 1]);
        lemma_reregister_overrides(s, e, rest.drop_last());
    }
}

/// Member access goes to the getter: reading property `prop` of a value
/// whose type has a getter `f` for it gives what `f` gives on that value.
pub proof fn lemma_getter_member_access<F: NativeFn + Copy>(
    m: Module<F>,
    prop: Seq<char>,
    receiver: Value,
    f: F,
    r: Result<Value, ScriptError>,
)
    requires
        m.spec_lookup(getter_name(prop), seq![receiver.spec_tag()]) == Some(f),
        call_outcome(m, getter_name(prop), seq![receiver], r),
    ensures
        exists|nr: Result<Value, NativeError>| #[trigger] f.spec_call(seq![receiver], nr) && r
            == spec_adapt(nr),
{
    assert(tags_of(seq![receiver]) =~= seq![receiver.spec_tag()]);
}

} // verus!
