use vstd::prelude::*;
use crate::registry::{Module, NativeFn};
use crate::value::{ScriptError, Value};

verus! {

/// One import path and the module it stands for.
pub struct ResolverEntry<F> {
    pub path: String,
    pub module: Module<F>,
}

/// A table from import paths to pre-built modules, filled before scripts run.
/// A later insertion under the same path shadows an earlier one.
pub struct StaticModuleResolver<F> {
    pub entries: Vec<ResolverEntry<F>>,
}

/// The module that a log of entries binds to a path: the last one inserted.
pub open spec fn resolve_in<F>(s: Seq<ResolverEntry<F>>, path: Seq<char>) -> Option<Module<F>>
    decreases s.len(),
{
    if s.len() == 0 {
        None
    } else if s.last().path@ == path {
        Some(s.last().module)
    } else {
        resolve_in(s.drop_last(), path)
    }
}

impl<F: NativeFn + Copy> StaticModuleResolver<F> {
    /// The module bound to `path`.
    pub open spec fn spec_resolve(&self, path: Seq<char>) -> Option<Module<F>> {
        resolve_in(self.entries@, path)
    }

    /// What `import path` then `name` reads: the constant of that name in the
    /// module bound to the path.
    pub open spec fn spec_import(&self, path: Seq<char>, name: Seq<char>) -> Option<Value> {
        match self.spec_resolve(path) {
            Some(m) => m.spec_const(name),
            None => None,
        }
    }

    /// An empty table.
    pub fn new() -> (r: Self)
        ensures
            forall|p: Seq<char>| #[trigger] r.spec_resolve(p) is None,
    {
        StaticModuleResolver { entries: Vec::new() }
    }

    /// Binds `module` to `path`; every other path keeps its binding.
    pub fn insert(&mut self, path: &str, module: Module<F>)
        ensures
            final(self).spec_resolve(path@) == Some(module),
            forall|p: Seq<char>|
                p != path@ ==> #[trigger] final(self).spec_resolve(p) == old(self).spec_resolve(p),
    {
        self.entries.push(ResolverEntry { path: String::from_str(path), module });
        proof {
            assert(self.entries@.drop_last() == old(self).entries@);
        }
    }

    /// The module bound to exactly `path`; `ModuleNotFound` naming the path
    /// when there is none.
    pub fn resolve(&self, path: &str) -> (r: Result<&Module<F>, ScriptError>)
        ensures
            r matches Ok(m) ==> self.spec_resolve(path@) == Some(*m),
            r is Err ==> self.spec_resolve(path@) is None,
            r matches Err(e) ==> (e matches ScriptError::ModuleNotFound(p) && p@ == path@),
    {
        let key = String::from_str(path);
        let mut i: usize = self.entries.len();
        proof {
            assert(self.entries@.take(i as int) == self.entries@);
        }
        while i > 0
            invariant
                i <= self.entries@.len(),
                key@ == path@,
                resolve_in(self.entries@, path@) == resolve_in(self.entries@.take(i as int), path@),
            decreases i,
        {
            proof {
                let t = self.entries@.take(i as int);
                assert(t.last() == self.entries@[i - 1]);
                assert(t.drop_last() == self.entries@.take(i - 1));
            }
            if self.entries[i - 1].path == key {
                return Ok(&self.entries[i - 1].module);
            }
            i = i - 1;
        }
        Err(ScriptError::ModuleNotFound(key))
    }

    /// `import path` followed by a read of the constant `name`: fails with
    /// `ModuleNotFound` when the path is unbound, and with `VariableNotFound`
    /// when the module has no such constant.
    pub fn import_const(&self, path: &str, name: &str) -> (r: Result<&Value, ScriptError>)
        ensures
            r is Ok <==> self.spec_import(path@, name@) is Some,
            r matches Ok(v) ==> self.spec_import(path@, name@) == Some(*v),
            self.spec_resolve(path@) is None <==> r matches Err(ScriptError::ModuleNotFound(_)),
            r matches Err(ScriptError::ModuleNotFound(p)) ==> p@ == path@,
            self.spec_import(path@, name@) is None && self.spec_resolve(path@) is Some
                <==> r matches Err(ScriptError::VariableNotFound(_)),
            r matches Err(ScriptError::VariableNotFound(n)) ==> n@ == name@,
    {
        match self.resolve(path) {
            Err(e) => Err(e),
            Ok(m) => match m.get_const(name) {
                Some(v) => Ok(v),
                None => Err(ScriptError::VariableNotFound(String::from_str(name))),
            },
        }
    }
}

/// Resolution reads what was inserted: once an entry for `path` is added,
/// the path resolves to its module, every other path keeps its binding, and
/// importing a constant through the path gives the constant that the module
/// holds, the same on every import.
pub proof fn lemma_insert_then_resolve<F: NativeFn + Copy>(
    before: StaticModuleResolver<F>,
    after: StaticModuleResolver<F>,
    e: ResolverEntry<F>,
)
    requires
        after.entries@ == before.entries@.push(e),
    ensures
        after.spec_resolve(e.path@) == Some(e.module),
        forall|p: Seq<char>| p != e.path@ ==> #[trigger] after.spec_resolve(p) == before.spec_resolve(p),
        forall|n: Seq<char>| #[trigger] after.spec_import(e.path@, n) == e.module.spec_const(n),
{
    assert(after.entries@.drop_last() == before.entries@);
}

} // verus!
