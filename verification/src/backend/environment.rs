//! The scope chain: a stack of scopes, each a mapping from names to values.
//! The bottom scope is the global one and is never removed.

use crate::backend::runtime_error::{RuntimeError, RuntimeErrorKind};
use crate::backend::value::{Value, ValueView};
use crate::text::{chars_of, same_chars};
use vstd::prelude::*;
use vstd::std_specs::convert::FromSpecImpl;
use vstd::string::*;

verus! {

/// Why a name could not be read or assigned.
#[derive(Debug)]
pub enum EnvError {
    UndefinedVariable { name: String },
}

pub enum EnvErrorView {
    UndefinedVariable { name: Seq<char> },
}

impl View for EnvError {
    type V = EnvErrorView;

    open spec fn view(&self) -> EnvErrorView {
        match self {
            EnvError::UndefinedVariable { name } => EnvErrorView::UndefinedVariable { name: name@ },
        }
    }
}

impl From<EnvError> for RuntimeError {
    fn from(value: EnvError) -> (r: RuntimeError) {
        match value {
            EnvError::UndefinedVariable { name } => RuntimeError {
                kind: RuntimeErrorKind::UndefinedVariable { name },
            },
        }
    }
}

impl FromSpecImpl<EnvError> for RuntimeError {
    open spec fn obeys_from_spec() -> bool {
        true
    }

    open spec fn from_spec(value: EnvError) -> RuntimeError {
        match value {
            EnvError::UndefinedVariable { name } => RuntimeError {
                kind: RuntimeErrorKind::UndefinedVariable { name },
            },
        }
    }
}

/// The scope chain as a sequence of mappings: the global scope first, the
/// innermost scope last.
pub struct EnvView {
    pub scopes: Seq<Map<Seq<char>, ValueView>>,
}

impl EnvView {
    pub open spec fn depth(self) -> nat {
        self.scopes.len()
    }

    /// The innermost scope.
    pub open spec fn top(self) -> Map<Seq<char>, ValueView> {
        self.scopes.last()
    }

    /// With one more scope, empty, on top.
    pub open spec fn begin_scope(self) -> EnvView {
        EnvView { scopes: self.scopes.push(Map::empty()) }
    }

    /// Without the innermost scope; unchanged where only the global scope is
    /// left.
    pub open spec fn end_scope(self) -> EnvView {
        if self.scopes.len() > 1 {
            EnvView { scopes: self.scopes.drop_last() }
        } else {
            self
        }
    }

    /// With `name` bound to `value` in the innermost scope.
    pub open spec fn define(self, name: Seq<char>, value: ValueView) -> EnvView {
        EnvView {
            scopes: self.scopes.update(self.scopes.len() - 1, self.top().insert(name, value)),
        }
    }

    /// The innermost of the scopes below `limit` that holds `name`.
    pub open spec fn holder_below(self, name: Seq<char>, limit: int) -> Option<int>
        decreases limit,
    {
        if limit <= 0 {
            None
        } else if self.scopes[limit - 1].contains_key(name) {
            Some(limit - 1)
        } else {
            self.holder_below(name, limit - 1)
        }
    }

    /// The innermost scope that holds `name`.
    pub open spec fn holder(self, name: Seq<char>) -> Option<int> {
        self.holder_below(name, self.scopes.len() as int)
    }

    /// The value of `name` in the innermost scope that holds it.
    pub open spec fn get(self, name: Seq<char>) -> Option<ValueView> {
        match self.holder(name) {
            Some(i) => Some(self.scopes[i][name]),
            None => None,
        }
    }

    /// With `name` rebound to `value` in the innermost scope that holds it;
    /// nothing where no scope does.
    pub open spec fn assign(self, name: Seq<char>, value: ValueView) -> Option<EnvView> {
        match self.holder(name) {
            Some(i) => Some(EnvView { scopes: self.scopes.update(i, self.scopes[i].insert(name, value)) }),
            None => None,
        }
    }
}

/// The innermost holder of a name is a scope that holds it, and no scope
/// above it does; there is none exactly where no scope holds the name.
pub proof fn lemma_holder(env: EnvView, name: Seq<char>)
    ensures
        match env.holder(name) {
            Some(i) => {
                &&& 0 <= i < env.depth()
                &&& env.scopes[i].contains_key(name)
                &&& forall|k: int| i < k < env.depth() ==> !env.scopes[k].contains_key(name)
            },
            None => forall|k: int| 0 <= k < env.depth() ==> !env.scopes[k].contains_key(name),
        },
{
    lemma_holder_below(env, name, env.scopes.len() as int);
}

proof fn lemma_holder_below(env: EnvView, name: Seq<char>, limit: int)
    requires
        0 <= limit <= env.depth(),
    ensures
        match env.holder_below(name, limit) {
            Some(i) => {
                &&& 0 <= i < limit
                &&& env.scopes[i].contains_key(name)
                &&& forall|k: int| i < k < limit ==> !env.scopes[k].contains_key(name)
            },
            None => forall|k: int| 0 <= k < limit ==> !env.scopes[k].contains_key(name),
        },
    decreases limit,
{
    if limit > 0 && !env.scopes[limit - 1].contains_key(name) {
        lemma_holder_below(env, name, limit - 1);
    }
}

/// Reading or assigning a name that no scope holds gives nothing, and a name
/// that some scope holds can be read and assigned.
pub proof fn lemma_undefined_name(env: EnvView, name: Seq<char>, value: ValueView)
    ensures
        (forall|k: int| 0 <= k < env.depth() ==> !env.scopes[k].contains_key(name)) <==> env.get(
            name,
        ) is None,
        env.get(name) is None <==> env.assign(name, value) is None,
{
    lemma_holder(env, name);
}

/// A scope that is opened and closed again leaves the chain as it was.
pub proof fn lemma_scope_closed(env: EnvView)
    requires
        env.depth() >= 1,
    ensures
        env.begin_scope().end_scope() == env,
{
    assert(env.begin_scope().end_scope().scopes =~= env.scopes);
}

/// What is defined in an inner scope is gone when the scope ends: the chain
/// is then the one that ending the scope without the definition gives.
pub proof fn lemma_definition_scoped(env: EnvView, name: Seq<char>, value: ValueView)
    requires
        env.depth() >= 2,
    ensures
        env.define(name, value).end_scope() == env.end_scope(),
{
    assert(env.define(name, value).end_scope().scopes =~= env.end_scope().scopes);
}

/// Shadowing: a name defined inside a block has the block's value while the
/// block lasts; after the block every name, that one too, is bound as it was
/// before the block.
pub proof fn lemma_shadowing(env: EnvView, name: Seq<char>, value: ValueView, other: Seq<char>)
    requires
        env.depth() >= 1,
    ensures
        env.begin_scope().define(name, value).get(name) == Some(value),
        env.begin_scope().define(name, value).end_scope() == env,
        env.begin_scope().define(name, value).end_scope().get(other) == env.get(other),
{
    let inner = env.begin_scope().define(name, value);
    assert(inner.scopes[inner.scopes.len() - 1].contains_key(name));
    lemma_definition_scoped(env.begin_scope(), name, value);
    lemma_scope_closed(env);
}

/// A definition is seen by a read of the same name at once, whatever the
/// scopes below hold, and leaves every other name as it was.
pub proof fn lemma_define_then_get(env: EnvView, name: Seq<char>, value: ValueView, other: Seq<char>)
    requires
        env.depth() >= 1,
        other != name,
    ensures
        env.define(name, value).get(name) == Some(value),
        env.define(name, value).get(other) == env.get(other),
{
    let after = env.define(name, value);
    assert(after.scopes[after.scopes.len() - 1].contains_key(name));
    lemma_same_holder(env, after, other, env.scopes.len() as int);
}

proof fn lemma_same_holder(a: EnvView, b: EnvView, name: Seq<char>, limit: int)
    requires
        0 <= limit <= a.depth(),
        a.depth() == b.depth(),
        forall|k: int|
            0 <= k < limit ==> a.scopes[k].contains_key(name) == b.scopes[k].contains_key(name),
        forall|k: int|
            0 <= k < limit && a.scopes[k].contains_key(name) ==> a.scopes[k][name]
                == b.scopes[k][name],
    ensures
        a.holder_below(name, limit) == b.holder_below(name, limit),
        a.holder_below(name, limit) matches Some(i) ==> a.scopes[i][name] == b.scopes[i][name],
    decreases limit,
{
    if limit > 0 && !a.scopes[limit - 1].contains_key(name) {
        lemma_same_holder(a, b, name, limit - 1);
    }
}

#[derive(Debug)]
struct Binding {
    name: Vec<char>,
    value: Value,
}

/// The mapping that a list of bindings stands for: a later binding of a name
/// replaces an earlier one.
spec fn bindings_view(bindings: Seq<Binding>) -> Map<Seq<char>, ValueView>
    decreases bindings.len(),
{
    if bindings.len() == 0 {
        Map::empty()
    } else {
        bindings_view(bindings.drop_last()).insert(bindings.last().name@, bindings.last().value@)
    }
}

proof fn lemma_bindings_absent(bindings: Seq<Binding>, name: Seq<char>)
    requires
        forall|i: int| 0 <= i < bindings.len() ==> bindings[i].name@ != name,
    ensures
        !bindings_view(bindings).contains_key(name),
    decreases bindings.len(),
{
    if bindings.len() > 0 {
        lemma_bindings_absent(bindings.drop_last(), name);
    }
}

proof fn lemma_bindings_found(bindings: Seq<Binding>, name: Seq<char>, j: int)
    requires
        0 <= j < bindings.len(),
        bindings[j].name@ == name,
        forall|i: int| j < i < bindings.len() ==> bindings[i].name@ != name,
    ensures
        bindings_view(bindings).contains_key(name),
        bindings_view(bindings)[name] == bindings[j].value@,
    decreases bindings.len(),
{
    if j < bindings.len() - 1 {
        lemma_bindings_found(bindings.drop_last(), name, j);
    }
}

proof fn lemma_bindings_replaced(bindings: Seq<Binding>, j: int, binding: Binding)
    requires
        0 <= j < bindings.len(),
        bindings[j].name@ == binding.name@,
        forall|i: int| j < i < bindings.len() ==> bindings[i].name@ != binding.name@,
    ensures
        bindings_view(bindings.update(j, binding)) == bindings_view(bindings).insert(
            binding.name@,
            binding.value@,
        ),
    decreases bindings.len(),
{
    let updated = bindings.update(j, binding);
    if j == bindings.len() - 1 {
        assert(updated.drop_last() =~= bindings.drop_last());
        assert(bindings_view(updated) =~= bindings_view(bindings).insert(
            binding.name@,
            binding.value@,
        ));
    } else {
        lemma_bindings_replaced(bindings.drop_last(), j, binding);
        assert(updated.drop_last() =~= bindings.drop_last().update(j, binding));
        assert(bindings_view(updated) =~= bindings_view(bindings).insert(
            binding.name@,
            binding.value@,
        ));
    }
}

#[derive(Debug)]
struct Scope {
    bindings: Vec<Binding>,
}

impl View for Scope {
    type V = Map<Seq<char>, ValueView>;

    closed spec fn view(&self) -> Map<Seq<char>, ValueView> {
        bindings_view(self.bindings@)
    }
}

impl Scope {
    fn new() -> (r: Scope)
        ensures
            r@ == Map::<Seq<char>, ValueView>::empty(),
    {
        Scope { bindings: Vec::new() }
    }

    /// The place of the binding of `name` that counts, if there is one.
    fn find(&self, name: &Vec<char>) -> (r: Option<usize>)
        ensures
            r is Some == self@.contains_key(name@),
            r matches Some(j) ==> {
                &&& j < self.bindings@.len()
                &&& self.bindings@[j as int].name@ == name@
                &&& self.bindings@[j as int].value@ == self@[name@]
                &&& forall|i: int| j < i < self.bindings@.len() ==> self.bindings@[i].name@ != name@
            },
    {
        let mut i: usize = self.bindings.len();
        while i > 0
            invariant
                i <= self.bindings@.len(),
                forall|k: int| i <= k < self.bindings@.len() ==> self.bindings@[k].name@ != name@,
            decreases i,
        {
            i -= 1;
            if same_chars(&self.bindings[i].name, name) {
                proof {
                    lemma_bindings_found(self.bindings@, name@, i as int);
                }
                return Some(i);
            }
        }
        proof {
            lemma_bindings_absent(self.bindings@, name@);
        }
        None
    }

    fn set(&mut self, name: Vec<char>, value: Value)
        ensures
            final(self)@ == old(self)@.insert(name@, value@),
    {
        match self.find(&name) {
            Some(j) => {
                let binding = Binding { name, value };
                proof {
                    lemma_bindings_replaced(self.bindings@, j as int, binding);
                }
                self.bindings[j] = binding;
            },
            None => {
                let ghost before = self.bindings@;
                self.bindings.push(Binding { name, value });
                assert(self.bindings@.drop_last() =~= before);
            },
        }
    }
}

/// The scope chain.
#[derive(Debug)]
pub struct Env {
    scopes: Vec<Scope>,
}

impl View for Env {
    type V = EnvView;

    closed spec fn view(&self) -> EnvView {
        EnvView { scopes: Seq::new(self.scopes@.len(), |i: int| self.scopes@[i]@) }
    }
}

impl Env {
    /// An environment always holds its global scope.
    pub open spec fn wf(&self) -> bool {
        self@.depth() >= 1
    }

    /// An environment with the global scope alone, empty.
    pub fn new() -> (r: Self)
        ensures
            r.wf(),
            r@.scopes == seq![Map::<Seq<char>, ValueView>::empty()],
    {
        let mut scopes: Vec<Scope> = Vec::new();
        scopes.push(Scope::new());
        let r = Env { scopes };
        assert(r@.scopes =~= seq![Map::<Seq<char>, ValueView>::empty()]);
        r
    }

    /// The number of scopes, the global one included.
    pub fn depth(&self) -> (r: usize)
        ensures
            r == self@.depth(),
    {
        self.scopes.len()
    }

    /// Opens a scope.
    pub fn begin_scope(&mut self)
        requires
            old(self).wf(),
        ensures
            final(self).wf(),
            final(self)@ == old(self)@.begin_scope(),
    {
        self.scopes.push(Scope::new());
        assert(self@.scopes =~= old(self)@.begin_scope().scopes);
    }

    /// Closes the innermost scope. The global scope stays.
    pub fn end_scope(&mut self)
        requires
            old(self).wf(),
        ensures
            final(self).wf(),
            final(self)@ == old(self)@.end_scope(),
    {
        if self.scopes.len() > 1 {
            self.scopes.pop();
            assert(self@.scopes =~= old(self)@.end_scope().scopes);
        }
    }

    /// Binds `name` to `value` in the innermost scope, whether or not the
    /// scope held the name before.
    pub fn define(&mut self, name: &str, value: &Value)
        requires
            old(self).wf(),
        ensures
            final(self).wf(),
            final(self)@ == old(self)@.define(name@, value@),
    {
        let top = self.scopes.len() - 1;
        self.scopes[top].set(chars_of(name), value.clone());
        assert(self@.scopes =~= old(self)@.define(name@, value@).scopes);
    }

    /// The innermost scope that holds `name`, if any.
    fn resolve(&self, name: &Vec<char>) -> (r: Option<usize>)
        ensures
            r is Some == self@.holder(name@) is Some,
            r matches Some(i) ==> self@.holder(name@) == Some(i as int) && i < self.scopes@.len()
                && self.scopes@[i as int]@.contains_key(name@),
    {
        let mut i: usize = self.scopes.len();
        while i > 0
            invariant
                i <= self.scopes@.len(),
                self@.holder(name@) == self@.holder_below(name@, i as int),
            decreases i,
        {
            i -= 1;
            if self.scopes[i].find(name).is_some() {
                return Some(i);
            }
        }
        None
    }

    /// Reads `name`: the value that the innermost scope holding it binds it
    /// to.
    pub fn get(&self, name: &str) -> (r: Result<&Value, EnvError>)
        requires
            self.wf(),
        ensures
            match r {
                Ok(value) => self@.get(name@) == Some(value@),
                Err(e) => self@.get(name@) is None && e@ == (EnvErrorView::UndefinedVariable {
                    name: name@,
                }),
            },
    {
        let key = chars_of(name);
        match self.resolve(&key) {
            Some(i) => {
                match self.scopes[i].find(&key) {
                    Some(j) => Ok(&self.scopes[i].bindings[j].value),
                    None => Err(EnvError::UndefinedVariable { name: name.to_owned() }),
                }
            },
            None => Err(EnvError::UndefinedVariable { name: name.to_owned() }),
        }
    }

    /// Rebinds `name` in the innermost scope that holds it. A name that no
    /// scope holds is not created.
    pub fn assign(&mut self, name: &str, value: &Value) -> (r: Result<(), EnvError>)
        requires
            old(self).wf(),
        ensures
            final(self).wf(),
            match r {
                Ok(_) => old(self)@.assign(name@, value@) == Some(final(self)@),
                Err(e) => old(self)@.assign(name@, value@) is None && final(self)@ == old(self)@
                    && e@ == (EnvErrorView::UndefinedVariable { name: name@ }),
            },
    {
        let key = chars_of(name);
        match self.resolve(&key) {
            Some(i) => {
                self.scopes[i].set(key, value.clone());
                assert(self@.scopes =~= old(self)@.assign(name@, value@)->0.scopes);
                Ok(())
            },
            None => Err(EnvError::UndefinedVariable { name: name.to_owned() }),
        }
    }
}

} // verus!
