//! Environments: scopes that bind symbols to values, chained to an outer scope.
//!
//! The scopes live in a store and refer to each other by index, so that a function value
//! can share the scope it was defined in. A scope's outer scope was always made before it.
use crate::text::str_equal;
use crate::types::{EnvId, ErrView, MalError, MalResult, MalValue, Val, result_view};
use vstd::prelude::*;
use vstd::string::StringExecFns;

verus! {

/// A symbol with the value bound to it.
#[derive(Debug)]
pub struct Binding {
    pub name: String,
    pub value: MalValue,
}

/// One scope: its own bindings and the scope it is chained to.
#[derive(Debug)]
pub struct Env {
    data: Vec<Binding>,
    outer: Option<EnvId>,
}

/// The mathematical model of a scope.
pub struct EnvView {
    pub bindings: Map<Seq<char>, Val>,
    pub outer: Option<EnvId>,
}

/// The map that a list of bindings stands for: a later binding of a name hides an earlier
/// one.
pub open spec fn bindings_map(s: Seq<Binding>) -> Map<Seq<char>, Val>
    decreases s.len(),
{
    if s.len() == 0 {
        Map::empty()
    } else {
        bindings_map(s.drop_last()).insert(s.last().name@, s.last().value@)
    }
}

/// A binding at the end is an insertion into the map.
proof fn lemma_bindings_push(s: Seq<Binding>, b: Binding)
    ensures
        bindings_map(s.push(b)) == bindings_map(s).insert(b.name@, b.value@),
{
    assert(s.push(b).drop_last() =~= s);
}

/// No binding of `name` at the indices from `from` on.
pub open spec fn absent_from(s: Seq<Binding>, name: Seq<char>, from: int) -> bool {
    forall|j: int| from <= j < s.len() ==> (#[trigger] s[j]).name@ != name
}

/// A name that no binding has is no key of the map.
proof fn lemma_bindings_absent(s: Seq<Binding>, name: Seq<char>)
    requires
        absent_from(s, name, 0),
    ensures
        !bindings_map(s).contains_key(name),
    decreases s.len(),
{
    if s.len() > 0 {
        lemma_bindings_absent(s.drop_last(), name);
    }
}

/// The last binding of a name is what the map holds for it.
proof fn lemma_bindings_last(s: Seq<Binding>, name: Seq<char>, i: int)
    requires
        0 <= i < s.len(),
        s[i].name@ == name,
        absent_from(s, name, i + 1),
    ensures
        bindings_map(s).contains_key(name),
        bindings_map(s)[name] == s[i].value@,
    decreases s.len(),
{
    if i < s.len() - 1 {
        lemma_bindings_last(s.drop_last(), name, i);
    }
}

/// Replacing the last binding of a name is an insertion into the map.
proof fn lemma_bindings_update(s: Seq<Binding>, i: int, b: Binding)
    requires
        0 <= i < s.len(),
        s[i].name@ == b.name@,
        absent_from(s, b.name@, i + 1),
    ensures
        bindings_map(s.update(i, b)) == bindings_map(s).insert(b.name@, b.value@),
    decreases s.len(),
{
    let t = s.update(i, b);
    if i == s.len() - 1 {
        assert(t.drop_last() =~= s.drop_last());
        assert(bindings_map(t) =~= bindings_map(s).insert(b.name@, b.value@));
    } else {
        lemma_bindings_update(s.drop_last(), i, b);
        assert(t.drop_last() =~= s.drop_last().update(i, b));
        assert(s.last().name@ != b.name@);
        assert(bindings_map(t) =~= bindings_map(s).insert(b.name@, b.value@));
    }
}

impl View for Env {
    type V = EnvView;

    closed spec fn view(&self) -> EnvView {
        EnvView { bindings: bindings_map(self.data@), outer: self.outer }
    }
}

impl Env {
    /// An empty scope without an outer scope.
    pub fn new() -> (r: Env)
        ensures
            r@ == (EnvView { bindings: Map::empty(), outer: None }),
    {
        Env { data: Vec::new(), outer: None }
    }

    /// An empty scope chained to `outer`.
    pub fn with_outer_env(outer: EnvId) -> (r: Env)
        ensures
            r@ == (EnvView { bindings: Map::empty(), outer: Some(outer) }),
    {
        Env { data: Vec::new(), outer: Some(outer) }
    }

    /// The scope that this one is chained to.
    pub fn outer(&self) -> (r: Option<EnvId>)
        ensures
            r == self@.outer,
    {
        self.outer
    }

    /// The index of the last binding of the name.
    fn position(&self, symbol_key: &str) -> (r: Option<usize>)
        ensures
            match r {
                Some(i) => i < self.data@.len() && self.data@[i as int].name@ == symbol_key@
                    && absent_from(self.data@, symbol_key@, i + 1),
                None => absent_from(self.data@, symbol_key@, 0),
            },
    {
        let mut i = self.data.len();
        while i > 0
            invariant
                i <= self.data@.len(),
                absent_from(self.data@, symbol_key@, i as int),
            decreases i,
        {
            i -= 1;
            if str_equal(self.data[i].name.as_str(), symbol_key) {
                return Some(i);
            }
        }
        None
    }

    /// Binds `symbol_key` to `val` in this scope, in place of an earlier binding of it.
    pub fn set(&mut self, symbol_key: &str, val: MalValue)
        ensures
            final(self)@.bindings == old(self)@.bindings.insert(symbol_key@, val@),
            final(self)@.outer == old(self)@.outer,
    {
        let binding = Binding { name: String::from_str(symbol_key), value: val };
        match self.position(symbol_key) {
            Some(i) => {
                proof {
                    lemma_bindings_update(self.data@, i as int, binding);
                }
                self.data.set(i, binding);
            },
            None => {
                proof {
                    lemma_bindings_push(self.data@, binding);
                }
                self.data.push(binding);
            },
        }
    }

    /// The value bound to `symbol_key` in this scope.
    pub fn find(&self, symbol_key: &str) -> (r: Option<MalValue>)
        ensures
            match r {
                Some(v) => self@.bindings.contains_key(symbol_key@) && v@
                    == self@.bindings[symbol_key@],
                None => !self@.bindings.contains_key(symbol_key@),
            },
    {
        match self.position(symbol_key) {
            Some(i) => {
                proof {
                    lemma_bindings_last(self.data@, symbol_key@, i as int);
                }
                Some(self.data[i].value.clone())
            },
            None => {
                proof {
                    lemma_bindings_absent(self.data@, symbol_key@);
                }
                None
            },
        }
    }

    /// The value bound to `symbol_key` in this scope, or the error that names the symbol.
    pub fn get(&self, symbol_key: &str) -> (r: MalResult)
        ensures
            result_view(r) == scope_get(self@, symbol_key@),
    {
        match self.find(symbol_key) {
            Some(v) => Ok(v),
            None => Err(MalError::UndefinedSymbol(String::from_str(symbol_key))),
        }
    }
}

/// What a lookup in one scope gives: the bound value, or the error that names the symbol.
pub open spec fn scope_get(env: EnvView, name: Seq<char>) -> Result<Val, ErrView> {
    if env.bindings.contains_key(name) {
        Ok(env.bindings[name])
    } else {
        Err(ErrView::UndefinedSymbol(name))
    }
}

/// The store of all scopes. A scope is named by its index.
#[derive(Debug)]
pub struct Envs {
    scopes: Vec<Env>,
}

/// The scope that a lookup moves to from scope `id`: its outer scope, where that scope
/// was made before it.
pub open spec fn outer_of(envs: Seq<EnvView>, id: EnvId) -> Option<EnvId> {
    if id < envs.len() {
        match envs[id as int].outer {
            Some(j) => if j < id {
                Some(j)
            } else {
                None
            },
            None => None,
        }
    } else {
        None
    }
}

/// What a lookup of `name` gives that starts in scope `id` and goes outward.
pub open spec fn chain_get(envs: Seq<EnvView>, id: EnvId, name: Seq<char>) -> Result<Val, ErrView>
    decreases id,
{
    if id < envs.len() && envs[id as int].bindings.contains_key(name) {
        Ok(envs[id as int].bindings[name])
    } else {
        match outer_of(envs, id) {
            Some(j) => chain_get(envs, j, name),
            None => Err(ErrView::UndefinedSymbol(name)),
        }
    }
}

/// The store after `name` was bound to `value` in scope `id`; unchanged where there is no
/// such scope.
pub open spec fn chain_set(envs: Seq<EnvView>, id: EnvId, name: Seq<char>, value: Val) -> Seq<
    EnvView,
> {
    if id < envs.len() {
        envs.update(
            id as int,
            EnvView { bindings: envs[id as int].bindings.insert(name, value), outer: envs[id as int].outer },
        )
    } else {
        envs
    }
}

/// The scope that binds the first `n` names to the values at the same positions.
pub open spec fn bind_all(names: Seq<Seq<char>>, values: Seq<Val>, n: nat) -> Map<Seq<char>, Val>
    decreases n,
{
    if n == 0 {
        Map::empty()
    } else {
        bind_all(names, values, (n - 1) as nat).insert(names[n - 1], values[n - 1])
    }
}

impl View for Envs {
    type V = Seq<EnvView>;

    closed spec fn view(&self) -> Seq<EnvView> {
        Seq::new(self.scopes@.len(), |i: int| self.scopes@[i]@)
    }
}

impl Envs {
    /// A store without scopes.
    pub fn new() -> (r: Envs)
        ensures
            r@ == Seq::<EnvView>::empty(),
    {
        let r = Envs { scopes: Vec::new() };
        assert(r@ =~= Seq::<EnvView>::empty());
        r
    }

    /// The number of scopes.
    pub fn len(&self) -> (r: usize)
        ensures
            r == self@.len(),
    {
        self.scopes.len()
    }

    /// Adds a scope and gives its handle.
    pub fn insert(&mut self, env: Env) -> (r: EnvId)
        ensures
            final(self)@ == old(self)@.push(env@),
            r == old(self)@.len(),
    {
        let id = self.scopes.len();
        self.scopes.push(env);
        assert(self@ =~= old(self)@.push(env@));
        id
    }

    /// Adds an empty root scope.
    pub fn new_env(&mut self) -> (r: EnvId)
        ensures
            final(self)@ == old(self)@.push(EnvView { bindings: Map::empty(), outer: None }),
            r == old(self)@.len(),
    {
        self.insert(Env::new())
    }

    /// Adds an empty scope chained to `outer`.
    pub fn with_outer_env(&mut self, outer: EnvId) -> (r: EnvId)
        ensures
            final(self)@ == old(self)@.push(
                EnvView { bindings: Map::empty(), outer: Some(outer) },
            ),
            r == old(self)@.len(),
    {
        self.insert(Env::with_outer_env(outer))
    }

    /// Adds a scope chained to `outer` that binds each parameter to the argument at the
    /// same position. Fails, and adds nothing, where the counts differ.
    pub fn with_binds(&mut self, outer: Option<EnvId>, params: &Vec<String>, args: &[MalValue]) -> (r:
        Result<EnvId, MalError>)
        ensures
            params@.len() == args@.len() ==> (r matches Ok(id) && id == old(self)@.len()),
            params@.len() == args@.len() ==> final(self)@ == old(self)@.push(
                EnvView {
                    bindings: bind_all(
                        crate::types::name_views(params@),
                        crate::types::views(args@),
                        params@.len(),
                    ),
                    outer,
                },
            ),
            params@.len() != args@.len() ==> result_view_id(r) == Err::<EnvId, ErrView>(
                arity_error(params@.len(), args@.len()),
            ) && final(self)@ == old(self)@,
    {
        if params.len() != args.len() {
            return Err(MalError::Evaluation(arity_message(params.len(), args.len())));
        }
        let mut env = match outer {
            Some(o) => Env::with_outer_env(o),
            None => Env::new(),
        };
        let mut i: usize = 0;
        while i < params.len()
            invariant
                i <= params@.len(),
                params@.len() == args@.len(),
                env@.outer == outer,
                env@.bindings == bind_all(
                    crate::types::name_views(params@),
                    crate::types::views(args@),
                    i as nat,
                ),
            decreases params.len() - i,
        {
            env.set(params[i].as_str(), args[i].clone());
            i += 1;
        }
        Ok(self.insert(env))
    }

    /// Binds `name` to `value` in scope `env` and in no other; does nothing where the store
    /// has no such scope.
    pub fn set(&mut self, env: EnvId, name: &str, value: MalValue)
        ensures
            final(self)@ == chain_set(old(self)@, env, name@, value@),
    {
        if env < self.scopes.len() {
            let mut scope = Env::new();
            std::mem::swap(&mut scope, &mut self.scopes[env]);
            scope.set(name, value);
            self.scopes.set(env, scope);
            assert(self@ =~= chain_set(old(self)@, env, name@, value@));
        }
    }

    /// Looks `name` up in scope `env`, then in each outer scope in turn.
    pub fn get(&self, env: EnvId, name: &str) -> (r: MalResult)
        ensures
            result_view(r) == chain_get(self@, env, name@),
    {
        let mut cur = env;
        loop
            invariant
                chain_get(self@, env, name@) == chain_get(self@, cur, name@),
            decreases cur,
        {
            if cur >= self.scopes.len() {
                return Err(MalError::UndefinedSymbol(String::from_str(name)));
            }
            match self.scopes[cur].find(name) {
                Some(v) => {
                    return Ok(v);
                },
                None => {},
            }
            match self.scopes[cur].outer() {
                Some(j) => {
                    if j < cur {
                        cur = j;
                    } else {
                        return Err(MalError::UndefinedSymbol(String::from_str(name)));
                    }
                },
                None => {
                    return Err(MalError::UndefinedSymbol(String::from_str(name)));
                },
            }
        }
    }
}

/// The model of the result of making a scope.
pub open spec fn result_view_id(r: Result<EnvId, MalError>) -> Result<EnvId, ErrView> {
    match r {
        Ok(id) => Ok(id),
        Err(e) => Err(e@),
    }
}

/// The error of a call with the wrong number of arguments.
pub open spec fn arity_error(expected: nat, actual: nat) -> ErrView {
    ErrView::Evaluation(arity_text(expected, actual))
}

/// The message of a call with the wrong number of arguments.
pub open spec fn arity_text(expected: nat, actual: nat) -> Seq<char> {
    "Expected "@ + crate::text::decimal(expected) + " arguments, got "@ + crate::text::decimal(
        actual,
    )
}

/// The message of a call with the wrong number of arguments.
fn arity_message(expected: usize, actual: usize) -> (r: String)
    ensures
        r@ == arity_text(expected as nat, actual as nat),
{
    let mut s = String::from_str("Expected ");
    crate::text::push_decimal(&mut s, expected);
    s.append(" arguments, got ");
    crate::text::push_decimal(&mut s, actual);
    s
}

} // verus!
