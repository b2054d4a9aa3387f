//! What evaluation comes to, said in one piece: the value of a form in terms of the
//! values of its parts.
//!
//! The machine of the evaluator takes steps; the functions here say where the steps
//! lead. Each gives the result, the environments and cells after it, and the number of
//! steps that the machine takes to get there, provided that `fuel` levels of nesting
//! suffice and that the host is not needed on the way.
use crate::atoms::cell_set;
use crate::builtins::{call_result, map_value, NextView};
use crate::env::{arity_error, bind_all, chain_get, chain_set, EnvView};
use crate::eval::{
    all_symbols, expected_function_error, form_count_error, form_error, form_items, interleaved,
    let_bindings, let_body, map_entries, not_a_function_error, sequence_items, symbol_name,
    symbol_names,
};
use crate::map::map_assoc_result;
use crate::types::{EnvId, ErrView, Kind, Val};
use vstd::prelude::*;

verus! {

/// The environments and the mutable cells.
pub struct Store {
    pub envs: Seq<EnvView>,
    pub atoms: Seq<Val>,
}

impl Store {
    /// The store with `name` bound to `v` in scope `env`.
    pub open spec fn bind(self, env: EnvId, name: Seq<char>, v: Val) -> Store {
        Store { envs: chain_set(self.envs, env, name, v), ..self }
    }

    /// The store with one more scope; its handle is the number of scopes before.
    pub open spec fn with_scope(self, scope: EnvView) -> Store {
        Store { envs: self.envs.push(scope), ..self }
    }
}

/// What an evaluation comes to: its result, the store after it, and the number of steps
/// of the machine.
pub struct Big {
    pub result: Result<Val, ErrView>,
    pub store: Store,
    pub steps: nat,
}

/// An evaluation that has come to `result` after `steps` steps.
pub open spec fn ends(result: Result<Val, ErrView>, store: Store, steps: nat) -> Option<Big> {
    Some(Big { result, store, steps })
}

/// The same outcome after `steps` further steps.
pub open spec fn later(b: Option<Big>, steps: nat) -> Option<Big> {
    match b {
        Some(b) => Some(Big { steps: b.steps + steps, ..b }),
        None => None,
    }
}

/// The value of the form `ast` in the environment `env`.
///
/// The empty list and every value that is neither a list, a symbol, a vector nor a map is
/// its own value. A symbol has the value that it is bound to. A vector has the vector of
/// the values of its elements, a map the map of the values of its values. A list that
/// starts with one of the symbols `def!`, `let*`, `fn*`, `do` and `if` is a special form;
/// any other list is an application: the value of its first element is applied to the
/// values of the others.
pub open spec fn big_eval(fuel: nat, s: Store, ast: Val, env: EnvId) -> Option<Big>
    decreases fuel,
{
    if fuel == 0 {
        None
    } else {
        match ast.kind {
            Kind::List(items) => if items.len() == 0 {
                ends(Ok(ast), s, 1)
            } else {
                match symbol_name(items[0]) {
                    Some(name) => if name == "def!"@ {
                        big_def(fuel, s, items, env)
                    } else if name == "let*"@ {
                        big_let_form(fuel, s, ast, items, env)
                    } else if name == "fn*"@ {
                        big_fn(s, items, env)
                    } else if name == "do"@ {
                        later(big_do((fuel - 1) as nat, s, ast, 1, env), 1)
                    } else if name == "if"@ {
                        big_if(fuel, s, items, env)
                    } else {
                        later(big_elements((fuel - 1) as nat, s, ast, seq![], env), 1)
                    },
                    None => later(big_elements((fuel - 1) as nat, s, ast, seq![], env), 1),
                }
            },
            Kind::Symbol(name) => ends(chain_get(s.envs, env, name), s, 1),
            Kind::Vector(items) => if items.len() == 0 {
                ends(Ok(Val::vector(seq![])), s, 1)
            } else {
                later(big_elements((fuel - 1) as nat, s, ast, seq![], env), 1)
            },
            Kind::HashMap(entries) => if entries.len() == 0 {
                ends(Ok(Val::plain(Kind::HashMap(seq![]))), s, 1)
            } else {
                later(big_values((fuel - 1) as nat, s, ast, seq![], env), 1)
            },
            _ => ends(Ok(ast), s, 1),
        }
    }
}

/// `(def! name expr)`: the value of `expr`, which is bound to `name` in `env`.
pub open spec fn big_def(fuel: nat, s: Store, items: Seq<Val>, env: EnvId) -> Option<Big>
    decreases fuel, 0nat,
{
    if fuel == 0 {
        None
    } else if items.len() != 3 {
        ends(
            Err(form_count_error("def! expected 2 arguments, got "@, (items.len() - 1) as nat)),
            s,
            1,
        )
    } else {
        match symbol_name(items[1]) {
            None => ends(
                Err(form_error("def! first argument must be a valid symbol name"@)),
                s,
                1,
            ),
            Some(name) => match big_eval((fuel - 1) as nat, s, items[2], env) {
                None => None,
                Some(b) => match b.result {
                    Err(e) => ends(Err(e), b.store, b.steps + 1),
                    Ok(v) => ends(Ok(v), b.store.bind(env, name, v), b.steps + 2),
                },
            },
        }
    }
}

/// `(let* bindings body)`: the value of `body` in a new scope inside `env`, in which the
/// names of `bindings` are bound, one after the other, to the values of their
/// expressions in that scope.
pub open spec fn big_let_form(fuel: nat, s: Store, ast: Val, items: Seq<Val>, env: EnvId) -> Option<
    Big,
>
    decreases fuel, 0nat,
{
    if fuel == 0 {
        None
    } else if items.len() != 3 {
        ends(
            Err(form_count_error("let* expected 2 arguments, got "@, (items.len() - 1) as nat)),
            s,
            1,
        )
    } else {
        match items[1].items() {
            None => ends(
                Err(form_error("let* first argument must be a list or a vector"@)),
                s,
                1,
            ),
            Some(b) => if b.len() % 2 != 0 {
                ends(
                    Err(form_error("let* bindings list must have an even number of elements"@)),
                    s,
                    1,
                )
            } else {
                later(
                    big_let(
                        (fuel - 1) as nat,
                        s.with_scope(EnvView { bindings: Map::empty(), outer: Some(env) }),
                        ast,
                        0,
                        s.envs.len() as usize,
                    ),
                    1,
                )
            },
        }
    }
}

/// The bindings of the `let*` form `ast` from the one at `index` on, and then its body,
/// in the scope `env` of the form.
pub open spec fn big_let(fuel: nat, s: Store, ast: Val, index: int, env: EnvId) -> Option<Big>
    decreases fuel,
{
    let b = let_bindings(ast);
    if fuel == 0 || index > usize::MAX {
        None
    } else if 0 <= index && index + 1 < b.len() {
        match symbol_name(b[index]) {
            None => ends(
                Err(
                    form_error(
                        "let* odd numbered elements of binding list must be valid symbol names"@,
                    ),
                ),
                s,
                0,
            ),
            Some(name) => match big_eval((fuel - 1) as nat, s, b[index + 1], env) {
                None => None,
                Some(first) => match first.result {
                    Err(e) => Some(first),
                    Ok(v) => later(
                        big_let(
                            (fuel - 1) as nat,
                            first.store.bind(env, name, v),
                            ast,
                            index + 2,
                            env,
                        ),
                        first.steps + 1,
                    ),
                },
            },
        }
    } else {
        big_eval((fuel - 1) as nat, s, let_body(ast), env)
    }
}

/// `(fn* params body)`: the function of these parameters and this body that holds `env`.
pub open spec fn big_fn(s: Store, items: Seq<Val>, env: EnvId) -> Option<Big> {
    if items.len() != 3 {
        ends(
            Err(form_count_error("fn* expected 2 arguments, got "@, (items.len() - 1) as nat)),
            s,
            1,
        )
    } else {
        match items[1].items() {
            None => ends(Err(form_error("fn* first argument must be a list or a vector"@)), s, 1),
            Some(b) => if all_symbols(b) {
                ends(
                    Ok(
                        Val::plain(
                            Kind::MalFunc {
                                body: Box::new(items[2]),
                                parameters: symbol_names(b),
                                outer_env: env,
                                is_macro: false,
                            },
                        ),
                    ),
                    s,
                    1,
                )
            } else {
                ends(
                    Err(
                        form_error(
                            "fn*! first argument must be a sequence of valid symbol names"@,
                        ),
                    ),
                    s,
                    1,
                )
            },
        }
    }
}

/// The expressions of the `do` form `ast` from the one at `index` on: the value of the
/// last; `nil` where there is none.
pub open spec fn big_do(fuel: nat, s: Store, ast: Val, index: int, env: EnvId) -> Option<Big>
    decreases fuel,
{
    let items = form_items(ast);
    if fuel == 0 || index > usize::MAX {
        None
    } else if index < 1 || index >= items.len() {
        ends(Ok(Val::nil()), s, 0)
    } else if index + 1 == items.len() {
        big_eval((fuel - 1) as nat, s, items[index], env)
    } else {
        match big_eval((fuel - 1) as nat, s, items[index], env) {
            None => None,
            Some(first) => match first.result {
                Err(e) => Some(first),
                Ok(_) => later(
                    big_do((fuel - 1) as nat, first.store, ast, index + 1, env),
                    first.steps + 1,
                ),
            },
        }
    }
}

/// `(if test then else)`: the value of `then` unless the value of `test` is `nil` or
/// `false`; else the value of `else`, and `nil` where there is no `else`.
pub open spec fn big_if(fuel: nat, s: Store, items: Seq<Val>, env: EnvId) -> Option<Big>
    decreases fuel, 0nat,
{
    if fuel == 0 {
        None
    } else if items.len() < 3 || items.len() > 4 {
        ends(
            Err(form_count_error("if expected 2 or 3 arguments, got "@, (items.len() - 1) as nat)),
            s,
            1,
        )
    } else {
        match big_eval((fuel - 1) as nat, s, items[1], env) {
            None => None,
            Some(test) => match test.result {
                Err(e) => ends(Err(e), test.store, test.steps + 1),
                Ok(v) => if v.is_truthy() {
                    later(big_eval((fuel - 1) as nat, test.store, items[2], env), test.steps + 2)
                } else if items.len() > 3 {
                    later(big_eval((fuel - 1) as nat, test.store, items[3], env), test.steps + 2)
                } else {
                    ends(Ok(Val::nil()), test.store, test.steps + 2)
                },
            },
        }
    }
}

/// The elements of the list or vector `ast` from the one behind those with the values
/// `done` on, from left to right. A vector then has the vector of all the values; in a
/// list the first value is applied to the others.
pub open spec fn big_elements(fuel: nat, s: Store, ast: Val, done: Seq<Val>, env: EnvId) -> Option<
    Big,
>
    decreases fuel,
{
    let items = sequence_items(ast);
    if fuel == 0 || done.len() >= items.len() {
        None
    } else {
        match big_eval((fuel - 1) as nat, s, items[done.len() as int], env) {
            None => None,
            Some(first) => match first.result {
                Err(e) => Some(first),
                Ok(v) => {
                    let all = done.push(v);
                    if all.len() < items.len() {
                        later(
                            big_elements((fuel - 1) as nat, first.store, ast, all, env),
                            first.steps + 1,
                        )
                    } else if ast.kind is Vector {
                        ends(Ok(Val::vector(all)), first.store, first.steps + 1)
                    } else {
                        later(
                            big_apply(
                                (fuel - 1) as nat,
                                first.store,
                                all[0],
                                all.subrange(1, all.len() as int),
                                false,
                            ),
                            first.steps + 1,
                        )
                    }
                },
            },
        }
    }
}

/// The values of the map `ast` from the one behind those with the values `done` on: the
/// map of the same keys with all the values.
pub open spec fn big_values(fuel: nat, s: Store, ast: Val, done: Seq<Val>, env: EnvId) -> Option<
    Big,
>
    decreases fuel,
{
    let entries = map_entries(ast);
    if fuel == 0 || done.len() >= entries.len() {
        None
    } else {
        match big_eval((fuel - 1) as nat, s, entries[done.len() as int].1, env) {
            None => None,
            Some(first) => match first.result {
                Err(e) => Some(first),
                Ok(v) => {
                    let all = done.push(v);
                    if all.len() < entries.len() {
                        later(
                            big_values((fuel - 1) as nat, first.store, ast, all, env),
                            first.steps + 1,
                        )
                    } else {
                        ends(
                            map_value(
                                map_assoc_result(seq![], interleaved(entries, all, entries.len())),
                            ),
                            first.store,
                            first.steps + 1,
                        )
                    }
                },
            },
        }
    }
}

/// The result of applying `func` to evaluated arguments. A native function is called,
/// and what it asks of the evaluator is done; what it asks of the host is beyond this
/// function. A user-defined function has the value of its body in a new scope, inside
/// the environment that the function holds, that binds the parameters to the arguments.
pub open spec fn big_apply(fuel: nat, s: Store, func: Val, args: Seq<Val>, native: bool) -> Option<
    Big,
>
    decreases fuel,
{
    if fuel == 0 {
        None
    } else {
        match func.kind {
            Kind::RustFunc { func: builtin, env } => {
                let (r, atoms) = call_result(builtin, args, env, s.atoms);
                let called = Store { atoms, ..s };
                match r {
                    Err(e) => ends(Err(e), called, 1),
                    Ok(next) => match next {
                        NextView::Done(v) => ends(Ok(v), called, 1),
                        NextView::Eval { ast, env } => later(
                            big_eval((fuel - 1) as nat, called, ast, env),
                            1,
                        ),
                        NextView::Apply { func, args } => later(
                            big_apply((fuel - 1) as nat, called, func, args, true),
                            1,
                        ),
                        NextView::MapOver { func, items } => if items.len() == 0 {
                            ends(Ok(Val::list(seq![])), called, 1)
                        } else {
                            later(big_map((fuel - 1) as nat, called, func, items, seq![]), 1)
                        },
                        NextView::Swap { cell, func, args } => match big_apply(
                            (fuel - 1) as nat,
                            called,
                            func,
                            args,
                            true,
                        ) {
                            None => None,
                            Some(b) => match b.result {
                                Err(e) => ends(Err(e), b.store, b.steps + 1),
                                Ok(v) => ends(
                                    Ok(v),
                                    Store { atoms: cell_set(b.store.atoms, cell, v), ..b.store },
                                    b.steps + 2,
                                ),
                            },
                        },
                        NextView::Ask(_) => None,
                    },
                }
            },
            Kind::MalFunc { body, parameters, outer_env, is_macro } => if parameters.len()
                == args.len() {
                later(
                    big_eval(
                        (fuel - 1) as nat,
                        s.with_scope(
                            EnvView {
                                bindings: bind_all(parameters, args, parameters.len()),
                                outer: Some(outer_env),
                            },
                        ),
                        *body,
                        s.envs.len() as usize,
                    ),
                    1,
                )
            } else {
                ends(Err(arity_error(parameters.len(), args.len())), s, 1)
            },
            _ => if native {
                ends(Err(expected_function_error()), s, 1)
            } else {
                ends(Err(not_a_function_error()), s, 1)
            },
        }
    }
}

/// The results of applying `func` to each of `items` from the one behind those with the
/// results `done` on: the list of all the results.
pub open spec fn big_map(fuel: nat, s: Store, func: Val, items: Seq<Val>, done: Seq<Val>) -> Option<
    Big,
>
    decreases fuel,
{
    if fuel == 0 || done.len() >= items.len() {
        None
    } else {
        match big_apply((fuel - 1) as nat, s, func, seq![items[done.len() as int]], true) {
            None => None,
            Some(first) => match first.result {
                Err(e) => Some(first),
                Ok(v) => {
                    let all = done.push(v);
                    if all.len() < items.len() {
                        later(
                            big_map((fuel - 1) as nat, first.store, func, items, all),
                            first.steps + 1,
                        )
                    } else {
                        ends(Ok(Val::list(all)), first.store, first.steps + 1)
                    }
                },
            },
        }
    }
}


/// One more level of nesting changes no outcome of a form.
pub proof fn lemma_eval_deeper(fuel: nat, s: Store, ast: Val, env: EnvId)
    requires
        big_eval(fuel, s, ast, env) is Some,
    ensures
        big_eval(fuel + 1, s, ast, env) == big_eval(fuel, s, ast, env),
    decreases fuel, 1nat,
{
    match ast.kind {
        Kind::List(items) => {
            if items.len() > 0 {
                match symbol_name(items[0]) {
                    Some(name) => {
                        if name == "def!"@ {
                            lemma_def_deeper(fuel, s, items, env);
                        } else if name == "let*"@ {
                            lemma_let_form_deeper(fuel, s, ast, items, env);
                        } else if name == "fn*"@ {
                        } else if name == "do"@ {
                            lemma_do_deeper((fuel - 1) as nat, s, ast, 1, env);
                        } else if name == "if"@ {
                            lemma_if_deeper(fuel, s, items, env);
                        } else {
                            lemma_elements_deeper((fuel - 1) as nat, s, ast, seq![], env);
                        }
                    },
                    None => {
                        lemma_elements_deeper((fuel - 1) as nat, s, ast, seq![], env);
                    },
                }
            }
        },
        Kind::Vector(items) => {
            if items.len() > 0 {
                lemma_elements_deeper((fuel - 1) as nat, s, ast, seq![], env);
            }
        },
        Kind::HashMap(entries) => {
            if entries.len() > 0 {
                lemma_values_deeper((fuel - 1) as nat, s, ast, seq![], env);
            }
        },
        _ => {},
    }
}

/// One more level of nesting changes no outcome of `def!`.
proof fn lemma_def_deeper(fuel: nat, s: Store, items: Seq<Val>, env: EnvId)
    requires
        big_def(fuel, s, items, env) is Some,
    ensures
        big_def(fuel + 1, s, items, env) == big_def(fuel, s, items, env),
    decreases fuel, 0nat,
{
    if items.len() == 3 && symbol_name(items[1]) is Some {
        lemma_eval_deeper((fuel - 1) as nat, s, items[2], env);
    }
}

/// One more level of nesting changes no outcome of `let*`.
proof fn lemma_let_form_deeper(fuel: nat, s: Store, ast: Val, items: Seq<Val>, env: EnvId)
    requires
        big_let_form(fuel, s, ast, items, env) is Some,
    ensures
        big_let_form(fuel + 1, s, ast, items, env) == big_let_form(fuel, s, ast, items, env),
    decreases fuel, 0nat,
{
    if items.len() == 3 && items[1].items() is Some && items[1].items()->0.len() % 2 == 0 {
        lemma_let_deeper(
            (fuel - 1) as nat,
            s.with_scope(EnvView { bindings: Map::empty(), outer: Some(env) }),
            ast,
            0,
            s.envs.len() as usize,
        );
    }
}

/// One more level of nesting changes no outcome of the bindings of `let*`.
proof fn lemma_let_deeper(fuel: nat, s: Store, ast: Val, index: int, env: EnvId)
    requires
        big_let(fuel, s, ast, index, env) is Some,
    ensures
        big_let(fuel + 1, s, ast, index, env) == big_let(fuel, s, ast, index, env),
    decreases fuel, 0nat,
{
    let b = let_bindings(ast);
    if 0 <= index && index + 1 < b.len() {
        match symbol_name(b[index]) {
            Some(name) => {
                lemma_eval_deeper((fuel - 1) as nat, s, b[index + 1], env);
                let first = big_eval((fuel - 1) as nat, s, b[index + 1], env)->0;
                match first.result {
                    Ok(v) => {
                        lemma_let_deeper(
                            (fuel - 1) as nat,
                            first.store.bind(env, name, v),
                            ast,
                            index + 2,
                            env,
                        );
                    },
                    Err(_) => {},
                }
            },
            None => {},
        }
    } else {
        lemma_eval_deeper((fuel - 1) as nat, s, let_body(ast), env);
    }
}

/// One more level of nesting changes no outcome of the expressions of `do`.
proof fn lemma_do_deeper(fuel: nat, s: Store, ast: Val, index: int, env: EnvId)
    requires
        big_do(fuel, s, ast, index, env) is Some,
    ensures
        big_do(fuel + 1, s, ast, index, env) == big_do(fuel, s, ast, index, env),
    decreases fuel, 0nat,
{
    let items = form_items(ast);
    if index < 1 || index >= items.len() {
    } else if index + 1 == items.len() {
        lemma_eval_deeper((fuel - 1) as nat, s, items[index], env);
    } else {
        lemma_eval_deeper((fuel - 1) as nat, s, items[index], env);
        let first = big_eval((fuel - 1) as nat, s, items[index], env)->0;
        if first.result is Ok {
            lemma_do_deeper((fuel - 1) as nat, first.store, ast, index + 1, env);
        }
    }
}

/// One more level of nesting changes no outcome of `if`.
proof fn lemma_if_deeper(fuel: nat, s: Store, items: Seq<Val>, env: EnvId)
    requires
        big_if(fuel, s, items, env) is Some,
    ensures
        big_if(fuel + 1, s, items, env) == big_if(fuel, s, items, env),
    decreases fuel, 0nat,
{
    if 3 <= items.len() <= 4 {
        lemma_eval_deeper((fuel - 1) as nat, s, items[1], env);
        let test = big_eval((fuel - 1) as nat, s, items[1], env)->0;
        match test.result {
            Ok(v) => {
                if v.is_truthy() {
                    lemma_eval_deeper((fuel - 1) as nat, test.store, items[2], env);
                } else if items.len() > 3 {
                    lemma_eval_deeper((fuel - 1) as nat, test.store, items[3], env);
                }
            },
            Err(_) => {},
        }
    }
}

/// One more level of nesting changes no outcome of the elements of a list or vector.
proof fn lemma_elements_deeper(fuel: nat, s: Store, ast: Val, done: Seq<Val>, env: EnvId)
    requires
        big_elements(fuel, s, ast, done, env) is Some,
    ensures
        big_elements(fuel + 1, s, ast, done, env) == big_elements(fuel, s, ast, done, env),
    decreases fuel, 0nat,
{
    let items = sequence_items(ast);
    let item = items[done.len() as int];
    lemma_eval_deeper((fuel - 1) as nat, s, item, env);
    let first = big_eval((fuel - 1) as nat, s, item, env)->0;
    match first.result {
        Ok(v) => {
            let all = done.push(v);
            if all.len() < items.len() {
                lemma_elements_deeper((fuel - 1) as nat, first.store, ast, all, env);
            } else if ast.kind is Vector {
            } else {
                lemma_apply_deeper(
                    (fuel - 1) as nat,
                    first.store,
                    all[0],
                    all.subrange(1, all.len() as int),
                    false,
                );
            }
        },
        Err(_) => {},
    }
}

/// One more level of nesting changes no outcome of the values of a map.
proof fn lemma_values_deeper(fuel: nat, s: Store, ast: Val, done: Seq<Val>, env: EnvId)
    requires
        big_values(fuel, s, ast, done, env) is Some,
    ensures
        big_values(fuel + 1, s, ast, done, env) == big_values(fuel, s, ast, done, env),
    decreases fuel, 0nat,
{
    let entries = map_entries(ast);
    let item = entries[done.len() as int].1;
    lemma_eval_deeper((fuel - 1) as nat, s, item, env);
    let first = big_eval((fuel - 1) as nat, s, item, env)->0;
    match first.result {
        Ok(v) => {
            let all = done.push(v);
            if all.len() < entries.len() {
                lemma_values_deeper((fuel - 1) as nat, first.store, ast, all, env);
            }
        },
        Err(_) => {},
    }
}

/// One more level of nesting changes no outcome of an application.
pub proof fn lemma_apply_deeper(fuel: nat, s: Store, func: Val, args: Seq<Val>, native: bool)
    requires
        big_apply(fuel, s, func, args, native) is Some,
    ensures
        big_apply(fuel + 1, s, func, args, native) == big_apply(fuel, s, func, args, native),
    decreases fuel, 0nat,
{
    match func.kind {
        Kind::RustFunc { func: builtin, env } => {
            let (r, atoms) = call_result(builtin, args, env, s.atoms);
            let called = Store { atoms, ..s };
            match r {
                Ok(next) => match next {
                    NextView::Eval { ast, env } => {
                        lemma_eval_deeper((fuel - 1) as nat, called, ast, env);
                    },
                    NextView::Apply { func, args } => {
                        lemma_apply_deeper((fuel - 1) as nat, called, func, args, true);
                    },
                    NextView::MapOver { func, items } => {
                        if items.len() > 0 {
                            lemma_map_deeper((fuel - 1) as nat, called, func, items, seq![]);
                        }
                    },
                    NextView::Swap { cell, func, args } => {
                        lemma_apply_deeper((fuel - 1) as nat, called, func, args, true);
                    },
                    _ => {},
                },
                Err(_) => {},
            }
        },
        Kind::MalFunc { body, parameters, outer_env, is_macro } => {
            if parameters.len() == args.len() {
                lemma_eval_deeper(
                    (fuel - 1) as nat,
                    s.with_scope(
                        EnvView {
                            bindings: bind_all(parameters, args, parameters.len()),
                            outer: Some(outer_env),
                        },
                    ),
                    *body,
                    s.envs.len() as usize,
                );
            }
        },
        _ => {},
    }
}

/// One more level of nesting changes no outcome of `map`.
proof fn lemma_map_deeper(fuel: nat, s: Store, func: Val, items: Seq<Val>, done: Seq<Val>)
    requires
        big_map(fuel, s, func, items, done) is Some,
    ensures
        big_map(fuel + 1, s, func, items, done) == big_map(fuel, s, func, items, done),
    decreases fuel, 0nat,
{
    let args = seq![items[done.len() as int]];
    lemma_apply_deeper((fuel - 1) as nat, s, func, args, true);
    let first = big_apply((fuel - 1) as nat, s, func, args, true)->0;
    match first.result {
        Ok(v) => {
            let all = done.push(v);
            if all.len() < items.len() {
                lemma_map_deeper((fuel - 1) as nat, first.store, func, items, all);
            }
        },
        Err(_) => {},
    }
}

/// The outcome of a form does not depend on the levels of nesting that are allowed,
/// once they suffice.
pub proof fn lemma_levels_suffice(fuel: nat, more: nat, s: Store, ast: Val, env: EnvId)
    requires
        big_eval(fuel, s, ast, env) is Some,
        more >= fuel,
    ensures
        big_eval(more, s, ast, env) == big_eval(fuel, s, ast, env),
    decreases more - fuel,
{
    if more > fuel {
        lemma_levels_suffice(fuel, (more - 1) as nat, s, ast, env);
        lemma_eval_deeper((more - 1) as nat, s, ast, env);
    }
}

} // verus!
