//! What holds of the evaluator and the builtin library whatever the program.
use crate::atoms::{cell_get, cell_set};
use crate::builtins::{
    assoc_result, builtin_at, builtin_index, builtin_name, call_result, dissoc_result, get_result,
    lemma_names_differ, lemma_table_complete, lemma_table_places, NextView, BUILTIN_COUNT,
};
use crate::env::{arity_error, bind_all, chain_get, chain_set, EnvView};
use crate::eval::{
    apply_step, binding, continue_frame, def_step, do_from, eval_step, fn_step, form_items,
    if_continue, if_step, is_halted, is_let_form, let_bindings, let_continue, let_step, outcome_of,
    root_bindings, run_view, started, step_view, steps_to_halt, steps_view, symbol_name,
    ControlView, FrameView, MachineView, OutcomeView,
};
use crate::map::{
    key_token, lemma_assoc_dissoc_restores, map_assoc, map_assoc_result, map_contains, map_dissoc,
    map_dissoc_result, map_get, map_insert, map_remove,
};
use crate::semantics::{big_apply, big_eval, big_if, big_let, ends, later, Store};
use crate::types::{Builtin, EnvId, ErrView, Kind, Val};
use vstd::prelude::*;

verus! {

/// Whether a value is its own value: everything but a symbol, a vector, a map and a list
/// that is not empty.
pub open spec fn is_self_evaluating(v: Val) -> bool {
    match v.kind {
        Kind::Symbol(_) => false,
        Kind::Vector(_) => false,
        Kind::HashMap(_) => false,
        Kind::List(items) => items.len() == 0,
        _ => true,
    }
}

/// A value that is its own value evaluates to itself in two steps, in any environment
/// and whatever the machine holds; environments and cells stay as they are. This holds
/// of `nil`, the booleans, numbers, strings, keywords, functions, mutable cells and the
/// empty list.
pub proof fn lemma_self_evaluating(m: MachineView, v: Val, env: EnvId, fuel: nat)
    requires
        is_self_evaluating(v),
        fuel >= 2,
    ensures
        outcome_of(run_view(started(m, v, env), fuel)) == (
            OutcomeView::Value(Ok(v)),
            MachineView { stack: seq![], control: ControlView::Idle, ..m },
        ),
{
    let m0 = started(m, v, env);
    let m1 = step_view(m0);
    assert(m1 == m0.returning(v));
    let m2 = step_view(m1);
    assert(m2 == m1.with_control(ControlView::Finished(Ok(v))));
    assert(is_halted(m2));
    assert(steps_to_halt(m0, fuel) == 2) by {
        reveal_with_fuel(steps_to_halt, 3);
    }
    assert(steps_view(m0, 2) == m2) by {
        reveal_with_fuel(steps_view, 3);
    }
}

/// The empty list evaluates to itself.
pub proof fn lemma_empty_list(m: MachineView, v: Val, env: EnvId, fuel: nat)
    requires
        v.kind == Kind::List(Seq::<Val>::empty()),
        fuel >= 2,
    ensures
        outcome_of(run_view(started(m, v, env), fuel)).0 == OutcomeView::Value(Ok(v)),
{
    lemma_self_evaluating(m, v, env, fuel);
}

/// A function that is applied to another number of arguments than it has parameters
/// fails with the error of the count; nothing else changes.
pub proof fn lemma_arity_mismatch(m: MachineView, func: Val, args: Seq<Val>, native: bool)
    requires
        func.kind matches Kind::MalFunc { parameters, .. } && parameters.len() != args.len(),
    ensures
        apply_step(m, func, args, native) == m.failing(
            arity_error(func.kind->MalFunc_parameters.len(), args.len()),
        ),
{
}

/// In an `if` form with both branches only `nil` and `false` choose the second branch:
/// every other value of the test, zero and the empty string among them, chooses the
/// first.
pub proof fn lemma_if_truthiness(m: MachineView, ast: Val, env: EnvId, v: Val)
    requires
        form_items(ast).len() == 4,
    ensures
        if_continue(m, ast, env, v) == if v.kind is Nil || v.kind is False {
            m.evaluating(form_items(ast)[3], env)
        } else {
            m.evaluating(form_items(ast)[2], env)
        },
        v.kind is Number ==> if_continue(m, ast, env, v) == m.evaluating(form_items(ast)[2], env),
        v.kind is Str ==> if_continue(m, ast, env, v) == m.evaluating(form_items(ast)[2], env),
{
}

/// Once the function of a `swap!` has given its value, the cell holds that value and the
/// value is the value of the call.
pub proof fn lemma_swap_stores(m: MachineView, cell: usize, v: Val)
    requires
        cell < m.atoms.len(),
    ensures
        continue_frame(m, FrameView::Swap { cell }, v).control == ControlView::Return(v),
        cell_get(continue_frame(m, FrameView::Swap { cell }, v).atoms, cell) == v,
        forall|other: usize|
            other != cell ==> cell_get(continue_frame(m, FrameView::Swap { cell }, v).atoms, other)
                == cell_get(m.atoms, other),
{
}

/// `assoc` of a key that the map does not hold, followed by `dissoc` of the same key,
/// gives the map back, and with it its keys.
pub proof fn lemma_assoc_then_dissoc(map: Seq<(Val, Val)>, k: Val, v: Val, meta: Option<Box<Val>>)
    requires
        key_token(k) is Some,
        !map_contains(map, k),
    ensures
        assoc_result(seq![Val { kind: Kind::HashMap(map), meta }, k, v]) == Ok::<Val, ErrView>(
            Val::plain(Kind::HashMap(map_insert(map, k, v))),
        ),
        dissoc_result(seq![Val::plain(Kind::HashMap(map_insert(map, k, v))), k]) == Ok::<
            Val,
            ErrView,
        >(Val::plain(Kind::HashMap(map))),
{
    let a = seq![Val { kind: Kind::HashMap(map), meta }, k, v];
    let rest = a.subrange(1, 3);
    assert(rest =~= seq![k, v]);
    assert(map_assoc(map, rest, 2) == map_insert(map, k, v)) by {
        reveal_with_fuel(map_assoc, 2);
    }
    assert(map_assoc_result(map, rest) == Ok::<Seq<(Val, Val)>, ErrView>(map_insert(map, k, v)));
    let inserted = map_insert(map, k, v);
    let d = seq![Val::plain(Kind::HashMap(inserted)), k];
    let keys = d.subrange(1, 2);
    assert(keys =~= seq![k]);
    lemma_assoc_dissoc_restores(map, k, v);
    assert(map_dissoc(inserted, keys, 1) == map_remove(inserted, k)) by {
        reveal_with_fuel(map_dissoc, 2);
    }
    assert(map_dissoc_result(inserted, keys) == Ok::<Seq<(Val, Val)>, ErrView>(map));
}

/// `get` of a key that the map does not hold gives `nil`, never an error; so does `get`
/// of anything that cannot be a key.
pub proof fn lemma_get_missing(map: Seq<(Val, Val)>, k: Val, meta: Option<Box<Val>>)
    requires
        !map_contains(map, k),
    ensures
        map_get(map, k) == Val::nil(),
        get_result(seq![Val { kind: Kind::HashMap(map), meta }, k]) == Ok::<Val, ErrView>(
            Val::nil(),
        ),
{
}


/// A value that was bound in a scope is what a lookup that starts in that scope finds,
/// whatever the outer scopes hold.
pub proof fn lemma_get_after_set(envs: Seq<EnvView>, env: EnvId, name: Seq<char>, v: Val)
    requires
        env < envs.len(),
    ensures
        chain_get(chain_set(envs, env, name, v), env, name) == Ok::<Val, ErrView>(v),
{
}

/// Binding a name leaves the lookup of every other name in that scope as it was.
pub proof fn lemma_set_keeps_others(
    envs: Seq<EnvView>,
    env: EnvId,
    name: Seq<char>,
    v: Val,
    other: Seq<char>,
)
    requires
        other != name,
    ensures
        chain_get(chain_set(envs, env, name, v), env, other) == chain_get(envs, env, other),
{
    lemma_set_not_seen_below(envs, env, name, v, other, env);
}

/// Binding a name in a scope changes no lookup that starts in a scope made before it.
pub proof fn lemma_set_not_seen_below(
    envs: Seq<EnvView>,
    env: EnvId,
    name: Seq<char>,
    v: Val,
    other: Seq<char>,
    start: EnvId,
)
    requires
        start < env || (start == env && other != name),
    ensures
        chain_get(chain_set(envs, env, name, v), start, other) == chain_get(envs, start, other),
    decreases start,
{
    if start < envs.len() {
        match envs[start as int].outer {
            Some(j) => {
                if j < start {
                    lemma_set_not_seen_below(envs, env, name, v, other, j);
                }
            },
            None => {},
        }
    }
}

/// A function holds the environment in which `fn*` made it.
pub proof fn lemma_fn_captures(m: MachineView, items: Seq<Val>, env: EnvId)
    requires
        fn_step(m, items, env).control is Return,
    ensures
        fn_step(m, items, env).control->Return_0.kind matches Kind::MalFunc { outer_env, body, .. }
            && outer_env == env && *body == items[2],
        fn_step(m, items, env).envs == m.envs,
{
}

/// A function is applied in a new scope that is chained to the environment the function
/// holds, whatever environment the call stands in: the body sees the parameters and
/// what was visible where the function was made.
pub proof fn lemma_closure_scope(m: MachineView, func: Val, args: Seq<Val>, native: bool)
    requires
        func.kind matches Kind::MalFunc { parameters, .. } && parameters.len() == args.len(),
    ensures
        ({
            let after = apply_step(m, func, args, native);
            let scope = m.envs.len() as usize;
            &&& after.control == ControlView::Eval { ast: *func.kind->MalFunc_body, env: scope }
            &&& after.envs.len() == m.envs.len() + 1
            &&& after.envs.last().outer == Some(func.kind->MalFunc_outer_env)
            &&& after.envs.last().bindings == bind_all(
                func.kind->MalFunc_parameters,
                args,
                args.len(),
            )
            &&& after.envs.subrange(0, m.envs.len() as int) == m.envs
            &&& after.stack == m.stack
            &&& after.atoms == m.atoms
        }),
{
    let after = apply_step(m, func, args, native);
    assert(after.envs.subrange(0, m.envs.len() as int) =~= m.envs);
}

/// In `let*` a binding is visible to the bindings after it: once the value of a binding
/// is there, the next binding's expression is evaluated in the scope of the `let*`, in
/// which a lookup of the name just bound finds that value.
pub proof fn lemma_let_sequential(m: MachineView, ast: Val, index: usize, env: EnvId, v: Val)
    requires
        is_let_form(ast),
        env < m.envs.len(),
        index + 3 < let_bindings(ast).len(),
        symbol_name(let_bindings(ast)[index as int]) is Some,
        symbol_name(let_bindings(ast)[index + 2]) is Some,
    ensures
        ({
            let after = let_continue(m, ast, index, env, v);
            let name = symbol_name(let_bindings(ast)[index as int])->0;
            &&& after.control == ControlView::Eval { ast: let_bindings(ast)[index + 3], env }
            &&& chain_get(after.envs, env, name) == Ok::<Val, ErrView>(v)
        }),
{
}

/// A machine that has halted within some number of steps is the same after any greater
/// number: more fuel changes no result.
pub proof fn lemma_more_fuel(m: MachineView, fuel: nat, more: nat)
    requires
        is_halted(run_view(m, fuel)),
        more >= fuel,
    ensures
        run_view(m, more) == run_view(m, fuel),
    decreases fuel,
{
    if is_halted(m) {
        assert(steps_to_halt(m, fuel) == 0);
        assert(steps_to_halt(m, more) == 0);
    } else if fuel == 0 {
        assert(run_view(m, fuel) == m);
    } else {
        let next = step_view(m);
        assert(run_view(m, fuel) == run_view(next, (fuel - 1) as nat));
        assert(run_view(m, more) == run_view(next, (more - 1) as nat));
        lemma_more_fuel(next, (fuel - 1) as nat, (more - 1) as nat);
    }
}

/// A machine that has halted takes no further step.
pub proof fn lemma_halted_stays(m: MachineView, fuel: nat)
    requires
        is_halted(m),
    ensures
        step_view(m) == m,
        run_view(m, fuel) == m,
{
}


/// Special forms go by the text of the symbol at the head of the list alone: what the
/// symbol is bound to in any environment plays no part.
pub proof fn lemma_special_forms_by_text(m: MachineView, ast: Val, env: EnvId)
    requires
        ast.kind is List,
        form_items(ast).len() > 0,
        symbol_name(form_items(ast)[0]) is Some,
    ensures
        ({
            let items = form_items(ast);
            let name = symbol_name(items[0])->0;
            &&& name == "def!"@ ==> eval_step(m, ast, env) == def_step(m, items, env)
            &&& name == "let*"@ ==> eval_step(m, ast, env) == let_step(m, ast, items, env)
            &&& name == "fn*"@ ==> eval_step(m, ast, env) == fn_step(m, items, env)
            &&& name == "do"@ ==> eval_step(m, ast, env) == do_from(m, ast, 1, env)
            &&& name == "if"@ ==> eval_step(m, ast, env) == if_step(m, ast, items, env)
        }),
{
    reveal_strlit("def!");
    reveal_strlit("let*");
    reveal_strlit("fn*");
    reveal_strlit("do");
    reveal_strlit("if");
    assert("def!"@.len() == 4 && "def!"@[0] == 'd');
    assert("let*"@.len() == 4 && "let*"@[0] == 'l');
    assert("fn*"@.len() == 3);
    assert("do"@.len() == 2 && "do"@[0] == 'd');
    assert("if"@.len() == 2 && "if"@[0] == 'i');
}

/// `def!` binds in the environment it is evaluated in and in no other: once the value is
/// there, that scope binds the name to it, every other scope is as it was, and the value
/// is the value of the form.
pub proof fn lemma_def_binds_here(m: MachineView, name: Seq<char>, env: EnvId, v: Val)
    requires
        env < m.envs.len(),
    ensures
        ({
            let after = continue_frame(m, FrameView::Def { name, env }, v);
            &&& after.control == ControlView::Return(v)
            &&& after.envs.len() == m.envs.len()
            &&& after.envs[env as int].bindings == m.envs[env as int].bindings.insert(name, v)
            &&& after.envs[env as int].outer == m.envs[env as int].outer
            &&& forall|other: int|
                0 <= other < m.envs.len() && other != env ==> after.envs[other] == m.envs[other]
            &&& after.atoms == m.atoms
            &&& after.stack == m.stack
        }),
{
}

/// `do` without expressions gives `nil`.
pub proof fn lemma_empty_do(m: MachineView, ast: Val, env: EnvId)
    requires
        form_items(ast).len() == 1,
    ensures
        do_from(m, ast, 1, env) == m.returning(Val::nil()),
{
}

/// An error drops the work that was left: the machine has finished with the error, its
/// stack is empty, and environments and cells are as they were.
pub proof fn lemma_error_ends(m: MachineView, e: ErrView)
    ensures
        is_halted(m.failing(e)),
        m.failing(e).stack.len() == 0,
        m.failing(e).envs == m.envs,
        m.failing(e).atoms == m.atoms,
        outcome_of(m.failing(e)).0 == OutcomeView::Value(Err(e)),
{
}


/// After the first `n` native functions were bound, each of them is bound to its name.
proof fn lemma_root_bindings_upto(env: EnvId, n: nat, i: int)
    requires
        0 <= i < n <= BUILTIN_COUNT,
    ensures
        root_bindings(env, n).contains_key(builtin_name(builtin_at(i))),
        root_bindings(env, n)[builtin_name(builtin_at(i))] == Val::plain(
            Kind::RustFunc { func: builtin_at(i), env },
        ),
    decreases n,
{
    if i < n - 1 {
        lemma_root_bindings_upto(env, (n - 1) as nat, i);
        lemma_table_places(i);
        lemma_table_places(n - 1);
        lemma_names_differ(builtin_at(i), builtin_at(n - 1));
    }
}

/// In a root scope every native function is bound to its name: a lookup of the name
/// that starts in the scope finds the function, made for that scope.
pub proof fn lemma_root_binds(envs: Seq<EnvView>, b: Builtin)
    ensures
        ({
            let root = envs.len() as usize;
            let scope = EnvView { bindings: root_bindings(root, BUILTIN_COUNT as nat), outer: None };
            envs.len() <= usize::MAX ==> chain_get(envs.push(scope), root, builtin_name(b)) == Ok::<
                Val,
                ErrView,
            >(Val::plain(Kind::RustFunc { func: b, env: root }))
        }),
{
    lemma_table_complete(b);
    lemma_root_bindings_upto(envs.len() as usize, BUILTIN_COUNT as nat, builtin_index(b));
}


/// The machine with the frames `base` below its own.
pub open spec fn lifted(m: MachineView, base: Seq<FrameView>) -> MachineView {
    MachineView { stack: base + m.stack, ..m }
}

/// What a step without further frames has come to, as it is with them: the further
/// frames are left alone, but an error drops them too.
pub open spec fn lifted_outcome(after: MachineView, base: Seq<FrameView>) -> MachineView {
    match after.control {
        ControlView::Finished(Err(_)) => MachineView { stack: seq![], ..after },
        _ => lifted(after, base),
    }
}

/// What a step does to a machine with further frames below its own, given what it does
/// to the machine without them: the same, with the further frames left alone; but an
/// error drops them too, and a value that would leave the machine is handed to the top
/// one of them.
pub open spec fn lifted_step(m: MachineView, base: Seq<FrameView>) -> MachineView {
    if is_halted(m) {
        lifted(m, base)
    } else if m.control is Return && m.stack.len() == 0 && base.len() > 0 {
        continue_frame(
            MachineView { stack: base.drop_last(), ..m },
            base.last(),
            m.control->Return_0,
        )
    } else {
        lifted_outcome(step_view(m), base)
    }
}

/// Frames below those of an evaluation play no part in it until it is over: a step of
/// the machine with such frames is the step of the machine without them.
pub proof fn lemma_step_lifted(m: MachineView, base: Seq<FrameView>)
    ensures
        step_view(lifted(m, base)) == lifted_step(m, base),
{
    let l = lifted(m, base);
    match m.control {
        ControlView::Eval { ast, env } => {
            lemma_eval_lifted(m, base, ast, env);
        },
        ControlView::Apply { func, args, native } => {
            lemma_apply_lifted(m, base, func, args, native);
        },
        ControlView::Return(v) => {
            if m.stack.len() > 0 {
                let below = MachineView { stack: m.stack.drop_last(), ..m };
                assert(l.stack.drop_last() =~= base + below.stack);
                assert(l.stack.last() == m.stack.last());
                lemma_continue_lifted(below, base, m.stack.last(), v);
            } else {
                assert(l.stack =~= base);
                assert(base + Seq::<FrameView>::empty() =~= base);
            }
        },
        _ => {},
    }
}

/// A frame goes on top of the frames of the evaluation, whatever lies below them.
proof fn lemma_pushing_lifted(m: MachineView, base: Seq<FrameView>, f: FrameView)
    ensures
        lifted(m.pushing(f), base) == lifted(m, base).pushing(f),
{
    assert(base + m.stack.push(f) =~= (base + m.stack).push(f));
}

/// A step of evaluating a form is the same with further frames below.
#[verifier::rlimit(100)]
proof fn lemma_eval_lifted(m: MachineView, base: Seq<FrameView>, ast: Val, env: EnvId)
    ensures
        eval_step(lifted(m, base), ast, env) == lifted_outcome(eval_step(m, ast, env), base),
{
    let l = lifted(m, base);
    assert forall|f: FrameView| lifted(#[trigger] m.pushing(f), base) == l.pushing(f) by {
        lemma_pushing_lifted(m, base, f);
    }
    let scoped = crate::eval::with_scope(m, env);
    assert forall|f: FrameView|
        lifted(#[trigger] scoped.pushing(f), base) == crate::eval::with_scope(l, env).pushing(f) by {
        lemma_pushing_lifted(scoped, base, f);
    }
}

/// A step of applying a function is the same with further frames below.
#[verifier::rlimit(100)]
proof fn lemma_apply_lifted(
    m: MachineView,
    base: Seq<FrameView>,
    func: Val,
    args: Seq<Val>,
    native: bool,
)
    ensures
        apply_step(lifted(m, base), func, args, native) == lifted_outcome(
            apply_step(m, func, args, native),
            base,
        ),
{
    let l = lifted(m, base);
    match func.kind {
        Kind::RustFunc { func: builtin, env } => {
            let (r, atoms) = crate::builtins::call_result(builtin, args, env, m.atoms);
            let m2 = MachineView { atoms, ..m };
            let l2 = MachineView { atoms, ..l };
            assert(l2 == lifted(m2, base));
            assert forall|f: FrameView| lifted(#[trigger] m2.pushing(f), base) == l2.pushing(f) by {
                lemma_pushing_lifted(m2, base, f);
            }
        },
        _ => {},
    }
}

/// Handing a value to a frame is the same with further frames below.
#[verifier::rlimit(100)]
proof fn lemma_continue_lifted(m: MachineView, base: Seq<FrameView>, frame: FrameView, v: Val)
    ensures
        continue_frame(lifted(m, base), frame, v) == lifted_outcome(
            continue_frame(m, frame, v),
            base,
        ),
{
    let l = lifted(m, base);
    assert forall|f: FrameView| lifted(#[trigger] m.pushing(f), base) == l.pushing(f) by {
        lemma_pushing_lifted(m, base, f);
    }
    match frame {
        FrameView::Def { name, env } => {
            assert(binding(l, env, name, v) == lifted(binding(m, env, name, v), base));
        },
        FrameView::Let { ast, index, env } => {
            let b = let_bindings(ast);
            if index + 1 < b.len() {
                match symbol_name(b[index as int]) {
                    Some(name) => {
                        let m2 = binding(m, env, name, v);
                        let l2 = binding(l, env, name, v);
                        assert(l2 == lifted(m2, base));
                        assert forall|f: FrameView|
                            lifted(#[trigger] m2.pushing(f), base) == l2.pushing(f) by {
                            lemma_pushing_lifted(m2, base, f);
                        }
                    },
                    None => {},
                }
            }
        },
        FrameView::Swap { cell } => {
            let m2 = MachineView { atoms: crate::atoms::cell_set(m.atoms, cell, v), ..m };
            let l2 = MachineView { atoms: crate::atoms::cell_set(l.atoms, cell, v), ..l };
            assert(l2 == lifted(m2, base));
        },
        _ => {},
    }
}


/// An evaluation takes its course whatever frames lie below its own. Where it ends with
/// a value, the machine with the further frames is, one step earlier, about to hand
/// that value to them, with the same environments and cells. Where it ends with an
/// error, so does the machine with the further frames, after as many steps. Where it
/// stops to wait for the host or for more fuel, the machine with the further frames
/// stands the same, above them.
pub proof fn lemma_run_lifted(m: MachineView, base: Seq<FrameView>, fuel: nat)
    requires
        !(m.control is Finished),
    ensures
        ({
            let k = steps_to_halt(m, fuel);
            let r = run_view(m, fuel);
            match r.control {
                ControlView::Finished(Ok(v)) => k >= 1 && steps_view(
                    lifted(m, base),
                    (k - 1) as nat,
                ) == (MachineView { stack: base, control: ControlView::Return(v), ..r }),
                ControlView::Finished(Err(_)) => steps_view(lifted(m, base), k) == r,
                _ => steps_view(lifted(m, base), k) == lifted(r, base),
            }
        }),
    decreases fuel,
{
    if fuel == 0 || is_halted(m) {
    } else {
        let after = step_view(m);
        lemma_step_lifted(m, base);
        assert(run_view(m, fuel) == run_view(after, (fuel - 1) as nat));
        assert(steps_to_halt(m, fuel) == 1 + steps_to_halt(after, (fuel - 1) as nat));
        if m.control is Return && m.stack.len() == 0 {
            assert(base + m.stack =~= base);
            assert(is_halted(after));
        } else if after.control is Finished {
            assert(is_halted(after));
            assert(steps_view(lifted(m, base), 1) == step_view(lifted(m, base))) by {
                reveal_with_fuel(steps_view, 2);
            }
        } else {
            lemma_run_lifted(after, base, (fuel - 1) as nat);
            let k = steps_to_halt(after, (fuel - 1) as nat);
            assert(step_view(lifted(m, base)) == lifted(after, base));
            let r = run_view(after, (fuel - 1) as nat);
            if r.control is Finished && r.control->Finished_0 is Ok {
                assert(steps_view(lifted(m, base), k) == steps_view(
                    lifted(after, base),
                    (k - 1) as nat,
                ));
            } else {
                assert(steps_view(lifted(m, base), k + 1) == steps_view(lifted(after, base), k));
            }
        }
    }
}


/// The value of a value that is its own value is that value, in any environment, and
/// nothing changes.
pub proof fn lemma_value_of_itself(fuel: nat, s: Store, v: Val, env: EnvId)
    requires
        is_self_evaluating(v),
        fuel >= 1,
    ensures
        big_eval(fuel, s, v, env) == ends(Ok(v), s, 1),
{
}

/// The value of an `if` form with both branches is the value of its second branch
/// where the value of its test is `nil` or `false`, and the value of its first branch
/// for any other value of the test, zero and the empty string among them.
pub proof fn lemma_if_value(fuel: nat, s: Store, items: Seq<Val>, env: EnvId)
    requires
        fuel >= 1,
        items.len() == 4,
        big_eval((fuel - 1) as nat, s, items[1], env) matches Some(test) && test.result is Ok,
    ensures
        ({
            let test = big_eval((fuel - 1) as nat, s, items[1], env)->0;
            let v = test.result->Ok_0;
            let branch = if v.kind is Nil || v.kind is False {
                items[3]
            } else {
                items[2]
            };
            big_if(fuel, s, items, env) == later(
                big_eval((fuel - 1) as nat, test.store, branch, env),
                test.steps + 2,
            )
        }),
{
}

/// A function that is applied to as many arguments as it has parameters has the value of
/// its body in a new scope that binds the parameters to the arguments and lies inside the
/// environment that the function holds, whatever the environment of the call.
pub proof fn lemma_closure_value(fuel: nat, s: Store, func: Val, args: Seq<Val>, native: bool)
    requires
        fuel >= 1,
        func.kind matches Kind::MalFunc { parameters, .. } && parameters.len() == args.len(),
    ensures
        big_apply(fuel, s, func, args, native) == later(
            big_eval(
                (fuel - 1) as nat,
                s.with_scope(
                    EnvView {
                        bindings: bind_all(func.kind->MalFunc_parameters, args, args.len()),
                        outer: Some(func.kind->MalFunc_outer_env),
                    },
                ),
                *func.kind->MalFunc_body,
                s.envs.len() as usize,
            ),
            1,
        ),
{
}

/// A function that is applied to another number of arguments than it has parameters
/// fails with the error of the count, and nothing changes.
pub proof fn lemma_arity_error(fuel: nat, s: Store, func: Val, args: Seq<Val>, native: bool)
    requires
        fuel >= 1,
        func.kind matches Kind::MalFunc { parameters, .. } && parameters.len() != args.len(),
    ensures
        big_apply(fuel, s, func, args, native) == ends(
            Err(arity_error(func.kind->MalFunc_parameters.len(), args.len())),
            s,
            1,
        ),
{
}

/// In `let*` each binding is evaluated in the scope of the form after the bindings before
/// it were made there: once the expression of a binding has its value, the bindings that
/// follow see the name bound to it.
pub proof fn lemma_let_value(fuel: nat, s: Store, ast: Val, index: int, env: EnvId)
    requires
        fuel >= 1,
        0 <= index <= usize::MAX,
        index + 1 < let_bindings(ast).len(),
        symbol_name(let_bindings(ast)[index]) is Some,
        big_eval((fuel - 1) as nat, s, let_bindings(ast)[index + 1], env) matches Some(first)
            && first.result is Ok,
    ensures
        ({
            let first = big_eval((fuel - 1) as nat, s, let_bindings(ast)[index + 1], env)->0;
            let name = symbol_name(let_bindings(ast)[index])->0;
            let v = first.result->Ok_0;
            big_let(fuel, s, ast, index, env) == later(
                big_let((fuel - 1) as nat, first.store.bind(env, name, v), ast, index + 2, env),
                first.steps + 1,
            )
        }),
{
}

/// `swap!` gives the result of applying the function to the contents of the cell and
/// the further arguments, and the cell holds that result afterwards.
pub proof fn lemma_swap_value(fuel: nat, s: Store, args: Seq<Val>, env: EnvId, native: bool)
    requires
        fuel >= 1,
        args.len() >= 2,
        args[0].kind is Atom,
        args[1].is_function_or_macro(),
        ({
            let cell = args[0].kind->Atom_0;
            let inputs = seq![cell_get(s.atoms, cell)] + args.subrange(2, args.len() as int);
            big_apply((fuel - 1) as nat, s, args[1], inputs, true) matches Some(b) && b.result is Ok
        }),
    ensures
        ({
            let cell = args[0].kind->Atom_0;
            let inputs = seq![cell_get(s.atoms, cell)] + args.subrange(2, args.len() as int);
            let b = big_apply((fuel - 1) as nat, s, args[1], inputs, true)->0;
            let v = b.result->Ok_0;
            let swap = Val::plain(Kind::RustFunc { func: Builtin::Swap, env });
            &&& big_apply(fuel, s, swap, args, native) == ends(
                Ok(v),
                Store { atoms: cell_set(b.store.atoms, cell, v), ..b.store },
                b.steps + 2,
            )
            &&& cell < b.store.atoms.len() ==> cell_get(cell_set(b.store.atoms, cell, v), cell)
                == v
        }),
{
    let cell = args[0].kind->Atom_0;
    let inputs = seq![cell_get(s.atoms, cell)] + args.subrange(2, args.len() as int);
    let (r, atoms) = call_result(Builtin::Swap, args, env, s.atoms);
    assert(atoms == s.atoms);
    assert(r == Ok::<NextView, ErrView>(NextView::Swap { cell, func: args[1], args: inputs }));
    assert((Store { atoms, ..s }) == s);
}

} // verus!
