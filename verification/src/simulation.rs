//! The machine of the evaluator comes to what the semantics says: where the semantics
//! gives an outcome, the machine reaches it, in the number of steps that the semantics
//! counts, whatever lies on the stack below.
use crate::builtins::{call_result, NextView};
use crate::env::EnvView;
use crate::eval::{
    apply_step, binding, continue_frame, do_from, eval_step, form_items, is_halted, let_bind,
    let_bindings, map_entries, outcome_of, run_view, sequence_items, started, step_view,
    steps_view, symbol_name, with_scope, ControlView, FrameView, MachineView, OutcomeView,
};
use crate::semantics::{
    big_apply, big_def, big_do, big_elements, big_eval, big_if, big_let, big_let_form, big_map,
    big_values, Big, Store,
};
use crate::types::{EnvId, Kind, Val};
use vstd::prelude::*;

verus! {

/// The environments and cells of a machine.
pub open spec fn store_of(m: MachineView) -> Store {
    Store { envs: m.envs, atoms: m.atoms }
}

/// The machine that has come to the outcome `b` above the frames `stack`: about to hand
/// the value to them, or finished with the error and without them.
pub open spec fn landed(stack: Seq<FrameView>, b: Big) -> MachineView {
    match b.result {
        Ok(v) => MachineView {
            envs: b.store.envs,
            atoms: b.store.atoms,
            stack,
            control: ControlView::Return(v),
        },
        Err(e) => MachineView {
            envs: b.store.envs,
            atoms: b.store.atoms,
            stack: seq![],
            control: ControlView::Finished(Err(e)),
        },
    }
}

/// Steps add up.
pub proof fn lemma_steps_add(m: MachineView, a: nat, b: nat)
    ensures
        steps_view(m, a + b) == steps_view(steps_view(m, a), b),
    decreases a,
{
    if a > 0 {
        lemma_steps_add(step_view(m), (a - 1) as nat, b);
        assert(steps_view(m, a + b) == steps_view(step_view(m), (a + b - 1) as nat));
    }
}

/// A step after `n` steps is `n + 1` steps.
pub proof fn lemma_step_last(m: MachineView, n: nat)
    ensures
        steps_view(m, n + 1) == step_view(steps_view(m, n)),
{
    lemma_steps_add(m, n, 1);
    reveal_with_fuel(steps_view, 2);
}

/// A step before `n` steps is `n + 1` steps.
pub proof fn lemma_step_first(m: MachineView, n: nat)
    ensures
        steps_view(m, n + 1) == steps_view(step_view(m), n),
{
}

/// A machine that hands a value to a frame above the frames `stack`.
pub open spec fn handing(store: Store, stack: Seq<FrameView>, frame: FrameView, v: Val) -> MachineView {
    MachineView {
        envs: store.envs,
        atoms: store.atoms,
        stack: stack.push(frame),
        control: ControlView::Return(v),
    }
}

/// Handing a value to the top frame is one step that takes the frame off the stack.
proof fn lemma_hand_over(store: Store, stack: Seq<FrameView>, frame: FrameView, v: Val)
    ensures
        step_view(handing(store, stack, frame, v)) == continue_frame(
            MachineView { envs: store.envs, atoms: store.atoms, stack, control: ControlView::Return(v) },
            frame,
            v,
        ),
{
    let h = handing(store, stack, frame, v);
    assert(h.stack.drop_last() =~= stack);
    assert(h.stack.last() == frame);
}

/// Where the semantics gives the value of a form, the machine that is about to evaluate
/// the form comes to it in the steps that the semantics counts.
pub proof fn lemma_eval_reaches(fuel: nat, m: MachineView, ast: Val, env: EnvId)
    requires
        big_eval(fuel, store_of(m), ast, env) is Some,
    ensures
        steps_view(
            m.evaluating(ast, env),
            big_eval(fuel, store_of(m), ast, env)->0.steps,
        ) == landed(m.stack, big_eval(fuel, store_of(m), ast, env)->0),
    decreases fuel, 1nat,
{
    let s = store_of(m);
    let start = m.evaluating(ast, env);
    let b = big_eval(fuel, s, ast, env)->0;
    let next = step_view(start);
    assert(next == eval_step(start, ast, env));
    lemma_step_first(start, (b.steps - 1) as nat);
    reveal_with_fuel(steps_view, 2);
    match ast.kind {
        Kind::List(items) => {
            if items.len() > 0 {
                let call = m.pushing(FrameView::Elements { ast, done: seq![], env });
                match symbol_name(items[0]) {
                    Some(name) => {
                        if name == "def!"@ {
                            lemma_def_reaches(fuel, m, ast, items, env);
                        } else if name == "let*"@ {
                            lemma_let_form_reaches(fuel, m, ast, items, env);
                        } else if name == "fn*"@ {
                        } else if name == "do"@ {
                            lemma_do_reaches((fuel - 1) as nat, m, ast, 1, env);
                            assert(do_from(start, ast, 1, env) == do_from(m, ast, 1, env));
                        } else if name == "if"@ {
                            lemma_if_reaches(fuel, m, ast, items, env);
                        } else {
                            lemma_elements_reaches((fuel - 1) as nat, m, ast, seq![], env);
                        }
                    },
                    None => {
                        lemma_elements_reaches((fuel - 1) as nat, m, ast, seq![], env);
                    },
                }
            }
        },
        Kind::Vector(items) => {
            if items.len() > 0 {
                lemma_elements_reaches((fuel - 1) as nat, m, ast, seq![], env);
            }
        },
        Kind::HashMap(entries) => {
            if entries.len() > 0 {
                lemma_values_reaches((fuel - 1) as nat, m, ast, seq![], env);
            }
        },
        _ => {},
    }
}

/// `def!` comes to what the semantics says.
proof fn lemma_def_reaches(fuel: nat, m: MachineView, ast: Val, items: Seq<Val>, env: EnvId)
    requires
        ast.kind == Kind::List(items),
        items.len() > 0,
        symbol_name(items[0]) == Some("def!"@),
        big_def(fuel, store_of(m), items, env) is Some,
    ensures
        steps_view(
            m.evaluating(ast, env),
            big_def(fuel, store_of(m), items, env)->0.steps,
        ) == landed(m.stack, big_def(fuel, store_of(m), items, env)->0),
    decreases fuel, 0nat,
{
    let s = store_of(m);
    let start = m.evaluating(ast, env);
    let b = big_def(fuel, s, items, env)->0;
    lemma_step_first(start, (b.steps - 1) as nat);
    reveal_with_fuel(steps_view, 2);
    if items.len() == 3 && symbol_name(items[1]) is Some {
        let name = symbol_name(items[1])->0;
        let frame = FrameView::Def { name, env };
        let inner = m.pushing(frame);
        lemma_eval_reaches((fuel - 1) as nat, inner, items[2], env);
        let first = big_eval((fuel - 1) as nat, s, items[2], env)->0;
        assert(step_view(start) == inner.evaluating(items[2], env));
        match first.result {
            Ok(v) => {
                lemma_step_first(start, first.steps + 1);
                lemma_step_last(inner.evaluating(items[2], env), first.steps);
                lemma_hand_over(first.store, m.stack, frame, v);
            },
            Err(_) => {},
        }
    }
}

/// `if` comes to what the semantics says.
proof fn lemma_if_reaches(fuel: nat, m: MachineView, ast: Val, items: Seq<Val>, env: EnvId)
    requires
        ast.kind == Kind::List(items),
        items.len() > 0,
        symbol_name(items[0]) == Some("if"@),
        big_if(fuel, store_of(m), items, env) is Some,
    ensures
        steps_view(
            m.evaluating(ast, env),
            big_if(fuel, store_of(m), items, env)->0.steps,
        ) == landed(m.stack, big_if(fuel, store_of(m), items, env)->0),
    decreases fuel, 0nat,
{
    let s = store_of(m);
    let start = m.evaluating(ast, env);
    let b = big_if(fuel, s, items, env)->0;
    lemma_step_first(start, (b.steps - 1) as nat);
    reveal_with_fuel(steps_view, 2);
    reveal_strlit("def!");
    reveal_strlit("let*");
    reveal_strlit("fn*");
    reveal_strlit("do");
    reveal_strlit("if");
    assert("def!"@.len() == 4 && "let*"@.len() == 4 && "fn*"@.len() == 3 && "if"@.len() == 2);
    assert("do"@.len() == 2 && "do"@[0] == 'd' && "if"@[0] == 'i');
    if 3 <= items.len() <= 4 {
        let frame = FrameView::If { ast, env };
        let inner = m.pushing(frame);
        lemma_eval_reaches((fuel - 1) as nat, inner, items[1], env);
        let test = big_eval((fuel - 1) as nat, s, items[1], env)->0;
        assert(step_view(start) == inner.evaluating(items[1], env));
        match test.result {
            Ok(v) => {
                let after = MachineView {
                    envs: test.store.envs,
                    atoms: test.store.atoms,
                    stack: m.stack,
                    control: ControlView::Return(v),
                };
                lemma_hand_over(test.store, m.stack, frame, v);
                lemma_steps_add(start, test.steps + 2, (b.steps - test.steps - 2) as nat);
                lemma_step_first(start, test.steps + 1);
                lemma_step_last(inner.evaluating(items[1], env), test.steps);
                assert(steps_view(start, test.steps + 2) == continue_frame(after, frame, v));
                if v.is_truthy() {
                    lemma_eval_reaches((fuel - 1) as nat, after, items[2], env);
                } else if items.len() > 3 {
                    lemma_eval_reaches((fuel - 1) as nat, after, items[3], env);
                }
            },
            Err(_) => {},
        }
    }
}

/// `let*` comes to what the semantics says.
proof fn lemma_let_form_reaches(fuel: nat, m: MachineView, ast: Val, items: Seq<Val>, env: EnvId)
    requires
        ast.kind == Kind::List(items),
        items.len() > 0,
        symbol_name(items[0]) == Some("let*"@),
        big_let_form(fuel, store_of(m), ast, items, env) is Some,
    ensures
        steps_view(
            m.evaluating(ast, env),
            big_let_form(fuel, store_of(m), ast, items, env)->0.steps,
        ) == landed(m.stack, big_let_form(fuel, store_of(m), ast, items, env)->0),
    decreases fuel, 0nat,
{
    let s = store_of(m);
    let start = m.evaluating(ast, env);
    let b = big_let_form(fuel, s, ast, items, env)->0;
    lemma_step_first(start, (b.steps - 1) as nat);
    reveal_with_fuel(steps_view, 2);
    reveal_strlit("def!");
    reveal_strlit("let*");
    assert("def!"@.len() == 4 && "let*"@.len() == 4 && "def!"@[0] == 'd' && "let*"@[0] == 'l');
    if items.len() == 3 && items[1].items() is Some && items[1].items()->0.len() % 2 == 0 {
        let scoped = with_scope(m, env);
        let inner = m.envs.len() as usize;
        lemma_let_reaches((fuel - 1) as nat, scoped, ast, 0, inner);
        assert(let_bind(with_scope(start, env), ast, 0, inner) == let_bind(scoped, ast, 0, inner));
    }
}

/// The bindings of a `let*` form and its body come to what the semantics says.
proof fn lemma_let_reaches(fuel: nat, m: MachineView, ast: Val, index: int, env: EnvId)
    requires
        big_let(fuel, store_of(m), ast, index, env) is Some,
    ensures
        steps_view(
            let_bind(m, ast, index, env),
            big_let(fuel, store_of(m), ast, index, env)->0.steps,
        ) == landed(m.stack, big_let(fuel, store_of(m), ast, index, env)->0),
    decreases fuel, 0nat,
{
    let s = store_of(m);
    let b = big_let(fuel, s, ast, index, env)->0;
    let bindings = let_bindings(ast);
    reveal_with_fuel(steps_view, 2);
    if 0 <= index && index + 1 < bindings.len() {
        match symbol_name(bindings[index]) {
            Some(name) => {
                let frame = FrameView::Let { ast, index: index as usize, env };
                let inner = m.pushing(frame);
                let expr = bindings[index + 1];
                lemma_eval_reaches((fuel - 1) as nat, inner, expr, env);
                let first = big_eval((fuel - 1) as nat, s, expr, env)->0;
                let start = inner.evaluating(expr, env);
                assert(let_bind(m, ast, index, env) == start);
                match first.result {
                    Ok(v) => {
                        let after = MachineView {
                            envs: first.store.envs,
                            atoms: first.store.atoms,
                            stack: m.stack,
                            control: ControlView::Return(v),
                        };
                        lemma_hand_over(first.store, m.stack, frame, v);
                        lemma_step_last(start, first.steps);
                        lemma_steps_add(start, first.steps + 1, (b.steps - first.steps - 1) as nat);
                        let bound = binding(after, env, name, v);
                        assert(continue_frame(after, frame, v) == let_bind(
                            bound,
                            ast,
                            index + 2,
                            env,
                        ));
                        lemma_let_reaches((fuel - 1) as nat, bound, ast, index + 2, env);
                    },
                    Err(_) => {},
                }
            },
            None => {},
        }
    } else {
        lemma_eval_reaches((fuel - 1) as nat, m, crate::eval::let_body(ast), env);
    }
}

/// The expressions of a `do` form come to what the semantics says.
proof fn lemma_do_reaches(fuel: nat, m: MachineView, ast: Val, index: int, env: EnvId)
    requires
        big_do(fuel, store_of(m), ast, index, env) is Some,
    ensures
        steps_view(
            do_from(m, ast, index, env),
            big_do(fuel, store_of(m), ast, index, env)->0.steps,
        ) == landed(m.stack, big_do(fuel, store_of(m), ast, index, env)->0),
    decreases fuel, 0nat,
{
    let s = store_of(m);
    let b = big_do(fuel, s, ast, index, env)->0;
    let items = form_items(ast);
    reveal_with_fuel(steps_view, 2);
    if index < 1 || index >= items.len() {
    } else if index + 1 == items.len() {
        lemma_eval_reaches((fuel - 1) as nat, m, items[index], env);
    } else {
        let frame = FrameView::Do { ast, index: index as usize, env };
        let inner = m.pushing(frame);
        lemma_eval_reaches((fuel - 1) as nat, inner, items[index], env);
        let first = big_eval((fuel - 1) as nat, s, items[index], env)->0;
        let start = inner.evaluating(items[index], env);
        match first.result {
            Ok(v) => {
                let after = MachineView {
                    envs: first.store.envs,
                    atoms: first.store.atoms,
                    stack: m.stack,
                    control: ControlView::Return(v),
                };
                lemma_hand_over(first.store, m.stack, frame, v);
                lemma_step_last(start, first.steps);
                lemma_steps_add(start, first.steps + 1, (b.steps - first.steps - 1) as nat);
                assert(continue_frame(after, frame, v) == do_from(after, ast, index + 1, env));
                lemma_do_reaches((fuel - 1) as nat, after, ast, index + 1, env);
            },
            Err(_) => {},
        }
    }
}

/// The elements of a list or vector come to what the semantics says.
proof fn lemma_elements_reaches(fuel: nat, m: MachineView, ast: Val, done: Seq<Val>, env: EnvId)
    requires
        big_elements(fuel, store_of(m), ast, done, env) is Some,
    ensures
        steps_view(
            m.pushing(FrameView::Elements { ast, done, env }).evaluating(
                sequence_items(ast)[done.len() as int],
                env,
            ),
            big_elements(fuel, store_of(m), ast, done, env)->0.steps,
        ) == landed(m.stack, big_elements(fuel, store_of(m), ast, done, env)->0),
    decreases fuel, 0nat,
{
    let s = store_of(m);
    let b = big_elements(fuel, s, ast, done, env)->0;
    let items = sequence_items(ast);
    let frame = FrameView::Elements { ast, done, env };
    let inner = m.pushing(frame);
    let item = items[done.len() as int];
    let start = inner.evaluating(item, env);
    reveal_with_fuel(steps_view, 2);
    lemma_eval_reaches((fuel - 1) as nat, inner, item, env);
    let first = big_eval((fuel - 1) as nat, s, item, env)->0;
    match first.result {
        Ok(v) => {
            let after = MachineView {
                envs: first.store.envs,
                atoms: first.store.atoms,
                stack: m.stack,
                control: ControlView::Return(v),
            };
            let all = done.push(v);
            lemma_hand_over(first.store, m.stack, frame, v);
            lemma_step_last(start, first.steps);
            lemma_steps_add(start, first.steps + 1, (b.steps - first.steps - 1) as nat);
            if all.len() < items.len() {
                lemma_elements_reaches((fuel - 1) as nat, after, ast, all, env);
            } else if ast.kind is Vector {
            } else {
                lemma_apply_reaches(
                    (fuel - 1) as nat,
                    after,
                    all[0],
                    all.subrange(1, all.len() as int),
                    false,
                );
            }
        },
        Err(_) => {},
    }
}

/// The values of a map come to what the semantics says.
proof fn lemma_values_reaches(fuel: nat, m: MachineView, ast: Val, done: Seq<Val>, env: EnvId)
    requires
        big_values(fuel, store_of(m), ast, done, env) is Some,
    ensures
        steps_view(
            m.pushing(FrameView::Values { ast, done, env }).evaluating(
                map_entries(ast)[done.len() as int].1,
                env,
            ),
            big_values(fuel, store_of(m), ast, done, env)->0.steps,
        ) == landed(m.stack, big_values(fuel, store_of(m), ast, done, env)->0),
    decreases fuel, 0nat,
{
    let s = store_of(m);
    let b = big_values(fuel, s, ast, done, env)->0;
    let entries = map_entries(ast);
    let frame = FrameView::Values { ast, done, env };
    let inner = m.pushing(frame);
    let item = entries[done.len() as int].1;
    let start = inner.evaluating(item, env);
    reveal_with_fuel(steps_view, 2);
    lemma_eval_reaches((fuel - 1) as nat, inner, item, env);
    let first = big_eval((fuel - 1) as nat, s, item, env)->0;
    match first.result {
        Ok(v) => {
            let after = MachineView {
                envs: first.store.envs,
                atoms: first.store.atoms,
                stack: m.stack,
                control: ControlView::Return(v),
            };
            let all = done.push(v);
            lemma_hand_over(first.store, m.stack, frame, v);
            lemma_step_last(start, first.steps);
            lemma_steps_add(start, first.steps + 1, (b.steps - first.steps - 1) as nat);
            if all.len() < entries.len() {
                lemma_values_reaches((fuel - 1) as nat, after, ast, all, env);
            }
        },
        Err(_) => {},
    }
}

/// An application comes to what the semantics says.
pub proof fn lemma_apply_reaches(fuel: nat, m: MachineView, func: Val, args: Seq<Val>, native: bool)
    requires
        big_apply(fuel, store_of(m), func, args, native) is Some,
    ensures
        steps_view(
            m.with_control(ControlView::Apply { func, args, native }),
            big_apply(fuel, store_of(m), func, args, native)->0.steps,
        ) == landed(m.stack, big_apply(fuel, store_of(m), func, args, native)->0),
    decreases fuel, 0nat,
{
    let s = store_of(m);
    let start = m.with_control(ControlView::Apply { func, args, native });
    let b = big_apply(fuel, s, func, args, native)->0;
    assert(step_view(start) == apply_step(start, func, args, native));
    lemma_step_first(start, (b.steps - 1) as nat);
    reveal_with_fuel(steps_view, 2);
    match func.kind {
        Kind::RustFunc { func: builtin, env } => {
            let (r, atoms) = call_result(builtin, args, env, s.atoms);
            let called = MachineView { atoms, ..m };
            match r {
                Ok(next) => match next {
                    NextView::Eval { ast, env } => {
                        lemma_eval_reaches((fuel - 1) as nat, called, ast, env);
                    },
                    NextView::Apply { func, args } => {
                        lemma_apply_reaches((fuel - 1) as nat, called, func, args, true);
                    },
                    NextView::MapOver { func, items } => {
                        if items.len() > 0 {
                            lemma_map_reaches((fuel - 1) as nat, called, func, items, seq![]);
                        }
                    },
                    NextView::Swap { cell, func, args } => {
                        let frame = FrameView::Swap { cell };
                        let inner = called.pushing(frame);
                        lemma_apply_reaches((fuel - 1) as nat, inner, func, args, true);
                        let first = big_apply((fuel - 1) as nat, store_of(called), func, args, true)->0;
                        let applying = inner.with_control(
                            ControlView::Apply { func, args, native: true },
                        );
                        assert(step_view(start) == applying);
                        match first.result {
                            Ok(v) => {
                                lemma_hand_over(first.store, m.stack, frame, v);
                                lemma_step_first(start, first.steps + 1);
                                lemma_step_last(applying, first.steps);
                            },
                            Err(_) => {},
                        }
                    },
                    _ => {},
                },
                Err(_) => {},
            }
        },
        Kind::MalFunc { body, parameters, outer_env, is_macro } => {
            if parameters.len() == args.len() {
                let scoped = MachineView {
                    envs: m.envs.push(
                        EnvView {
                            bindings: crate::env::bind_all(parameters, args, parameters.len()),
                            outer: Some(outer_env),
                        },
                    ),
                    ..m
                };
                lemma_eval_reaches((fuel - 1) as nat, scoped, *body, m.envs.len() as usize);
            }
        },
        _ => {},
    }
}

/// `map` comes to what the semantics says.
proof fn lemma_map_reaches(fuel: nat, m: MachineView, func: Val, items: Seq<Val>, done: Seq<Val>)
    requires
        big_map(fuel, store_of(m), func, items, done) is Some,
    ensures
        steps_view(
            m.pushing(FrameView::MapOver { func, items, done }).with_control(
                ControlView::Apply { func, args: seq![items[done.len() as int]], native: true },
            ),
            big_map(fuel, store_of(m), func, items, done)->0.steps,
        ) == landed(m.stack, big_map(fuel, store_of(m), func, items, done)->0),
    decreases fuel, 0nat,
{
    let s = store_of(m);
    let b = big_map(fuel, s, func, items, done)->0;
    let frame = FrameView::MapOver { func, items, done };
    let inner = m.pushing(frame);
    let args = seq![items[done.len() as int]];
    let start = inner.with_control(ControlView::Apply { func, args, native: true });
    reveal_with_fuel(steps_view, 2);
    lemma_apply_reaches((fuel - 1) as nat, inner, func, args, true);
    let first = big_apply((fuel - 1) as nat, s, func, args, true)->0;
    match first.result {
        Ok(v) => {
            let after = MachineView {
                envs: first.store.envs,
                atoms: first.store.atoms,
                stack: m.stack,
                control: ControlView::Return(v),
            };
            let all = done.push(v);
            lemma_hand_over(first.store, m.stack, frame, v);
            lemma_step_last(start, first.steps);
            lemma_steps_add(start, first.steps + 1, (b.steps - first.steps - 1) as nat);
            if all.len() < items.len() {
                lemma_map_reaches((fuel - 1) as nat, after, func, items, all);
            }
        },
        Err(_) => {},
    }
}


/// A machine that has halted stays as it is, however many steps it is given.
pub proof fn lemma_halted_steps(m: MachineView, n: nat)
    requires
        is_halted(m),
    ensures
        steps_view(m, n) == m,
    decreases n,
{
    if n > 0 {
        lemma_halted_steps(m, (n - 1) as nat);
    }
}

/// A machine that has halted after `k` steps is, after a run of at least `k` steps, as
/// it was when it halted.
pub proof fn lemma_halts_at(m: MachineView, k: nat, fuel: nat)
    requires
        is_halted(steps_view(m, k)),
        fuel >= k,
    ensures
        run_view(m, fuel) == steps_view(m, k),
    decreases k,
{
    if is_halted(m) {
        lemma_halted_steps(m, k);
    } else {
        lemma_halts_at(step_view(m), (k - 1) as nat, (fuel - 1) as nat);
    }
}

/// The machine comes to what the semantics says. Where the semantics gives an outcome
/// for a form, a machine that is started on the form and runs for one step more than
/// the semantics counts, or longer, ends with the result of the outcome, and holds the
/// environments and cells of the outcome.
pub proof fn lemma_machine_evaluates(fuel: nat, m: MachineView, ast: Val, env: EnvId, steps: nat)
    requires
        big_eval(fuel, store_of(m), ast, env) is Some,
        steps > big_eval(fuel, store_of(m), ast, env)->0.steps,
    ensures
        ({
            let b = big_eval(fuel, store_of(m), ast, env)->0;
            outcome_of(run_view(started(m, ast, env), steps)) == (
                OutcomeView::Value(b.result),
                MachineView {
                    envs: b.store.envs,
                    atoms: b.store.atoms,
                    stack: seq![],
                    control: ControlView::Idle,
                },
            )
        }),
{
    let b = big_eval(fuel, store_of(m), ast, env)->0;
    let bare = MachineView { stack: seq![], ..m };
    let start = started(m, ast, env);
    assert(start == bare.evaluating(ast, env));
    lemma_eval_reaches(fuel, bare, ast, env);
    let there = steps_view(start, b.steps);
    lemma_step_last(start, b.steps);
    match b.result {
        Ok(v) => {
            assert(step_view(there) == there.with_control(ControlView::Finished(Ok(v))));
        },
        Err(_) => {},
    }
    lemma_halts_at(start, b.steps + 1, steps);
}

} // verus!
