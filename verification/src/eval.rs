//! The evaluator, as a machine that takes one step at a time.
//!
//! The machine holds the environments, the mutable cells, what is to be done next and
//! the stack of what is to be done with each value once it is there. A step never
//! waits: where a native function needs the host, the machine stops with a request and
//! goes on when it gets the answer.
use crate::atoms::{cell_set, Atoms};
use crate::builtins::{
    answer, answer_result, builtin_at, builtin_name, call, call_result, copy_range, ns, Event,
    EventView, Next, NextView, Request, RequestView, BUILTIN_COUNT,
};
use crate::env::{bind_all, chain_get, chain_set, arity_error, EnvView, Envs};
use crate::map::map_assoc_result;
use crate::semantics::big_eval;
use crate::simulation::{lemma_machine_evaluates, store_of};
use crate::text::{decimal, push_decimal, str_equal};
use crate::types::{
    lemma_value_view, name_views, result_view, views, EnvId, ErrView, Kind, MalError, MalMap,
    MalResult, MalValue, MalValueType, Val,
};
use vstd::prelude::*;
use vstd::string::StringExecFns;

verus! {

/// What is to be done with a value once it is there.
#[derive(Debug)]
pub enum Frame {
    /// The elements of the list or vector `ast` are evaluated in `env`; `done` holds the
    /// values of the first ones. The value is that of the next element.
    Elements { ast: MalValue, done: Vec<MalValue>, env: EnvId },
    /// The values of the map `ast` are evaluated in `env`; `done` holds the first ones.
    Values { ast: MalValue, done: Vec<MalValue>, env: EnvId },
    /// The value is bound to `name` in `env`.
    Def { name: String, env: EnvId },
    /// The value is bound in `env` to the name at `index` of the bindings of the `let*`
    /// form `ast`.
    Let { ast: MalValue, index: usize, env: EnvId },
    /// The value of the element at `index` of the `do` form `ast` is dropped.
    Do { ast: MalValue, index: usize, env: EnvId },
    /// The value decides between the branches of the `if` form `ast`.
    If { ast: MalValue, env: EnvId },
    /// `func` is applied to each of `items`; `done` holds the first results. The value is
    /// the next result.
    MapOver { func: MalValue, items: Vec<MalValue>, done: Vec<MalValue> },
    /// The value is put into the cell.
    Swap { cell: usize },
}

/// The mathematical model of a frame.
pub enum FrameView {
    Elements { ast: Val, done: Seq<Val>, env: EnvId },
    Values { ast: Val, done: Seq<Val>, env: EnvId },
    Def { name: Seq<char>, env: EnvId },
    Let { ast: Val, index: usize, env: EnvId },
    Do { ast: Val, index: usize, env: EnvId },
    If { ast: Val, env: EnvId },
    MapOver { func: Val, items: Seq<Val>, done: Seq<Val> },
    Swap { cell: usize },
}

impl View for Frame {
    type V = FrameView;

    open spec fn view(&self) -> FrameView {
        match *self {
            Frame::Elements { ast, done, env } => FrameView::Elements {
                ast: ast@,
                done: views(done@),
                env,
            },
            Frame::Values { ast, done, env } => FrameView::Values {
                ast: ast@,
                done: views(done@),
                env,
            },
            Frame::Def { name, env } => FrameView::Def { name: name@, env },
            Frame::Let { ast, index, env } => FrameView::Let { ast: ast@, index, env },
            Frame::Do { ast, index, env } => FrameView::Do { ast: ast@, index, env },
            Frame::If { ast, env } => FrameView::If { ast: ast@, env },
            Frame::MapOver { func, items, done } => FrameView::MapOver {
                func: func@,
                items: views(items@),
                done: views(done@),
            },
            Frame::Swap { cell } => FrameView::Swap { cell },
        }
    }
}

/// What the machine does next.
#[derive(Debug)]
pub enum Control {
    /// Nothing: no form was given yet.
    Idle,
    /// Evaluate `ast` in `env`.
    Eval { ast: MalValue, env: EnvId },
    /// Apply `func` to evaluated arguments. `native` says that a native function asked
    /// for it, not a list form.
    Apply { func: MalValue, args: Vec<MalValue>, native: bool },
    /// Hand the value to the frame on top of the stack.
    Return(MalValue),
    /// Wait for the host's answer to the request.
    Waiting(Request),
    /// The evaluation has ended with this result.
    Finished(MalResult),
}

/// The mathematical model of what the machine does next.
pub enum ControlView {
    Idle,
    Eval { ast: Val, env: EnvId },
    Apply { func: Val, args: Seq<Val>, native: bool },
    Return(Val),
    Waiting(RequestView),
    Finished(Result<Val, ErrView>),
}

impl View for Control {
    type V = ControlView;

    open spec fn view(&self) -> ControlView {
        match *self {
            Control::Idle => ControlView::Idle,
            Control::Eval { ast, env } => ControlView::Eval { ast: ast@, env },
            Control::Apply { func, args, native } => ControlView::Apply {
                func: func@,
                args: views(args@),
                native,
            },
            Control::Return(v) => ControlView::Return(v@),
            Control::Waiting(r) => ControlView::Waiting(r@),
            Control::Finished(r) => ControlView::Finished(result_view(r)),
        }
    }
}

/// The models of the frames of a stack, the top last.
pub open spec fn frame_views(s: Seq<Frame>) -> Seq<FrameView> {
    Seq::new(s.len(), |i: int| s[i]@)
}

/// The mathematical model of the machine.
pub struct MachineView {
    pub envs: Seq<EnvView>,
    pub atoms: Seq<Val>,
    pub stack: Seq<FrameView>,
    pub control: ControlView,
}

impl MachineView {
    /// The machine that next does `control`.
    pub open spec fn with_control(self, control: ControlView) -> MachineView {
        MachineView { control, ..self }
    }

    /// The machine that next hands `v` to the top frame.
    pub open spec fn returning(self, v: Val) -> MachineView {
        self.with_control(ControlView::Return(v))
    }

    /// The machine that next evaluates `ast` in `env`.
    pub open spec fn evaluating(self, ast: Val, env: EnvId) -> MachineView {
        self.with_control(ControlView::Eval { ast, env })
    }

    /// The machine that has ended with the error: its stack is dropped.
    pub open spec fn failing(self, e: ErrView) -> MachineView {
        MachineView { control: ControlView::Finished(Err(e)), stack: seq![], ..self }
    }

    /// The machine with one more frame on its stack.
    pub open spec fn pushing(self, frame: FrameView) -> MachineView {
        MachineView { stack: self.stack.push(frame), ..self }
    }

    /// The machine that goes on with a value or ends with an error.
    pub open spec fn resulting(self, r: Result<Val, ErrView>) -> MachineView {
        match r {
            Ok(v) => self.returning(v),
            Err(e) => self.failing(e),
        }
    }
}

/// The evaluator's state: environments, mutable cells, and the work that is left.
#[derive(Debug)]
pub struct Machine {
    envs: Envs,
    atoms: Atoms,
    stack: Vec<Frame>,
    control: Control,
}

impl View for Machine {
    type V = MachineView;

    closed spec fn view(&self) -> MachineView {
        MachineView {
            envs: self.envs@,
            atoms: self.atoms@,
            stack: frame_views(self.stack@),
            control: self.control@,
        }
    }
}

/// The bindings of a root scope after the first `n` native functions of the table were
/// bound to their names, each made for the scope `env`.
pub open spec fn root_bindings(env: EnvId, n: nat) -> Map<Seq<char>, Val>
    decreases n,
{
    if n == 0 {
        Map::empty()
    } else {
        root_bindings(env, (n - 1) as nat).insert(
            builtin_name(builtin_at(n - 1)),
            Val::plain(Kind::RustFunc { func: builtin_at(n - 1), env }),
        )
    }
}

/// The error of a special form, with its message.
pub open spec fn form_error(message: Seq<char>) -> ErrView {
    ErrView::SpecialForm(message)
}

/// The error for a special form with the wrong number of arguments.
pub open spec fn form_count_error(expected: Seq<char>, actual: nat) -> ErrView {
    form_error(expected + decimal(actual))
}

/// The error of a special form with the given message.
fn special(message: &str) -> (e: MalError)
    ensures
        e@ == form_error(message@),
{
    MalError::SpecialForm(String::from_str(message))
}

/// The error of a special form that got `actual` arguments.
fn special_count(expected: &str, actual: usize) -> (e: MalError)
    ensures
        e@ == form_count_error(expected@, actual as nat),
{
    let mut s = String::from_str(expected);
    push_decimal(&mut s, actual);
    MalError::SpecialForm(s)
}

/// The name of a symbol; `None` for any other value.
pub open spec fn symbol_name(v: Val) -> Option<Seq<char>> {
    match v.kind {
        Kind::Symbol(s) => Some(s),
        _ => None,
    }
}

/// The name of a symbol.
fn name_of_symbol(v: &MalValue) -> (r: Option<&String>)
    ensures
        match symbol_name(v@) {
            Some(s) => r matches Some(n) && n@ == s,
            None => r is None,
        },
{
    proof {
        lemma_value_view(*v);
    }
    match &*v.mal_type {
        MalValueType::Symbol(s) => Some(s),
        _ => None,
    }
}


/// The machine with `name` bound to `v` in scope `env`.
pub open spec fn binding(m: MachineView, env: EnvId, name: Seq<char>, v: Val) -> MachineView {
    MachineView { envs: chain_set(m.envs, env, name, v), ..m }
}

/// The machine with one more scope, empty and chained to `outer`. The new scope's handle
/// is the number of scopes before.
pub open spec fn with_scope(m: MachineView, outer: EnvId) -> MachineView {
    MachineView { envs: m.envs.push(EnvView { bindings: Map::empty(), outer: Some(outer) }), ..m }
}

/// The elements of a list; none for any other value.
pub open spec fn form_items(ast: Val) -> Seq<Val> {
    match ast.kind {
        Kind::List(items) => items,
        _ => seq![],
    }
}

/// Whether the value has the shape of a `let*` form: a list of three elements, the second
/// a list or a vector.
pub open spec fn is_let_form(ast: Val) -> bool {
    form_items(ast).len() == 3 && form_items(ast)[1].items() is Some
}

/// The bindings of a `let*` form: the elements of its second element.
pub open spec fn let_bindings(ast: Val) -> Seq<Val> {
    if is_let_form(ast) {
        form_items(ast)[1].items()->0
    } else {
        seq![]
    }
}

/// The body of a `let*` form: its third element.
pub open spec fn let_body(ast: Val) -> Val {
    if is_let_form(ast) {
        form_items(ast)[2]
    } else {
        Val::nil()
    }
}

/// `(def! name expr)`: exactly two arguments, the first a symbol. The second is evaluated
/// in `env`; its value is then bound to the symbol in `env` and is the value of the form.
pub open spec fn def_step(m: MachineView, items: Seq<Val>, env: EnvId) -> MachineView {
    if items.len() != 3 {
        m.failing(form_count_error("def! expected 2 arguments, got "@, (items.len() - 1) as nat))
    } else {
        match symbol_name(items[1]) {
            Some(name) => m.pushing(FrameView::Def { name, env }).evaluating(items[2], env),
            None => m.failing(form_error("def! first argument must be a valid symbol name"@)),
        }
    }
}

/// `(let* bindings body)`: exactly two arguments, the first a list or vector of an even
/// number of elements. A new scope is chained to `env`; then the bindings are worked
/// through in it.
pub open spec fn let_step(m: MachineView, ast: Val, items: Seq<Val>, env: EnvId) -> MachineView {
    if items.len() != 3 {
        m.failing(form_count_error("let* expected 2 arguments, got "@, (items.len() - 1) as nat))
    } else {
        match items[1].items() {
            None => m.failing(form_error("let* first argument must be a list or a vector"@)),
            Some(b) => if b.len() % 2 != 0 {
                m.failing(
                    form_error("let* bindings list must have an even number of elements"@),
                )
            } else {
                let_bind(with_scope(m, env), ast, 0, m.envs.len() as usize)
            },
        }
    }
}

/// Goes on with the binding at `index` of the `let*` form `ast`: its name must be a
/// symbol, and its expression is evaluated in the new scope `inner`, where the earlier
/// bindings are visible. After the last binding the body is evaluated in `inner`.
pub open spec fn let_bind(m: MachineView, ast: Val, index: int, inner: EnvId) -> MachineView {
    let b = let_bindings(ast);
    if 0 <= index && index + 1 < b.len() {
        match symbol_name(b[index]) {
            Some(_) => m.pushing(FrameView::Let { ast, index: index as usize, env: inner }).evaluating(
                b[index + 1],
                inner,
            ),
            None => m.failing(
                form_error(
                    "let* odd numbered elements of binding list must be valid symbol names"@,
                ),
            ),
        }
    } else {
        m.evaluating(let_body(ast), inner)
    }
}

/// The value of a binding's expression is there: it is bound to the binding's name in the
/// scope of the `let*`, and the next binding is worked on.
pub open spec fn let_continue(m: MachineView, ast: Val, index: usize, env: EnvId, v: Val) -> MachineView {
    let b = let_bindings(ast);
    if index + 1 < b.len() {
        match symbol_name(b[index as int]) {
            Some(name) => let_bind(binding(m, env, name, v), ast, index + 2, env),
            None => let_bind(m, ast, index + 2, env),
        }
    } else {
        m.evaluating(let_body(ast), env)
    }
}

/// Whether all the values are symbols.
pub open spec fn all_symbols(b: Seq<Val>) -> bool {
    forall|i: int| 0 <= i < b.len() ==> symbol_name(#[trigger] b[i]) is Some
}

/// The names of the symbols among the values; an empty name for any other value.
pub open spec fn symbol_names(b: Seq<Val>) -> Seq<Seq<char>> {
    Seq::new(
        b.len(),
        |i: int|
            match symbol_name(b[i]) {
                Some(s) => s,
                None => seq![],
            },
    )
}

/// `(fn* params body)`: exactly two arguments, the first a list or vector of symbols. The
/// value is a function that holds the body as it stands, the names, and `env`.
pub open spec fn fn_step(m: MachineView, items: Seq<Val>, env: EnvId) -> MachineView {
    if items.len() != 3 {
        m.failing(form_count_error("fn* expected 2 arguments, got "@, (items.len() - 1) as nat))
    } else {
        match items[1].items() {
            None => m.failing(form_error("fn* first argument must be a list or a vector"@)),
            Some(b) => if all_symbols(b) {
                m.returning(
                    Val::plain(
                        Kind::MalFunc {
                            body: Box::new(items[2]),
                            parameters: symbol_names(b),
                            outer_env: env,
                            is_macro: false,
                        },
                    ),
                )
            } else {
                m.failing(
                    form_error("fn*! first argument must be a sequence of valid symbol names"@),
                )
            },
        }
    }
}

/// Goes on with the element at `index` of the `do` form `ast`: the last element gives the
/// value of the form, the value of any other is dropped. Without elements the value is
/// `nil`.
pub open spec fn do_from(m: MachineView, ast: Val, index: int, env: EnvId) -> MachineView {
    let items = form_items(ast);
    if index < 1 || index >= items.len() {
        m.returning(Val::nil())
    } else if index + 1 == items.len() {
        m.evaluating(items[index], env)
    } else {
        m.pushing(FrameView::Do { ast, index: index as usize, env }).evaluating(items[index], env)
    }
}

/// `(if test then else)`: two or three arguments. The test is evaluated first.
pub open spec fn if_step(m: MachineView, ast: Val, items: Seq<Val>, env: EnvId) -> MachineView {
    if items.len() < 3 || items.len() > 4 {
        m.failing(
            form_count_error("if expected 2 or 3 arguments, got "@, (items.len() - 1) as nat),
        )
    } else {
        m.pushing(FrameView::If { ast, env }).evaluating(items[1], env)
    }
}

/// The value of the test is there: unless it is `nil` or `false` the second argument is
/// evaluated; else the third, and without a third the value is `nil`.
pub open spec fn if_continue(m: MachineView, ast: Val, env: EnvId, v: Val) -> MachineView {
    let items = form_items(ast);
    if v.is_truthy() {
        if items.len() > 2 {
            m.evaluating(items[2], env)
        } else {
            m.returning(Val::nil())
        }
    } else {
        if items.len() > 3 {
            m.evaluating(items[3], env)
        } else {
            m.returning(Val::nil())
        }
    }
}

/// Any other list that is not empty: all its elements are evaluated from left to right,
/// the first among them; then the first value is applied to the others.
pub open spec fn call_step(m: MachineView, ast: Val, items: Seq<Val>, env: EnvId) -> MachineView {
    m.pushing(FrameView::Elements { ast, done: seq![], env }).evaluating(items[0], env)
}

/// A list whose first element is a symbol: the five special forms go by the symbol's
/// text alone, whatever the symbol is bound to.
pub open spec fn list_step(m: MachineView, ast: Val, items: Seq<Val>, env: EnvId) -> MachineView {
    match symbol_name(items[0]) {
        Some(name) => if name == "def!"@ {
            def_step(m, items, env)
        } else if name == "let*"@ {
            let_step(m, ast, items, env)
        } else if name == "fn*"@ {
            fn_step(m, items, env)
        } else if name == "do"@ {
            do_from(m, ast, 1, env)
        } else if name == "if"@ {
            if_step(m, ast, items, env)
        } else {
            call_step(m, ast, items, env)
        },
        None => call_step(m, ast, items, env),
    }
}

/// One step of evaluating `ast` in `env`. The empty list and every value that is neither
/// a list, a symbol, a vector nor a map is its own value. A symbol is looked up. The
/// elements of a vector and the values of a map are evaluated in order.
pub open spec fn eval_step(m: MachineView, ast: Val, env: EnvId) -> MachineView {
    match ast.kind {
        Kind::List(items) => if items.len() == 0 {
            m.returning(ast)
        } else {
            list_step(m, ast, items, env)
        },
        Kind::Symbol(s) => m.resulting(chain_get(m.envs, env, s)),
        Kind::Vector(items) => if items.len() == 0 {
            m.returning(Val::vector(seq![]))
        } else {
            m.pushing(FrameView::Elements { ast, done: seq![], env }).evaluating(items[0], env)
        },
        Kind::HashMap(entries) => if entries.len() == 0 {
            m.returning(Val::plain(Kind::HashMap(seq![])))
        } else {
            m.pushing(FrameView::Values { ast, done: seq![], env }).evaluating(entries[0].1, env)
        },
        _ => m.returning(ast),
    }
}

/// The error of a list form whose first value is no function.
pub open spec fn not_a_function_error() -> ErrView {
    ErrView::Evaluation("First element of a list must evaluate to a function."@)
}

/// The error of a native function that was to apply a value that is no function.
pub open spec fn expected_function_error() -> ErrView {
    ErrView::RustFunction("Expected function."@)
}

/// The machine after a native function was called, as the function asks.
pub open spec fn after_call(m: MachineView, next: NextView) -> MachineView {
    match next {
        NextView::Done(v) => m.returning(v),
        NextView::Eval { ast, env } => m.evaluating(ast, env),
        NextView::Apply { func, args } => m.with_control(
            ControlView::Apply { func, args, native: true },
        ),
        NextView::MapOver { func, items } => if items.len() == 0 {
            m.returning(Val::list(seq![]))
        } else {
            m.pushing(FrameView::MapOver { func, items, done: seq![] }).with_control(
                ControlView::Apply { func, args: seq![items[0]], native: true },
            )
        },
        NextView::Swap { cell, func, args } => m.pushing(FrameView::Swap { cell }).with_control(
            ControlView::Apply { func, args, native: true },
        ),
        NextView::Ask(request) => m.with_control(ControlView::Waiting(request)),
    }
}

/// One step of applying `func` to evaluated arguments. A native function is called with
/// the arguments and the environment it was made for. A user-defined function gets a new
/// scope, chained to the environment it was defined in, that binds each parameter to the
/// argument at its position; its body is evaluated there. The counts must agree.
pub open spec fn apply_step(m: MachineView, func: Val, args: Seq<Val>, native: bool) -> MachineView {
    match func.kind {
        Kind::RustFunc { func: builtin, env } => {
            let (r, atoms) = call_result(builtin, args, env, m.atoms);
            let m2 = MachineView { atoms, ..m };
            match r {
                Ok(next) => after_call(m2, next),
                Err(e) => m2.failing(e),
            }
        },
        Kind::MalFunc { body, parameters, outer_env, is_macro } => if parameters.len()
            == args.len() {
            MachineView {
                envs: m.envs.push(
                    EnvView {
                        bindings: bind_all(parameters, args, parameters.len()),
                        outer: Some(outer_env),
                    },
                ),
                ..m
            }.evaluating(*body, m.envs.len() as usize)
        } else {
            m.failing(arity_error(parameters.len(), args.len()))
        },
        _ => if native {
            m.failing(expected_function_error())
        } else {
            m.failing(not_a_function_error())
        },
    }
}

/// The keys of the first `n` entries with the first `n` values, alternating.
pub open spec fn interleaved(entries: Seq<(Val, Val)>, vals: Seq<Val>, n: nat) -> Seq<Val> {
    Seq::new(
        2 * n,
        |i: int|
            if i % 2 == 0 {
                entries[i / 2].0
            } else {
                vals[i / 2]
            },
    )
}

/// The entries of a map; none for any other value.
pub open spec fn map_entries(ast: Val) -> Seq<(Val, Val)> {
    match ast.kind {
        Kind::HashMap(entries) => entries,
        _ => seq![],
    }
}

/// The elements of a list or vector; none for any other value.
pub open spec fn sequence_items(ast: Val) -> Seq<Val> {
    match ast.items() {
        Some(items) => items,
        None => seq![],
    }
}

/// The machine after the value `v` was handed to `frame`, which was taken off the stack.
pub open spec fn continue_frame(m: MachineView, frame: FrameView, v: Val) -> MachineView {
    match frame {
        FrameView::Elements { ast, done, env } => {
            let items = sequence_items(ast);
            let all = done.push(v);
            if all.len() < items.len() {
                m.pushing(FrameView::Elements { ast, done: all, env }).evaluating(
                    items[all.len() as int],
                    env,
                )
            } else if ast.kind is Vector {
                m.returning(Val::vector(all))
            } else {
                m.with_control(
                    ControlView::Apply {
                        func: all[0],
                        args: all.subrange(1, all.len() as int),
                        native: false,
                    },
                )
            }
        },
        FrameView::Values { ast, done, env } => {
            let entries = map_entries(ast);
            let all = done.push(v);
            if all.len() < entries.len() {
                m.pushing(FrameView::Values { ast, done: all, env }).evaluating(
                    entries[all.len() as int].1,
                    env,
                )
            } else {
                m.resulting(
                    crate::builtins::map_value(
                        map_assoc_result(seq![], interleaved(entries, all, entries.len())),
                    ),
                )
            }
        },
        FrameView::Def { name, env } => binding(m, env, name, v).returning(v),
        FrameView::Let { ast, index, env } => let_continue(m, ast, index, env, v),
        FrameView::Do { ast, index, env } => do_from(m, ast, index + 1, env),
        FrameView::If { ast, env } => if_continue(m, ast, env, v),
        FrameView::MapOver { func, items, done } => {
            let all = done.push(v);
            if all.len() < items.len() {
                m.pushing(FrameView::MapOver { func, items, done: all }).with_control(
                    ControlView::Apply { func, args: seq![items[all.len() as int]], native: true },
                )
            } else {
                m.returning(Val::list(all))
            }
        },
        FrameView::Swap { cell } => MachineView {
            atoms: cell_set(m.atoms, cell, v),
            ..m
        }.returning(v),
    }
}

/// One step of handing a value on: to the frame on top of the stack, or, where the stack
/// is empty, out as the result of the evaluation.
pub open spec fn deliver_step(m: MachineView, v: Val) -> MachineView {
    if m.stack.len() == 0 {
        m.with_control(ControlView::Finished(Ok(v)))
    } else {
        continue_frame(MachineView { stack: m.stack.drop_last(), ..m }, m.stack.last(), v)
    }
}

/// One step of the machine. A machine that is idle, waits for the host or has finished
/// stays as it is.
pub open spec fn step_view(m: MachineView) -> MachineView {
    match m.control {
        ControlView::Eval { ast, env } => eval_step(m, ast, env),
        ControlView::Apply { func, args, native } => apply_step(m, func, args, native),
        ControlView::Return(v) => deliver_step(m, v),
        _ => m,
    }
}

/// The machine after the host's answer: it goes on with the value that the answer stands
/// for, or ends with an error. A machine that does not wait stays as it is.
pub open spec fn resume_view(m: MachineView, event: EventView) -> MachineView {
    match m.control {
        ControlView::Waiting(request) => m.resulting(answer_result(request, event)),
        _ => m,
    }
}

/// The machine after `n` steps.
pub open spec fn steps_view(m: MachineView, n: nat) -> MachineView
    decreases n,
{
    if n == 0 {
        m
    } else {
        steps_view(step_view(m), (n - 1) as nat)
    }
}

/// Whether the machine cannot step on by itself: it is idle, waits or has finished.
pub open spec fn is_halted(m: MachineView) -> bool {
    m.control is Idle || m.control is Waiting || m.control is Finished
}


/// The elements of a list.
fn list_items(ast: &MalValue) -> (r: Option<&Vec<MalValue>>)
    ensures
        match r {
            Some(l) => ast@.kind == Kind::List(views(l@)) && views(l@) == form_items(ast@),
            None => !(ast@.kind is List) && form_items(ast@) == Seq::<Val>::empty(),
        },
{
    proof {
        lemma_value_view(*ast);
    }
    match &*ast.mal_type {
        MalValueType::List(l) => Some(l),
        _ => None,
    }
}

/// The bindings and the body of a `let*` form.
fn let_parts(ast: &MalValue) -> (r: Option<(&Vec<MalValue>, &MalValue)>)
    ensures
        match r {
            Some((b, body)) => is_let_form(ast@) && views(b@) == let_bindings(ast@) && body@
                == let_body(ast@),
            None => !is_let_form(ast@),
        },
{
    match list_items(ast) {
        Some(items) => {
            if items.len() == 3 {
                match items[1].as_items() {
                    Some(b) => Some((b, &items[2])),
                    None => None,
                }
            } else {
                None
            }
        },
        None => None,
    }
}

impl Machine {
    /// A machine without environments and cells, with nothing to do.
    pub fn new() -> (r: Machine)
        ensures
            r@ == (MachineView {
                envs: seq![],
                atoms: seq![],
                stack: seq![],
                control: ControlView::Idle,
            }),
    {
        let r = Machine {
            envs: Envs::new(),
            atoms: Atoms::new(),
            stack: Vec::new(),
            control: Control::Idle,
        };
        assert(r@.stack =~= seq![]);
        r
    }

    /// Sets what the machine does next.
    fn set_control(&mut self, control: Control)
        ensures
            final(self)@ == old(self)@.with_control(control@),
    {
        self.control = control;
    }

    /// Goes on by handing `v` to the top frame.
    fn give(&mut self, v: MalValue)
        ensures
            final(self)@ == old(self)@.returning(v@),
    {
        self.control = Control::Return(v);
    }

    /// Goes on by evaluating `ast` in `env`.
    fn evaluate(&mut self, ast: MalValue, env: EnvId)
        ensures
            final(self)@ == old(self)@.evaluating(ast@, env),
    {
        self.control = Control::Eval { ast, env };
    }

    /// Ends the evaluation with the error and drops the stack.
    fn fail(&mut self, e: MalError)
        ensures
            final(self)@ == old(self)@.failing(e@),
    {
        self.stack = Vec::new();
        self.control = Control::Finished(Err(e));
        assert(self@.stack =~= seq![]);
    }

    /// Goes on with a value, or ends with an error.
    fn result(&mut self, r: MalResult)
        ensures
            final(self)@ == old(self)@.resulting(result_view(r)),
    {
        match r {
            Ok(v) => self.give(v),
            Err(e) => self.fail(e),
        }
    }

    /// Puts a frame on top of the stack.
    fn push_frame(&mut self, frame: Frame)
        ensures
            final(self)@ == old(self)@.pushing(frame@),
    {
        self.stack.push(frame);
        assert(self@.stack =~= old(self)@.stack.push(frame@));
    }

    /// The environments of the machine.
    pub fn envs(&self) -> (r: &Envs)
        ensures
            r@ == self@.envs,
    {
        &self.envs
    }

    /// The mutable cells of the machine.
    pub fn atoms(&self) -> (r: &Atoms)
        ensures
            r@ == self@.atoms,
    {
        &self.atoms
    }

    /// Adds an empty scope without an outer scope and gives its handle.
    pub fn new_env(&mut self) -> (r: EnvId)
        ensures
            r == old(self)@.envs.len(),
            final(self)@ == (MachineView {
                envs: old(self)@.envs.push(EnvView { bindings: Map::empty(), outer: None }),
                ..old(self)@
            }),
    {
        self.envs.new_env()
    }

    /// Adds a root scope that binds the name of every native function to that function,
    /// made for this scope, and gives its handle.
    pub fn create_root_env(&mut self) -> (r: EnvId)
        ensures
            r == old(self)@.envs.len(),
            final(self)@ == (MachineView {
                envs: old(self)@.envs.push(
                    EnvView { bindings: root_bindings(r, BUILTIN_COUNT as nat), outer: None },
                ),
                ..old(self)@
            }),
    {
        let env = self.new_env();
        let table = ns(env);
        let mut i: usize = 0;
        while i < table.len()
            invariant
                i <= table@.len(),
                table@.len() == BUILTIN_COUNT,
                env == old(self)@.envs.len(),
                forall|j: int|
                    0 <= j < BUILTIN_COUNT ==> (#[trigger] table@[j]).0@ == builtin_name(
                        builtin_at(j),
                    ) && table@[j].1@ == Val::plain(Kind::RustFunc { func: builtin_at(j), env }),
                self@ == (MachineView {
                    envs: old(self)@.envs.push(
                        EnvView { bindings: root_bindings(env, i as nat), outer: None },
                    ),
                    ..old(self)@
                }),
            decreases table.len() - i,
        {
            self.set(env, table[i].0, table[i].1.clone());
            assert(self@.envs =~= old(self)@.envs.push(
                EnvView { bindings: root_bindings(env, (i + 1) as nat), outer: None },
            ));
            i += 1;
        }
        env
    }

    /// Binds `name` to `v` in scope `env` and in no other.
    pub fn set(&mut self, env: EnvId, name: &str, v: MalValue)
        ensures
            final(self)@ == binding(old(self)@, env, name@, v@),
    {
        self.envs.set(env, name, v);
    }

    /// Looks `name` up in scope `env`, then in each outer scope in turn.
    pub fn get(&self, env: EnvId, name: &str) -> (r: MalResult)
        ensures
            result_view(r) == chain_get(self@.envs, env, name@),
    {
        self.envs.get(env, name)
    }

    /// `def!`: checks the shape of the form and goes on with its expression.
    fn apply_special_form_def(&mut self, items: &Vec<MalValue>, env: EnvId)
        requires
            items@.len() > 0,
        ensures
            final(self)@ == def_step(old(self)@, views(items@), env),
    {
        if items.len() != 3 {
            self.fail(special_count("def! expected 2 arguments, got ", items.len() - 1));
            return ;
        }
        match name_of_symbol(&items[1]) {
            Some(symbol) => {
                self.push_frame(Frame::Def { name: symbol.clone(), env });
                self.evaluate(items[2].clone(), env);
            },
            None => {
                self.fail(special("def! first argument must be a valid symbol name"));
            },
        }
    }

    /// Goes on with the binding at `index` of a `let*` form, or with its body.
    fn let_bind(&mut self, ast: &MalValue, index: usize, inner: EnvId)
        ensures
            final(self)@ == let_bind(old(self)@, ast@, index as int, inner),
    {
        match let_parts(ast) {
            Some((bindings, body)) => {
                if index < bindings.len() && bindings.len() - index > 1 {
                    match name_of_symbol(&bindings[index]) {
                        Some(_) => {
                            self.push_frame(Frame::Let { ast: ast.clone(), index, env: inner });
                            self.evaluate(bindings[index + 1].clone(), inner);
                        },
                        None => {
                            self.fail(
                                special(
                                    "let* odd numbered elements of binding list must be valid symbol names",
                                ),
                            );
                        },
                    }
                } else {
                    self.evaluate(body.clone(), inner);
                }
            },
            None => {
                self.evaluate(MalValue::nil(), inner);
            },
        }
    }

    /// `let*`: checks the shape of the form, makes its scope and goes on with the first
    /// binding.
    fn apply_special_form_let(&mut self, ast: &MalValue, items: &Vec<MalValue>, env: EnvId)
        requires
            items@.len() > 0,
            ast@.kind == Kind::List(views(items@)),
        ensures
            final(self)@ == let_step(old(self)@, ast@, views(items@), env),
    {
        if items.len() != 3 {
            self.fail(special_count("let* expected 2 arguments, got ", items.len() - 1));
            return ;
        }
        match items[1].as_items() {
            Some(bindings) => {
                if bindings.len() % 2 != 0 {
                    self.fail(special("let* bindings list must have an even number of elements"));
                    return ;
                }
                let inner = self.envs.with_outer_env(env);
                self.let_bind(ast, 0, inner);
            },
            None => {
                self.fail(special("let* first argument must be a list or a vector"));
            },
        }
    }

    /// Binds the value of a binding of a `let*` form and goes on with the next.
    fn let_continue(&mut self, ast: MalValue, index: usize, env: EnvId, v: MalValue)
        ensures
            final(self)@ == let_continue(old(self)@, ast@, index, env, v@),
    {
        match let_parts(&ast) {
            Some((bindings, body)) => {
                if index < bindings.len() && bindings.len() - index > 1 {
                    match name_of_symbol(&bindings[index]) {
                        Some(name) => {
                            self.set(env, name.as_str(), v);
                        },
                        None => {},
                    }
                    self.let_bind(&ast, index + 2, env);
                } else {
                    self.evaluate(body.clone(), env);
                }
            },
            None => {
                self.evaluate(MalValue::nil(), env);
            },
        }
    }

    /// `fn*`: checks the shape of the form and gives the function.
    fn apply_special_form_fn(&mut self, items: &Vec<MalValue>, env: EnvId)
        requires
            items@.len() > 0,
        ensures
            final(self)@ == fn_step(old(self)@, views(items@), env),
    {
        if items.len() != 3 {
            self.fail(special_count("fn* expected 2 arguments, got ", items.len() - 1));
            return ;
        }
        match items[1].as_items() {
            Some(bindings) => {
                let ghost b = views(bindings@);
                let mut parameters: Vec<String> = Vec::new();
                let mut i: usize = 0;
                while i < bindings.len()
                    invariant
                        i <= bindings@.len(),
                        b == views(bindings@),
                        self@ == old(self)@,
                        items@.len() == 3,
                        views(items@)[1].items() == Some(b),
                        parameters@.len() == i,
                        forall|j: int| 0 <= j < i ==> symbol_name(#[trigger] b[j]) == Some(parameters@[j]@),
                    decreases bindings.len() - i,
                {
                    match name_of_symbol(&bindings[i]) {
                        Some(symbol) => {
                            parameters.push(symbol.clone());
                        },
                        None => {
                            assert(symbol_name(b[i as int]) is None);
                            self.fail(
                                special(
                                    "fn*! first argument must be a sequence of valid symbol names",
                                ),
                            );
                            return ;
                        },
                    }
                    i += 1;
                }
                assert(name_views(parameters@) =~= symbol_names(b));
                self.give(MalValue::new_mal_func(items[2].clone(), parameters, env));
            },
            None => {
                self.fail(special("fn* first argument must be a list or a vector"));
            },
        }
    }

    /// Goes on with the element at `index` of a `do` form.
    fn do_from(&mut self, ast: &MalValue, index: usize, env: EnvId)
        ensures
            final(self)@ == do_from(old(self)@, ast@, index as int, env),
    {
        match list_items(ast) {
            Some(items) => {
                if index < 1 || index >= items.len() {
                    self.give(MalValue::nil());
                } else if items.len() - index == 1 {
                    self.evaluate(items[index].clone(), env);
                } else {
                    self.push_frame(Frame::Do { ast: ast.clone(), index, env });
                    self.evaluate(items[index].clone(), env);
                }
            },
            None => {
                self.give(MalValue::nil());
            },
        }
    }

    /// `do`: goes on with the first expression of the form.
    fn apply_special_form_do(&mut self, ast: &MalValue, env: EnvId)
        ensures
            final(self)@ == do_from(old(self)@, ast@, 1, env),
    {
        self.do_from(ast, 1, env)
    }

    /// Drops the value of an expression of a `do` form and goes on with the next.
    fn do_continue(&mut self, ast: MalValue, index: usize, env: EnvId)
        ensures
            final(self)@ == do_from(old(self)@, ast@, index + 1, env),
    {
        match list_items(&ast) {
            Some(items) => {
                if index < items.len() {
                    self.do_from(&ast, index + 1, env);
                } else {
                    self.give(MalValue::nil());
                }
            },
            None => {
                self.give(MalValue::nil());
            },
        }
    }

    /// `if`: checks the shape of the form and goes on with its test.
    fn apply_special_form_if(&mut self, ast: &MalValue, items: &Vec<MalValue>, env: EnvId)
        requires
            items@.len() > 0,
            ast@.kind == Kind::List(views(items@)),
        ensures
            final(self)@ == if_step(old(self)@, ast@, views(items@), env),
    {
        if items.len() < 3 || items.len() > 4 {
            self.fail(special_count("if expected 2 or 3 arguments, got ", items.len() - 1));
            return ;
        }
        self.push_frame(Frame::If { ast: ast.clone(), env });
        self.evaluate(items[1].clone(), env);
    }

    /// Chooses the branch of an `if` form by the value of its test.
    fn if_continue(&mut self, ast: MalValue, env: EnvId, v: MalValue)
        ensures
            final(self)@ == if_continue(old(self)@, ast@, env, v@),
    {
        proof {
            lemma_value_view(v);
        }
        let truthy = match &*v.mal_type {
            MalValueType::False => false,
            MalValueType::Nil => false,
            _ => true,
        };
        let branch: usize = if truthy {
            2
        } else {
            3
        };
        match list_items(&ast) {
            Some(items) => {
                if items.len() > branch {
                    self.evaluate(items[branch].clone(), env);
                } else {
                    self.give(MalValue::nil());
                }
            },
            None => {
                self.give(MalValue::nil());
            },
        }
    }

    /// A list that is no special form: goes on with its first element; the application
    /// follows when all elements have their values.
    fn apply_ast(&mut self, ast: &MalValue, items: &Vec<MalValue>, env: EnvId)
        requires
            items@.len() > 0,
            ast@.kind == Kind::List(views(items@)),
        ensures
            final(self)@ == call_step(old(self)@, ast@, views(items@), env),
    {
        let done: Vec<MalValue> = Vec::new();
        assert(views(done@) =~= seq![]);
        self.push_frame(Frame::Elements { ast: ast.clone(), done, env });
        self.evaluate(items[0].clone(), env);
    }

    /// A list that is not empty: a special form by the text of its first symbol, else
    /// an application.
    fn eval_list(&mut self, ast: &MalValue, items: &Vec<MalValue>, env: EnvId)
        requires
            items@.len() > 0,
            ast@.kind == Kind::List(views(items@)),
        ensures
            final(self)@ == list_step(old(self)@, ast@, views(items@), env),
    {
        match name_of_symbol(&items[0]) {
            Some(name) => {
                if str_equal(name.as_str(), "def!") {
                    self.apply_special_form_def(items, env);
                } else if str_equal(name.as_str(), "let*") {
                    self.apply_special_form_let(ast, items, env);
                } else if str_equal(name.as_str(), "fn*") {
                    self.apply_special_form_fn(items, env);
                } else if str_equal(name.as_str(), "do") {
                    self.apply_special_form_do(ast, env);
                } else if str_equal(name.as_str(), "if") {
                    self.apply_special_form_if(ast, items, env);
                } else {
                    self.apply_ast(ast, items, env);
                }
            },
            None => {
                self.apply_ast(ast, items, env);
            },
        }
    }

    /// One step of evaluating `ast` in `env`.
    fn eval(&mut self, ast: MalValue, env: EnvId)
        ensures
            final(self)@ == eval_step(old(self)@, ast@, env),
    {
        proof {
            lemma_value_view(ast);
        }
        match &*ast.mal_type {
            MalValueType::List(items) => {
                if items.len() == 0 {
                    self.give(ast.clone());
                } else {
                    self.eval_list(&ast, items, env);
                }
            },
            MalValueType::Symbol(s) => {
                let r = self.envs.get(env, s.as_str());
                self.result(r);
            },
            MalValueType::Vector(items) => {
                if items.len() == 0 {
                    let empty: Vec<MalValue> = Vec::new();
                    assert(views(empty@) =~= seq![]);
                    self.give(MalValue::new_vector(empty));
                } else {
                    let done: Vec<MalValue> = Vec::new();
                    assert(views(done@) =~= seq![]);
                    self.push_frame(Frame::Elements { ast: ast.clone(), done, env });
                    self.evaluate(items[0].clone(), env);
                }
            },
            MalValueType::HashMap(m) => {
                if m.entries.len() == 0 {
                    self.give(MalValue::new_map(MalMap::new()));
                } else {
                    let done: Vec<MalValue> = Vec::new();
                    assert(views(done@) =~= seq![]);
                    self.push_frame(Frame::Values { ast: ast.clone(), done, env });
                    self.evaluate(m.entries[0].value.clone(), env);
                }
            },
            _ => {
                self.give(ast.clone());
            },
        }
    }
}


/// How a machine stands.
#[derive(Clone, Copy, Debug, PartialEq, Eq, Structural)]
pub enum Status {
    /// No form was given yet, or the result was taken.
    Idle,
    /// There are steps left to take.
    Running,
    /// The machine waits for the host's answer to a request.
    Waiting,
    /// The evaluation has ended.
    Finished,
}

/// How a machine with the given control stands.
pub open spec fn status_of(c: ControlView) -> Status {
    match c {
        ControlView::Idle => Status::Idle,
        ControlView::Waiting(_) => Status::Waiting,
        ControlView::Finished(_) => Status::Finished,
        _ => Status::Running,
    }
}

/// What an evaluation with a bound on its steps came to.
#[derive(Debug)]
pub enum Outcome {
    /// The evaluation has ended with this result.
    Value(MalResult),
    /// The machine waits for the host: perform the request and call `resume`.
    Ask(Request),
    /// The steps were used up: call `run` to go on.
    OutOfFuel,
}

/// The mathematical model of an outcome.
pub enum OutcomeView {
    Value(Result<Val, ErrView>),
    Ask(RequestView),
    OutOfFuel,
}

impl View for Outcome {
    type V = OutcomeView;

    open spec fn view(&self) -> OutcomeView {
        match *self {
            Outcome::Value(r) => OutcomeView::Value(result_view(r)),
            Outcome::Ask(r) => OutcomeView::Ask(r@),
            Outcome::OutOfFuel => OutcomeView::OutOfFuel,
        }
    }
}

/// What a machine has come to, and the machine after the outcome was taken from it: a
/// result is taken out, which leaves the machine idle; a request stays.
pub open spec fn outcome_of(m: MachineView) -> (OutcomeView, MachineView) {
    match m.control {
        ControlView::Finished(r) => (OutcomeView::Value(r), m.with_control(ControlView::Idle)),
        ControlView::Waiting(request) => (OutcomeView::Ask(request), m),
        _ => (OutcomeView::OutOfFuel, m),
    }
}

/// The number of steps, at most `fuel`, after which the machine first halts; `fuel` where
/// it does not halt before.
pub open spec fn steps_to_halt(m: MachineView, fuel: nat) -> nat
    decreases fuel,
{
    if fuel == 0 || is_halted(m) {
        0
    } else {
        1 + steps_to_halt(step_view(m), (fuel - 1) as nat)
    }
}

/// The machine that was started on `ast` in `env`: whatever it was doing is dropped.
pub open spec fn started(m: MachineView, ast: Val, env: EnvId) -> MachineView {
    MachineView { stack: seq![], control: ControlView::Eval { ast, env }, ..m }
}

/// The machine after it ran for at most `fuel` steps.
pub open spec fn run_view(m: MachineView, fuel: nat) -> MachineView {
    steps_view(m, steps_to_halt(m, fuel))
}

impl Machine {
    /// Goes on as a native function asks after its call.
    fn after_call(&mut self, next: Next)
        ensures
            final(self)@ == after_call(old(self)@, next@),
    {
        match next {
            Next::Done(v) => self.give(v),
            Next::Eval { ast, env } => self.evaluate(ast, env),
            Next::Apply { func, args } => self.set_control(
                Control::Apply { func, args, native: true },
            ),
            Next::MapOver { func, items } => {
                if items.len() == 0 {
                    let empty: Vec<MalValue> = Vec::new();
                    assert(views(empty@) =~= seq![]);
                    self.give(MalValue::new_list(empty));
                } else {
                    let mut args: Vec<MalValue> = Vec::new();
                    args.push(items[0].clone());
                    assert(views(args@) =~= seq![views(items@)[0]]);
                    let done: Vec<MalValue> = Vec::new();
                    assert(views(done@) =~= seq![]);
                    let f = func.clone();
                    self.push_frame(Frame::MapOver { func, items, done });
                    self.set_control(Control::Apply { func: f, args, native: true });
                }
            },
            Next::Swap { cell, func, args } => {
                self.push_frame(Frame::Swap { cell });
                self.set_control(Control::Apply { func, args, native: true });
            },
            Next::Ask(request) => self.set_control(Control::Waiting(request)),
        }
    }

    /// One step of applying `func` to evaluated arguments.
    fn core_apply(&mut self, func: MalValue, args: Vec<MalValue>, native: bool)
        ensures
            final(self)@ == apply_step(old(self)@, func@, views(args@), native),
    {
        proof {
            lemma_value_view(func);
        }
        match &*func.mal_type {
            MalValueType::RustFunc(rust_function) => {
                let r = call(rust_function.func, args.as_slice(), rust_function.env, &mut self.atoms);
                match r {
                    Ok(next) => self.after_call(next),
                    Err(e) => self.fail(e),
                }
            },
            MalValueType::MalFunc(mal_func) => {
                let r = self.envs.with_binds(
                    Some(mal_func.outer_env),
                    &mal_func.parameters,
                    args.as_slice(),
                );
                match r {
                    Ok(func_env) => self.evaluate(mal_func.body.clone(), func_env),
                    Err(e) => self.fail(e),
                }
            },
            _ => {
                if native {
                    self.fail(MalError::RustFunction(String::from_str("Expected function.")));
                } else {
                    self.fail(
                        MalError::Evaluation(
                            String::from_str("First element of a list must evaluate to a function."),
                        ),
                    );
                }
            },
        }
    }

    /// Takes the value of an element of a list or vector: goes on with the next element,
    /// or, when all have their values, gives the vector or applies the first value of the
    /// list to the others.
    fn elements_continue(&mut self, ast: MalValue, done: Vec<MalValue>, env: EnvId, v: MalValue)
        ensures
            final(self)@ == continue_frame(
                old(self)@,
                FrameView::Elements { ast: ast@, done: views(done@), env },
                v@,
            ),
    {
        proof {
            lemma_value_view(ast);
        }
        let mut done = done;
        let ghost before = views(done@);
        done.push(v);
        assert(views(done@) =~= before.push(v@));
        let next = match ast.as_items() {
            Some(items) => {
                if done.len() < items.len() {
                    Some(items[done.len()].clone())
                } else {
                    None
                }
            },
            None => None,
        };
        match next {
            Some(item) => {
                self.push_frame(Frame::Elements { ast, done, env });
                self.evaluate(item, env);
            },
            None => {
                let is_vector = match &*ast.mal_type {
                    MalValueType::Vector(_) => true,
                    _ => false,
                };
                if is_vector {
                    self.give(MalValue::new_vector(done));
                } else {
                    let func = done[0].clone();
                    let args = copy_range(done.as_slice(), 1, done.len());
                    self.set_control(Control::Apply { func, args, native: false });
                }
            },
        }
    }

    /// The values of a map were evaluated: the map of the same keys with these values.
    fn eval_map(&mut self, ast: &MalValue, done: &Vec<MalValue>)
        requires
            done@.len() >= map_entries(ast@).len(),
        ensures
            final(self)@ == old(self)@.resulting(
                crate::builtins::map_value(
                    map_assoc_result(
                        seq![],
                        interleaved(map_entries(ast@), views(done@), map_entries(ast@).len()),
                    ),
                ),
            ),
    {
        proof {
            lemma_value_view(*ast);
        }
        let ghost entries = map_entries(ast@);
        let ghost vals = views(done@);
        let mut map_args: Vec<MalValue> = Vec::new();
        match &*ast.mal_type {
            MalValueType::HashMap(m) => {
                let mut i: usize = 0;
                while i < m.entries.len()
                    invariant
                        i <= m.entries@.len(),
                        entries == m@,
                        vals == views(done@),
                        done@.len() >= m.entries@.len(),
                        views(map_args@) == interleaved(entries, vals, i as nat),
                    decreases m.entries.len() - i,
                {
                    let ghost before = views(map_args@);
                    map_args.push(m.entries[i].key.clone());
                    map_args.push(done[i].clone());
                    assert(views(map_args@) =~= before.push(entries[i as int].0).push(vals[i as int]));
                    assert(views(map_args@) =~= interleaved(entries, vals, (i + 1) as nat));
                    i += 1;
                }
            },
            _ => {
                assert(views(map_args@) =~= interleaved(entries, vals, 0));
            },
        }
        match MalMap::from_arguments(map_args.as_slice()) {
            Ok(m) => self.give(MalValue::new_map(m)),
            Err(e) => self.fail(e),
        }
    }

    /// Takes the value of a value of a map: goes on with the next, or gives the map.
    fn values_continue(&mut self, ast: MalValue, done: Vec<MalValue>, env: EnvId, v: MalValue)
        ensures
            final(self)@ == continue_frame(
                old(self)@,
                FrameView::Values { ast: ast@, done: views(done@), env },
                v@,
            ),
    {
        proof {
            lemma_value_view(ast);
        }
        let mut done = done;
        let ghost before = views(done@);
        done.push(v);
        assert(views(done@) =~= before.push(v@));
        let next = match &*ast.mal_type {
            MalValueType::HashMap(m) => {
                if done.len() < m.entries.len() {
                    Some(m.entries[done.len()].value.clone())
                } else {
                    None
                }
            },
            _ => None,
        };
        match next {
            Some(item) => {
                self.push_frame(Frame::Values { ast, done, env });
                self.evaluate(item, env);
            },
            None => {
                self.eval_map(&ast, &done);
            },
        }
    }

    /// Takes a result of `map`: applies the function to the next element, or gives the
    /// list of the results.
    fn map_continue(&mut self, func: MalValue, items: Vec<MalValue>, done: Vec<MalValue>, v: MalValue)
        ensures
            final(self)@ == continue_frame(
                old(self)@,
                FrameView::MapOver { func: func@, items: views(items@), done: views(done@) },
                v@,
            ),
    {
        let mut done = done;
        let ghost before = views(done@);
        done.push(v);
        assert(views(done@) =~= before.push(v@));
        if done.len() < items.len() {
            let mut args: Vec<MalValue> = Vec::new();
            args.push(items[done.len()].clone());
            assert(views(args@) =~= seq![views(items@)[done@.len() as int]]);
            let f = func.clone();
            self.push_frame(Frame::MapOver { func, items, done });
            self.set_control(Control::Apply { func: f, args, native: true });
        } else {
            self.give(MalValue::new_list(done));
        }
    }

    /// Hands a value to a frame that was taken off the stack.
    fn continue_frame(&mut self, frame: Frame, v: MalValue)
        ensures
            final(self)@ == continue_frame(old(self)@, frame@, v@),
    {
        match frame {
            Frame::Elements { ast, done, env } => self.elements_continue(ast, done, env, v),
            Frame::Values { ast, done, env } => self.values_continue(ast, done, env, v),
            Frame::Def { name, env } => {
                self.set(env, name.as_str(), v.clone());
                self.give(v);
            },
            Frame::Let { ast, index, env } => self.let_continue(ast, index, env, v),
            Frame::Do { ast, index, env } => self.do_continue(ast, index, env),
            Frame::If { ast, env } => self.if_continue(ast, env, v),
            Frame::MapOver { func, items, done } => self.map_continue(func, items, done, v),
            Frame::Swap { cell } => {
                self.atoms.set(cell, v.clone());
                self.give(v);
            },
        }
    }

    /// Hands a value on: to the top frame, or out as the result.
    fn deliver(&mut self, v: MalValue)
        ensures
            final(self)@ == deliver_step(old(self)@, v@),
    {
        match self.stack.pop() {
            Some(frame) => {
                assert(self@.stack =~= old(self)@.stack.drop_last());
                assert(frame@ == old(self)@.stack.last());
                self.continue_frame(frame, v);
            },
            None => {
                self.set_control(Control::Finished(Ok(v)));
            },
        }
    }

    /// Takes one step.
    pub fn step(&mut self)
        ensures
            final(self)@ == step_view(old(self)@),
    {
        let mut control = Control::Idle;
        std::mem::swap(&mut control, &mut self.control);
        match control {
            Control::Eval { ast, env } => self.eval(ast, env),
            Control::Apply { func, args, native } => self.core_apply(func, args, native),
            Control::Return(v) => self.deliver(v),
            other => {
                self.control = other;
            },
        }
    }

    /// How the machine stands.
    pub fn status(&self) -> (r: Status)
        ensures
            r == status_of(self@.control),
    {
        match &self.control {
            Control::Idle => Status::Idle,
            Control::Waiting(_) => Status::Waiting,
            Control::Finished(_) => Status::Finished,
            _ => Status::Running,
        }
    }

    /// Gives the machine the form `ast` to evaluate in `env`. Whatever it was doing is
    /// dropped; environments and cells stay.
    pub fn start(&mut self, ast: MalValue, env: EnvId)
        ensures
            final(self)@ == started(old(self)@, ast@, env),
    {
        self.stack = Vec::new();
        self.control = Control::Eval { ast, env };
        assert(self@.stack =~= seq![]);
    }

    /// Takes steps until the machine halts, at most `fuel` of them.
    pub fn run(&mut self, fuel: usize)
        ensures
            final(self)@ == run_view(old(self)@, fuel as nat),
    {
        let mut left = fuel;
        loop
            invariant
                run_view(old(self)@, fuel as nat) == run_view(self@, left as nat),
            decreases left,
        {
            if left == 0 {
                return ;
            }
            match self.status() {
                Status::Running => {},
                _ => {
                    return ;
                },
            }
            self.step();
            left -= 1;
        }
    }

    /// Hands the host's answer to a machine that waits for it.
    pub fn resume(&mut self, event: Event)
        ensures
            final(self)@ == resume_view(old(self)@, event@),
    {
        let mut control = Control::Idle;
        std::mem::swap(&mut control, &mut self.control);
        match control {
            Control::Waiting(request) => {
                let r = answer(&request, event);
                self.result(r);
            },
            other => {
                self.control = other;
            },
        }
    }

    /// What the machine has come to. A result is taken out of the machine, which is idle
    /// afterwards; a request is copied.
    pub fn outcome(&mut self) -> (r: Outcome)
        ensures
            (r@, final(self)@) == outcome_of(old(self)@),
    {
        let mut control = Control::Idle;
        std::mem::swap(&mut control, &mut self.control);
        match control {
            Control::Finished(r) => Outcome::Value(r),
            Control::Waiting(request) => {
                let copy = match &request {
                    Request::Print(s) => Request::Print(s.clone()),
                    Request::ReadFile(s) => Request::ReadFile(s.clone()),
                    Request::ReadLine(s) => Request::ReadLine(s.clone()),
                    Request::Clock => Request::Clock,
                };
                self.control = Control::Waiting(request);
                Outcome::Ask(copy)
            },
            other => {
                self.control = other;
                Outcome::OutOfFuel
            },
        }
    }

    /// Goes on for at most `fuel` steps and says what the machine has come to.
    pub fn proceed(&mut self, fuel: usize) -> (r: Outcome)
        ensures
            (r@, final(self)@) == outcome_of(run_view(old(self)@, fuel as nat)),
    {
        self.run(fuel);
        self.outcome()
    }

    /// Evaluates `ast` in `env` for at most `fuel` steps. Where the semantics gives the
    /// value of the form, or the error that its evaluation fails with, and the steps
    /// suffice, that is the result, and the environments and cells are those that the
    /// semantics gives.
    pub fn eval_form(&mut self, ast: MalValue, env: EnvId, fuel: usize) -> (r: Outcome)
        ensures
            (r@, final(self)@) == outcome_of(run_view(started(old(self)@, ast@, env), fuel as nat)),
            forall|levels: nat|
                ({
                    let b = #[trigger] big_eval(levels, store_of(old(self)@), ast@, env);
                    b is Some && b->0.steps < fuel ==> r@ == OutcomeView::Value(b->0.result)
                        && final(self)@.envs == b->0.store.envs && final(self)@.atoms
                        == b->0.store.atoms
                }),
    {
        proof {
            assert forall|levels: nat|
                ({
                    let b = #[trigger] big_eval(levels, store_of(self@), ast@, env);
                    b is Some && b->0.steps < fuel
                }) implies ({
                let b = big_eval(levels, store_of(self@), ast@, env);
                outcome_of(run_view(started(self@, ast@, env), fuel as nat)) == (
                    OutcomeView::Value(b->0.result),
                    MachineView {
                        envs: b->0.store.envs,
                        atoms: b->0.store.atoms,
                        stack: seq![],
                        control: ControlView::Idle,
                    },
                )
            }) by {
                lemma_machine_evaluates(levels, self@, ast@, env, fuel as nat);
            }
        }
        self.start(ast, env);
        self.proceed(fuel)
    }
}

} // verus!
