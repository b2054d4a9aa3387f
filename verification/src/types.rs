//! The value model: tagged values, collections, function representations and errors,
//! together with the mathematical model (`Val`) that contracts are stated over.
use std::rc::Rc;
use vstd::prelude::*;

verus! {

/// Handle of an environment scope inside an environment store.
pub type EnvId = usize;

/// The native functions of the builtin library.
#[derive(Clone, Copy, Debug, PartialEq, Eq, Structural)]
pub enum Builtin {
    Add,
    Subtract,
    Multiply,
    Divide,
    Prn,
    Println,
    PrStr,
    Str,
    List,
    IsList,
    Cons,
    Concat,
    Empty,
    Count,
    Nth,
    First,
    Rest,
    Conj,
    Equals,
    Lt,
    Lte,
    Gt,
    Gte,
    ReadString,
    Slurp,
    Eval,
    Atom,
    IsAtom,
    Deref,
    Reset,
    Swap,
    Throw,
    IsNil,
    IsTrue,
    IsFalse,
    IsSymbol,
    Symbol,
    IsKeyword,
    Keyword,
    Apply,
    MapOver,
    Vector,
    IsVector,
    IsSequential,
    HashMap,
    IsMap,
    Assoc,
    Dissoc,
    Get,
    Contains,
    Keys,
    Vals,
    Readline,
    Meta,
    WithMeta,
    IsString,
    IsNumber,
    IsFn,
    IsMacro,
    TimeMs,
    ToSeq,
}

/// A value of the language. Cloning shares the payload.
#[derive(Debug)]
pub struct MalValue {
    pub mal_type: Rc<MalValueType>,
    pub meta: Option<Rc<MalValue>>,
}

/// The variants of a value. `Number` holds the bit pattern of an IEEE 754 binary64 number.
#[derive(Debug)]
pub enum MalValueType {
    Nil,
    True,
    False,
    Number(u64),
    Symbol(String),
    Str(String),
    Keyword(String),
    List(Vec<MalValue>),
    Vector(Vec<MalValue>),
    HashMap(MalMap),
    RustFunc(RustFunction),
    MalFunc(MalFunction),
    Atom(usize),
}

/// One key of a map with the value bound to it.
#[derive(Debug)]
pub struct MalMapEntry {
    pub key: MalValue,
    pub value: MalValue,
}

/// An associative map keyed by strings and keywords, in insertion order.
#[derive(Debug)]
pub struct MalMap {
    pub entries: Vec<MalMapEntry>,
}

/// A native function together with the environment it was created for.
#[derive(Debug)]
pub struct RustFunction {
    pub func: Builtin,
    pub env: EnvId,
}

/// A user-defined function: body, parameter names and defining environment.
#[derive(Debug)]
pub struct MalFunction {
    pub body: MalValue,
    pub parameters: Vec<String>,
    pub outer_env: EnvId,
    pub is_macro: bool,
}

/// The mathematical model of a value.
pub struct Val {
    pub kind: Kind,
    pub meta: Option<Box<Val>>,
}

/// The mathematical model of a value's variant.
pub enum Kind {
    Nil,
    True,
    False,
    Number(u64),
    Symbol(Seq<char>),
    Str(Seq<char>),
    Keyword(Seq<char>),
    List(Seq<Val>),
    Vector(Seq<Val>),
    HashMap(Seq<(Val, Val)>),
    RustFunc { func: Builtin, env: EnvId },
    MalFunc { body: Box<Val>, parameters: Seq<Seq<char>>, outer_env: EnvId, is_macro: bool },
    Atom(usize),
}

/// The model of `v`: the same tree with sequences and strings as `Seq`.
pub open spec fn value_view(v: MalValue) -> Val
    decreases v,
{
    Val {
        kind: match *v.mal_type {
            MalValueType::Nil => Kind::Nil,
            MalValueType::True => Kind::True,
            MalValueType::False => Kind::False,
            MalValueType::Number(n) => Kind::Number(n),
            MalValueType::Symbol(s) => Kind::Symbol(s@),
            MalValueType::Str(s) => Kind::Str(s@),
            MalValueType::Keyword(s) => Kind::Keyword(s@),
            MalValueType::List(l) => Kind::List(
                Seq::new(
                    l@.len(),
                    |i: int|
                        if 0 <= i < l@.len() {
                            value_view(l@[i])
                        } else {
                            arbitrary()
                        },
                ),
            ),
            MalValueType::Vector(l) => Kind::Vector(
                Seq::new(
                    l@.len(),
                    |i: int|
                        if 0 <= i < l@.len() {
                            value_view(l@[i])
                        } else {
                            arbitrary()
                        },
                ),
            ),
            MalValueType::HashMap(m) => Kind::HashMap(
                Seq::new(
                    m.entries@.len(),
                    |i: int|
                        if 0 <= i < m.entries@.len() {
                            (value_view(m.entries@[i].key), value_view(m.entries@[i].value))
                        } else {
                            arbitrary()
                        },
                ),
            ),
            MalValueType::RustFunc(f) => Kind::RustFunc { func: f.func, env: f.env },
            MalValueType::MalFunc(f) => Kind::MalFunc {
                body: Box::new(value_view(f.body)),
                parameters: Seq::new(f.parameters@.len(), |i: int| f.parameters@[i]@),
                outer_env: f.outer_env,
                is_macro: f.is_macro,
            },
            MalValueType::Atom(a) => Kind::Atom(a),
        },
        meta: match v.meta {
            Some(m) => Some(Box::new(value_view(*m))),
            None => None,
        },
    }
}

impl View for MalValue {
    type V = Val;

    open spec fn view(&self) -> Val {
        value_view(*self)
    }
}


/// The models of the values of `s`, in order.
pub open spec fn views(s: Seq<MalValue>) -> Seq<Val> {
    Seq::new(s.len(), |i: int| s[i]@)
}

/// The models of the entries of a map, in order.
pub open spec fn entry_views(s: Seq<MalMapEntry>) -> Seq<(Val, Val)> {
    Seq::new(s.len(), |i: int| (s[i].key@, s[i].value@))
}

/// The models of a list of names.
pub open spec fn name_views(s: Seq<String>) -> Seq<Seq<char>> {
    Seq::new(s.len(), |i: int| s[i]@)
}

/// The model of a variant on its own.
pub open spec fn kind_view(t: MalValueType) -> Kind {
    match t {
        MalValueType::Nil => Kind::Nil,
        MalValueType::True => Kind::True,
        MalValueType::False => Kind::False,
        MalValueType::Number(n) => Kind::Number(n),
        MalValueType::Symbol(s) => Kind::Symbol(s@),
        MalValueType::Str(s) => Kind::Str(s@),
        MalValueType::Keyword(s) => Kind::Keyword(s@),
        MalValueType::List(l) => Kind::List(views(l@)),
        MalValueType::Vector(l) => Kind::Vector(views(l@)),
        MalValueType::HashMap(m) => Kind::HashMap(m@),
        MalValueType::RustFunc(f) => Kind::RustFunc { func: f.func, env: f.env },
        MalValueType::MalFunc(f) => Kind::MalFunc {
            body: Box::new(f.body@),
            parameters: name_views(f.parameters@),
            outer_env: f.outer_env,
            is_macro: f.is_macro,
        },
        MalValueType::Atom(a) => Kind::Atom(a),
    }
}

impl View for MalMap {
    type V = Seq<(Val, Val)>;

    open spec fn view(&self) -> Seq<(Val, Val)> {
        entry_views(self.entries@)
    }
}

/// A value's model is the model of its variant beside the model of its metadata.
pub proof fn lemma_value_view(v: MalValue)
    ensures
        v@.kind == kind_view(*v.mal_type),
        v@.meta == match v.meta {
            Some(m) => Some(Box::new(m@)),
            None => None,
        },
{
    match *v.mal_type {
        MalValueType::List(l) => {
            assert(v@.kind->List_0 =~= views(l@));
        },
        MalValueType::Vector(l) => {
            assert(v@.kind->Vector_0 =~= views(l@));
        },
        MalValueType::HashMap(m) => {
            assert(v@.kind->HashMap_0 =~= m@);
        },
        MalValueType::MalFunc(f) => {
            assert(v@.kind->MalFunc_parameters =~= name_views(f.parameters@));
        },
        _ => {},
    }
}

impl Val {
    /// A value of the given variant without metadata.
    pub open spec fn plain(kind: Kind) -> Val {
        Val { kind, meta: None }
    }

    /// The model of `nil`.
    pub open spec fn nil() -> Val {
        Val::plain(Kind::Nil)
    }

    /// The model of a boolean.
    pub open spec fn boolean(b: bool) -> Val {
        if b {
            Val::plain(Kind::True)
        } else {
            Val::plain(Kind::False)
        }
    }

    /// The model of a number with the given bit pattern.
    pub open spec fn number(bits: u64) -> Val {
        Val::plain(Kind::Number(bits))
    }

    /// The model of a string.
    pub open spec fn string(s: Seq<char>) -> Val {
        Val::plain(Kind::Str(s))
    }

    /// The model of a list without metadata.
    pub open spec fn list(items: Seq<Val>) -> Val {
        Val::plain(Kind::List(items))
    }

    /// The model of a vector without metadata.
    pub open spec fn vector(items: Seq<Val>) -> Val {
        Val::plain(Kind::Vector(items))
    }

    /// The elements of a list or vector.
    pub open spec fn items(self) -> Option<Seq<Val>> {
        match self.kind {
            Kind::List(s) => Some(s),
            Kind::Vector(s) => Some(s),
            _ => None,
        }
    }

    /// Whether the value is a native function or a user-defined one, macros included.
    pub open spec fn is_function(self) -> bool {
        self.kind is RustFunc || self.kind is MalFunc
    }

    /// Whether the value is a user-defined function flagged as a macro.
    pub open spec fn is_macro(self) -> bool {
        self.kind matches Kind::MalFunc { is_macro, .. } && is_macro
    }

    /// Whether the value can be applied: a native function, a function or a macro.
    pub open spec fn is_function_or_macro(self) -> bool {
        self.is_function() || self.is_macro()
    }

    /// Only `nil` and `false` count as false in a condition.
    pub open spec fn is_truthy(self) -> bool {
        !(self.kind is Nil || self.kind is False)
    }
}

impl Clone for MalValue {
    fn clone(&self) -> (r: Self)
        ensures
            r == *self,
    {
        MalValue {
            mal_type: self.mal_type.clone(),
            meta: match &self.meta {
                Some(m) => Some(m.clone()),
                None => None,
            },
        }
    }
}

impl MalValue {
    /// Wraps a variant into a value without metadata.
    pub fn new(mal_type: MalValueType) -> (r: MalValue)
        ensures
            r@ == Val::plain(kind_view(mal_type)),
            *r.mal_type == mal_type,
            r.meta is None,
    {
        let r = MalValue { mal_type: Rc::new(mal_type), meta: None };
        proof {
            lemma_value_view(r);
        }
        r
    }

    /// `true` or `false`.
    pub fn new_boolean(boolean: bool) -> (r: MalValue)
        ensures
            r@ == Val::boolean(boolean),
    {
        if boolean {
            MalValue::new(MalValueType::True)
        } else {
            MalValue::new(MalValueType::False)
        }
    }

    /// A native function bound to the environment `env`.
    pub fn new_rust_func(func: Builtin, env: EnvId) -> (r: MalValue)
        ensures
            r@ == Val::plain(Kind::RustFunc { func, env }),
    {
        MalValue::new(MalValueType::RustFunc(RustFunction { func, env }))
    }

    /// A function that closes over `outer_env`.
    pub fn new_mal_func(body: MalValue, parameters: Vec<String>, outer_env: EnvId) -> (r: MalValue)
        ensures
            r@ == Val::plain(
                Kind::MalFunc {
                    body: Box::new(body@),
                    parameters: name_views(parameters@),
                    outer_env,
                    is_macro: false,
                },
            ),
    {
        MalValue::new(
            MalValueType::MalFunc(MalFunction { body, parameters, outer_env, is_macro: false }),
        )
    }

    /// A macro that closes over `outer_env`.
    pub fn new_mal_macro(body: MalValue, parameters: Vec<String>, outer_env: EnvId) -> (r: MalValue)
        ensures
            r@ == Val::plain(
                Kind::MalFunc {
                    body: Box::new(body@),
                    parameters: name_views(parameters@),
                    outer_env,
                    is_macro: true,
                },
            ),
    {
        MalValue::new(
            MalValueType::MalFunc(MalFunction { body, parameters, outer_env, is_macro: true }),
        )
    }

    /// The value that refers to the mutable cell number `cell`.
    pub fn new_atom(cell: usize) -> (r: MalValue)
        ensures
            r@ == Val::plain(Kind::Atom(cell)),
    {
        MalValue::new(MalValueType::Atom(cell))
    }

    /// `nil`.
    pub fn nil() -> (r: MalValue)
        ensures
            r@ == Val::nil(),
    {
        MalValue::new(MalValueType::Nil)
    }

    /// The number with the given bit pattern.
    pub fn new_number(bits: u64) -> (r: MalValue)
        ensures
            r@ == Val::number(bits),
    {
        MalValue::new(MalValueType::Number(bits))
    }

    /// A string.
    pub fn new_str(s: String) -> (r: MalValue)
        ensures
            r@ == Val::string(s@),
    {
        MalValue::new(MalValueType::Str(s))
    }

    /// A list of the given elements.
    pub fn new_list(vec: Vec<MalValue>) -> (r: MalValue)
        ensures
            r@ == Val::list(views(vec@)),
    {
        MalValue::new(MalValueType::List(vec))
    }

    /// A vector of the given elements.
    pub fn new_vector(vec: Vec<MalValue>) -> (r: MalValue)
        ensures
            r@ == Val::vector(views(vec@)),
    {
        MalValue::new(MalValueType::Vector(vec))
    }

    /// A map as a value.
    pub fn new_map(map: MalMap) -> (r: MalValue)
        ensures
            r@ == Val::plain(Kind::HashMap(map@)),
    {
        MalValue::new(MalValueType::HashMap(map))
    }

    /// Whether the value is a list.
    pub fn is_list(&self) -> (r: bool)
        ensures
            r == (self@.kind is List),
    {
        proof {
            lemma_value_view(*self);
        }
        match &*self.mal_type {
            MalValueType::List(_) => true,
            _ => false,
        }
    }

    /// True for a native function and for a user-defined one, macros included.
    pub fn is_function(&self) -> (r: bool)
        ensures
            r == self@.is_function(),
    {
        proof {
            lemma_value_view(*self);
        }
        match &*self.mal_type {
            MalValueType::RustFunc(_) => true,
            MalValueType::MalFunc(_) => true,
            _ => false,
        }
    }

    /// Whether the value is a user-defined function flagged as a macro.
    pub fn is_macro(&self) -> (r: bool)
        ensures
            r == self@.is_macro(),
    {
        proof {
            lemma_value_view(*self);
        }
        match &*self.mal_type {
            MalValueType::MalFunc(f) => f.is_macro,
            _ => false,
        }
    }

    /// Whether the value can be applied.
    pub fn is_function_or_macro(&self) -> (r: bool)
        ensures
            r == self@.is_function_or_macro(),
    {
        proof {
            lemma_value_view(*self);
        }
        self.is_function() || self.is_macro()
    }

    /// Whether the value is a mutable cell.
    pub fn is_atom(&self) -> (r: bool)
        ensures
            r == (self@.kind is Atom),
    {
        proof {
            lemma_value_view(*self);
        }
        match &*self.mal_type {
            MalValueType::Atom(_) => true,
            _ => false,
        }
    }

    /// Whether the value is a string.
    pub fn is_string(&self) -> (r: bool)
        ensures
            r == (self@.kind is Str),
    {
        proof {
            lemma_value_view(*self);
        }
        match &*self.mal_type {
            MalValueType::Str(_) => true,
            _ => false,
        }
    }

    /// Whether the value is a number.
    pub fn is_number(&self) -> (r: bool)
        ensures
            r == (self@.kind is Number),
    {
        proof {
            lemma_value_view(*self);
        }
        match &*self.mal_type {
            MalValueType::Number(_) => true,
            _ => false,
        }
    }

    /// The elements, where the value is a list or a vector.
    pub fn as_items(&self) -> (r: Option<&Vec<MalValue>>)
        ensures
            match self@.items() {
                Some(s) => r matches Some(l) && views(l@) == s,
                None => r is None,
            },
    {
        proof {
            lemma_value_view(*self);
        }
        match &*self.mal_type {
            MalValueType::List(l) => Some(l),
            MalValueType::Vector(l) => Some(l),
            _ => None,
        }
    }

    /// The metadata attached to the value, `nil` where there is none.
    pub fn get_meta(&self) -> (r: MalValue)
        ensures
            r@ == match self@.meta {
                Some(m) => *m,
                None => Val::nil(),
            },
    {
        proof {
            lemma_value_view(*self);
        }
        match &self.meta {
            Some(m) => {
                let r: &MalValue = &*m;
                r.clone()
            },
            None => MalValue::nil(),
        }
    }

    /// The same value with `meta` attached as its metadata.
    pub fn clone_with_meta(&self, meta: MalValue) -> (r: MalValue)
        ensures
            r@ == (Val { kind: self@.kind, meta: Some(Box::new(meta@)) }),
    {
        let r = MalValue { mal_type: self.mal_type.clone(), meta: Some(Rc::new(meta)) };
        proof {
            lemma_value_view(*self);
            lemma_value_view(r);
        }
        r
    }
}

/// What evaluation can fail with.
#[derive(Debug, PartialEq)]
pub enum MalError {
    EmptyProgram,
    Tokenizer(String),
    Parser(String),
    UndefinedSymbol(String),
    Evaluation(String),
    RustFunction(String),
    SpecialForm(String),
    Exception(MalValue),
}

/// The mathematical model of an error.
pub enum ErrView {
    EmptyProgram,
    Tokenizer(Seq<char>),
    Parser(Seq<char>),
    UndefinedSymbol(Seq<char>),
    Evaluation(Seq<char>),
    RustFunction(Seq<char>),
    SpecialForm(Seq<char>),
    Exception(Val),
}

impl View for MalError {
    type V = ErrView;

    open spec fn view(&self) -> ErrView {
        match *self {
            MalError::EmptyProgram => ErrView::EmptyProgram,
            MalError::Tokenizer(s) => ErrView::Tokenizer(s@),
            MalError::Parser(s) => ErrView::Parser(s@),
            MalError::UndefinedSymbol(s) => ErrView::UndefinedSymbol(s@),
            MalError::Evaluation(s) => ErrView::Evaluation(s@),
            MalError::RustFunction(s) => ErrView::RustFunction(s@),
            MalError::SpecialForm(s) => ErrView::SpecialForm(s@),
            MalError::Exception(v) => ErrView::Exception(v@),
        }
    }
}

/// A value, or what evaluation failed with.
pub type MalResult = Result<MalValue, MalError>;

/// The model of a result: the model of its value or of its error.
pub open spec fn result_view(r: MalResult) -> Result<Val, ErrView> {
    match r {
        Ok(v) => Ok(v@),
        Err(e) => Err(e@),
    }
}


/// One token of source text.
#[derive(Debug, PartialEq)]
pub struct MalToken {
    pub token_type: MalTokenType,
}

impl MalToken {
    /// A token of the given kind.
    pub fn new(token_type: MalTokenType) -> (r: MalToken)
        ensures
            r.token_type == token_type,
    {
        MalToken { token_type }
    }
}

/// The kinds of tokens. `Number` holds the bit pattern of the number.
#[derive(Debug, PartialEq)]
pub enum MalTokenType {
    LParen,
    RParen,
    LCurly,
    RCurly,
    LBracket,
    RBracket,
    AtSign,
    SingleQuote,
    BackTick,
    Tilde,
    TildeAtSign,
    Nil,
    True,
    False,
    Number(u64),
    Symbol(String),
    Str(String),
    Keyword(String),
}

/// The mathematical model of a token.
pub enum TokenView {
    LParen,
    RParen,
    LCurly,
    RCurly,
    LBracket,
    RBracket,
    AtSign,
    SingleQuote,
    BackTick,
    Tilde,
    TildeAtSign,
    Nil,
    True,
    False,
    Number(u64),
    Symbol(Seq<char>),
    Str(Seq<char>),
    Keyword(Seq<char>),
}

impl View for MalToken {
    type V = TokenView;

    open spec fn view(&self) -> TokenView {
        match self.token_type {
            MalTokenType::LParen => TokenView::LParen,
            MalTokenType::RParen => TokenView::RParen,
            MalTokenType::LCurly => TokenView::LCurly,
            MalTokenType::RCurly => TokenView::RCurly,
            MalTokenType::LBracket => TokenView::LBracket,
            MalTokenType::RBracket => TokenView::RBracket,
            MalTokenType::AtSign => TokenView::AtSign,
            MalTokenType::SingleQuote => TokenView::SingleQuote,
            MalTokenType::BackTick => TokenView::BackTick,
            MalTokenType::Tilde => TokenView::Tilde,
            MalTokenType::TildeAtSign => TokenView::TildeAtSign,
            MalTokenType::Nil => TokenView::Nil,
            MalTokenType::True => TokenView::True,
            MalTokenType::False => TokenView::False,
            MalTokenType::Number(n) => TokenView::Number(n),
            MalTokenType::Symbol(s) => TokenView::Symbol(s@),
            MalTokenType::Str(s) => TokenView::Str(s@),
            MalTokenType::Keyword(s) => TokenView::Keyword(s@),
        }
    }
}

/// The models of a list of tokens.
pub open spec fn token_views(s: Seq<MalToken>) -> Seq<TokenView> {
    Seq::new(s.len(), |i: int| s[i]@)
}

} // verus!
