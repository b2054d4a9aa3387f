//! Reads source text: splits it into tokens and builds the first form from them.
use crate::map::map_assoc_result;
use crate::number::{is_digit, is_numeral, parse_number, parsed_number, MAX_NUMERAL_LEN};
use crate::text::{chars_of, str_equal};
use crate::types::{
    result_view, token_views, views, ErrView, Kind, MalError, MalMap, MalResult, MalToken,
    MalTokenType, MalValue, MalValueType, TokenView, Val,
};
use vstd::prelude::*;
use vstd::string::StringExecFns;

verus! {

/// Whether the character separates tokens without being one: white space.
pub open spec fn is_space(c: char) -> bool {
    c == ' ' || c == '\t' || c == '\n' || c == '\r'
}

/// Whether the character ends a name or a number.
pub open spec fn is_delimiter(c: char) -> bool {
    is_space(c) || c == ',' || c == '(' || c == ')' || c == '[' || c == ']' || c == '{' || c
        == '}' || c == '\'' || c == '"' || c == '`' || c == ';'
}

/// The index of the first character at or after `pos` that belongs to a token: white
/// space and commas are skipped, and so is a comment, from `;` to the end of its line.
pub open spec fn skip_blank(s: Seq<char>, pos: int, comment: bool) -> int
    decreases s.len() - pos,
{
    if pos < 0 || pos >= s.len() {
        pos
    } else if comment {
        skip_blank(s, pos + 1, s[pos] != '\n')
    } else if is_space(s[pos]) || s[pos] == ',' {
        skip_blank(s, pos + 1, false)
    } else if s[pos] == ';' {
        skip_blank(s, pos + 1, true)
    } else {
        pos
    }
}

/// The index of the first delimiter at or after `pos`.
pub open spec fn skip_name(s: Seq<char>, pos: int) -> int
    decreases s.len() - pos,
{
    if 0 <= pos < s.len() && !is_delimiter(s[pos]) {
        skip_name(s, pos + 1)
    } else {
        pos
    }
}

/// The characters of a string literal whose body starts at `pos`, added to `acc`, with
/// the index past its closing quote; `None` where the text ends before the literal does.
/// After a backslash, `n` stands for a line feed and any other character for itself.
pub open spec fn string_body(s: Seq<char>, pos: int, acc: Seq<char>) -> Option<(Seq<char>, int)>
    decreases s.len() - pos,
{
    if pos < 0 || pos >= s.len() {
        None
    } else if s[pos] == '"' {
        Some((acc, pos + 1))
    } else if s[pos] == '\\' {
        if pos + 1 >= s.len() {
            None
        } else if s[pos + 1] == 'n' {
            string_body(s, pos + 2, acc.push('\n'))
        } else {
            string_body(s, pos + 2, acc.push(s[pos + 1]))
        }
    } else {
        string_body(s, pos + 1, acc.push(s[pos]))
    }
}

/// The error for a string literal without its closing quote.
pub open spec fn unterminated_error() -> ErrView {
    ErrView::Tokenizer("Unterminated string"@)
}

/// The error for a token that starts like a number and is none.
pub open spec fn invalid_number_error() -> ErrView {
    ErrView::Tokenizer("Invalid number"@)
}

/// Whether a name starts like a number: with a digit, or with a sign and a digit.
pub open spec fn starts_number(text: Seq<char>) -> bool {
    text.len() > 0 && (is_digit(text[0]) || ((text[0] == '-' || text[0] == '+') && text.len() > 1
        && is_digit(text[1])))
}

/// The token that a name or a number stands for.
pub open spec fn name_token(text: Seq<char>) -> Result<TokenView, ErrView> {
    if text == "nil"@ {
        Ok(TokenView::Nil)
    } else if text == "true"@ {
        Ok(TokenView::True)
    } else if text == "false"@ {
        Ok(TokenView::False)
    } else if text.len() > 0 && text[0] == ':' {
        Ok(TokenView::Keyword(text.subrange(1, text.len() as int)))
    } else if starts_number(text) {
        if is_numeral(text) && text.len() <= MAX_NUMERAL_LEN {
            match parsed_number(text) {
                Some(bits) => Ok(TokenView::Number(bits)),
                None => Err(invalid_number_error()),
            }
        } else {
            Err(invalid_number_error())
        }
    } else {
        Ok(TokenView::Symbol(text))
    }
}

/// What the scan for one token finds.
pub enum Scan {
    /// No token is left.
    End,
    /// A token, and the index past it.
    Token(TokenView, int),
    /// The text is malformed.
    Error(ErrView),
}

/// The first token at or after `pos`.
pub open spec fn next_token(s: Seq<char>, pos: int) -> Scan {
    let p = skip_blank(s, pos, false);
    if p < 0 || p >= s.len() {
        Scan::End
    } else if s[p] == '~' {
        if p + 1 < s.len() && s[p + 1] == '@' {
            Scan::Token(TokenView::TildeAtSign, p + 2)
        } else {
            Scan::Token(TokenView::Tilde, p + 1)
        }
    } else if s[p] == '(' {
        Scan::Token(TokenView::LParen, p + 1)
    } else if s[p] == ')' {
        Scan::Token(TokenView::RParen, p + 1)
    } else if s[p] == '[' {
        Scan::Token(TokenView::LBracket, p + 1)
    } else if s[p] == ']' {
        Scan::Token(TokenView::RBracket, p + 1)
    } else if s[p] == '{' {
        Scan::Token(TokenView::LCurly, p + 1)
    } else if s[p] == '}' {
        Scan::Token(TokenView::RCurly, p + 1)
    } else if s[p] == '\'' {
        Scan::Token(TokenView::SingleQuote, p + 1)
    } else if s[p] == '`' {
        Scan::Token(TokenView::BackTick, p + 1)
    } else if s[p] == '@' {
        Scan::Token(TokenView::AtSign, p + 1)
    } else if s[p] == '"' {
        match string_body(s, p + 1, seq![]) {
            Some((text, end)) => Scan::Token(TokenView::Str(text), end),
            None => Scan::Error(unterminated_error()),
        }
    } else {
        let end = skip_name(s, p + 1);
        match name_token(s.subrange(p, end)) {
            Ok(t) => Scan::Token(t, end),
            Err(e) => Scan::Error(e),
        }
    }
}

/// The tokens of the text from `pos` on, behind those of `acc`.
pub open spec fn tokens_from(s: Seq<char>, pos: int, acc: Seq<TokenView>) -> Result<
    Seq<TokenView>,
    ErrView,
>
    decreases s.len() - pos,
{
    match next_token(s, pos) {
        Scan::End => Ok(acc),
        Scan::Error(e) => Err(e),
        Scan::Token(t, next) => if pos < next <= s.len() {
            tokens_from(s, next, acc.push(t))
        } else {
            Ok(acc.push(t))
        },
    }
}

/// The tokens of a text.
pub open spec fn tokens_of(s: Seq<char>) -> Result<Seq<TokenView>, ErrView> {
    tokens_from(s, 0, seq![])
}

/// A string literal ends behind where its body starts, inside the text.
proof fn lemma_string_body_bounds(s: Seq<char>, pos: int, acc: Seq<char>)
    requires
        0 <= pos <= s.len(),
    ensures
        string_body(s, pos, acc) matches Some((_, end)) ==> pos < end <= s.len(),
    decreases s.len() - pos,
{
    if pos < s.len() {
        if s[pos] == '"' {
        } else if s[pos] == '\\' {
            if pos + 1 < s.len() {
                if s[pos + 1] == 'n' {
                    lemma_string_body_bounds(s, pos + 2, acc.push('\n'));
                } else {
                    lemma_string_body_bounds(s, pos + 2, acc.push(s[pos + 1]));
                }
            }
        } else {
            lemma_string_body_bounds(s, pos + 1, acc.push(s[pos]));
        }
    }
}

/// Skips white space, commas and comments.
fn scan_blank(s: &Vec<char>, pos: usize) -> (r: usize)
    requires
        pos <= s@.len(),
    ensures
        r == skip_blank(s@, pos as int, false),
        pos <= r <= s@.len(),
{
    let mut i = pos;
    let mut comment = false;
    while i < s.len()
        invariant
            pos <= i <= s@.len(),
            skip_blank(s@, pos as int, false) == skip_blank(s@, i as int, comment),
        decreases s.len() - i,
    {
        let c = s[i];
        if comment {
            comment = c != '\n';
        } else if c == ' ' || c == '\t' || c == '\n' || c == '\r' || c == ',' {
        } else if c == ';' {
            comment = true;
        } else {
            return i;
        }
        i += 1;
    }
    i
}

/// Decides whether the character ends a name.
fn delimiter(c: char) -> (r: bool)
    ensures
        r == is_delimiter(c),
{
    c == ' ' || c == '\t' || c == '\n' || c == '\r' || c == ',' || c == '(' || c == ')' || c == '['
        || c == ']' || c == '{' || c == '}' || c == '\'' || c == '"' || c == '`' || c == ';'
}

/// The index of the first delimiter at or after `pos`.
fn scan_name(s: &Vec<char>, pos: usize) -> (r: usize)
    requires
        pos <= s@.len(),
    ensures
        r == skip_name(s@, pos as int),
        pos <= r <= s@.len(),
{
    let mut i = pos;
    while i < s.len() && !delimiter(s[i])
        invariant
            pos <= i <= s@.len(),
            skip_name(s@, pos as int) == skip_name(s@, i as int),
        decreases s.len() - i,
    {
        i += 1;
    }
    i
}

/// Reads the body of a string literal.
fn scan_string(s: &Vec<char>, pos: usize) -> (r: Option<(String, usize)>)
    requires
        pos <= s@.len(),
    ensures
        match string_body(s@, pos as int, seq![]) {
            Some((text, end)) => r matches Some((t, e)) && t@ == text && e == end && pos < e
                <= s@.len(),
            None => r is None,
        },
{
    let mut out = String::new();
    let mut i = pos;
    while i < s.len()
        invariant
            pos <= i <= s@.len(),
            string_body(s@, pos as int, seq![]) == string_body(s@, i as int, out@),
        decreases s.len() - i,
    {
        let c = s[i];
        if c == '"' {
            proof {
                lemma_string_body_bounds(s@, pos as int, seq![]);
            }
            return Some((out, i + 1));
        } else if c == '\\' {
            if i + 1 >= s.len() {
                return None;
            }
            let e = s[i + 1];
            if e == 'n' {
                out.push('\n');
            } else {
                out.push(e);
            }
            i += 2;
        } else {
            out.push(c);
            i += 1;
        }
    }
    None
}

/// The string that holds the characters of `v` from `from` up to `to`.
fn string_of_range(v: &Vec<char>, from: usize, to: usize) -> (r: String)
    requires
        from <= to <= v@.len(),
    ensures
        r@ == v@.subrange(from as int, to as int),
{
    let mut out = String::new();
    let mut i = from;
    while i < to
        invariant
            from <= i <= to <= v@.len(),
            out@ == v@.subrange(from as int, i as int),
        decreases to - i,
    {
        out.push(v[i]);
        assert(out@ =~= v@.subrange(from as int, i + 1));
        i += 1;
    }
    out
}

/// The model of a result that holds a token.
pub open spec fn token_result_view(r: Result<MalToken, MalError>) -> Result<TokenView, ErrView> {
    match r {
        Ok(t) => Ok(t@),
        Err(e) => Err(e@),
    }
}

/// Decides whether the character is a decimal digit.
fn digit(c: char) -> (r: bool)
    ensures
        r == is_digit(c),
{
    c >= '0' && c <= '9'
}

/// The token of a name or a number.
fn classify(s: &Vec<char>, from: usize, to: usize) -> (r: Result<MalToken, MalError>)
    requires
        from <= to <= s@.len(),
    ensures
        token_result_view(r) == name_token(s@.subrange(from as int, to as int)),
{
    let ghost text = s@.subrange(from as int, to as int);
    let name = string_of_range(s, from, to);
    if str_equal(name.as_str(), "nil") {
        return Ok(MalToken::new(MalTokenType::Nil));
    }
    if str_equal(name.as_str(), "true") {
        return Ok(MalToken::new(MalTokenType::True));
    }
    if str_equal(name.as_str(), "false") {
        return Ok(MalToken::new(MalTokenType::False));
    }
    if to > from && s[from] == ':' {
        let rest = string_of_range(s, from + 1, to);
        assert(rest@ =~= text.subrange(1, text.len() as int));
        return Ok(MalToken::new(MalTokenType::Keyword(rest)));
    }
    let numeric = to > from && (digit(s[from]) || ((s[from] == '-' || s[from] == '+') && to - from
        > 1 && digit(s[from + 1])));
    assert(numeric == starts_number(text));
    if numeric {
        match parse_number(name.as_str()) {
            Some(bits) => Ok(MalToken::new(MalTokenType::Number(bits))),
            None => Err(MalError::Tokenizer(String::from_str("Invalid number"))),
        }
    } else {
        Ok(MalToken::new(MalTokenType::Symbol(name)))
    }
}

/// What a scan found, in executable form.
enum Scanned {
    End,
    Token(MalToken, usize),
    Error(MalError),
}

impl View for Scanned {
    type V = Scan;

    closed spec fn view(&self) -> Scan {
        match *self {
            Scanned::End => Scan::End,
            Scanned::Token(t, next) => Scan::Token(t@, next as int),
            Scanned::Error(e) => Scan::Error(e@),
        }
    }
}

/// A token without text that ends at `next`.
fn simple(token_type: MalTokenType, next: usize) -> (r: Scanned)
    ensures
        r == Scanned::Token(MalToken { token_type }, next),
{
    Scanned::Token(MalToken::new(token_type), next)
}

/// Scans for the first token at or after `pos`.
fn scan_token(s: &Vec<char>, pos: usize) -> (r: Scanned)
    requires
        pos <= s@.len(),
    ensures
        r@ == next_token(s@, pos as int),
        r matches Scanned::Token(_, next) ==> pos < next <= s@.len(),
{
    let p = scan_blank(s, pos);
    if p >= s.len() {
        return Scanned::End;
    }
    let c = s[p];
    if c == '~' {
        if p + 1 < s.len() && s[p + 1] == '@' {
            simple(MalTokenType::TildeAtSign, p + 2)
        } else {
            simple(MalTokenType::Tilde, p + 1)
        }
    } else if c == '(' {
        simple(MalTokenType::LParen, p + 1)
    } else if c == ')' {
        simple(MalTokenType::RParen, p + 1)
    } else if c == '[' {
        simple(MalTokenType::LBracket, p + 1)
    } else if c == ']' {
        simple(MalTokenType::RBracket, p + 1)
    } else if c == '{' {
        simple(MalTokenType::LCurly, p + 1)
    } else if c == '}' {
        simple(MalTokenType::RCurly, p + 1)
    } else if c == '\'' {
        simple(MalTokenType::SingleQuote, p + 1)
    } else if c == '`' {
        simple(MalTokenType::BackTick, p + 1)
    } else if c == '@' {
        simple(MalTokenType::AtSign, p + 1)
    } else if c == '"' {
        match scan_string(s, p + 1) {
            Some((text, end)) => simple(MalTokenType::Str(text), end),
            None => Scanned::Error(MalError::Tokenizer(String::from_str("Unterminated string"))),
        }
    } else {
        let end = scan_name(s, p + 1);
        match classify(s, p, end) {
            Ok(t) => Scanned::Token(t, end),
            Err(e) => Scanned::Error(e),
        }
    }
}

/// The model of a result that holds tokens.
pub open spec fn tokens_result_view(r: Result<Vec<MalToken>, MalError>) -> Result<
    Seq<TokenView>,
    ErrView,
> {
    match r {
        Ok(ts) => Ok(token_views(ts@)),
        Err(e) => Err(e@),
    }
}

/// Splits a text into its tokens.
pub fn tokenize(text: &str) -> (r: Result<Vec<MalToken>, MalError>)
    ensures
        tokens_result_view(r) == tokens_of(text@),
{
    let s = chars_of(text);
    let mut tokens: Vec<MalToken> = Vec::new();
    let mut pos: usize = 0;
    assert(token_views(tokens@) =~= seq![]);
    loop
        invariant
            pos <= s@.len(),
            s@ == text@,
            tokens_of(text@) == tokens_from(s@, pos as int, token_views(tokens@)),
        decreases s@.len() - pos,
    {
        match scan_token(&s, pos) {
            Scanned::End => {
                return Ok(tokens);
            },
            Scanned::Error(e) => {
                return Err(e);
            },
            Scanned::Token(t, next) => {
                let ghost before = token_views(tokens@);
                tokens.push(t);
                assert(token_views(tokens@) =~= before.push(t@));
                pos = next;
            },
        }
    }
}

/// The error for a text that ends inside a form.
pub open spec fn unexpected_end_error() -> ErrView {
    ErrView::Parser("Unexpected end of input"@)
}

/// The error for a closing bracket without its opening one.
pub open spec fn unexpected_close_error() -> ErrView {
    ErrView::Parser("Unexpected closing bracket"@)
}

/// The list of a symbol and a form, which a prefix character stands for.
pub open spec fn prefixed(name: Seq<char>, form: Val) -> Val {
    Val::list(seq![Val::plain(Kind::Symbol(name)), form])
}

/// The form that starts at token `pos`, with the index past it. `(` up to `)` is a list,
/// `[` up to `]` a vector, `{` up to `}` a map of alternating keys and values; `'`, `` ` ``,
/// `~`, `~@` and `@` before a form make the list of `quote`, `quasiquote`, `unquote`,
/// `splice-unquote` or `deref` and that form.
pub open spec fn form_at(tokens: Seq<TokenView>, pos: int) -> Result<(Val, int), ErrView>
    decreases tokens.len() - pos, 1nat,
{
    if pos < 0 || pos >= tokens.len() {
        Err(unexpected_end_error())
    } else {
        match tokens[pos] {
            TokenView::LParen => match forms_until(tokens, pos + 1, TokenView::RParen, seq![]) {
                Ok((items, next)) => Ok((Val::list(items), next)),
                Err(e) => Err(e),
            },
            TokenView::LBracket => match forms_until(tokens, pos + 1, TokenView::RBracket, seq![]) {
                Ok((items, next)) => Ok((Val::vector(items), next)),
                Err(e) => Err(e),
            },
            TokenView::LCurly => match forms_until(tokens, pos + 1, TokenView::RCurly, seq![]) {
                Ok((items, next)) => match map_assoc_result(seq![], items) {
                    Ok(m) => Ok((Val::plain(Kind::HashMap(m)), next)),
                    Err(e) => Err(e),
                },
                Err(e) => Err(e),
            },
            TokenView::RParen => Err(unexpected_close_error()),
            TokenView::RBracket => Err(unexpected_close_error()),
            TokenView::RCurly => Err(unexpected_close_error()),
            TokenView::SingleQuote => prefixed_form(tokens, pos, "quote"@),
            TokenView::BackTick => prefixed_form(tokens, pos, "quasiquote"@),
            TokenView::Tilde => prefixed_form(tokens, pos, "unquote"@),
            TokenView::TildeAtSign => prefixed_form(tokens, pos, "splice-unquote"@),
            TokenView::AtSign => prefixed_form(tokens, pos, "deref"@),
            TokenView::Nil => Ok((Val::nil(), pos + 1)),
            TokenView::True => Ok((Val::boolean(true), pos + 1)),
            TokenView::False => Ok((Val::boolean(false), pos + 1)),
            TokenView::Number(n) => Ok((Val::number(n), pos + 1)),
            TokenView::Symbol(s) => Ok((Val::plain(Kind::Symbol(s)), pos + 1)),
            TokenView::Str(s) => Ok((Val::string(s), pos + 1)),
            TokenView::Keyword(s) => Ok((Val::plain(Kind::Keyword(s)), pos + 1)),
        }
    }
}

/// The form behind the prefix token at `pos`, in a list behind the symbol `name`.
pub open spec fn prefixed_form(tokens: Seq<TokenView>, pos: int, name: Seq<char>) -> Result<
    (Val, int),
    ErrView,
>
    decreases tokens.len() - pos, 0nat,
{
    if pos < 0 || pos >= tokens.len() {
        Err(unexpected_end_error())
    } else {
        match form_at(tokens, pos + 1) {
            Ok((form, next)) => Ok((prefixed(name, form), next)),
            Err(e) => Err(e),
        }
    }
}

/// The forms from token `pos` up to the token `close`, behind those of `acc`, with the
/// index past that token.
pub open spec fn forms_until(
    tokens: Seq<TokenView>,
    pos: int,
    close: TokenView,
    acc: Seq<Val>,
) -> Result<(Seq<Val>, int), ErrView>
    decreases tokens.len() - pos, 2nat,
{
    if pos < 0 || pos >= tokens.len() {
        Err(unexpected_end_error())
    } else if tokens[pos] == close {
        Ok((acc, pos + 1))
    } else {
        match form_at(tokens, pos) {
            Ok((form, next)) => if pos < next <= tokens.len() {
                forms_until(tokens, next, close, acc.push(form))
            } else {
                Err(unexpected_end_error())
            },
            Err(e) => Err(e),
        }
    }
}

/// What reading a text gives: its first form; an error of its own where the text holds no
/// token at all.
pub open spec fn read_text(text: Seq<char>) -> Result<Val, ErrView> {
    match tokens_of(text) {
        Err(e) => Err(e),
        Ok(tokens) => if tokens.len() == 0 {
            Err(ErrView::EmptyProgram)
        } else {
            match form_at(tokens, 0) {
                Ok((form, _)) => Ok(form),
                Err(e) => Err(e),
            }
        },
    }
}

/// The model of a result that holds a form and the index past it.
pub open spec fn form_view(r: Result<(MalValue, usize), MalError>) -> Result<(Val, int), ErrView> {
    match r {
        Ok((v, next)) => Ok((v@, next as int)),
        Err(e) => Err(e@),
    }
}

/// The model of a result that holds forms and the index past them.
pub open spec fn forms_view(r: Result<(Vec<MalValue>, usize), MalError>) -> Result<
    (Seq<Val>, int),
    ErrView,
> {
    match r {
        Ok((v, next)) => Ok((views(v@), next as int)),
        Err(e) => Err(e@),
    }
}

/// The parser's error with the given message.
fn parser_error(message: &str) -> (e: MalError)
    ensures
        e@ == ErrView::Parser(message@),
{
    MalError::Parser(String::from_str(message))
}

/// The symbol with the given name.
fn symbol_of(name: &str) -> (r: MalValue)
    ensures
        r@ == Val::plain(Kind::Symbol(name@)),
{
    MalValue::new(MalValueType::Symbol(String::from_str(name)))
}

/// Decides whether the token is the closing bracket `close`.
fn same_kind(t: &MalToken, close: &MalTokenType) -> (r: bool)
    requires
        *close == MalTokenType::RParen || *close == MalTokenType::RBracket || *close
            == MalTokenType::RCurly,
    ensures
        r == (t@ == (MalToken { token_type: *close })@),
{
    match (&t.token_type, close) {
        (MalTokenType::RParen, MalTokenType::RParen) => true,
        (MalTokenType::RBracket, MalTokenType::RBracket) => true,
        (MalTokenType::RCurly, MalTokenType::RCurly) => true,
        _ => false,
    }
}

/// Reads the form behind a prefix token into a list behind the symbol `name`.
fn read_prefixed(tokens: &Vec<MalToken>, pos: usize, name: &str) -> (r: Result<
    (MalValue, usize),
    MalError,
>)
    requires
        pos <= tokens@.len(),
    ensures
        form_view(r) == prefixed_form(token_views(tokens@), pos as int, name@),
        r matches Ok((_, next)) ==> pos < next <= tokens@.len(),
    decreases tokens@.len() - pos, 0nat,
{
    if pos >= tokens.len() {
        return Err(parser_error("Unexpected end of input"));
    }
    match read_form(tokens, pos + 1) {
        Ok((form, next)) => {
            let mut items: Vec<MalValue> = Vec::new();
            items.push(symbol_of(name));
            items.push(form);
            assert(views(items@) =~= seq![Val::plain(Kind::Symbol(name@)), form@]);
            Ok((MalValue::new_list(items), next))
        },
        Err(e) => Err(e),
    }
}

/// Reads the form that starts at token `pos`.
fn read_form(tokens: &Vec<MalToken>, pos: usize) -> (r: Result<(MalValue, usize), MalError>)
    requires
        pos <= tokens@.len(),
    ensures
        form_view(r) == form_at(token_views(tokens@), pos as int),
        r matches Ok((_, next)) ==> pos < next <= tokens@.len(),
    decreases tokens@.len() - pos, 1nat,
{
    if pos >= tokens.len() {
        return Err(parser_error("Unexpected end of input"));
    }
    match &tokens[pos].token_type {
        MalTokenType::LParen => {
            let acc: Vec<MalValue> = Vec::new();
            assert(views(acc@) =~= seq![]);
            match read_forms(tokens, pos + 1, MalTokenType::RParen, acc) {
                Ok((items, next)) => Ok((MalValue::new_list(items), next)),
                Err(e) => Err(e),
            }
        },
        MalTokenType::LBracket => {
            let acc: Vec<MalValue> = Vec::new();
            assert(views(acc@) =~= seq![]);
            match read_forms(tokens, pos + 1, MalTokenType::RBracket, acc) {
                Ok((items, next)) => Ok((MalValue::new_vector(items), next)),
                Err(e) => Err(e),
            }
        },
        MalTokenType::LCurly => {
            let acc: Vec<MalValue> = Vec::new();
            assert(views(acc@) =~= seq![]);
            match read_forms(tokens, pos + 1, MalTokenType::RCurly, acc) {
                Ok((items, next)) => match MalMap::from_arguments(items.as_slice()) {
                    Ok(m) => Ok((MalValue::new_map(m), next)),
                    Err(e) => Err(e),
                },
                Err(e) => Err(e),
            }
        },
        MalTokenType::RParen => Err(parser_error("Unexpected closing bracket")),
        MalTokenType::RBracket => Err(parser_error("Unexpected closing bracket")),
        MalTokenType::RCurly => Err(parser_error("Unexpected closing bracket")),
        MalTokenType::SingleQuote => read_prefixed(tokens, pos, "quote"),
        MalTokenType::BackTick => read_prefixed(tokens, pos, "quasiquote"),
        MalTokenType::Tilde => read_prefixed(tokens, pos, "unquote"),
        MalTokenType::TildeAtSign => read_prefixed(tokens, pos, "splice-unquote"),
        MalTokenType::AtSign => read_prefixed(tokens, pos, "deref"),
        MalTokenType::Nil => Ok((MalValue::nil(), pos + 1)),
        MalTokenType::True => Ok((MalValue::new_boolean(true), pos + 1)),
        MalTokenType::False => Ok((MalValue::new_boolean(false), pos + 1)),
        MalTokenType::Number(n) => Ok((MalValue::new_number(*n), pos + 1)),
        MalTokenType::Symbol(s) => Ok((MalValue::new(MalValueType::Symbol(s.clone())), pos + 1)),
        MalTokenType::Str(s) => Ok((MalValue::new_str(s.clone()), pos + 1)),
        MalTokenType::Keyword(s) => Ok((MalValue::new(MalValueType::Keyword(s.clone())), pos + 1)),
    }
}

/// Reads forms up to the closing bracket `close`.
fn read_forms(tokens: &Vec<MalToken>, pos: usize, close: MalTokenType, acc: Vec<MalValue>) -> (r:
    Result<(Vec<MalValue>, usize), MalError>)
    requires
        pos <= tokens@.len(),
        close == MalTokenType::RParen || close == MalTokenType::RBracket || close
            == MalTokenType::RCurly,
    ensures
        forms_view(r) == forms_until(
            token_views(tokens@),
            pos as int,
            (MalToken { token_type: close })@,
            views(acc@),
        ),
        r matches Ok((_, next)) ==> pos < next <= tokens@.len(),
    decreases tokens@.len() - pos, 2nat,
{
    if pos >= tokens.len() {
        return Err(parser_error("Unexpected end of input"));
    }
    if same_kind(&tokens[pos], &close) {
        return Ok((acc, pos + 1));
    }
    match read_form(tokens, pos) {
        Ok((form, next)) => {
            let mut acc = acc;
            let ghost before = views(acc@);
            acc.push(form);
            assert(views(acc@) =~= before.push(form@));
            read_forms(tokens, next, close, acc)
        },
        Err(e) => Err(e),
    }
}

/// Reads the first form of a text. Fails with a tokenizer or parser error on malformed
/// text, and with `EmptyProgram` where the text holds nothing but white space, commas
/// and comments.
pub fn read_str(text: &str) -> (r: MalResult)
    ensures
        result_view(r) == read_text(text@),
{
    let tokens = tokenize(text)?;
    if tokens.len() == 0 {
        return Err(MalError::EmptyProgram);
    }
    match read_form(&tokens, 0) {
        Ok((form, _)) => Ok(form),
        Err(e) => Err(e),
    }
}

} // verus!
