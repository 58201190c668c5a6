//! The attribute argument mini-language.
//!
//! Generator directives carry a small recursive argument language:
//!
//! ```text
//! ArgsList := Arg (',' Arg)* [',']
//! Arg      := Group | KeyValue | Bare
//! Group    := '(' ArgsList ')'
//! KeyValue := Identifier '=' Value
//! Value    := Identifier | Group
//! Bare     := Identifier
//! ```
//!
//! The parser has no semantic knowledge of capability names; that validation
//! happens one layer up.  Parsing is specified exactly: `spec_parse_args`
//! says, for every input string, either the parse tree or the offending
//! position, and the executable parser returns precisely that.

use vstd::prelude::*;

use crate::text::{is_ident_char, is_ident_start, spec_is_ident_char, spec_is_ident_start};

verus! {

broadcast use vstd::seq::group_seq_axioms, vstd::std_specs::vec::group_vec_axioms;

// ===========================================================================
// Tokens
// ===========================================================================
/// One token of the mini-language.
#[derive(Debug, Clone)]
pub enum TokenKind {
    Ident(String),
    LParen,
    RParen,
    Comma,
    Eq,
}

/// A token together with the character offset at which it starts.
#[derive(Debug, Clone)]
pub struct Token {
    pub kind: TokenKind,
    pub pos: usize,
}

/// Mathematical image of a `TokenKind`.
pub enum TokenKindV {
    Ident(Seq<char>),
    LParen,
    RParen,
    Comma,
    Eq,
}

/// Mathematical image of a `Token`.
pub struct TokenV {
    pub kind: TokenKindV,
    pub pos: int,
}

impl View for TokenKind {
    type V = TokenKindV;

    open spec fn view(&self) -> TokenKindV {
        match self {
            TokenKind::Ident(s) => TokenKindV::Ident(s@),
            TokenKind::LParen => TokenKindV::LParen,
            TokenKind::RParen => TokenKindV::RParen,
            TokenKind::Comma => TokenKindV::Comma,
            TokenKind::Eq => TokenKindV::Eq,
        }
    }
}

impl View for Token {
    type V = TokenV;

    open spec fn view(&self) -> TokenV {
        TokenV { kind: self.kind@, pos: self.pos as int }
    }
}

pub open spec fn toks_view(ts: Seq<Token>) -> Seq<TokenV> {
    ts.map_values(|t: Token| t@)
}

/// Malformed attribute argument syntax, with the offending character offset.
#[derive(Debug, Clone, Copy, PartialEq, Eq, Structural)]
pub struct GrammarError {
    pub pos: usize,
}

// ===========================================================================
// Tokenizer
// ===========================================================================
pub open spec fn spec_is_space(c: char) -> bool {
    c == ' ' || c == '\t' || c == '\r' || c == '\n'
}

/// End of the identifier-character run that starts at `i`.
pub open spec fn spec_ident_end(s: Seq<char>, i: int) -> int
    decreases s.len() - i,
    when 0 <= i <= s.len()
{
    if i < s.len() && spec_is_ident_char(s[i]) {
        spec_ident_end(s, i + 1)
    } else {
        i
    }
}

pub proof fn lemma_ident_end_bounds(s: Seq<char>, i: int)
    requires
        0 <= i <= s.len(),
    ensures
        i <= spec_ident_end(s, i) <= s.len(),
        i < s.len() && spec_is_ident_char(s[i]) ==> spec_ident_end(s, i) > i,
    decreases s.len() - i,
{
    if i < s.len() && spec_is_ident_char(s[i]) {
        lemma_ident_end_bounds(s, i + 1);
    }
}

/// Either the token sequence of the input, or the offset of the first
/// character that fits no token.
pub enum TokOut {
    Toks(Seq<TokenV>),
    Fail(int),
}

pub open spec fn cons_tok(t: TokenV, rest: TokOut) -> TokOut {
    match rest {
        TokOut::Toks(ts) => TokOut::Toks(seq![t] + ts),
        TokOut::Fail(p) => TokOut::Fail(p),
    }
}

/// Tokens of `s` from offset `i` on.
pub open spec fn spec_tokenize(s: Seq<char>, i: int) -> TokOut
    decreases s.len() - i,
    when 0 <= i <= s.len()
    via spec_tokenize_dec
{
    if i >= s.len() {
        TokOut::Toks(Seq::empty())
    } else if spec_is_space(s[i]) {
        spec_tokenize(s, i + 1)
    } else if s[i] == '(' {
        cons_tok(TokenV { kind: TokenKindV::LParen, pos: i }, spec_tokenize(s, i + 1))
    } else if s[i] == ')' {
        cons_tok(TokenV { kind: TokenKindV::RParen, pos: i }, spec_tokenize(s, i + 1))
    } else if s[i] == ',' {
        cons_tok(TokenV { kind: TokenKindV::Comma, pos: i }, spec_tokenize(s, i + 1))
    } else if s[i] == '=' {
        cons_tok(TokenV { kind: TokenKindV::Eq, pos: i }, spec_tokenize(s, i + 1))
    } else if spec_is_ident_start(s[i]) {
        let j = spec_ident_end(s, i);
        cons_tok(
            TokenV { kind: TokenKindV::Ident(s.subrange(i, j)), pos: i },
            spec_tokenize(s, j),
        )
    } else {
        TokOut::Fail(i)
    }
}

#[via_fn]
proof fn spec_tokenize_dec(s: Seq<char>, i: int) {
    if 0 <= i <= s.len() {
        lemma_ident_end_bounds(s, i);
    }
}

fn is_space(c: char) -> (r: bool)
    ensures
        r == spec_is_space(c),
{
    c == ' ' || c == '\t' || c == '\r' || c == '\n'
}

fn ident_end(s: &str, i: usize) -> (r: usize)
    requires
        i <= s@.len(),
    ensures
        r as int == spec_ident_end(s@, i as int),
        i <= r <= s@.len(),
    decreases s@.len() - i,
{
    let n = s.unicode_len();
    if i < n && is_ident_char(s.get_char(i)) {
        ident_end(s, i + 1)
    } else {
        i
    }
}

proof fn lemma_toks_view_cons(t: Token, ts: Seq<Token>)
    ensures
        toks_view(ts.insert(0, t)) == seq![t@] + toks_view(ts),
{
    assert(toks_view(ts.insert(0, t)) =~= seq![t@] + toks_view(ts));
}

fn tokenize_from(s: &str, i: usize) -> (r: Result<Vec<Token>, GrammarError>)
    requires
        i <= s@.len(),
    ensures
        match r {
            Ok(ts) => spec_tokenize(s@, i as int) == TokOut::Toks(toks_view(ts@)),
            Err(e) => spec_tokenize(s@, i as int) == TokOut::Fail(e.pos as int),
        },
    decreases s@.len() - i,
{
    let n = s.unicode_len();
    if i >= n {
        let ts: Vec<Token> = Vec::new();
        assert(toks_view(ts@) =~= Seq::<TokenV>::empty());
        return Ok(ts);
    }
    let c = s.get_char(i);
    if is_space(c) {
        return tokenize_from(s, i + 1);
    }
    let kind: TokenKind = if c == '(' {
        TokenKind::LParen
    } else if c == ')' {
        TokenKind::RParen
    } else if c == ',' {
        TokenKind::Comma
    } else if c == '=' {
        TokenKind::Eq
    } else if is_ident_start(c) {
        proof {
            lemma_ident_end_bounds(s@, i as int);
        }
        let j = ident_end(s, i);
        let word = s.substring_char(i, j).to_owned();
        let mut rest = tokenize_from(s, j)?;
        let tok = Token { kind: TokenKind::Ident(word), pos: i };
        proof {
            lemma_toks_view_cons(tok, rest@);
        }
        rest.insert(0, tok);
        return Ok(rest);
    } else {
        return Err(GrammarError { pos: i });
    };
    let mut rest = tokenize_from(s, i + 1)?;
    let tok = Token { kind, pos: i };
    proof {
        lemma_toks_view_cons(tok, rest@);
    }
    rest.insert(0, tok);
    Ok(rest)
}

/// Tokenize a whole directive string.
pub fn tokenize(s: &str) -> (r: Result<Vec<Token>, GrammarError>)
    ensures
        match r {
            Ok(ts) => spec_tokenize(s@, 0) == TokOut::Toks(toks_view(ts@)),
            Err(e) => spec_tokenize(s@, 0) == TokOut::Fail(e.pos as int),
        },
{
    tokenize_from(s, 0)
}

// ===========================================================================
// Parse trees
// ===========================================================================
/// A parsed argument list; the recursive structure of §grammar above.
#[derive(Debug)]
pub struct AttributeArgsList(pub Vec<AttributeArg>);

#[derive(Debug)]
pub enum AttributeArg {
    KeyValueArg(KeyValueArg),
    Arg(Arg),
    Group(GroupArg),
}

#[derive(Debug)]
pub struct KeyValueArg {
    pub key: String,
    pub value: AttributeValue,
}

#[derive(Debug)]
pub struct Arg {
    pub value: String,
}

#[derive(Debug)]
pub struct GroupArg {
    pub content: AttributeArgsList,
}

#[derive(Debug)]
pub enum AttributeValue {
    Ident(String),
    Group(GroupArg),
}

/// Mathematical image of an `AttributeArg`.
pub enum ArgV {
    KeyValue(Seq<char>, ValueV),
    Bare(Seq<char>),
    Group(Seq<ArgV>),
}

/// Mathematical image of an `AttributeValue`.
pub enum ValueV {
    Ident(Seq<char>),
    Group(Seq<ArgV>),
}

pub open spec fn arg_view(a: AttributeArg) -> ArgV
    decreases a,
{
    match a {
        AttributeArg::KeyValueArg(kv) => ArgV::KeyValue(kv.key@, value_view(kv.value)),
        AttributeArg::Arg(b) => ArgV::Bare(b.value@),
        AttributeArg::Group(g) => ArgV::Group(items_view(g.content.0@)),
    }
}

pub open spec fn value_view(v: AttributeValue) -> ValueV
    decreases v,
{
    match v {
        AttributeValue::Ident(s) => ValueV::Ident(s@),
        AttributeValue::Group(g) => ValueV::Group(items_view(g.content.0@)),
    }
}

pub open spec fn items_view(items: Seq<AttributeArg>) -> Seq<ArgV>
    decreases items,
{
    Seq::new(
        items.len(),
        |i: int|
            if 0 <= i < items.len() {
                arg_view(items[i])
            } else {
                ArgV::Bare(Seq::empty())
            },
    )
}

pub open spec fn args_list_view(l: AttributeArgsList) -> Seq<ArgV> {
    items_view(l.0@)
}

proof fn lemma_items_view_cons(a: AttributeArg, items: Seq<AttributeArg>)
    ensures
        items_view(items.insert(0, a)) == seq![arg_view(a)] + items_view(items),
{
    assert(items_view(items.insert(0, a)) =~= seq![arg_view(a)] + items_view(items));
}

// ===========================================================================
// Parser specification
// ===========================================================================
/// Outcome of a partial parse: a value plus the next token index, or the
/// index of the offending token.
pub enum POut<T> {
    Done(T, int),
    Fail(int),
}

/// One argument, starting at token `i`.
///
/// Disambiguation follows the grammar: a leading `(` commits to `Group`;
/// an identifier followed by `=` commits to `KeyValue`; any other
/// identifier is a `Bare` argument.
pub open spec fn sp_arg(toks: Seq<TokenV>, i: int) -> POut<ArgV>
    decreases toks.len() - i, 0int,
    when 0 <= i
{
    if i >= toks.len() {
        POut::Fail(i)
    } else {
        match toks[i].kind {
            TokenKindV::LParen => match sp_list(toks, i + 1) {
                POut::Done(items, j) => if j < toks.len() && toks[j].kind is RParen {
                    POut::Done(ArgV::Group(items), j + 1)
                } else {
                    POut::Fail(j)
                },
                POut::Fail(p) => POut::Fail(p),
            },
            TokenKindV::Ident(name) => if i + 1 < toks.len() && toks[i + 1].kind is Eq {
                if i + 2 >= toks.len() {
                    POut::Fail(i + 2)
                } else {
                    match toks[i + 2].kind {
                        TokenKindV::Ident(v) => POut::Done(
                            ArgV::KeyValue(name, ValueV::Ident(v)),
                            i + 3,
                        ),
                        TokenKindV::LParen => match sp_list(toks, i + 3) {
                            POut::Done(items, j) => if j < toks.len() && toks[j].kind
                                is RParen {
                                POut::Done(ArgV::KeyValue(name, ValueV::Group(items)), j + 1)
                            } else {
                                POut::Fail(j)
                            },
                            POut::Fail(p) => POut::Fail(p),
                        },
                        _ => POut::Fail(i + 2),
                    }
                }
            } else {
                POut::Done(ArgV::Bare(name), i + 1)
            },
            _ => POut::Fail(i),
        }
    }
}

/// A comma-separated argument list starting at token `i`.  The list ends
/// before a `)` or at the end of input; a trailing comma is allowed; the
/// empty list is allowed.
pub open spec fn sp_list(toks: Seq<TokenV>, i: int) -> POut<Seq<ArgV>>
    decreases toks.len() - i, 1int,
    when 0 <= i
{
    if i >= toks.len() || toks[i].kind is RParen {
        POut::Done(Seq::empty(), i)
    } else {
        match sp_arg(toks, i) {
            POut::Done(a, j) => if j >= toks.len() || toks[j].kind is RParen {
                POut::Done(seq![a], j)
            } else if toks[j].kind is Comma && j + 1 > i {
                match sp_list(toks, j + 1) {
                    POut::Done(rest, k) => POut::Done(seq![a] + rest, k),
                    POut::Fail(p) => POut::Fail(p),
                }
            } else {
                POut::Fail(j)
            },
            POut::Fail(p) => POut::Fail(p),
        }
    }
}

/// Character offset reported for a failure at token index `j`.
pub open spec fn spec_fail_pos(s: Seq<char>, ts: Seq<TokenV>, j: int) -> int {
    if 0 <= j < ts.len() {
        ts[j].pos
    } else {
        s.len() as int
    }
}

/// What parsing the directive string `s` yields: the argument list, or the
/// character offset of the offending token.
pub open spec fn spec_parse_args(s: Seq<char>) -> Result<Seq<ArgV>, int> {
    match spec_tokenize(s, 0) {
        TokOut::Fail(p) => Err(p),
        TokOut::Toks(ts) => match sp_list(ts, 0) {
            POut::Fail(j) => Err(spec_fail_pos(s, ts, j)),
            POut::Done(items, j) => if j == ts.len() {
                Ok(items)
            } else {
                Err(spec_fail_pos(s, ts, j))
            },
        },
    }
}

// ===========================================================================
// Executable parser
// ===========================================================================
fn p_arg(toks: &Vec<Token>, i: usize) -> (r: Result<(AttributeArg, usize), usize>)
    requires
        i <= toks@.len(),
    ensures
        match r {
            Ok((a, j)) => sp_arg(toks_view(toks@), i as int) == POut::Done(
                arg_view(a),
                j as int,
            ) && i < j <= toks@.len(),
            Err(p) => sp_arg(toks_view(toks@), i as int) == POut::<ArgV>::Fail(p as int) && p <= toks@
                .len(),
        },
    decreases toks@.len() - i, 0int,
{
    if i >= toks.len() {
        return Err(i);
    }
    match &toks[i].kind {
        TokenKind::LParen => {
            let (items, j) = p_list(toks, i + 1)?;
            if j < toks.len() && matches!(&toks[j].kind, TokenKind::RParen) {
                Ok((AttributeArg::Group(GroupArg { content: AttributeArgsList(items) }), j + 1))
            } else {
                Err(j)
            }
        },
        TokenKind::Ident(name) => {
            if i + 1 < toks.len() && matches!(&toks[i + 1].kind, TokenKind::Eq) {
                if i + 2 >= toks.len() {
                    return Err(i + 2);
                }
                match &toks[i + 2].kind {
                    TokenKind::Ident(v) => Ok((
                        AttributeArg::KeyValueArg(
                            KeyValueArg {
                                key: name.clone(),
                                value: AttributeValue::Ident(v.clone()),
                            },
                        ),
                        i + 3,
                    )),
                    TokenKind::LParen => {
                        let (items, j) = p_list(toks, i + 3)?;
                        if j < toks.len() && matches!(&toks[j].kind, TokenKind::RParen) {
                            Ok((
                                AttributeArg::KeyValueArg(
                                    KeyValueArg {
                                        key: name.clone(),
                                        value: AttributeValue::Group(
                                            GroupArg { content: AttributeArgsList(items) },
                                        ),
                                    },
                                ),
                                j + 1,
                            ))
                        } else {
                            Err(j)
                        }
                    },
                    _ => Err(i + 2),
                }
            } else {
                Ok((AttributeArg::Arg(Arg { value: name.clone() }), i + 1))
            }
        },
        _ => Err(i),
    }
}

fn p_list(toks: &Vec<Token>, i: usize) -> (r: Result<(Vec<AttributeArg>, usize), usize>)
    requires
        i <= toks@.len(),
    ensures
        match r {
            Ok((items, j)) => sp_list(toks_view(toks@), i as int) == POut::Done(
                items_view(items@),
                j as int,
            ) && i <= j <= toks@.len(),
            Err(p) => sp_list(toks_view(toks@), i as int) == POut::<Seq<ArgV>>::Fail(p as int) && p <= toks@
                .len(),
        },
    decreases toks@.len() - i, 1int,
{
    if i >= toks.len() || matches!(&toks[i].kind, TokenKind::RParen) {
        let items: Vec<AttributeArg> = Vec::new();
        assert(items_view(items@) =~= Seq::<ArgV>::empty());
        return Ok((items, i));
    }
    let (a, j) = p_arg(toks, i)?;
    if j >= toks.len() || matches!(&toks[j].kind, TokenKind::RParen) {
        let mut items: Vec<AttributeArg> = Vec::new();
        proof {
            lemma_items_view_cons(a, items@);
        }
        assert(items_view(Seq::<AttributeArg>::empty()) =~= Seq::<ArgV>::empty());
        items.push(a);
        assert(items@ =~= Seq::<AttributeArg>::empty().insert(0, a));
        Ok((items, j))
    } else if matches!(&toks[j].kind, TokenKind::Comma) {
        let (mut rest, k) = p_list(toks, j + 1)?;
        proof {
            lemma_items_view_cons(a, rest@);
        }
        rest.insert(0, a);
        Ok((rest, k))
    } else {
        Err(j)
    }
}

impl AttributeArgsList {
    /// Parse a whole directive string into an argument list.
    ///
    /// Returns exactly what `spec_parse_args` ascribes to the input: the
    /// parse tree on success, or a `GrammarError` carrying the offset of
    /// the offending character.
    pub fn parse(s: &str) -> (r: Result<AttributeArgsList, GrammarError>)
        ensures
            match r {
                Ok(l) => spec_parse_args(s@) == Ok::<Seq<ArgV>, int>(args_list_view(l)),
                Err(e) => spec_parse_args(s@) == Err::<Seq<ArgV>, int>(e.pos as int),
            },
    {
        let toks = match tokenize(s) {
            Ok(ts) => ts,
            Err(e) => {
                return Err(e);
            },
        };
        let n = s.unicode_len();
        match p_list(&toks, 0) {
            Ok((items, j)) => {
                if j == toks.len() {
                    Ok(AttributeArgsList(items))
                } else {
                    Err(GrammarError { pos: fail_offset(s, &toks, j) })
                }
            },
            Err(p) => Err(GrammarError { pos: fail_offset(s, &toks, p) }),
        }
    }
}

fn fail_offset(s: &str, toks: &Vec<Token>, j: usize) -> (r: usize)
    ensures
        r as int == spec_fail_pos(s@, toks_view(toks@), j as int),
{
    if j < toks.len() {
        toks[j].pos
    } else {
        s.unicode_len()
    }
}

} // verus!
