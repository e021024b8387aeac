//! Recursive-descent parsing: the token stream is consumed destructively,
//! front to back, and becomes a tree of declarations, statements and
//! expressions. Syntax errors are collected per top-level declaration; an
//! error inside a declaration unwinds to the top level, but later
//! declarations are still attempted.
mod basics;
mod conditionals;
mod functions;
mod loops;
mod structs;
mod types;

pub use basics::spec_parse_additive;
pub use basics::spec_parse_block_expr;
pub use basics::spec_parse_expr;
pub use basics::spec_parse_global_scope;
pub use basics::spec_parse_identifier;
pub use basics::spec_parse_multiplicative;
pub use basics::spec_parse_primary;
pub use basics::spec_parse_statment;
pub use conditionals::spec_parse_if_assign_expr;
pub use conditionals::spec_parse_if_expr;
pub use functions::spec_parse_function;
pub use functions::spec_parse_function_call;
pub use loops::spec_parse_loop_statment;
pub use structs::spec_parse_struct_decl;
pub use structs::spec_parse_struct_expr;
pub use types::spec_get_f_type;
pub use types::spec_get_type;

pub use crate::tokenizer::Operator;
pub use crate::tokenizer::Token;
pub use crate::tokenizer::TokenKind;
pub use crate::tokenizer::TokenKindV;
pub use crate::tokenizer::TokenV;
pub use crate::tokenizer::tokenize;
pub use basics::all_digits;
pub use basics::valid_digit;
pub use basics::radix_value;
pub use basics::spec_literal_value;
pub use basics::spec_parse_int_result;
pub use basics::valid_int_literal;

use crate::tokenizer::LexError;
use crate::tokenizer::spec_tokenize;
use crate::tokenizer::tokens_view;
use vstd::prelude::*;

verus! {

/// The disambiguation mode threaded through expression parsing: whether an
/// identifier followed by `{` may start a struct literal, and whether only
/// a primitive expression is expected.
#[derive(Debug, PartialEq, Eq, Clone, Copy, Structural)]
pub enum ParsingCondition {
    NoStruct,
    PrimitiveExpr,
    Normal,
}

/// The reasons a parse can fail.
#[derive(Debug)]
pub enum AstErrorKind {
    InvalidScopeExpr(TokenKind),
    InvalidReturnType(TokenKind),
    UnexpectedToken(Token),
    ExpectedElseBranch,
    EatingEOF,
}

/// A syntax error, carrying the position it was noticed at.
#[derive(Debug)]
pub struct AstError {
    pub line: usize,
    pub column: usize,
    pub kind: AstErrorKind,
}

/// A parsed type annotation: a primitive named by an identifier, or a
/// function type of parameter types and a return type.
#[derive(Debug)]
pub enum TypeAst {
    Primitive(String),
    Function { params: Vec<TypeAst>, return_type: Box<TypeAst> },
}

/// A pair of a name and a type annotation, used for function parameters and
/// struct declaration fields.
#[derive(Debug)]
pub struct KeyTypePair {
    pub key: String,
    pub kindof: TypeAst,
}

/// A pair of a name and a value expression, used by struct literals.
#[derive(Debug)]
pub struct KeyExprPair {
    pub key: String,
    pub value: AST,
}

/// A node of the syntax tree. Recursive children are owned exclusively; the
/// tree is never cyclic.
#[derive(Debug)]
pub enum AST {
    Identifier(String),
    Int(i64),
    Float(String),
    BinExpr(Box<AST>, Box<AST>, Operator),
    VarDecl { varname: String, mutable: bool, body: Box<AST> },
    Function { name: String, params: Vec<KeyTypePair>, returntype: TypeAst, body: Program },
    FunctionCall { name: String, args: Vec<AST> },
    Return(Box<AST>),
    Struct { name: String, fields: Vec<KeyTypePair> },
    StructExpr { name: String, fields: Vec<KeyExprPair> },
    If { expr: Box<AST>, block: Box<AST>, elseblock: Option<Box<AST>> },
    Block(Vec<AST>),
    Loop(Box<AST>),
}

/// An ordered sequence of statements: a function body or the whole program.
#[derive(Debug, Default)]
pub struct Program {
    pub body: Vec<AST>,
}

/// The parser: a single forward cursor over the remaining tokens.
pub struct Parser {
    pub tokens: Vec<Token>,
}

/// The mathematical value of a type annotation.
pub enum TypeAstV {
    Primitive(Seq<char>),
    Function { params: Seq<TypeAstV>, return_type: Box<TypeAstV> },
}

/// The mathematical value of a name-and-type pair.
pub struct KeyTypePairV {
    pub key: Seq<char>,
    pub kindof: TypeAstV,
}

/// The mathematical value of a name-and-expression pair.
pub struct KeyExprPairV {
    pub key: Seq<char>,
    pub value: AstV,
}

/// The mathematical value of a syntax tree node.
pub enum AstV {
    Identifier(Seq<char>),
    Int(int),
    Float(Seq<char>),
    BinExpr(Box<AstV>, Box<AstV>, Operator),
    VarDecl { varname: Seq<char>, mutable: bool, body: Box<AstV> },
    Function { name: Seq<char>, params: Seq<KeyTypePairV>, returntype: TypeAstV, body: Seq<AstV> },
    FunctionCall { name: Seq<char>, args: Seq<AstV> },
    Return(Box<AstV>),
    Struct { name: Seq<char>, fields: Seq<KeyTypePairV> },
    StructExpr { name: Seq<char>, fields: Seq<KeyExprPairV> },
    If { expr: Box<AstV>, block: Box<AstV>, elseblock: Option<Box<AstV>> },
    Block(Seq<AstV>),
    Loop(Box<AstV>),
}

/// The kind of a syntax error, over mathematical values.
pub enum AstErrorKindV {
    InvalidScopeExpr(TokenKindV),
    InvalidReturnType(TokenKindV),
    UnexpectedToken(TokenV),
    ExpectedElseBranch,
    EatingEOF,
}

/// The mathematical value of a syntax error.
pub struct AstErrorV {
    pub line: int,
    pub column: int,
    pub kind: AstErrorKindV,
}

/// The mathematical value of a type annotation tree.
pub open spec fn view_type(t: TypeAst) -> TypeAstV
    decreases t,
{
    match t {
        TypeAst::Primitive(s) => TypeAstV::Primitive(s@),
        TypeAst::Function { params, return_type } => TypeAstV::Function {
            params: view_type_seq(params@),
            return_type: Box::new(view_type(*return_type)),
        },
    }
}

/// The mathematical values of a sequence of type annotations.
pub open spec fn view_type_seq(l: Seq<TypeAst>) -> Seq<TypeAstV>
    decreases l,
{
    if l.len() == 0 {
        Seq::empty()
    } else {
        view_type_seq(l.drop_last()).push(view_type(l.last()))
    }
}

/// The mathematical value of a syntax tree node.
pub open spec fn view_ast(a: AST) -> AstV
    decreases a,
{
    match a {
        AST::Identifier(s) => AstV::Identifier(s@),
        AST::Int(n) => AstV::Int(n as int),
        AST::Float(s) => AstV::Float(s@),
        AST::BinExpr(l, r, op) => AstV::BinExpr(
            Box::new(view_ast(*l)),
            Box::new(view_ast(*r)),
            op,
        ),
        AST::VarDecl { varname, mutable, body } => AstV::VarDecl {
            varname: varname@,
            mutable,
            body: Box::new(view_ast(*body)),
        },
        AST::Function { name, params, returntype, body } => AstV::Function {
            name: name@,
            params: view_ktp_seq(params@),
            returntype: view_type(returntype),
            body: view_ast_seq(body.body@),
        },
        AST::FunctionCall { name, args } => AstV::FunctionCall {
            name: name@,
            args: view_ast_seq(args@),
        },
        AST::Return(r) => AstV::Return(Box::new(view_ast(*r))),
        AST::Struct { name, fields } => AstV::Struct { name: name@, fields: view_ktp_seq(fields@) },
        AST::StructExpr { name, fields } => AstV::StructExpr {
            name: name@,
            fields: view_kep_seq(fields@),
        },
        AST::If { expr, block, elseblock } => AstV::If {
            expr: Box::new(view_ast(*expr)),
            block: Box::new(view_ast(*block)),
            elseblock: match elseblock {
                Some(e) => Some(Box::new(view_ast(*e))),
                None => None,
            },
        },
        AST::Block(l) => AstV::Block(view_ast_seq(l@)),
        AST::Loop(b) => AstV::Loop(Box::new(view_ast(*b))),
    }
}

/// The mathematical values of a sequence of syntax tree nodes.
pub open spec fn view_ast_seq(l: Seq<AST>) -> Seq<AstV>
    decreases l,
{
    if l.len() == 0 {
        Seq::empty()
    } else {
        view_ast_seq(l.drop_last()).push(view_ast(l.last()))
    }
}

/// The mathematical values of a sequence of name-and-type pairs.
pub open spec fn view_ktp_seq(l: Seq<KeyTypePair>) -> Seq<KeyTypePairV>
    decreases l,
{
    if l.len() == 0 {
        Seq::empty()
    } else {
        view_ktp_seq(l.drop_last()).push(
            KeyTypePairV { key: l.last().key@, kindof: view_type(l.last().kindof) },
        )
    }
}

/// The mathematical values of a sequence of name-and-expression pairs.
pub open spec fn view_kep_seq(l: Seq<KeyExprPair>) -> Seq<KeyExprPairV>
    decreases l,
{
    if l.len() == 0 {
        Seq::empty()
    } else {
        view_kep_seq(l.drop_last()).push(
            KeyExprPairV { key: l.last().key@, value: view_ast(l.last().value) },
        )
    }
}


/// The viewed statement sequence has the length of the original.
pub proof fn lemma_view_ast_seq_len(l: Seq<AST>)
    ensures
        view_ast_seq(l).len() == l.len(),
    decreases l,
{
    if l.len() > 0 {
        lemma_view_ast_seq_len(l.drop_last());
    }
}

/// The viewed statement sequence holds the view of each element.
pub proof fn lemma_view_ast_seq_index(l: Seq<AST>, i: int)
    requires
        0 <= i < l.len(),
    ensures
        view_ast_seq(l).len() == l.len(),
        view_ast_seq(l)[i] == view_ast(l[i]),
    decreases l,
{
    lemma_view_ast_seq_len(l);
    if i == l.len() - 1 {
    } else {
        lemma_view_ast_seq_index(l.drop_last(), i);
    }
}

/// The viewed pair sequence has the length of the original.
pub proof fn lemma_view_ktp_seq_len(l: Seq<KeyTypePair>)
    ensures
        view_ktp_seq(l).len() == l.len(),
    decreases l,
{
    if l.len() > 0 {
        lemma_view_ktp_seq_len(l.drop_last());
    }
}

/// The viewed pair sequence holds the view of each element.
pub proof fn lemma_view_ktp_seq_index(l: Seq<KeyTypePair>, i: int)
    requires
        0 <= i < l.len(),
    ensures
        view_ktp_seq(l).len() == l.len(),
        view_ktp_seq(l)[i] == (KeyTypePairV { key: l[i].key@, kindof: view_type(l[i].kindof) }),
    decreases l,
{
    lemma_view_ktp_seq_len(l);
    if i == l.len() - 1 {
    } else {
        lemma_view_ktp_seq_index(l.drop_last(), i);
    }
}

/// The viewed field sequence has the length of the original.
pub proof fn lemma_view_kep_seq_len(l: Seq<KeyExprPair>)
    ensures
        view_kep_seq(l).len() == l.len(),
    decreases l,
{
    if l.len() > 0 {
        lemma_view_kep_seq_len(l.drop_last());
    }
}

/// The viewed field sequence holds the view of each element.
pub proof fn lemma_view_kep_seq_index(l: Seq<KeyExprPair>, i: int)
    requires
        0 <= i < l.len(),
    ensures
        view_kep_seq(l).len() == l.len(),
        view_kep_seq(l)[i] == (KeyExprPairV { key: l[i].key@, value: view_ast(l[i].value) }),
    decreases l,
{
    lemma_view_kep_seq_len(l);
    if i == l.len() - 1 {
    } else {
        lemma_view_kep_seq_index(l.drop_last(), i);
    }
}

/// The viewed annotation sequence has the length of the original.
pub proof fn lemma_view_type_seq_len(l: Seq<TypeAst>)
    ensures
        view_type_seq(l).len() == l.len(),
    decreases l,
{
    if l.len() > 0 {
        lemma_view_type_seq_len(l.drop_last());
    }
}

/// The viewed annotation sequence holds the view of each element.
pub proof fn lemma_view_type_seq_index(l: Seq<TypeAst>, i: int)
    requires
        0 <= i < l.len(),
    ensures
        view_type_seq(l).len() == l.len(),
        view_type_seq(l)[i] == view_type(l[i]),
    decreases l,
{
    lemma_view_type_seq_len(l);
    if i == l.len() - 1 {
    } else {
        lemma_view_type_seq_index(l.drop_last(), i);
    }
}

impl View for TypeAst {
    type V = TypeAstV;

    open spec fn view(&self) -> TypeAstV {
        view_type(*self)
    }
}

impl View for AST {
    type V = AstV;

    open spec fn view(&self) -> AstV {
        view_ast(*self)
    }
}

impl View for Program {
    type V = Seq<AstV>;

    open spec fn view(&self) -> Seq<AstV> {
        view_ast_seq(self.body@)
    }
}

impl View for AstErrorKind {
    type V = AstErrorKindV;

    open spec fn view(&self) -> AstErrorKindV {
        match self {
            AstErrorKind::InvalidScopeExpr(k) => AstErrorKindV::InvalidScopeExpr(k@),
            AstErrorKind::InvalidReturnType(k) => AstErrorKindV::InvalidReturnType(k@),
            AstErrorKind::UnexpectedToken(t) => AstErrorKindV::UnexpectedToken(t@),
            AstErrorKind::ExpectedElseBranch => AstErrorKindV::ExpectedElseBranch,
            AstErrorKind::EatingEOF => AstErrorKindV::EatingEOF,
        }
    }
}

impl View for AstError {
    type V = AstErrorV;

    open spec fn view(&self) -> AstErrorV {
        AstErrorV { line: self.line as int, column: self.column as int, kind: self.kind@ }
    }
}

impl View for Parser {
    type V = Seq<TokenV>;

    open spec fn view(&self) -> Seq<TokenV> {
        tokens_view(self.tokens@)
    }
}

/// The syntax error reported when the token stream runs out.
pub open spec fn eof_error() -> AstErrorV {
    AstErrorV { line: 0, column: 0, kind: AstErrorKindV::EatingEOF }
}

/// The syntax error reported for an unexpected token.
pub open spec fn unexpected_error(t: TokenV) -> AstErrorV {
    AstErrorV { line: t.line, column: t.column, kind: AstErrorKindV::UnexpectedToken(t) }
}

/// Taking one token off the front of the stream: the token and the rest, or
/// the end-of-stream error. An error carries the stream it left behind.
pub open spec fn spec_eat(toks: Seq<TokenV>) -> Result<
    (TokenV, Seq<TokenV>),
    (AstErrorV, Seq<TokenV>),
> {
    if toks.len() == 0 {
        Err((eof_error(), toks))
    } else {
        Ok((toks[0], toks.drop_first()))
    }
}

/// Taking one token that must satisfy `p` off the front of the stream: the
/// token and the rest, the unexpected-token error (the offending token is
/// consumed), or the end-of-stream error.
pub open spec fn spec_expect(toks: Seq<TokenV>, p: spec_fn(TokenKindV) -> bool) -> Result<
    (TokenV, Seq<TokenV>),
    (AstErrorV, Seq<TokenV>),
> {
    if toks.len() == 0 {
        Err((eof_error(), toks))
    } else if p(toks[0].kind) {
        Ok((toks[0], toks.drop_first()))
    } else {
        Err((unexpected_error(toks[0]), toks.drop_first()))
    }
}

/// Caps a sub-parse's leftover stream at strictly fewer tokens than the
/// stream it was handed; a parse step always consumes at least one token,
/// so this is the leftover itself.
pub open spec fn bounded(orig: Seq<TokenV>, rest: Seq<TokenV>) -> Seq<TokenV> {
    if rest.len() < orig.len() {
        rest
    } else {
        Seq::empty()
    }
}

/// Caps a sub-parse's leftover stream at no more tokens than the stream it
/// was handed; a parse never grows its stream, so this is the leftover
/// itself.
pub open spec fn capped(orig: Seq<TokenV>, rest: Seq<TokenV>) -> Seq<TokenV> {
    if rest.len() <= orig.len() {
        rest
    } else {
        orig
    }
}

/// The mathematical values of collected syntax errors.
pub open spec fn view_err_seq(l: Seq<AstError>) -> Seq<AstErrorV>
    decreases l,
{
    if l.len() == 0 {
        Seq::empty()
    } else {
        view_err_seq(l.drop_last()).push(l.last()@)
    }
}

impl Parser {
    /// Lexes the whole text into this parser's token stream, or fails with
    /// the fatal lexical fault.
    pub fn from_content(content: &str) -> (r: Result<Self, LexError>)
        ensures
            match r {
                Ok(p) => spec_tokenize(content@) == Ok::<_, LexError>(p@),
                Err(e) => spec_tokenize(content@) == Err::<Seq<TokenV>, _>(e),
            },
    {
        match tokenize(content) {
            Ok(tokens) => Ok(Self { tokens }),
            Err(e) => Err(e),
        }
    }

    /// Consumes and returns the front token; the end-of-stream error when
    /// none is left.
    pub fn eat(&mut self) -> (r: Result<Token, AstError>)
        ensures
            match r {
                Ok(t) => {
                    &&& old(self)@.len() > 0
                    &&& t@ == old(self)@[0]
                    &&& final(self)@ == old(self)@.drop_first()
                },
                Err(e) => {
                    &&& old(self)@.len() == 0
                    &&& final(self)@ == old(self)@
                    &&& e@ == eof_error()
                },
            },
            spec_eat(old(self)@) == (match r {
                Ok(t) => Ok((t@, final(self)@)),
                Err(e) => Err::<(TokenV, Seq<TokenV>), _>((e@, final(self)@)),
            }),
            final(self)@.len() <= old(self)@.len(),
    {
        if self.tokens.len() == 0 {
            Err(AstError { kind: AstErrorKind::EatingEOF, line: 0, column: 0 })
        } else {
            let t = self.tokens.remove(0);
            proof {
                assert(self@ =~= old(self)@.drop_first());
            }
            Ok(t)
        }
    }

    /// The front token, if any, without consuming it.
    pub fn peek(&self) -> (r: Option<&Token>)
        ensures
            match r {
                Some(t) => self@.len() > 0 && t@ == self@[0],
                None => self@.len() == 0,
            },
    {
        if self.tokens.len() == 0 {
            None
        } else {
            Some(&self.tokens[0])
        }
    }

    /// Wraps the consumed token as the unexpected-token error.
    fn unexpected(t: Token) -> (r: AstError)
        ensures
            r@ == unexpected_error(t@),
    {
        AstError { line: t.line, column: t.column, kind: AstErrorKind::UnexpectedToken(t) }
    }

    /// Consumes the front token, which must be an identifier, and yields
    /// the name it carries.
    pub(crate) fn expect_identifier(&mut self) -> (r: Result<String, AstError>)
        ensures
            match r {
                Ok(name) => (spec_expect(old(self)@, (|k: TokenKindV| k is Identifier)) matches Ok(
                    ts,
                ) && ts.0.kind == TokenKindV::Identifier(name@) && ts.1 == final(self)@),
                Err(e) => spec_expect(old(self)@, (|k: TokenKindV| k is Identifier)) == Err::<
                    (TokenV, Seq<TokenV>),
                    _,
                >((e@, final(self)@)),
            },
            final(self)@.len() <= old(self)@.len(),
            r is Ok ==> final(self)@.len() < old(self)@.len(),
    {
        let t = match self.eat() {
            Ok(t) => t,
            Err(e) => {
                return Err(e);
            },
        };
        match t.kind {
            TokenKind::Identifier(name) => Ok(name),
            _ => Err(Self::unexpected(t)),
        }
    }

    /// Consumes the front token, which must be a closing parenthesis.
    pub(crate) fn expect_close_paren(&mut self) -> (r: Result<Token, AstError>)
        ensures
            spec_expect(old(self)@, (|k: TokenKindV| k is CloseParen)) == (match r {
                Ok(t) => Ok((t@, final(self)@)),
                Err(e) => Err::<(TokenV, Seq<TokenV>), _>((e@, final(self)@)),
            }),
            final(self)@.len() <= old(self)@.len(),
            r is Ok ==> final(self)@.len() < old(self)@.len(),
    {
        let t = match self.eat() {
            Ok(t) => t,
            Err(e) => {
                return Err(e);
            },
        };
        if matches!(t.kind, TokenKind::CloseParen) {
            Ok(t)
        } else {
            Err(Self::unexpected(t))
        }
    }

    /// Consumes the front token, which must be an opening parenthesis.
    pub(crate) fn expect_open_paren(&mut self) -> (r: Result<Token, AstError>)
        ensures
            spec_expect(old(self)@, (|k: TokenKindV| k is OpenParen)) == (match r {
                Ok(t) => Ok((t@, final(self)@)),
                Err(e) => Err::<(TokenV, Seq<TokenV>), _>((e@, final(self)@)),
            }),
            final(self)@.len() <= old(self)@.len(),
            r is Ok ==> final(self)@.len() < old(self)@.len(),
    {
        let t = match self.eat() {
            Ok(t) => t,
            Err(e) => {
                return Err(e);
            },
        };
        if matches!(t.kind, TokenKind::OpenParen) {
            Ok(t)
        } else {
            Err(Self::unexpected(t))
        }
    }

    /// Consumes the front token, which must be an opening brace.
    pub(crate) fn expect_open_brace(&mut self) -> (r: Result<Token, AstError>)
        ensures
            spec_expect(old(self)@, (|k: TokenKindV| k is OpenBrace)) == (match r {
                Ok(t) => Ok((t@, final(self)@)),
                Err(e) => Err::<(TokenV, Seq<TokenV>), _>((e@, final(self)@)),
            }),
            final(self)@.len() <= old(self)@.len(),
            r is Ok ==> final(self)@.len() < old(self)@.len(),
    {
        let t = match self.eat() {
            Ok(t) => t,
            Err(e) => {
                return Err(e);
            },
        };
        if matches!(t.kind, TokenKind::OpenBrace) {
            Ok(t)
        } else {
            Err(Self::unexpected(t))
        }
    }

    /// Consumes the front token, which must be a semicolon.
    pub(crate) fn expect_semicolon(&mut self) -> (r: Result<Token, AstError>)
        ensures
            spec_expect(old(self)@, (|k: TokenKindV| k is SemiColon)) == (match r {
                Ok(t) => Ok((t@, final(self)@)),
                Err(e) => Err::<(TokenV, Seq<TokenV>), _>((e@, final(self)@)),
            }),
            final(self)@.len() <= old(self)@.len(),
            r is Ok ==> final(self)@.len() < old(self)@.len(),
    {
        let t = match self.eat() {
            Ok(t) => t,
            Err(e) => {
                return Err(e);
            },
        };
        if matches!(t.kind, TokenKind::SemiColon) {
            Ok(t)
        } else {
            Err(Self::unexpected(t))
        }
    }

    /// Consumes the front token, which must be a colon.
    pub(crate) fn expect_colon(&mut self) -> (r: Result<Token, AstError>)
        ensures
            spec_expect(old(self)@, (|k: TokenKindV| k is Colon)) == (match r {
                Ok(t) => Ok((t@, final(self)@)),
                Err(e) => Err::<(TokenV, Seq<TokenV>), _>((e@, final(self)@)),
            }),
            final(self)@.len() <= old(self)@.len(),
            r is Ok ==> final(self)@.len() < old(self)@.len(),
    {
        let t = match self.eat() {
            Ok(t) => t,
            Err(e) => {
                return Err(e);
            },
        };
        if matches!(t.kind, TokenKind::Colon) {
            Ok(t)
        } else {
            Err(Self::unexpected(t))
        }
    }

    /// Consumes the front token, which must be a comma.
    pub(crate) fn expect_comma(&mut self) -> (r: Result<Token, AstError>)
        ensures
            spec_expect(old(self)@, (|k: TokenKindV| k is Comma)) == (match r {
                Ok(t) => Ok((t@, final(self)@)),
                Err(e) => Err::<(TokenV, Seq<TokenV>), _>((e@, final(self)@)),
            }),
            final(self)@.len() <= old(self)@.len(),
            r is Ok ==> final(self)@.len() < old(self)@.len(),
    {
        let t = match self.eat() {
            Ok(t) => t,
            Err(e) => {
                return Err(e);
            },
        };
        if matches!(t.kind, TokenKind::Comma) {
            Ok(t)
        } else {
            Err(Self::unexpected(t))
        }
    }

    /// Consumes the front token, which must be the bare `=` operator.
    pub(crate) fn expect_assign(&mut self) -> (r: Result<Token, AstError>)
        ensures
            spec_expect(
                old(self)@,
                (|k: TokenKindV| k == TokenKindV::Operator(Operator::Eq(false))),
            ) == (match r {
                Ok(t) => Ok((t@, final(self)@)),
                Err(e) => Err::<(TokenV, Seq<TokenV>), _>((e@, final(self)@)),
            }),
            final(self)@.len() <= old(self)@.len(),
            r is Ok ==> final(self)@.len() < old(self)@.len(),
    {
        let t = match self.eat() {
            Ok(t) => t,
            Err(e) => {
                return Err(e);
            },
        };
        if matches!(t.kind, TokenKind::Operator(Operator::Eq(false))) {
            Ok(t)
        } else {
            Err(Self::unexpected(t))
        }
    }

    /// Consumes the front token, which must be a closing parenthesis or a
    /// comma.
    pub(crate) fn expect_close_paren_or_comma(&mut self) -> (r: Result<Token, AstError>)
        ensures
            spec_expect(old(self)@, (|k: TokenKindV| k is CloseParen || k is Comma)) == (match r {
                Ok(t) => Ok((t@, final(self)@)),
                Err(e) => Err::<(TokenV, Seq<TokenV>), _>((e@, final(self)@)),
            }),
            final(self)@.len() <= old(self)@.len(),
            r is Ok ==> final(self)@.len() < old(self)@.len(),
    {
        let t = match self.eat() {
            Ok(t) => t,
            Err(e) => {
                return Err(e);
            },
        };
        if matches!(t.kind, TokenKind::CloseParen | TokenKind::Comma) {
            Ok(t)
        } else {
            Err(Self::unexpected(t))
        }
    }
}

/// The top-level scan of [`Parser::gen_ast`]: declarations are attempted
/// one after another until the end-of-stream token; each yields a tree node
/// or a collected error, and a failed declaration does not stop the next
/// from being attempted.
pub open spec fn spec_gen_items(
    toks: Seq<TokenV>,
    body: Seq<AstV>,
    errs: Seq<AstErrorV>,
) -> (Seq<AstV>, Seq<AstErrorV>)
    decreases toks.len(),
{
    if toks.len() == 0 || toks[0].kind is EOF {
        (body, errs)
    } else {
        let tk = toks[0];
        let rest = toks.drop_first();
        match spec_parse_global_scope(tk, rest) {
            Ok(ar) => spec_gen_items(bounded(toks, ar.1), body.push(ar.0), errs),
            Err(er) => spec_gen_items(bounded(toks, er.1), body, errs.push(er.0)),
        }
    }
}

impl Parser {
    /// Parses every top-level declaration up to the end of the stream. The
    /// whole program when no declaration failed; otherwise the collected
    /// syntax errors, one per failed declaration.
    pub fn gen_ast(&mut self) -> (r: Result<Program, Vec<AstError>>)
        ensures
            ({
                let be = spec_gen_items(old(self)@, Seq::empty(), Seq::empty());
                match r {
                    Ok(p) => be.1.len() == 0 && p@ == be.0,
                    Err(es) => be.1.len() > 0 && view_err_seq(es@) == be.1 && es@.len() > 0,
                }
            }),
    {
        let ghost toks0 = self@;
        let mut body: Vec<AST> = Vec::new();
        let mut errs: Vec<AstError> = Vec::new();
        loop
            invariant
                old(self)@ == toks0,
                spec_gen_items(toks0, Seq::empty(), Seq::empty()) == spec_gen_items(
                    self@,
                    view_ast_seq(body@),
                    view_err_seq(errs@),
                ),
                errs@.len() == view_err_seq(errs@).len(),
            ensures
                spec_gen_items(toks0, Seq::empty(), Seq::empty()) == (
                    view_ast_seq(body@),
                    view_err_seq(errs@),
                ),
                errs@.len() == view_err_seq(errs@).len(),
            decreases self@.len(),
        {
            let ghost pre = self@;
            let at_end = match self.peek() {
                Some(t) => matches!(t.kind, TokenKind::EOF),
                None => true,
            };
            if at_end {
                break;
            }
            let tk = match self.eat() {
                Ok(t) => t,
                Err(e) => {
                    proof {
                        assert(false);
                    }
                    break;
                },
            };
            match self.start_gen(tk) {
                Ok(ast) => {
                    let ghost oldbody = body@;
                    let ghost av = ast@;
                    body.push(ast);
                    proof {
                        assert(body@.drop_last() =~= oldbody);
                        assert(view_ast_seq(body@) =~= view_ast_seq(oldbody).push(av));
                        assert(bounded(pre, self@) == self@);
                    }
                },
                Err(e) => {
                    let ghost olderrs = errs@;
                    let ghost ev = e@;
                    errs.push(e);
                    proof {
                        assert(errs@.drop_last() =~= olderrs);
                        assert(view_err_seq(errs@) =~= view_err_seq(olderrs).push(ev));
                        assert(bounded(pre, self@) == self@);
                    }
                },
            }
        }
        if errs.is_empty() {
            Ok(Program { body })
        } else {
            Err(errs)
        }
    }

    /// Hands the already-consumed token to the top-level declaration
    /// parser.
    #[inline]
    pub fn start_gen(&mut self, token: Token) -> (r: Result<AST, AstError>)
        ensures
            spec_parse_global_scope(token@, old(self)@) == (match r {
                Ok(a) => Ok((a@, final(self)@)),
                Err(e) => Err::<(AstV, Seq<TokenV>), _>((e@, final(self)@)),
            }),
            final(self)@.len() <= old(self)@.len(),
    {
        self.parse_global_scope(token)
    }
}

impl AST {
    /// Whether the node is a binary expression.
    pub fn is_binexpr(&self) -> (r: bool)
        ensures
            r == (self@ is BinExpr),
    {
        matches!(self, Self::BinExpr(_, _, _))
    }

    /// Whether the node is a block expression.
    pub fn is_blockexpr(&self) -> (r: bool)
        ensures
            r == (self@ is Block),
    {
        matches!(self, Self::Block(_))
    }
}

impl Program {
    /// The statements of the program, in order.
    pub fn body(&self) -> (r: &Vec<AST>)
        ensures
            r@ == self.body@,
            view_ast_seq(r@) == self@,
    {
        &self.body
    }
}

} // verus!
