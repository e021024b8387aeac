//! Parsing of function declarations — name, parameter list, optional
//! return annotation, and a block or single-expression body — and of
//! function calls.
use vstd::prelude::*;

use crate::parser::AST;
use crate::parser::AstError;
use crate::parser::AstErrorKind;
use crate::parser::AstErrorKindV;
use crate::parser::AstErrorV;
use crate::parser::AstV;
use crate::parser::KeyTypePair;
use crate::parser::KeyTypePairV;
use crate::parser::Parser;
use crate::parser::ParsingCondition;
use crate::parser::Program;
use crate::parser::TypeAst;
use crate::parser::TypeAstV;
use crate::parser::basics::spec_parse_expr;
use crate::parser::basics::spec_parse_statment;
use crate::parser::bounded;
use crate::parser::capped;
use crate::parser::spec_eat;
use crate::parser::spec_expect;
use crate::parser::types::spec_get_type;
use crate::parser::unexpected_error;
use crate::parser::view_ast_seq;
use crate::parser::view_ktp_seq;
use crate::tokenizer::Operator;
use crate::tokenizer::Token;
use crate::tokenizer::TokenKind;
use crate::tokenizer::TokenKindV;
use crate::tokenizer::TokenV;

verus! {

/// Mirror of [`Parser::parse_fparameter`]: one `name: type` pair of a
/// parameter list.
pub open spec fn spec_parse_fparameter(toks: Seq<TokenV>) -> Result<
    (KeyTypePairV, Seq<TokenV>),
    (AstErrorV, Seq<TokenV>),
>
    decreases toks.len(), 0int,
{
    match spec_expect(toks, (|k: TokenKindV| k is Identifier)) {
        Err(es) => Err(es),
        Ok((nt, rest)) => match nt.kind {
            TokenKindV::Identifier(key) => match spec_expect(rest, (|k: TokenKindV| k is Colon)) {
                Err(es) => Err(es),
                Ok((t2, rest2)) => match spec_get_type(rest2) {
                    Err(es) => Err(es),
                    Ok((kindof, rest3)) => Ok((KeyTypePairV { key, kindof }, rest3)),
                },
            },
            _ => Err((unexpected_error(nt), rest)),
        },
    }
}

/// The parameters of a function declaration up to the closing parenthesis,
/// appended to `acc`: `name: type` pairs separated by commas.
pub open spec fn spec_params_items(toks: Seq<TokenV>, acc: Seq<KeyTypePairV>) -> Result<
    (Seq<KeyTypePairV>, Seq<TokenV>),
    (AstErrorV, Seq<TokenV>),
>
    decreases toks.len(), 1int,
{
    if toks.len() > 0 && toks[0].kind is CloseParen {
        Ok((acc, toks.drop_first()))
    } else {
        match spec_parse_fparameter(toks) {
            Err(es) => Err(es),
            Ok((p, rest)) => {
                let acc2 = acc.push(p);
                match spec_expect(
                    bounded(toks, rest),
                    (|k: TokenKindV| k is CloseParen || k is Comma),
                ) {
                    Err(es) => Err(es),
                    Ok((t2, rest2)) => {
                        if t2.kind is CloseParen {
                            Ok((acc2, rest2))
                        } else {
                            spec_params_items(bounded(toks, rest2), acc2)
                        }
                    },
                }
            },
        }
    }
}

/// Mirror of [`Parser::parse_params`]: the whole parameter list after the
/// opening parenthesis.
pub open spec fn spec_parse_params(toks: Seq<TokenV>) -> Result<
    (Seq<KeyTypePairV>, Seq<TokenV>),
    (AstErrorV, Seq<TokenV>),
>
    decreases toks.len(), 2int,
{
    spec_params_items(toks, Seq::empty())
}

/// The statements of a function's block body up to the closing brace,
/// appended to `acc`. A statement standing last, with no trailing
/// semicolon, is implicitly wrapped as a return of its value.
pub open spec fn spec_fbody_items(toks: Seq<TokenV>, acc: Seq<AstV>) -> Result<
    (Seq<AstV>, Seq<TokenV>),
    (AstErrorV, Seq<TokenV>),
>
    decreases toks.len(), 0int,
{
    match spec_eat(toks) {
        Err(es) => Err(es),
        Ok((current, rest)) => {
            if current.kind is CloseBrace {
                Ok((acc, rest))
            } else {
                match spec_parse_statment(current, rest) {
                    Err(es) => Err(es),
                    Ok((stmt, rest2)) => {
                        if rest2.len() > 0 && rest2[0].kind is CloseBrace {
                            spec_fbody_items(bounded(toks, rest2), acc.push(
                                AstV::Return(Box::new(stmt)),
                            ))
                        } else {
                            match spec_expect(rest2, (|k: TokenKindV| k is SemiColon)) {
                                Err(es) => Err(es),
                                Ok((t2, rest3)) => spec_fbody_items(
                                    bounded(toks, rest3),
                                    acc.push(stmt),
                                ),
                            }
                        }
                    },
                }
            }
        },
    }
}

/// Mirror of [`Parser::parse_fbody`]: the statement sequence of a block
/// body, up to its closing brace.
pub open spec fn spec_parse_fbody(toks: Seq<TokenV>) -> Result<
    (Seq<AstV>, Seq<TokenV>),
    (AstErrorV, Seq<TokenV>),
>
    decreases toks.len(), 1int,
{
    spec_fbody_items(toks, Seq::empty())
}

/// How a function body is written: a brace-delimited statement sequence,
/// or `=` followed by a single expression.
pub open spec fn spec_fn_tail(
    name: Seq<char>,
    params: Seq<KeyTypePairV>,
    returntype: TypeAstV,
    expression_body: bool,
    toks: Seq<TokenV>,
) -> Result<(AstV, Seq<TokenV>), (AstErrorV, Seq<TokenV>)>
    decreases toks.len(), 3int,
{
    if expression_body {
        match spec_eat(toks) {
            Err(es) => Err(es),
            Ok((current, rest)) => match spec_parse_expr(current, rest, ParsingCondition::Normal) {
                Err(es) => Err(es),
                Ok((e, rest2)) => match spec_expect(rest2, (|k: TokenKindV| k is SemiColon)) {
                    Err(es) => Err(es),
                    Ok((t2, rest3)) => Ok(
                        (
                            AstV::Function {
                                name,
                                params,
                                returntype,
                                body: seq![AstV::Return(Box::new(e))],
                            },
                            rest3,
                        ),
                    ),
                },
            },
        }
    } else {
        match spec_parse_fbody(toks) {
            Err(es) => Err(es),
            Ok((body, rest)) => Ok(
                (AstV::Function { name, params, returntype, body }, rest),
            ),
        }
    }
}

/// Mirror of [`Parser::parse_function`]: after the `function` keyword —
/// the name, the parenthesized parameter list, an optional `: type` return
/// annotation (absent means void), then `= expression ;` or a brace-
/// delimited body.
pub open spec fn spec_parse_function(toks: Seq<TokenV>) -> Result<
    (AstV, Seq<TokenV>),
    (AstErrorV, Seq<TokenV>),
>
    decreases toks.len(), 4int,
{
    match spec_expect(toks, (|k: TokenKindV| k is Identifier)) {
        Err(es) => Err(es),
        Ok((nt, rest)) => match nt.kind {
            TokenKindV::Identifier(name) => match spec_expect(
                rest,
                (|k: TokenKindV| k is OpenParen),
            ) {
                Err(es) => Err(es),
                Ok((t2, rest2)) => match spec_parse_params(rest2) {
                    Err(es) => Err(es),
                    Ok((params, rest3)) => match spec_eat(bounded(toks, rest3)) {
                        Err(es) => Err(es),
                        Ok((curr, rest4)) => {
                            if curr.kind == TokenKindV::Operator(Operator::Eq(false)) {
                                spec_fn_tail(
                                    name,
                                    params,
                                    TypeAstV::Primitive("void"@),
                                    true,
                                    bounded(toks, rest4),
                                )
                            } else if curr.kind is OpenBrace {
                                spec_fn_tail(
                                    name,
                                    params,
                                    TypeAstV::Primitive("void"@),
                                    false,
                                    bounded(toks, rest4),
                                )
                            } else if curr.kind is Colon {
                                match spec_get_type(rest4) {
                                    Err(es) => Err(es),
                                    Ok((rt, rest5)) => match spec_eat(bounded(toks, rest5)) {
                                        Err(es) => Err(es),
                                        Ok((curr2, rest6)) => {
                                            if curr2.kind == TokenKindV::Operator(
                                                Operator::Eq(false),
                                            ) {
                                                spec_fn_tail(
                                                    name,
                                                    params,
                                                    rt,
                                                    true,
                                                    bounded(toks, rest6),
                                                )
                                            } else if curr2.kind is OpenBrace {
                                                spec_fn_tail(
                                                    name,
                                                    params,
                                                    rt,
                                                    false,
                                                    bounded(toks, rest6),
                                                )
                                            } else {
                                                Err(
                                                    (
                                                        AstErrorV {
                                                            line: curr2.line,
                                                            column: curr2.column,
                                                            kind: AstErrorKindV::InvalidReturnType(
                                                                curr2.kind,
                                                            ),
                                                        },
                                                        rest6,
                                                    ),
                                                )
                                            }
                                        },
                                    },
                                }
                            } else {
                                Err(
                                    (
                                        AstErrorV {
                                            line: curr.line,
                                            column: curr.column,
                                            kind: AstErrorKindV::InvalidReturnType(curr.kind),
                                        },
                                        rest4,
                                    ),
                                )
                            }
                        },
                    },
                },
            },
            _ => Err((unexpected_error(nt), rest)),
        },
    }
}

/// The arguments of a call up to the closing parenthesis, appended to
/// `acc`: expressions separated by commas.
pub open spec fn spec_fcall_args(
    name: Seq<char>,
    toks: Seq<TokenV>,
    acc: Seq<AstV>,
) -> Result<(AstV, Seq<TokenV>), (AstErrorV, Seq<TokenV>)>
    decreases toks.len(), 0int,
{
    match spec_eat(toks) {
        Err(es) => Err(es),
        Ok((curr, rest)) => match spec_parse_expr(curr, rest, ParsingCondition::Normal) {
            Err(es) => Err(es),
            Ok((arg, rest2)) => {
                let acc2 = acc.push(arg);
                if rest2.len() > 0 && rest2[0].kind is CloseParen {
                    Ok((AstV::FunctionCall { name, args: acc2 }, rest2.drop_first()))
                } else {
                    match spec_expect(rest2, (|k: TokenKindV| k is Comma)) {
                        Err(es) => Err(es),
                        Ok((t2, rest3)) => spec_fcall_args(name, bounded(toks, rest3), acc2),
                    }
                }
            },
        },
    }
}

/// Mirror of [`Parser::parse_function_call`]: after the callee's name and
/// the opening parenthesis — the comma-separated arguments up to the
/// closing parenthesis.
pub open spec fn spec_parse_function_call(name: Seq<char>, toks: Seq<TokenV>) -> Result<
    (AstV, Seq<TokenV>),
    (AstErrorV, Seq<TokenV>),
>
    decreases toks.len(), 1int,
{
    if toks.len() > 0 && toks[0].kind is CloseParen {
        Ok((AstV::FunctionCall { name, args: Seq::empty() }, toks.drop_first()))
    } else {
        spec_fcall_args(name, toks, Seq::empty())
    }
}

impl Parser {
    /// Parses one `name: type` parameter of a function declaration.
    fn parse_fparameter(&mut self) -> (r: Result<KeyTypePair, AstError>)
        ensures
            spec_parse_fparameter(old(self)@) == (match r {
                Ok(p) => Ok(
                    (KeyTypePairV { key: p.key@, kindof: p.kindof@ }, final(self)@),
                ),
                Err(e) => Err::<(KeyTypePairV, Seq<TokenV>), _>((e@, final(self)@)),
            }),
            final(self)@.len() <= old(self)@.len(),
            r is Ok ==> final(self)@.len() < old(self)@.len(),
    {
        let key = match self.expect_identifier() {
            Ok(n) => n,
            Err(e) => {
                return Err(e);
            },
        };
        match self.expect_colon() {
            Ok(t) => {},
            Err(e) => {
                return Err(e);
            },
        }
        let kindof = match self.get_type() {
            Ok(t) => t,
            Err(e) => {
                return Err(e);
            },
        };
        Ok(KeyTypePair { key, kindof })
    }

    /// Parses the parameter list of a function declaration, after its
    /// opening parenthesis, up to the closing one.
    fn parse_params(&mut self) -> (r: Result<Vec<KeyTypePair>, AstError>)
        ensures
            spec_parse_params(old(self)@) == (match r {
                Ok(ps) => Ok((view_ktp_seq(ps@), final(self)@)),
                Err(e) => Err::<(Seq<KeyTypePairV>, Seq<TokenV>), _>((e@, final(self)@)),
            }),
            final(self)@.len() <= old(self)@.len(),
    {
        let ghost toks0 = self@;
        let mut params: Vec<KeyTypePair> = Vec::new();
        loop
            invariant_except_break
                spec_params_items(toks0, Seq::empty()) == spec_params_items(
                    self@,
                    view_ktp_seq(params@),
                ),
            invariant
                old(self)@ == toks0,
                self@.len() <= toks0.len(),
            ensures
                spec_params_items(toks0, Seq::empty()) == Ok::<_, (AstErrorV, Seq<TokenV>)>(
                    (view_ktp_seq(params@), self@),
                ),
            decreases self@.len(),
        {
            let ghost pre = self@;
            let at_close = match self.peek() {
                Some(t) => matches!(t.kind, TokenKind::CloseParen),
                None => false,
            };
            if at_close {
                match self.eat() {
                    Ok(t) => {},
                    Err(e) => {
                        return Err(e);
                    },
                }
                break;
            }
            let p = match self.parse_fparameter() {
                Ok(p) => p,
                Err(e) => {
                    return Err(e);
                },
            };
            let ghost oldparams = params@;
            let ghost pv = KeyTypePairV { key: p.key@, kindof: p.kindof@ };
            params.push(p);
            proof {
                assert(params@.drop_last() =~= oldparams);
                assert(view_ktp_seq(params@) =~= view_ktp_seq(oldparams).push(pv));
                assert(bounded(pre, self@) == self@);
            }
            let t2 = match self.expect_close_paren_or_comma() {
                Ok(t) => t,
                Err(e) => {
                    return Err(e);
                },
            };
            if matches!(t2.kind, TokenKind::CloseParen) {
                break;
            }
            proof {
                assert(bounded(pre, self@) == self@);
            }
        }
        Ok(params)
    }

    /// Parses the statement sequence of a function's block body, up to its
    /// closing brace; the last statement, when not followed by a
    /// semicolon, is wrapped as a return of its value.
    pub fn parse_fbody(&mut self) -> (r: Result<Vec<AST>, AstError>)
        ensures
            spec_parse_fbody(old(self)@) == (match r {
                Ok(b) => Ok((view_ast_seq(b@), final(self)@)),
                Err(e) => Err::<(Seq<AstV>, Seq<TokenV>), _>((e@, final(self)@)),
            }),
            final(self)@.len() <= old(self)@.len(),
        decreases self@.len(), 1int,
    {
        let ghost toks0 = self@;
        let mut vec: Vec<AST> = Vec::new();
        loop
            invariant_except_break
                spec_fbody_items(toks0, Seq::empty()) == spec_fbody_items(
                    self@,
                    view_ast_seq(vec@),
                ),
            invariant
                old(self)@ == toks0,
                self@.len() <= toks0.len(),
            ensures
                spec_fbody_items(toks0, Seq::empty()) == Ok::<_, (AstErrorV, Seq<TokenV>)>(
                    (view_ast_seq(vec@), self@),
                ),
            decreases self@.len(),
        {
            let ghost pre = self@;
            let current = match self.eat() {
                Ok(t) => t,
                Err(e) => {
                    return Err(e);
                },
            };
            if matches!(current.kind, TokenKind::CloseBrace) {
                break;
            }
            let statment = match self.parse_statment(current) {
                Ok(a) => a,
                Err(e) => {
                    return Err(e);
                },
            };
            let at_close = match self.peek() {
                Some(t) => matches!(t.kind, TokenKind::CloseBrace),
                None => false,
            };
            let ghost oldvec = vec@;
            if at_close {
                let ghost sv = statment@;
                let node = AST::Return(Box::new(statment));
                let ghost nv = node@;
                vec.push(node);
                proof {
                    assert(nv == AstV::Return(Box::new(sv)));
                    assert(vec@.drop_last() =~= oldvec);
                    assert(view_ast_seq(vec@) =~= view_ast_seq(oldvec).push(nv));
                    assert(bounded(pre, self@) == self@);
                }
            } else {
                let ghost sv = statment@;
                vec.push(statment);
                proof {
                    assert(vec@.drop_last() =~= oldvec);
                    assert(view_ast_seq(vec@) =~= view_ast_seq(oldvec).push(sv));
                }
                match self.expect_semicolon() {
                    Ok(t) => {},
                    Err(e) => {
                        return Err(e);
                    },
                }
                proof {
                    assert(bounded(pre, self@) == self@);
                }
            }
        }
        Ok(vec)
    }

    /// Parses a function declaration after the `function` keyword: name,
    /// parameter list, an optional `: type` return annotation (absent
    /// means void), and a block or `= expression ;` body.
    pub fn parse_function(&mut self) -> (r: Result<AST, AstError>)
        ensures
            spec_parse_function(old(self)@) == (match r {
                Ok(a) => Ok((a@, final(self)@)),
                Err(e) => Err::<(AstV, Seq<TokenV>), _>((e@, final(self)@)),
            }),
            final(self)@.len() <= old(self)@.len(),
        decreases self@.len(), 4int,
    {
        let ghost toks0 = self@;
        let name = match self.expect_identifier() {
            Ok(n) => n,
            Err(e) => {
                return Err(e);
            },
        };
        match self.expect_open_paren() {
            Ok(t) => {},
            Err(e) => {
                return Err(e);
            },
        }
        let params = match self.parse_params() {
            Ok(ps) => ps,
            Err(e) => {
                return Err(e);
            },
        };
        proof {
            assert(bounded(toks0, self@) == self@);
        }
        let curr = match self.eat() {
            Ok(t) => t,
            Err(e) => {
                return Err(e);
            },
        };
        let mut expression_body = false;
        let returntype: TypeAst = if matches!(curr.kind, TokenKind::Operator(Operator::Eq(false)))
            || matches!(curr.kind, TokenKind::OpenBrace) {
            if !matches!(curr.kind, TokenKind::OpenBrace) {
                expression_body = true;
            }
            TypeAst::Primitive("void".to_owned())
        } else if matches!(curr.kind, TokenKind::Colon) {
            let type_tokens = match self.get_type() {
                Ok(t) => t,
                Err(e) => {
                    return Err(e);
                },
            };
            proof {
                assert(bounded(toks0, self@) == self@);
            }
            let curr2 = match self.eat() {
                Ok(t) => t,
                Err(e) => {
                    return Err(e);
                },
            };
            if matches!(curr2.kind, TokenKind::Operator(Operator::Eq(false))) {
                expression_body = true;
            } else if matches!(curr2.kind, TokenKind::OpenBrace) {
            } else {
                return Err(
                    AstError {
                        line: curr2.line,
                        column: curr2.column,
                        kind: AstErrorKind::InvalidReturnType(curr2.kind),
                    },
                );
            }
            type_tokens
        } else {
            return Err(
                AstError {
                    line: curr.line,
                    column: curr.column,
                    kind: AstErrorKind::InvalidReturnType(curr.kind),
                },
            );
        };
        proof {
            assert(bounded(toks0, self@) == self@);
        }
        let body: Vec<AST> = if !expression_body {
            match self.parse_fbody() {
                Ok(b) => b,
                Err(e) => {
                    return Err(e);
                },
            }
        } else {
            let current = match self.eat() {
                Ok(t) => t,
                Err(e) => {
                    return Err(e);
                },
            };
            let e = match self.parse_expr(current, ParsingCondition::Normal) {
                Ok(a) => a,
                Err(e) => {
                    return Err(e);
                },
            };
            let mut b: Vec<AST> = Vec::new();
            let ghost ev = e@;
            let node = AST::Return(Box::new(e));
            let ghost nv = node@;
            b.push(node);
            proof {
                assert(nv == AstV::Return(Box::new(ev)));
                assert(b@.drop_last() =~= Seq::<AST>::empty());
                assert(view_ast_seq(Seq::<AST>::empty()) =~= Seq::<AstV>::empty());
                assert(view_ast_seq(b@) =~= seq![nv]);
            }
            match self.expect_semicolon() {
                Ok(t) => {},
                Err(e) => {
                    return Err(e);
                },
            }
            b
        };
        Ok(AST::Function { name, returntype, body: Program { body }, params })
    }

    /// Parses the arguments of a call, after the callee's name and opening
    /// parenthesis were consumed, up to the closing parenthesis.
    pub fn parse_function_call(&mut self, fname: String) -> (r: Result<AST, AstError>)
        ensures
            spec_parse_function_call(fname@, old(self)@) == (match r {
                Ok(a) => Ok((a@, final(self)@)),
                Err(e) => Err::<(AstV, Seq<TokenV>), _>((e@, final(self)@)),
            }),
            final(self)@.len() <= old(self)@.len(),
        decreases self@.len(), 1int,
    {
        let at_close = match self.peek() {
            Some(t) => matches!(t.kind, TokenKind::CloseParen),
            None => false,
        };
        if at_close {
            match self.eat() {
                Ok(t) => {},
                Err(e) => {
                    return Err(e);
                },
            }
            let args: Vec<AST> = Vec::new();
            proof {
                assert(view_ast_seq(args@) =~= Seq::<AstV>::empty());
            }
            return Ok(AST::FunctionCall { name: fname, args });
        }
        let ghost toks0 = self@;
        let mut params: Vec<AST> = Vec::new();
        loop
            invariant_except_break
                spec_fcall_args(fname@, toks0, Seq::empty()) == spec_fcall_args(
                    fname@,
                    self@,
                    view_ast_seq(params@),
                ),
            invariant
                old(self)@ == toks0,
                self@.len() <= toks0.len(),
                spec_parse_function_call(fname@, toks0) == spec_fcall_args(
                    fname@,
                    toks0,
                    Seq::empty(),
                ),
            ensures
                spec_fcall_args(fname@, toks0, Seq::empty()) == Ok::<
                    _,
                    (AstErrorV, Seq<TokenV>),
                >((AstV::FunctionCall { name: fname@, args: view_ast_seq(params@) }, self@)),
            decreases self@.len(),
        {
            let ghost pre = self@;
            let curr = match self.eat() {
                Ok(t) => t,
                Err(e) => {
                    return Err(e);
                },
            };
            let arg = match self.parse_expr(curr, ParsingCondition::Normal) {
                Ok(a) => a,
                Err(e) => {
                    return Err(e);
                },
            };
            let ghost oldparams = params@;
            let ghost av = arg@;
            params.push(arg);
            proof {
                assert(params@.drop_last() =~= oldparams);
                assert(view_ast_seq(params@) =~= view_ast_seq(oldparams).push(av));
            }
            let at_close2 = match self.peek() {
                Some(t) => matches!(t.kind, TokenKind::CloseParen),
                None => false,
            };
            if at_close2 {
                match self.eat() {
                    Ok(t) => {},
                    Err(e) => {
                        return Err(e);
                    },
                }
                break;
            }
            match self.expect_comma() {
                Ok(t) => {},
                Err(e) => {
                    return Err(e);
                },
            }
            proof {
                assert(bounded(pre, self@) == self@);
            }
        }
        Ok(AST::FunctionCall { name: fname, args: params })
    }
}

} // verus!
