//! Parsing of conditionals: `if test -> expr` or `if test { ... }`, with an
//! optional `else` of either shape. An expression-position conditional must
//! be total, so its else branch is required.
use vstd::prelude::*;

use crate::parser::AST;
use crate::parser::AstError;
use crate::parser::AstErrorKind;
use crate::parser::AstErrorKindV;
use crate::parser::AstErrorV;
use crate::parser::AstV;
use crate::parser::Parser;
use crate::parser::ParsingCondition;
use crate::parser::basics::spec_parse_block_expr;
use crate::parser::basics::spec_parse_expr;
use crate::parser::bounded;
use crate::parser::spec_eat;
use crate::parser::spec_expect;
use crate::parser::unexpected_error;
use crate::tokenizer::Operator;
use crate::tokenizer::Reserved;
use crate::tokenizer::Token;
use crate::tokenizer::TokenKind;
use crate::tokenizer::TokenKindV;
use crate::tokenizer::TokenV;

verus! {

/// One branch of a conditional: either `->` followed by a primitive
/// expression, or a brace-delimited block. Used for the then branch.
pub open spec fn spec_if_branch(toks: Seq<TokenV>) -> Result<
    (AstV, Seq<TokenV>),
    (AstErrorV, Seq<TokenV>),
>
    decreases toks.len(), 8int,
{
    if toks.len() > 0 && toks[0].kind == TokenKindV::Operator(Operator::Arrow) {
        match spec_eat(toks.drop_first()) {
            Err(es) => Err(es),
            Ok((curr, rest2)) => spec_parse_expr(curr, rest2, ParsingCondition::PrimitiveExpr),
        }
    } else {
        match spec_expect(toks, (|k: TokenKindV| k is OpenBrace)) {
            Err(es) => Err(es),
            Ok((t, rest)) => spec_parse_block_expr(rest),
        }
    }
}

/// The else part of a conditional, after the `else` keyword was consumed:
/// an arrow form, a block form, or the unexpected-token error.
pub open spec fn spec_else_branch(toks: Seq<TokenV>) -> Result<
    (AstV, Seq<TokenV>),
    (AstErrorV, Seq<TokenV>),
>
    decreases toks.len(), 8int,
{
    match spec_eat(toks) {
        Err(es) => Err(es),
        Ok((tk, rest)) => match tk.kind {
            TokenKindV::Operator(Operator::Arrow) => match spec_eat(rest) {
                Err(es) => Err(es),
                Ok((tk2, rest2)) => spec_parse_expr(tk2, rest2, ParsingCondition::PrimitiveExpr),
            },
            TokenKindV::OpenBrace => spec_parse_block_expr(rest),
            _ => Err((unexpected_error(tk), rest)),
        },
    }
}

/// Mirror of [`Parser::parse_if_expr`]: the test expression (struct
/// literals disallowed there), a then branch, and an optional else branch.
pub open spec fn spec_parse_if_expr(toks: Seq<TokenV>) -> Result<
    (AstV, Seq<TokenV>),
    (AstErrorV, Seq<TokenV>),
>
    decreases toks.len(), 9int,
{
    match spec_eat(toks) {
        Err(es) => Err(es),
        Ok((current, rest)) => match spec_parse_expr(current, rest, ParsingCondition::NoStruct) {
            Err(es) => Err(es),
            Ok((cond, rest2)) => match spec_if_branch(bounded(toks, rest2)) {
                Err(es) => Err(es),
                Ok((block, rest3)) => {
                    if rest3.len() > 0 && rest3[0].kind == TokenKindV::Reserved(Reserved::Else) {
                        match spec_else_branch(bounded(toks, rest3.drop_first())) {
                            Err(es) => Err(es),
                            Ok((eb, rest4)) => Ok(
                                (
                                    AstV::If {
                                        expr: Box::new(cond),
                                        block: Box::new(block),
                                        elseblock: Some(Box::new(eb)),
                                    },
                                    rest4,
                                ),
                            ),
                        }
                    } else {
                        Ok(
                            (
                                AstV::If {
                                    expr: Box::new(cond),
                                    block: Box::new(block),
                                    elseblock: None,
                                },
                                rest3,
                            ),
                        )
                    }
                },
            },
        },
    }
}

/// Mirror of [`Parser::parse_if_assign_expr`]: as [`spec_parse_if_expr`],
/// but the else branch is required — its absence is the missing-else
/// error, reported at the next token without consuming it.
pub open spec fn spec_parse_if_assign_expr(toks: Seq<TokenV>) -> Result<
    (AstV, Seq<TokenV>),
    (AstErrorV, Seq<TokenV>),
>
    decreases toks.len(), 9int,
{
    match spec_eat(toks) {
        Err(es) => Err(es),
        Ok((current, rest)) => match spec_parse_expr(current, rest, ParsingCondition::NoStruct) {
            Err(es) => Err(es),
            Ok((cond, rest2)) => match spec_if_branch(bounded(toks, rest2)) {
                Err(es) => Err(es),
                Ok((block, rest3)) => {
                    if rest3.len() > 0 && rest3[0].kind == TokenKindV::Reserved(Reserved::Else) {
                        match spec_else_branch(bounded(toks, rest3.drop_first())) {
                            Err(es) => Err(es),
                            Ok((eb, rest4)) => Ok(
                                (
                                    AstV::If {
                                        expr: Box::new(cond),
                                        block: Box::new(block),
                                        elseblock: Some(Box::new(eb)),
                                    },
                                    rest4,
                                ),
                            ),
                        }
                    } else if rest3.len() > 0 {
                        Err(
                            (
                                AstErrorV {
                                    line: rest3[0].line,
                                    column: rest3[0].column,
                                    kind: AstErrorKindV::ExpectedElseBranch,
                                },
                                rest3,
                            ),
                        )
                    } else {
                        Err(
                            (
                                AstErrorV {
                                    line: 0,
                                    column: 0,
                                    kind: AstErrorKindV::ExpectedElseBranch,
                                },
                                rest3,
                            ),
                        )
                    }
                },
            },
        },
    }
}

impl Parser {
    /// Parses one branch of a conditional: `->` and a primitive
    /// expression, or a brace-delimited block.
    fn parse_if_branch(&mut self) -> (r: Result<AST, AstError>)
        ensures
            spec_if_branch(old(self)@) == (match r {
                Ok(a) => Ok((a@, final(self)@)),
                Err(e) => Err::<(AstV, Seq<TokenV>), _>((e@, final(self)@)),
            }),
            final(self)@.len() <= old(self)@.len(),
        decreases self@.len(), 8int,
    {
        let at_arrow = match self.peek() {
            Some(t) => matches!(t.kind, TokenKind::Operator(Operator::Arrow)),
            None => false,
        };
        if at_arrow {
            match self.eat() {
                Ok(t) => {},
                Err(e) => {
                    return Err(e);
                },
            }
            let current = match self.eat() {
                Ok(t) => t,
                Err(e) => {
                    return Err(e);
                },
            };
            self.parse_expr(current, ParsingCondition::PrimitiveExpr)
        } else {
            match self.expect_open_brace() {
                Ok(t) => {},
                Err(e) => {
                    return Err(e);
                },
            }
            self.parse_block_expr()
        }
    }

    /// Parses the else part after the `else` keyword was consumed: an
    /// arrow form or a block form.
    fn parse_else_branch(&mut self) -> (r: Result<AST, AstError>)
        ensures
            spec_else_branch(old(self)@) == (match r {
                Ok(a) => Ok((a@, final(self)@)),
                Err(e) => Err::<(AstV, Seq<TokenV>), _>((e@, final(self)@)),
            }),
            final(self)@.len() <= old(self)@.len(),
        decreases self@.len(), 8int,
    {
        let tk = match self.eat() {
            Ok(t) => t,
            Err(e) => {
                return Err(e);
            },
        };
        match tk.kind {
            TokenKind::Operator(Operator::Arrow) => {
                let tk2 = match self.eat() {
                    Ok(t) => t,
                    Err(e) => {
                        return Err(e);
                    },
                };
                self.parse_expr(tk2, ParsingCondition::PrimitiveExpr)
            },
            TokenKind::OpenBrace => self.parse_block_expr(),
            _ => Err(Self::unexpected(tk)),
        }
    }

    /// Parses a conditional whose else branch is optional: the test
    /// expression (struct literals disallowed), the then branch, and an
    /// `else` of either shape if one follows.
    pub fn parse_if_expr(&mut self) -> (r: Result<AST, AstError>)
        ensures
            spec_parse_if_expr(old(self)@) == (match r {
                Ok(a) => Ok((a@, final(self)@)),
                Err(e) => Err::<(AstV, Seq<TokenV>), _>((e@, final(self)@)),
            }),
            final(self)@.len() <= old(self)@.len(),
        decreases self@.len(), 9int,
    {
        let ghost toks0 = self@;
        let current = match self.eat() {
            Ok(t) => t,
            Err(e) => {
                return Err(e);
            },
        };
        let cond = match self.parse_expr(current, ParsingCondition::NoStruct) {
            Ok(a) => a,
            Err(e) => {
                return Err(e);
            },
        };
        proof {
            assert(bounded(toks0, self@) == self@);
        }
        let block = match self.parse_if_branch() {
            Ok(a) => a,
            Err(e) => {
                return Err(e);
            },
        };
        let at_else = match self.peek() {
            Some(t) => matches!(t.kind, TokenKind::Reserved(Reserved::Else)),
            None => false,
        };
        let elseblock: Option<Box<AST>> = if at_else {
            match self.eat() {
                Ok(t) => {},
                Err(e) => {
                    return Err(e);
                },
            }
            match self.parse_else_branch() {
                Ok(a) => Some(Box::new(a)),
                Err(e) => {
                    return Err(e);
                },
            }
        } else {
            None
        };
        Ok(AST::If { expr: Box::new(cond), block: Box::new(block), elseblock })
    }

    /// Parses a conditional in expression position, where an else branch
    /// is required because the conditional must be total; its absence is
    /// the missing-else error.
    pub fn parse_if_assign_expr(&mut self) -> (r: Result<AST, AstError>)
        ensures
            spec_parse_if_assign_expr(old(self)@) == (match r {
                Ok(a) => Ok((a@, final(self)@)),
                Err(e) => Err::<(AstV, Seq<TokenV>), _>((e@, final(self)@)),
            }),
            final(self)@.len() <= old(self)@.len(),
        decreases self@.len(), 9int,
    {
        let ghost toks0 = self@;
        let current = match self.eat() {
            Ok(t) => t,
            Err(e) => {
                return Err(e);
            },
        };
        let cond = match self.parse_expr(current, ParsingCondition::NoStruct) {
            Ok(a) => a,
            Err(e) => {
                return Err(e);
            },
        };
        proof {
            assert(bounded(toks0, self@) == self@);
        }
        let block = match self.parse_if_branch() {
            Ok(a) => a,
            Err(e) => {
                return Err(e);
            },
        };
        let at_else = match self.peek() {
            Some(t) => matches!(t.kind, TokenKind::Reserved(Reserved::Else)),
            None => false,
        };
        if !at_else {
            let err = match self.peek() {
                Some(current2) => AstError {
                    line: current2.line,
                    column: current2.column,
                    kind: AstErrorKind::ExpectedElseBranch,
                },
                None => AstError { line: 0, column: 0, kind: AstErrorKind::ExpectedElseBranch },
            };
            return Err(err);
        }
        match self.eat() {
            Ok(t) => {},
            Err(e) => {
                return Err(e);
            },
        }
        let eb = match self.parse_else_branch() {
            Ok(a) => a,
            Err(e) => {
                return Err(e);
            },
        };
        Ok(
            AST::If {
                expr: Box::new(cond),
                block: Box::new(block),
                elseblock: Some(Box::new(eb)),
            },
        )
    }
}

} // verus!
