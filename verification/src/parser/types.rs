//! Parsing of type annotations: a primitive is any identifier, and a
//! function type is a parenthesized, comma-separated list of types followed
//! by `:` and a return type, nestable for higher-order parameters.
use vstd::prelude::*;

use crate::parser::AstError;
use crate::parser::AstErrorV;
use crate::parser::Parser;
use crate::parser::TypeAst;
use crate::parser::TypeAstV;
use crate::parser::bounded;
use crate::parser::spec_eat;
use crate::parser::spec_expect;
use crate::parser::unexpected_error;
use crate::parser::view_type_seq;
use crate::tokenizer::TokenKind;
use crate::tokenizer::TokenKindV;
use crate::tokenizer::TokenV;

verus! {

/// Mirror of [`Parser::get_type`]: one type annotation off the front of the
/// stream — a parenthesized function type or a primitive named by an
/// identifier.
pub open spec fn spec_get_type(toks: Seq<TokenV>) -> Result<
    (TypeAstV, Seq<TokenV>),
    (AstErrorV, Seq<TokenV>),
>
    decreases toks.len(), 2int,
{
    match spec_eat(toks) {
        Err(es) => Err(es),
        Ok((t, rest)) => match t.kind {
            TokenKindV::OpenParen => spec_get_f_type(rest),
            TokenKindV::Identifier(name) => Ok((TypeAstV::Primitive(name), rest)),
            _ => Err((unexpected_error(t), rest)),
        },
    }
}

/// The parameter list of a function type: types and commas up to the
/// closing parenthesis, appended to `acc`.
pub open spec fn spec_f_type_params(toks: Seq<TokenV>, acc: Seq<TypeAstV>) -> Result<
    (Seq<TypeAstV>, Seq<TokenV>),
    (AstErrorV, Seq<TokenV>),
>
    decreases toks.len(), 1int,
{
    match spec_eat(toks) {
        Err(es) => Err(es),
        Ok((t, rest)) => match t.kind {
            TokenKindV::CloseParen => Ok((acc, rest)),
            TokenKindV::OpenParen => match spec_get_f_type(rest) {
                Err(es) => Err(es),
                Ok((inner, rest2)) => spec_f_type_params(bounded(toks, rest2), acc.push(inner)),
            },
            TokenKindV::Identifier(name) => spec_f_type_params(
                rest,
                acc.push(TypeAstV::Primitive(name)),
            ),
            TokenKindV::Comma => spec_f_type_params(rest, acc),
            _ => Err((unexpected_error(t), rest)),
        },
    }
}

/// Mirror of [`Parser::get_f_type`]: the inside of a function type, after
/// its opening parenthesis — the parameter list, the colon, and the return
/// type.
pub open spec fn spec_get_f_type(toks: Seq<TokenV>) -> Result<
    (TypeAstV, Seq<TokenV>),
    (AstErrorV, Seq<TokenV>),
>
    decreases toks.len() + 1, 0int,
{
    match spec_f_type_params(toks, Seq::empty()) {
        Err(es) => Err(es),
        Ok((params, rest)) => match spec_expect(rest, (|k: TokenKindV| k is Colon)) {
            Err(es) => Err(es),
            Ok((t2, rest2)) => match spec_get_type(bounded(toks, rest2)) {
                Err(es) => Err(es),
                Ok((ret, rest3)) => Ok(
                    (TypeAstV::Function { params, return_type: Box::new(ret) }, rest3),
                ),
            },
        },
    }
}

impl Parser {
    /// Parses the inside of a function type, after its opening parenthesis:
    /// the comma-separated parameter types, the closing parenthesis, a
    /// colon, and the return type.
    pub fn get_f_type(&mut self) -> (r: Result<TypeAst, AstError>)
        ensures
            spec_get_f_type(old(self)@) == (match r {
                Ok(t) => Ok((t@, final(self)@)),
                Err(e) => Err::<(TypeAstV, Seq<TokenV>), _>((e@, final(self)@)),
            }),
            final(self)@.len() <= old(self)@.len(),
        decreases self@.len() + 1, 0int,
    {
        let ghost toks0 = self@;
        let mut vec: Vec<TypeAst> = Vec::new();
        loop
            invariant_except_break
                spec_f_type_params(toks0, Seq::empty()) == spec_f_type_params(
                    self@,
                    view_type_seq(vec@),
                ),
            invariant
                toks0 == old(self)@,
                self@.len() <= toks0.len(),
            ensures
                self@.len() < toks0.len(),
                spec_f_type_params(toks0, Seq::empty()) == Ok::<_, (AstErrorV, Seq<TokenV>)>(
                    (view_type_seq(vec@), self@),
                ),
            decreases self@.len(),
        {
            let ghost pre = self@;
            let current = match self.eat() {
                Ok(t) => t,
                Err(e) => {
                    return Err(e);
                },
            };
            match current.kind {
                TokenKind::CloseParen => {
                    break;
                },
                TokenKind::OpenParen => {
                    let inner = match self.get_f_type() {
                        Ok(t) => t,
                        Err(e) => {
                            return Err(e);
                        },
                    };
                    proof {
                        assert(bounded(pre, self@) == self@);
                    }
                    let ghost oldvec = vec@;
                    vec.push(inner);
                    proof {
                        assert(vec@.drop_last() =~= oldvec);
                        assert(view_type_seq(vec@) =~= view_type_seq(oldvec).push(
                            vec@.last()@,
                        ));
                    }
                },
                TokenKind::Identifier(c) => {
                    let ghost oldvec = vec@;
                    vec.push(TypeAst::Primitive(c));
                    proof {
                        assert(vec@.drop_last() =~= oldvec);
                        assert(view_type_seq(vec@) =~= view_type_seq(oldvec).push(
                            vec@.last()@,
                        ));
                    }
                },
                TokenKind::Comma => {},
                _ => {
                    return Err(Self::unexpected(current));
                },
            }
        }
        match self.expect_colon() {
            Ok(_) => {},
            Err(e) => {
                return Err(e);
            },
        }
        proof {
            assert(bounded(toks0, self@) == self@);
        }
        let ret = match self.get_type() {
            Ok(t) => t,
            Err(e) => {
                return Err(e);
            },
        };
        Ok(TypeAst::Function { params: vec, return_type: Box::new(ret) })
    }

    /// Parses one type annotation: an identifier names a primitive, an
    /// opening parenthesis starts a function type.
    pub fn get_type(&mut self) -> (r: Result<TypeAst, AstError>)
        ensures
            spec_get_type(old(self)@) == (match r {
                Ok(t) => Ok((t@, final(self)@)),
                Err(e) => Err::<(TypeAstV, Seq<TokenV>), _>((e@, final(self)@)),
            }),
            final(self)@.len() <= old(self)@.len(),
        decreases self@.len(), 2int,
    {
        let current = match self.eat() {
            Ok(t) => t,
            Err(e) => {
                return Err(e);
            },
        };
        match current.kind {
            TokenKind::OpenParen => self.get_f_type(),
            TokenKind::Identifier(t) => Ok(TypeAst::Primitive(t)),
            _ => Err(Self::unexpected(current)),
        }
    }
}

} // verus!
