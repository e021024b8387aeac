//! Parsing of struct declarations (`struct S { a: int; b: float; }`) and
//! struct literals (`S { a: 1, b }`), whose bare-name fields desugar to
//! reading the identically-named binding.
use vstd::prelude::*;

use crate::parser::AST;
use crate::parser::AstError;
use crate::parser::AstErrorV;
use crate::parser::AstV;
use crate::parser::KeyExprPair;
use crate::parser::KeyExprPairV;
use crate::parser::KeyTypePair;
use crate::parser::KeyTypePairV;
use crate::parser::Parser;
use crate::parser::ParsingCondition;
use crate::parser::basics::spec_parse_expr;
use crate::parser::bounded;
use crate::parser::spec_eat;
use crate::parser::spec_expect;
use crate::parser::types::spec_get_type;
use crate::parser::unexpected_error;
use crate::parser::view_ast;
use crate::parser::view_kep_seq;
use crate::parser::view_ktp_seq;
use crate::tokenizer::Token;
use crate::tokenizer::TokenKind;
use crate::tokenizer::TokenKindV;
use crate::tokenizer::TokenV;

verus! {

/// The `name: type;` fields of a struct declaration, appended to `acc`,
/// ending at the closing brace checked after each semicolon.
pub open spec fn spec_struct_fields_items(toks: Seq<TokenV>, acc: Seq<KeyTypePairV>) -> Result<
    (Seq<KeyTypePairV>, Seq<TokenV>),
    (AstErrorV, Seq<TokenV>),
>
    decreases toks.len(), 0int,
{
    match spec_expect(toks, (|k: TokenKindV| k is Identifier)) {
        Err(es) => Err(es),
        Ok((nt, rest)) => match nt.kind {
            TokenKindV::Identifier(field_name) => match spec_expect(
                rest,
                (|k: TokenKindV| k is Colon),
            ) {
                Err(es) => Err(es),
                Ok((t2, rest2)) => match spec_get_type(rest2) {
                    Err(es) => Err(es),
                    Ok((field_type, rest3)) => match spec_expect(
                        bounded(toks, rest3),
                        (|k: TokenKindV| k is SemiColon),
                    ) {
                        Err(es) => Err(es),
                        Ok((t3, rest4)) => {
                            let acc2 = acc.push(
                                KeyTypePairV { key: field_name, kindof: field_type },
                            );
                            if rest4.len() > 0 && rest4[0].kind is CloseBrace {
                                Ok((acc2, rest4.drop_first()))
                            } else {
                                spec_struct_fields_items(bounded(toks, rest4), acc2)
                            }
                        },
                    },
                },
            },
            _ => Err((unexpected_error(nt), rest)),
        },
    }
}

/// Mirror of [`Parser::parse_struct_fields_types`]: the field list of a
/// struct declaration after its opening brace — empty when the closing
/// brace comes first.
pub open spec fn spec_parse_struct_fields_types(toks: Seq<TokenV>) -> Result<
    (Seq<KeyTypePairV>, Seq<TokenV>),
    (AstErrorV, Seq<TokenV>),
>
    decreases toks.len(), 1int,
{
    if toks.len() > 0 && toks[0].kind is CloseBrace {
        Ok((Seq::empty(), toks.drop_first()))
    } else {
        spec_struct_fields_items(toks, Seq::empty())
    }
}

/// Mirror of [`Parser::parse_struct_decl`]: after the `struct` keyword —
/// the name, the opening brace, and the field list.
pub open spec fn spec_parse_struct_decl(toks: Seq<TokenV>) -> Result<
    (AstV, Seq<TokenV>),
    (AstErrorV, Seq<TokenV>),
>
    decreases toks.len(), 2int,
{
    match spec_expect(toks, (|k: TokenKindV| k is Identifier)) {
        Err(es) => Err(es),
        Ok((nt, rest)) => match nt.kind {
            TokenKindV::Identifier(structname) => match spec_expect(
                rest,
                (|k: TokenKindV| k is OpenBrace),
            ) {
                Err(es) => Err(es),
                Ok((t2, rest2)) => match spec_parse_struct_fields_types(rest2) {
                    Err(es) => Err(es),
                    Ok((fields, rest3)) => Ok(
                        (AstV::Struct { name: structname, fields }, rest3),
                    ),
                },
            },
            _ => Err((unexpected_error(nt), rest)),
        },
    }
}

/// The fields of a struct literal, appended to `acc`: either `name: expr`
/// or a bare `name` shorthand that reads the identically-named binding.
pub open spec fn spec_struct_field_values(toks: Seq<TokenV>, acc: Seq<KeyExprPairV>) -> Result<
    (Seq<KeyExprPairV>, Seq<TokenV>),
    (AstErrorV, Seq<TokenV>),
>
    decreases toks.len(), 0int,
{
    match spec_expect(toks, (|k: TokenKindV| k is Identifier)) {
        Err(es) => Err(es),
        Ok((nt, rest)) => match nt.kind {
            TokenKindV::Identifier(field_name) => {
                if rest.len() > 0 && rest[0].kind is Comma {
                    spec_struct_field_values(
                        rest.drop_first(),
                        acc.push(
                            KeyExprPairV { key: field_name, value: AstV::Identifier(field_name) },
                        ),
                    )
                } else {
                    match spec_expect(rest, (|k: TokenKindV| k is Colon)) {
                        Err(es) => Err(es),
                        Ok((t2, rest2)) => match spec_eat(rest2) {
                            Err(es) => Err(es),
                            Ok((current, rest3)) => match spec_parse_expr(
                                current,
                                rest3,
                                ParsingCondition::Normal,
                            ) {
                                Err(es) => Err(es),
                                Ok((value, rest4)) => {
                                    let acc2 = acc.push(
                                        KeyExprPairV { key: field_name, value },
                                    );
                                    if rest4.len() > 0 && rest4[0].kind is CloseBrace {
                                        Ok((acc2, rest4.drop_first()))
                                    } else {
                                        match spec_expect(
                                            bounded(toks, rest4),
                                            (|k: TokenKindV| k is Comma),
                                        ) {
                                            Err(es) => Err(es),
                                            Ok((t3, rest5)) => {
                                                if rest5.len() > 0 && rest5[0].kind
                                                    is CloseBrace {
                                                    Ok((acc2, rest5.drop_first()))
                                                } else {
                                                    spec_struct_field_values(
                                                        bounded(toks, rest5),
                                                        acc2,
                                                    )
                                                }
                                            },
                                        }
                                    }
                                },
                            },
                        },
                    }
                }
            },
            _ => Err((unexpected_error(nt), rest)),
        },
    }
}

/// Mirror of [`Parser::parse_struct_expr`]: after the literal's name and
/// opening brace — the field list, empty when the closing brace comes
/// first.
pub open spec fn spec_parse_struct_expr(name: Seq<char>, toks: Seq<TokenV>) -> Result<
    (AstV, Seq<TokenV>),
    (AstErrorV, Seq<TokenV>),
>
    decreases toks.len(), 1int,
{
    if toks.len() > 0 && toks[0].kind is CloseBrace {
        Ok((AstV::StructExpr { name, fields: Seq::empty() }, toks.drop_first()))
    } else {
        match spec_struct_field_values(toks, Seq::empty()) {
            Err(es) => Err(es),
            Ok((fields, rest)) => Ok((AstV::StructExpr { name, fields }, rest)),
        }
    }
}

impl Parser {
    /// Parses the field list of a struct declaration after its opening
    /// brace: semicolon-terminated `name: type` pairs up to the closing
    /// brace. Order is preserved; it matters for literal completeness
    /// checking.
    pub fn parse_struct_fields_types(&mut self) -> (r: Result<Vec<KeyTypePair>, AstError>)
        ensures
            spec_parse_struct_fields_types(old(self)@) == (match r {
                Ok(fs) => Ok((view_ktp_seq(fs@), final(self)@)),
                Err(e) => Err::<(Seq<KeyTypePairV>, Seq<TokenV>), _>((e@, final(self)@)),
            }),
            final(self)@.len() <= old(self)@.len(),
    {
        let at_close = match self.peek() {
            Some(t) => matches!(t.kind, TokenKind::CloseBrace),
            None => false,
        };
        if at_close {
            match self.eat() {
                Ok(t) => {},
                Err(e) => {
                    return Err(e);
                },
            }
            let out: Vec<KeyTypePair> = Vec::new();
            proof {
                assert(view_ktp_seq(out@) =~= Seq::<KeyTypePairV>::empty());
            }
            return Ok(out);
        }
        let ghost toks0 = self@;
        let mut out: Vec<KeyTypePair> = Vec::new();
        loop
            invariant_except_break
                spec_struct_fields_items(toks0, Seq::empty()) == spec_struct_fields_items(
                    self@,
                    view_ktp_seq(out@),
                ),
            invariant
                old(self)@ == toks0,
                self@.len() <= toks0.len(),
                spec_parse_struct_fields_types(toks0) == spec_struct_fields_items(
                    toks0,
                    Seq::empty(),
                ),
            ensures
                spec_struct_fields_items(toks0, Seq::empty()) == Ok::<
                    _,
                    (AstErrorV, Seq<TokenV>),
                >((view_ktp_seq(out@), self@)),
            decreases self@.len(),
        {
            let ghost pre = self@;
            let field_name = match self.expect_identifier() {
                Ok(n) => n,
                Err(e) => {
                    return Err(e);
                },
            };
            match self.expect_colon() {
                Ok(t) => {},
                Err(e) => {
                    return Err(e);
                },
            }
            let field_type = match self.get_type() {
                Ok(t) => t,
                Err(e) => {
                    return Err(e);
                },
            };
            proof {
                assert(bounded(pre, self@) == self@);
            }
            match self.expect_semicolon() {
                Ok(t) => {},
                Err(e) => {
                    return Err(e);
                },
            }
            let ghost oldout = out@;
            let ghost pv = KeyTypePairV { key: field_name@, kindof: field_type@ };
            out.push(KeyTypePair { key: field_name, kindof: field_type });
            proof {
                assert(out@.drop_last() =~= oldout);
                assert(view_ktp_seq(out@) =~= view_ktp_seq(oldout).push(pv));
            }
            let at_close2 = match self.peek() {
                Some(t) => matches!(t.kind, TokenKind::CloseBrace),
                None => false,
            };
            if at_close2 {
                match self.eat() {
                    Ok(t) => {},
                    Err(e) => {
                        return Err(e);
                    },
                }
                break;
            }
            proof {
                assert(bounded(pre, self@) == self@);
            }
        }
        Ok(out)
    }

    /// Parses a struct declaration after the `struct` keyword: its name,
    /// the opening brace, and the ordered field list.
    pub fn parse_struct_decl(&mut self) -> (r: Result<AST, AstError>)
        ensures
            spec_parse_struct_decl(old(self)@) == (match r {
                Ok(a) => Ok((a@, final(self)@)),
                Err(e) => Err::<(AstV, Seq<TokenV>), _>((e@, final(self)@)),
            }),
            final(self)@.len() <= old(self)@.len(),
    {
        let structname = match self.expect_identifier() {
            Ok(n) => n,
            Err(e) => {
                return Err(e);
            },
        };
        match self.expect_open_brace() {
            Ok(t) => {},
            Err(e) => {
                return Err(e);
            },
        }
        let params = match self.parse_struct_fields_types() {
            Ok(fs) => fs,
            Err(e) => {
                return Err(e);
            },
        };
        Ok(AST::Struct { name: structname, fields: params })
    }

    /// Parses the fields of a struct literal: `name: expr` pairs and bare
    /// `name` shorthands, separated by commas, up to the closing brace.
    fn parse_struct_field_values(&mut self) -> (r: Result<Vec<KeyExprPair>, AstError>)
        ensures
            spec_struct_field_values(old(self)@, Seq::empty()) == (match r {
                Ok(fs) => Ok((view_kep_seq(fs@), final(self)@)),
                Err(e) => Err::<(Seq<KeyExprPairV>, Seq<TokenV>), _>((e@, final(self)@)),
            }),
            final(self)@.len() <= old(self)@.len(),
        decreases self@.len(), 0int,
    {
        let ghost toks0 = self@;
        let mut fields: Vec<KeyExprPair> = Vec::new();
        loop
            invariant_except_break
                spec_struct_field_values(toks0, Seq::empty()) == spec_struct_field_values(
                    self@,
                    view_kep_seq(fields@),
                ),
            invariant
                old(self)@ == toks0,
                self@.len() <= toks0.len(),
            ensures
                spec_struct_field_values(toks0, Seq::empty()) == Ok::<
                    _,
                    (AstErrorV, Seq<TokenV>),
                >((view_kep_seq(fields@), self@)),
            decreases self@.len(),
        {
            let ghost pre = self@;
            let field_name = match self.expect_identifier() {
                Ok(n) => n,
                Err(e) => {
                    return Err(e);
                },
            };
            let at_comma = match self.peek() {
                Some(t) => matches!(t.kind, TokenKind::Comma),
                None => false,
            };
            if at_comma {
                match self.eat() {
                    Ok(t) => {},
                    Err(e) => {
                        return Err(e);
                    },
                }
                let ghost oldf = fields@;
                let ghost fnv = field_name@;
                let shorthand = field_name.clone();
                let node = KeyExprPair { key: shorthand, value: AST::Identifier(field_name) };
                let ghost nk = node.key@;
                let ghost nv = view_ast(node.value);
                fields.push(node);
                proof {
                    assert(nk == fnv);
                    assert(nv == AstV::Identifier(fnv));
                    assert(fields@.drop_last() =~= oldf);
                    assert(view_kep_seq(fields@) =~= view_kep_seq(oldf).push(
                        KeyExprPairV { key: fnv, value: AstV::Identifier(fnv) },
                    ));
                }
                continue;
            }
            match self.expect_colon() {
                Ok(t) => {},
                Err(e) => {
                    return Err(e);
                },
            }
            let current = match self.eat() {
                Ok(t) => t,
                Err(e) => {
                    return Err(e);
                },
            };
            let value = match self.parse_expr(current, ParsingCondition::Normal) {
                Ok(a) => a,
                Err(e) => {
                    return Err(e);
                },
            };
            let ghost oldf = fields@;
            let ghost fv = KeyExprPairV { key: field_name@, value: value@ };
            fields.push(KeyExprPair { key: field_name, value });
            proof {
                assert(fields@.drop_last() =~= oldf);
                assert(view_kep_seq(fields@) =~= view_kep_seq(oldf).push(fv));
            }
            let at_close = match self.peek() {
                Some(t) => matches!(t.kind, TokenKind::CloseBrace),
                None => false,
            };
            if at_close {
                match self.eat() {
                    Ok(t) => {},
                    Err(e) => {
                        return Err(e);
                    },
                }
                break;
            }
            proof {
                assert(bounded(pre, self@) == self@);
            }
            match self.expect_comma() {
                Ok(t) => {},
                Err(e) => {
                    return Err(e);
                },
            }
            let at_close2 = match self.peek() {
                Some(t) => matches!(t.kind, TokenKind::CloseBrace),
                None => false,
            };
            if at_close2 {
                match self.eat() {
                    Ok(t) => {},
                    Err(e) => {
                        return Err(e);
                    },
                }
                break;
            }
            proof {
                assert(bounded(pre, self@) == self@);
            }
        }
        Ok(fields)
    }

    /// Parses a struct literal after its name and opening brace: the field
    /// list, or nothing when the closing brace comes first.
    pub fn parse_struct_expr(&mut self, structname: String) -> (r: Result<AST, AstError>)
        ensures
            spec_parse_struct_expr(structname@, old(self)@) == (match r {
                Ok(a) => Ok((a@, final(self)@)),
                Err(e) => Err::<(AstV, Seq<TokenV>), _>((e@, final(self)@)),
            }),
            final(self)@.len() <= old(self)@.len(),
        decreases self@.len(), 1int,
    {
        let at_close = match self.peek() {
            Some(t) => matches!(t.kind, TokenKind::CloseBrace),
            None => false,
        };
        if at_close {
            match self.eat() {
                Ok(t) => {},
                Err(e) => {
                    return Err(e);
                },
            }
            let fields: Vec<KeyExprPair> = Vec::new();
            proof {
                assert(view_kep_seq(fields@) =~= Seq::<KeyExprPairV>::empty());
            }
            return Ok(AST::StructExpr { name: structname, fields });
        }
        let fields = match self.parse_struct_field_values() {
            Ok(fs) => fs,
            Err(e) => {
                return Err(e);
            },
        };
        Ok(AST::StructExpr { name: structname, fields })
    }
}

} // verus!
