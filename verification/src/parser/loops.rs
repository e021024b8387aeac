//! Parsing of the unconditional loop statement: `loop` wraps one body
//! expression or block.
use vstd::prelude::*;

use crate::parser::AST;
use crate::parser::AstError;
use crate::parser::AstErrorV;
use crate::parser::AstV;
use crate::parser::Parser;
use crate::parser::ParsingCondition;
use crate::parser::basics::spec_parse_expr;
use crate::parser::spec_eat;
use crate::tokenizer::TokenV;

verus! {

/// Mirror of [`Parser::parse_loop_statment`]: the body expression after the
/// `loop` keyword, wrapped in a loop node.
pub open spec fn spec_parse_loop_statment(toks: Seq<TokenV>) -> Result<
    (AstV, Seq<TokenV>),
    (AstErrorV, Seq<TokenV>),
>
    decreases toks.len(), 9int,
{
    match spec_eat(toks) {
        Err(es) => Err(es),
        Ok((current, rest)) => match spec_parse_expr(current, rest, ParsingCondition::NoStruct) {
            Err(es) => Err(es),
            Ok((body, rest2)) => Ok((AstV::Loop(Box::new(body)), rest2)),
        },
    }
}

impl Parser {
    /// Parses a loop statement after the `loop` keyword: one body
    /// expression or block, with struct literals disallowed in its head.
    pub fn parse_loop_statment(&mut self) -> (r: Result<AST, AstError>)
        ensures
            spec_parse_loop_statment(old(self)@) == (match r {
                Ok(a) => Ok((a@, final(self)@)),
                Err(e) => Err::<(AstV, Seq<TokenV>), _>((e@, final(self)@)),
            }),
            final(self)@.len() <= old(self)@.len(),
        decreases self@.len(), 9int,
    {
        let current = match self.eat() {
            Ok(t) => t,
            Err(e) => {
                return Err(e);
            },
        };
        let loop_body = match self.parse_expr(current, ParsingCondition::NoStruct) {
            Ok(a) => a,
            Err(e) => {
                return Err(e);
            },
        };
        Ok(AST::Loop(Box::new(loop_body)))
    }
}

} // verus!
