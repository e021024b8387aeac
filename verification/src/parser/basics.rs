//! Elementary parsing: integer literal conversion, primary expressions,
//! the two precedence tiers, statements and the top-level scope.
use vstd::prelude::*;

use crate::parser::AST;
use crate::parser::AstError;
use crate::parser::AstErrorKind;
use crate::parser::AstErrorV;
use crate::parser::AstErrorKindV;
use crate::parser::AstV;
use crate::parser::Parser;
use crate::parser::ParsingCondition;
use crate::parser::bounded;
use crate::parser::capped;
use crate::parser::conditionals::spec_parse_if_assign_expr;
use crate::parser::conditionals::spec_parse_if_expr;
use crate::parser::functions::spec_parse_function;
use crate::parser::loops::spec_parse_loop_statment;
use crate::parser::spec_eat;
use crate::parser::spec_expect;
use crate::parser::structs::spec_parse_struct_decl;
use crate::parser::structs::spec_parse_struct_expr;
use crate::parser::functions::spec_parse_function_call;
use crate::parser::unexpected_error;
use crate::parser::view_ast_seq;
use crate::tokenizer::Operator;
use crate::tokenizer::Reserved;
use crate::tokenizer::Token;
use crate::tokenizer::TokenKind;
use crate::tokenizer::TokenKindV;
use crate::tokenizer::TokenV;
use crate::tokenizer::chars::ascii_digit;
use crate::tokenizer::chars::ascii_hex_digit;
use crate::tokenizer::chars::chars_of;

verus! {

/// The value of one digit character: decimal digits, then lowercase and
/// uppercase hexadecimal letters; anything else counts zero.
pub open spec fn digit_val(c: char) -> int {
    if ascii_digit(c) {
        c as int - '0' as int
    } else if 'a' <= c && c <= 'f' {
        c as int - 'a' as int + 10
    } else if 'A' <= c && c <= 'F' {
        c as int - 'A' as int + 10
    } else {
        0
    }
}

/// Whether `c` is a digit of the given radix (2, 10 or 16).
pub open spec fn valid_digit(c: char, radix: int) -> bool {
    if radix == 16 {
        ascii_hex_digit(c)
    } else if radix == 2 {
        c == '0' || c == '1'
    } else {
        ascii_digit(c)
    }
}

/// The reference radix parser: the value of a digit string read left to
/// right in the given radix.
pub open spec fn radix_value(s: Seq<char>, radix: int) -> int
    decreases s.len(),
{
    if s.len() == 0 {
        0
    } else {
        radix_value(s.drop_last(), radix) * radix + digit_val(s.last())
    }
}

/// A digit string of valid digits has a non-negative value, each digit
/// being below the radix.
pub proof fn lemma_radix_value_nonneg(s: Seq<char>, radix: int)
    requires
        2 <= radix,
        all_digits(s, radix),
        radix == 2 || radix == 10 || radix == 16,
    ensures
        radix_value(s, radix) >= 0,
    decreases s.len(),
{
    if s.len() > 0 {
        lemma_radix_value_nonneg(s.drop_last(), radix);
        assert(radix_value(s.drop_last(), radix) * radix >= 0) by (nonlinear_arith)
            requires
                radix_value(s.drop_last(), radix) >= 0,
                radix >= 2,
        ;
        assert(digit_val(s.last()) >= 0);
    }
}

/// Whether every character is a digit of the given radix.
pub open spec fn all_digits(s: Seq<char>, radix: int) -> bool {
    forall|k: int| 0 <= k < s.len() ==> valid_digit(#[trigger] s[k], radix)
}

/// Whether the text is a well-formed integer literal: a `0x`/`0X` prefix
/// followed by hexadecimal digits, a `0b`/`0B` prefix followed by binary
/// digits, or a non-empty run of decimal digits.
pub open spec fn valid_int_literal(s: Seq<char>) -> bool {
    if s.len() > 2 && s[0] == '0' && (s[1] == 'x' || s[1] == 'X') {
        all_digits(s.subrange(2, s.len() as int), 16)
    } else if s.len() > 2 && s[0] == '0' && (s[1] == 'b' || s[1] == 'B') {
        all_digits(s.subrange(2, s.len() as int), 2)
    } else {
        s.len() > 0 && all_digits(s, 10)
    }
}

/// The reference value of an integer literal text: hexadecimal after a
/// `0x`/`0X` prefix, binary after `0b`/`0B`, decimal otherwise.
pub open spec fn spec_literal_value(s: Seq<char>) -> int {
    if s.len() > 2 && s[0] == '0' && (s[1] == 'x' || s[1] == 'X') {
        radix_value(s.subrange(2, s.len() as int), 16)
    } else if s.len() > 2 && s[0] == '0' && (s[1] == 'b' || s[1] == 'B') {
        radix_value(s.subrange(2, s.len() as int), 2)
    } else {
        radix_value(s, 10)
    }
}

/// What [`Parser::parse_int`] yields for a literal text: the reference
/// value when the text is well formed and the value representable; the
/// largest representable value when it is too large; zero for a malformed
/// text.
pub open spec fn spec_parse_int_result(s: Seq<char>) -> int {
    if !valid_int_literal(s) {
        0
    } else if spec_literal_value(s) <= i64::MAX {
        spec_literal_value(s)
    } else {
        i64::MAX as int
    }
}

/// The value of one digit in the given radix, or `None` when `c` is not a
/// digit of that radix.
fn digit_in_radix(c: char, radix: u64) -> (r: Option<u64>)
    requires
        radix == 2 || radix == 10 || radix == 16,
    ensures
        match r {
            Some(d) => valid_digit(c, radix as int) && d as int == digit_val(c) && d
                < radix,
            None => !valid_digit(c, radix as int),
        },
{
    if radix == 2 {
        if c == '0' {
            Some(0)
        } else if c == '1' {
            Some(1)
        } else {
            None
        }
    } else if radix == 10 {
        if '0' <= c && c <= '9' {
            Some((c as u32 - '0' as u32) as u64)
        } else {
            None
        }
    } else {
        if '0' <= c && c <= '9' {
            Some((c as u32 - '0' as u32) as u64)
        } else if 'a' <= c && c <= 'f' {
            Some((c as u32 - 'a' as u32) as u64 + 10)
        } else if 'A' <= c && c <= 'F' {
            Some((c as u32 - 'A' as u32) as u64 + 10)
        } else {
            None
        }
    }
}

/// Reads the digits of `chars` from `from` on in the given radix, left to
/// right. Yields the value, saturated at the largest representable one, or
/// `None` at the first character that is not a digit of the radix.
fn parse_radix_saturating(chars: &[char], from: usize, radix: u64) -> (r: Option<i64>)
    requires
        from <= chars@.len(),
        radix == 2 || radix == 10 || radix == 16,
    ensures
        ({
            let s = chars@.subrange(from as int, chars@.len() as int);
            match r {
                Some(v) => {
                    &&& all_digits(s, radix as int)
                    &&& v as int == (if radix_value(s, radix as int) <= i64::MAX {
                        radix_value(s, radix as int)
                    } else {
                        i64::MAX as int
                    })
                },
                None => !all_digits(s, radix as int),
            }
        }),
{
    let ghost s = chars@;
    let len = chars.len();
    let max: u64 = 9223372036854775807;
    let max_div = max / radix;
    let max_mod = max % radix;
    proof {
        assert(max as int == i64::MAX);
    }
    let mut value: u64 = 0;
    let mut k: usize = from;
    while k < len
        invariant
            from <= k <= len,
            len == s.len(),
            s == chars@,
            radix == 2 || radix == 10 || radix == 16,
            max == i64::MAX as u64,
            max_div == max / radix,
            max_mod == max % radix,
            forall|j: int| from <= j < k ==> valid_digit(#[trigger] s[j], radix as int),
            value as int == (if radix_value(s.subrange(from as int, k as int), radix as int)
                <= i64::MAX {
                radix_value(s.subrange(from as int, k as int), radix as int)
            } else {
                i64::MAX as int
            }),
        decreases len - k,
    {
        let ghost prefix = s.subrange(from as int, k as int);
        let d = match digit_in_radix(chars[k], radix) {
            Some(d) => d,
            None => {
                proof {
                    let sub = s.subrange(from as int, s.len() as int);
                    assert(!valid_digit(sub[k - from], radix as int));
                    assert(!all_digits(sub, radix as int));
                }
                return None;
            },
        };
        proof {
            lemma_radix_value_nonneg(prefix, radix as int);
            assert(max == max_div * radix + max_mod) by {
                vstd::arithmetic::div_mod::lemma_fundamental_div_mod(max as int, radix as int);
            }
            assert(max_mod < radix) by {
                vstd::arithmetic::div_mod::lemma_mod_bound(max as int, radix as int);
            }
        }
        let ghost rv = radix_value(prefix, radix as int);
        let ghost rv2 = radix_value(s.subrange(from as int, (k + 1) as int), radix as int);
        proof {
            assert(s.subrange(from as int, (k + 1) as int).drop_last() =~= prefix);
            assert(s.subrange(from as int, (k + 1) as int).last() == s[k as int]);
            assert(rv2 == rv * radix + digit_val(s[k as int]));
        }
        if value > max_div || (value == max_div && d > max_mod) {
            // The next digit would push the value past the largest
            // representable one; it saturates there and stays.
            proof {
                assert(rv2 > i64::MAX) by (nonlinear_arith)
                    requires
                        rv2 == rv * radix + digit_val(s[k as int]),
                        rv >= 0,
                        radix >= 2,
                        d as int == digit_val(s[k as int]),
                        0 <= d < radix,
                        max as int == i64::MAX,
                        max == max_div * radix + max_mod,
                        max_mod < radix,
                        value as int == (if rv <= i64::MAX {
                            rv
                        } else {
                            i64::MAX as int
                        }),
                        value > max_div || (value == max_div && d > max_mod),
                ;
            }
            value = max;
        } else {
            proof {
                assert(rv <= i64::MAX && rv2 <= i64::MAX && value as int == rv) by (
                nonlinear_arith)
                    requires
                        rv2 == rv * radix + digit_val(s[k as int]),
                        rv >= 0,
                        radix >= 2,
                        d as int == digit_val(s[k as int]),
                        0 <= d < radix,
                        max as int == i64::MAX,
                        max == max_div * radix + max_mod,
                        max_mod < radix,
                        value as int == (if rv <= i64::MAX {
                            rv
                        } else {
                            i64::MAX as int
                        }),
                        !(value > max_div || (value == max_div && d > max_mod)),
                ;
            }
            value = value * radix + d;
        }
        k = k + 1;
    }
    proof {
        assert(s.subrange(from as int, k as int) =~= s.subrange(from as int, s.len() as int));
    }
    Some(value as i64)
}

impl Parser {
    /// Converts the raw text of an integer literal token into its tree
    /// node. A `0x`/`0X` prefix reads the rest as hexadecimal, `0b`/`0B`
    /// as binary, anything else as decimal; a value past the largest
    /// representable integer saturates there, and a malformed text counts
    /// zero.
    pub fn parse_int(integer: String) -> (r: AST)
        ensures
            r@ == AstV::Int(spec_parse_int_result(integer@)),
    {
        let chars = chars_of(integer.as_str());
        let ghost s = integer@;
        let len = chars.len();
        let value: Option<i64> = if len > 2 && chars[0] == '0' {
            let c1 = chars[1];
            if c1 == 'x' || c1 == 'X' {
                parse_radix_saturating(chars.as_slice(), 2, 16)
            } else if c1 == 'b' || c1 == 'B' {
                parse_radix_saturating(chars.as_slice(), 2, 2)
            } else {
                parse_radix_saturating(chars.as_slice(), 0, 10)
            }
        } else {
            parse_radix_saturating(chars.as_slice(), 0, 10)
        };
        proof {
            if len > 2 && s[0] == '0' && (s[1] == 'x' || s[1] == 'X') {
                assert(s.subrange(2, s.len() as int) =~= chars@.subrange(2, chars@.len() as int));
            } else if len > 2 && s[0] == '0' && (s[1] == 'b' || s[1] == 'B') {
                assert(s.subrange(2, s.len() as int) =~= chars@.subrange(2, chars@.len() as int));
            } else {
                assert(s =~= chars@.subrange(0, chars@.len() as int));
            }
        }
        match value {
            Some(v) => AST::Int(v),
            None => AST::Int(0),
        }
    }
}


/// Mirror of [`Parser::parse_identifier`]: after an identifier was
/// consumed, an immediate `(` starts a call, an immediate `{` a struct
/// literal unless the mode forbids it; otherwise the identifier stands
/// alone.
pub open spec fn spec_parse_identifier(
    name: Seq<char>,
    toks: Seq<TokenV>,
    condition: ParsingCondition,
) -> Result<(AstV, Seq<TokenV>), (AstErrorV, Seq<TokenV>)>
    decreases toks.len(), 2int,
{
    if toks.len() > 0 && toks[0].kind is OpenParen {
        spec_parse_function_call(name, toks.drop_first())
    } else if toks.len() > 0 && toks[0].kind is OpenBrace && condition
        != ParsingCondition::NoStruct {
        spec_parse_struct_expr(name, toks.drop_first())
    } else {
        Ok((AstV::Identifier(name), toks))
    }
}

/// Mirror of [`Parser::parse_primary`]: a literal, an identifier (and what
/// may follow it), or a parenthesized expression.
pub open spec fn spec_parse_primary(
    tk: TokenV,
    toks: Seq<TokenV>,
    condition: ParsingCondition,
) -> Result<(AstV, Seq<TokenV>), (AstErrorV, Seq<TokenV>)>
    decreases toks.len(), 3int,
{
    match tk.kind {
        TokenKindV::Int(s) => Ok((AstV::Int(spec_parse_int_result(s)), toks)),
        TokenKindV::Float(f) => Ok((AstV::Float(f), toks)),
        TokenKindV::Identifier(s) => spec_parse_identifier(s, toks, condition),
        TokenKindV::OpenParen => match spec_eat(toks) {
            Err(es) => Err(es),
            Ok((next, rest)) => match spec_parse_expr(next, rest, ParsingCondition::Normal) {
                Err(es) => Err(es),
                Ok((val, rest2)) => match spec_expect(rest2, (|k: TokenKindV| k is CloseParen)) {
                    Err(es) => Err(es),
                    Ok((t2, rest3)) => Ok((val, rest3)),
                },
            },
        },
        _ => Err((unexpected_error(tk), toks)),
    }
}

/// The left-folding tail of a multiplicative expression: as long as a bare
/// `*` or `/` follows, the next primary is folded into the left operand.
pub open spec fn spec_mult_more(
    toks: Seq<TokenV>,
    left: AstV,
    condition: ParsingCondition,
) -> Result<(AstV, Seq<TokenV>), (AstErrorV, Seq<TokenV>)>
    decreases toks.len(), 4int,
{
    if toks.len() > 0 {
        match toks[0].kind {
            TokenKindV::Operator(op) => {
                if op == Operator::Star(false) || op == Operator::Slash(false) {
                    match spec_eat(toks.drop_first()) {
                        Err(es) => Err(es),
                        Ok((curr, rest2)) => match spec_parse_primary(curr, rest2, condition) {
                            Err(es) => Err(es),
                            Ok((right, rest3)) => spec_mult_more(
                                bounded(toks, rest3),
                                AstV::BinExpr(Box::new(left), Box::new(right), op),
                                condition,
                            ),
                        },
                    }
                } else {
                    Ok((left, toks))
                }
            },
            _ => Ok((left, toks)),
        }
    } else {
        Ok((left, toks))
    }
}

/// Mirror of [`Parser::parse_multiplicative`]: a primary expression left-
/// folded with `*` and `/`.
pub open spec fn spec_parse_multiplicative(
    tk: TokenV,
    toks: Seq<TokenV>,
    condition: ParsingCondition,
) -> Result<(AstV, Seq<TokenV>), (AstErrorV, Seq<TokenV>)>
    decreases toks.len(), 5int,
{
    match spec_parse_primary(tk, toks, condition) {
        Err(es) => Err(es),
        Ok((left, rest)) => spec_mult_more(capped(toks, rest), left, condition),
    }
}

/// The left-folding tail of an additive expression: as long as a bare `+`
/// or `-` follows, the next multiplicative expression is folded into the
/// left operand.
pub open spec fn spec_add_more(
    toks: Seq<TokenV>,
    left: AstV,
    condition: ParsingCondition,
) -> Result<(AstV, Seq<TokenV>), (AstErrorV, Seq<TokenV>)>
    decreases toks.len(), 6int,
{
    if toks.len() > 0 {
        match toks[0].kind {
            TokenKindV::Operator(op) => {
                if op == Operator::Add(false) || op == Operator::Sub(false) {
                    match spec_eat(toks.drop_first()) {
                        Err(es) => Err(es),
                        Ok((curr, rest2)) => match spec_parse_multiplicative(
                            curr,
                            rest2,
                            condition,
                        ) {
                            Err(es) => Err(es),
                            Ok((right, rest3)) => spec_add_more(
                                bounded(toks, rest3),
                                AstV::BinExpr(Box::new(left), Box::new(right), op),
                                condition,
                            ),
                        },
                    }
                } else {
                    Ok((left, toks))
                }
            },
            _ => Ok((left, toks)),
        }
    } else {
        Ok((left, toks))
    }
}

/// Mirror of [`Parser::parse_additive`]: a multiplicative expression left-
/// folded with `+` and `-`; both tiers are strictly left-associative.
pub open spec fn spec_parse_additive(
    tk: TokenV,
    toks: Seq<TokenV>,
    condition: ParsingCondition,
) -> Result<(AstV, Seq<TokenV>), (AstErrorV, Seq<TokenV>)>
    decreases toks.len(), 7int,
{
    match spec_parse_multiplicative(tk, toks, condition) {
        Err(es) => Err(es),
        Ok((left, rest)) => spec_add_more(capped(toks, rest), left, condition),
    }
}

/// Mirror of [`Parser::parse_expr`]: a block, a conditional, or an
/// additive expression, depending on the token already consumed.
pub open spec fn spec_parse_expr(
    tk: TokenV,
    toks: Seq<TokenV>,
    condition: ParsingCondition,
) -> Result<(AstV, Seq<TokenV>), (AstErrorV, Seq<TokenV>)>
    decreases toks.len(), 10int,
{
    if tk.kind is OpenBrace {
        spec_parse_block_expr(toks)
    } else if tk.kind == TokenKindV::Reserved(Reserved::If) {
        spec_parse_if_expr(toks)
    } else {
        spec_parse_additive(tk, toks, condition)
    }
}

/// The statements of a block expression up to its closing brace, appended
/// to `acc`. Every statement but the last needs a trailing semicolon.
pub open spec fn spec_block_items(toks: Seq<TokenV>, acc: Seq<AstV>) -> Result<
    (Seq<AstV>, Seq<TokenV>),
    (AstErrorV, Seq<TokenV>),
>
    decreases toks.len(), 8int,
{
    if toks.len() > 0 && toks[0].kind is CloseBrace {
        Ok((acc, toks.drop_first()))
    } else {
        match spec_eat(toks) {
            Err(es) => Err(es),
            Ok((tk, rest)) => match spec_parse_statment(tk, rest) {
                Err(es) => Err(es),
                Ok((stmt, rest2)) => {
                    let acc2 = acc.push(stmt);
                    if rest2.len() > 0 && rest2[0].kind is CloseBrace {
                        Ok((acc2, rest2.drop_first()))
                    } else {
                        match spec_expect(rest2, (|k: TokenKindV| k is SemiColon)) {
                            Err(es) => Err(es),
                            Ok((t2, rest3)) => spec_block_items(bounded(toks, rest3), acc2),
                        }
                    }
                },
            },
        }
    }
}

/// Mirror of [`Parser::parse_block_expr`]: the statements after an opening
/// brace, gathered into a block node.
pub open spec fn spec_parse_block_expr(toks: Seq<TokenV>) -> Result<
    (AstV, Seq<TokenV>),
    (AstErrorV, Seq<TokenV>),
>
    decreases toks.len(), 9int,
{
    match spec_block_items(toks, Seq::empty()) {
        Err(es) => Err(es),
        Ok((items, rest)) => Ok((AstV::Block(items), rest)),
    }
}

/// The tail of a `let` statement after its name: the `=` sign, then either
/// a total conditional or a primitive expression as the initializer.
pub open spec fn spec_let_body(
    varname: Seq<char>,
    mutable: bool,
    toks: Seq<TokenV>,
) -> Result<(AstV, Seq<TokenV>), (AstErrorV, Seq<TokenV>)>
    decreases toks.len(), 10int,
{
    match spec_expect(toks, (|k: TokenKindV| k == TokenKindV::Operator(Operator::Eq(false)))) {
        Err(es) => Err(es),
        Ok((t, rest)) => match spec_eat(rest) {
            Err(es) => Err(es),
            Ok((next, rest2)) => {
                let body = if next.kind == TokenKindV::Reserved(Reserved::If) {
                    spec_parse_if_assign_expr(rest2)
                } else {
                    spec_parse_expr(next, rest2, ParsingCondition::PrimitiveExpr)
                };
                match body {
                    Err(es) => Err(es),
                    Ok((b, rest3)) => Ok(
                        (
                            AstV::VarDecl { varname, mutable, body: Box::new(b) },
                            rest3,
                        ),
                    ),
                }
            },
        },
    }
}

/// Mirror of [`Parser::parse_statment`]: a `let`/`let mut` declaration, a
/// parenthesized or bare expression, a conditional, or a loop.
pub open spec fn spec_parse_statment(tk: TokenV, toks: Seq<TokenV>) -> Result<
    (AstV, Seq<TokenV>),
    (AstErrorV, Seq<TokenV>),
>
    decreases toks.len(), 11int,
{
    match tk.kind {
        TokenKindV::Reserved(Reserved::Let) => match spec_eat(toks) {
            Err(es) => Err(es),
            Ok((t2, rest)) => match t2.kind {
                TokenKindV::Reserved(Reserved::Mut) => match spec_expect(
                    rest,
                    (|k: TokenKindV| k is Identifier),
                ) {
                    Err(es) => Err(es),
                    Ok((nt, rest2)) => match nt.kind {
                        TokenKindV::Identifier(varname) => spec_let_body(varname, true, rest2),
                        _ => Err((unexpected_error(nt), rest2)),
                    },
                },
                TokenKindV::Identifier(varname) => spec_let_body(varname, false, rest),
                _ => Err((unexpected_error(tk), rest)),
            },
        },
        TokenKindV::OpenParen => match spec_eat(toks) {
            Err(es) => Err(es),
            Ok((next, rest)) => match spec_parse_expr(
                next,
                rest,
                ParsingCondition::PrimitiveExpr,
            ) {
                Err(es) => Err(es),
                Ok((val, rest2)) => match spec_expect(rest2, (|k: TokenKindV| k is CloseParen)) {
                    Err(es) => Err(es),
                    Ok((t2, rest3)) => Ok((val, rest3)),
                },
            },
        },
        TokenKindV::Identifier(s) => spec_parse_expr(tk, toks, ParsingCondition::Normal),
        TokenKindV::Int(s) => spec_parse_expr(tk, toks, ParsingCondition::Normal),
        TokenKindV::Float(s) => spec_parse_expr(tk, toks, ParsingCondition::Normal),
        TokenKindV::Reserved(Reserved::If) => spec_parse_if_expr(toks),
        TokenKindV::Reserved(Reserved::Loop) => spec_parse_loop_statment(toks),
        _ => Err((unexpected_error(tk), toks)),
    }
}

/// Mirror of [`Parser::parse_global_scope`]: only struct and function
/// declarations may stand at the top level.
pub open spec fn spec_parse_global_scope(tk: TokenV, toks: Seq<TokenV>) -> Result<
    (AstV, Seq<TokenV>),
    (AstErrorV, Seq<TokenV>),
>
    decreases toks.len(), 12int,
{
    match tk.kind {
        TokenKindV::Reserved(Reserved::Struct) => spec_parse_struct_decl(toks),
        TokenKindV::Reserved(Reserved::Function) => spec_parse_function(toks),
        _ => Err(
            (
                AstErrorV {
                    line: tk.line,
                    column: tk.start,
                    kind: AstErrorKindV::InvalidScopeExpr(tk.kind),
                },
                toks,
            ),
        ),
    }
}

impl Parser {
    /// Parses what may follow an already-consumed identifier: a call, a
    /// struct literal (unless the mode forbids it), or the identifier
    /// alone.
    pub fn parse_identifier(&mut self, identifier: String, condition: ParsingCondition) -> (r:
        Result<AST, AstError>)
        ensures
            spec_parse_identifier(identifier@, old(self)@, condition) == (match r {
                Ok(a) => Ok((a@, final(self)@)),
                Err(e) => Err::<(AstV, Seq<TokenV>), _>((e@, final(self)@)),
            }),
            final(self)@.len() <= old(self)@.len(),
        decreases self@.len(), 2int,
    {
        let is_open_paren = match self.peek() {
            Some(t) => matches!(t.kind, TokenKind::OpenParen),
            None => false,
        };
        if is_open_paren {
            match self.eat() {
                Ok(t) => {},
                Err(e) => {
                    return Err(e);
                },
            }
            return self.parse_function_call(identifier);
        }
        let is_open_brace = match self.peek() {
            Some(t) => matches!(t.kind, TokenKind::OpenBrace),
            None => false,
        };
        if is_open_brace && !matches!(condition, ParsingCondition::NoStruct) {
            match self.eat() {
                Ok(t) => {},
                Err(e) => {
                    return Err(e);
                },
            }
            return self.parse_struct_expr(identifier);
        }
        Ok(AST::Identifier(identifier))
    }

    /// Parses a primary expression from the already-consumed token: an
    /// integer or float literal, an identifier with what follows it, or a
    /// parenthesized expression.
    pub fn parse_primary(&mut self, tk: Token, condition: ParsingCondition) -> (r: Result<
        AST,
        AstError,
    >)
        ensures
            spec_parse_primary(tk@, old(self)@, condition) == (match r {
                Ok(a) => Ok((a@, final(self)@)),
                Err(e) => Err::<(AstV, Seq<TokenV>), _>((e@, final(self)@)),
            }),
            final(self)@.len() <= old(self)@.len(),
        decreases self@.len(), 3int,
    {
        match tk.kind {
            TokenKind::Int(s) => Ok(Self::parse_int(s)),
            TokenKind::Float(f) => Ok(AST::Float(f)),
            TokenKind::Identifier(s) => self.parse_identifier(s, condition),
            TokenKind::OpenParen => {
                let next = match self.eat() {
                    Ok(t) => t,
                    Err(e) => {
                        return Err(e);
                    },
                };
                let val = match self.parse_expr(next, ParsingCondition::Normal) {
                    Ok(a) => a,
                    Err(e) => {
                        return Err(e);
                    },
                };
                match self.expect_close_paren() {
                    Ok(t) => {},
                    Err(e) => {
                        return Err(e);
                    },
                }
                Ok(val)
            },
            _ => Err(Self::unexpected(tk)),
        }
    }

    /// Parses a multiplicative expression from the already-consumed token:
    /// a primary left-folded with bare `*` and `/`.
    pub fn parse_multiplicative(&mut self, tk: Token, condition: ParsingCondition) -> (r: Result<
        AST,
        AstError,
    >)
        ensures
            spec_parse_multiplicative(tk@, old(self)@, condition) == (match r {
                Ok(a) => Ok((a@, final(self)@)),
                Err(e) => Err::<(AstV, Seq<TokenV>), _>((e@, final(self)@)),
            }),
            final(self)@.len() <= old(self)@.len(),
        decreases self@.len(), 5int,
    {
        let ghost toks0 = self@;
        let mut left = match self.parse_primary(tk, condition) {
            Ok(a) => a,
            Err(e) => {
                return Err(e);
            },
        };
        proof {
            assert(capped(toks0, self@) == self@);
        }
        loop
            invariant_except_break
                spec_parse_multiplicative(tk@, toks0, condition) == spec_mult_more(
                    self@,
                    left@,
                    condition,
                ),
            invariant
                old(self)@ == toks0,
                self@.len() <= toks0.len(),
            ensures
                spec_parse_multiplicative(tk@, toks0, condition) == Ok::<
                    _,
                    (AstErrorV, Seq<TokenV>),
                >((left@, self@)),
                self@.len() <= toks0.len(),
            decreases self@.len(),
        {
            let ghost pre = self@;
            let op_opt: Option<Operator> = match self.peek() {
                Some(t) => match &t.kind {
                    TokenKind::Operator(op) => match op {
                        Operator::Star(false) | Operator::Slash(false) => Some(*op),
                        _ => None,
                    },
                    _ => None,
                },
                None => None,
            };
            let op = match op_opt {
                Some(op) => op,
                None => {
                    break;
                },
            };
            match self.eat() {
                Ok(t) => {},
                Err(e) => {
                    return Err(e);
                },
            }
            let curr = match self.eat() {
                Ok(t) => t,
                Err(e) => {
                    return Err(e);
                },
            };
            let right = match self.parse_primary(curr, condition) {
                Ok(a) => a,
                Err(e) => {
                    return Err(e);
                },
            };
            proof {
                assert(bounded(pre, self@) == self@);
            }
            left = AST::BinExpr(Box::new(left), Box::new(right), op);
        }
        Ok(left)
    }

    /// Parses an additive expression from the already-consumed token: a
    /// multiplicative expression left-folded with bare `+` and `-`.
    pub fn parse_additive(&mut self, tk: Token, condition: ParsingCondition) -> (r: Result<
        AST,
        AstError,
    >)
        ensures
            spec_parse_additive(tk@, old(self)@, condition) == (match r {
                Ok(a) => Ok((a@, final(self)@)),
                Err(e) => Err::<(AstV, Seq<TokenV>), _>((e@, final(self)@)),
            }),
            final(self)@.len() <= old(self)@.len(),
        decreases self@.len(), 7int,
    {
        let ghost toks0 = self@;
        let mut left = match self.parse_multiplicative(tk, condition) {
            Ok(a) => a,
            Err(e) => {
                return Err(e);
            },
        };
        proof {
            assert(capped(toks0, self@) == self@);
        }
        loop
            invariant_except_break
                spec_parse_additive(tk@, toks0, condition) == spec_add_more(
                    self@,
                    left@,
                    condition,
                ),
            invariant
                old(self)@ == toks0,
                self@.len() <= toks0.len(),
            ensures
                spec_parse_additive(tk@, toks0, condition) == Ok::<_, (AstErrorV, Seq<TokenV>)>(
                    (left@, self@),
                ),
                self@.len() <= toks0.len(),
            decreases self@.len(),
        {
            let ghost pre = self@;
            let op_opt: Option<Operator> = match self.peek() {
                Some(t) => match &t.kind {
                    TokenKind::Operator(op) => match op {
                        Operator::Add(false) | Operator::Sub(false) => Some(*op),
                        _ => None,
                    },
                    _ => None,
                },
                None => None,
            };
            let op = match op_opt {
                Some(op) => op,
                None => {
                    break;
                },
            };
            match self.eat() {
                Ok(t) => {},
                Err(e) => {
                    return Err(e);
                },
            }
            let curr = match self.eat() {
                Ok(t) => t,
                Err(e) => {
                    return Err(e);
                },
            };
            let right = match self.parse_multiplicative(curr, condition) {
                Ok(a) => a,
                Err(e) => {
                    return Err(e);
                },
            };
            proof {
                assert(bounded(pre, self@) == self@);
            }
            left = AST::BinExpr(Box::new(left), Box::new(right), op);
        }
        Ok(left)
    }

    /// Parses an expression from the already-consumed token: a block, a
    /// conditional, or an additive expression.
    pub fn parse_expr(&mut self, tk: Token, condition: ParsingCondition) -> (r: Result<
        AST,
        AstError,
    >)
        ensures
            spec_parse_expr(tk@, old(self)@, condition) == (match r {
                Ok(a) => Ok((a@, final(self)@)),
                Err(e) => Err::<(AstV, Seq<TokenV>), _>((e@, final(self)@)),
            }),
            final(self)@.len() <= old(self)@.len(),
        decreases self@.len(), 10int,
    {
        if matches!(tk.kind, TokenKind::OpenBrace) {
            self.parse_block_expr()
        } else if matches!(tk.kind, TokenKind::Reserved(Reserved::If)) {
            self.parse_if_expr()
        } else {
            self.parse_additive(tk, condition)
        }
    }

    /// Parses the statements after an opening brace into a block node; the
    /// closing brace ends it, and every statement but the last needs a
    /// trailing semicolon.
    pub fn parse_block_expr(&mut self) -> (r: Result<AST, AstError>)
        ensures
            spec_parse_block_expr(old(self)@) == (match r {
                Ok(a) => Ok((a@, final(self)@)),
                Err(e) => Err::<(AstV, Seq<TokenV>), _>((e@, final(self)@)),
            }),
            final(self)@.len() <= old(self)@.len(),
        decreases self@.len(), 9int,
    {
        let ghost toks0 = self@;
        let mut asts: Vec<AST> = Vec::new();
        loop
            invariant_except_break
                spec_block_items(toks0, Seq::empty()) == spec_block_items(
                    self@,
                    view_ast_seq(asts@),
                ),
            invariant
                old(self)@ == toks0,
                self@.len() <= toks0.len(),
            ensures
                spec_block_items(toks0, Seq::empty()) == Ok::<_, (AstErrorV, Seq<TokenV>)>(
                    (view_ast_seq(asts@), self@),
                ),
                self@.len() <= toks0.len(),
            decreases self@.len(),
        {
            let ghost pre = self@;
            let at_close = match self.peek() {
                Some(t) => matches!(t.kind, TokenKind::CloseBrace),
                None => false,
            };
            if at_close {
                match self.eat() {
                    Ok(t) => {},
                    Err(e) => {
                        return Err(e);
                    },
                }
                break;
            }
            let tk = match self.eat() {
                Ok(t) => t,
                Err(e) => {
                    return Err(e);
                },
            };
            let stmt = match self.parse_statment(tk) {
                Ok(a) => a,
                Err(e) => {
                    return Err(e);
                },
            };
            let ghost oldasts = asts@;
            let ghost stmtv = stmt@;
            asts.push(stmt);
            proof {
                assert(asts@.drop_last() =~= oldasts);
                assert(view_ast_seq(asts@) =~= view_ast_seq(oldasts).push(stmtv));
            }
            let at_close2 = match self.peek() {
                Some(t) => matches!(t.kind, TokenKind::CloseBrace),
                None => false,
            };
            if at_close2 {
                match self.eat() {
                    Ok(t) => {},
                    Err(e) => {
                        return Err(e);
                    },
                }
                break;
            } else {
                match self.expect_semicolon() {
                    Ok(t) => {},
                    Err(e) => {
                        return Err(e);
                    },
                }
                proof {
                    assert(bounded(pre, self@) == self@);
                }
            }
        }
        Ok(AST::Block(asts))
    }

    /// Parses a statement from the already-consumed token: a `let`/`let
    /// mut` declaration (whose initializer may be a total conditional), a
    /// parenthesized or bare expression, a conditional, or a loop.
    pub fn parse_statment(&mut self, tk: Token) -> (r: Result<AST, AstError>)
        ensures
            spec_parse_statment(tk@, old(self)@) == (match r {
                Ok(a) => Ok((a@, final(self)@)),
                Err(e) => Err::<(AstV, Seq<TokenV>), _>((e@, final(self)@)),
            }),
            final(self)@.len() <= old(self)@.len(),
        decreases self@.len(), 11int,
    {
        match tk.kind {
            TokenKind::Reserved(Reserved::Let) => {
                let t2 = match self.eat() {
                    Ok(t) => t,
                    Err(e) => {
                        return Err(e);
                    },
                };
                match t2.kind {
                    TokenKind::Reserved(Reserved::Mut) => {
                        let varname = match self.expect_identifier() {
                            Ok(n) => n,
                            Err(e) => {
                                return Err(e);
                            },
                        };
                        self.parse_let_body(varname, true)
                    },
                    TokenKind::Identifier(varname) => self.parse_let_body(varname, false),
                    _ => Err(Self::unexpected(tk)),
                }
            },
            TokenKind::OpenParen => {
                let next = match self.eat() {
                    Ok(t) => t,
                    Err(e) => {
                        return Err(e);
                    },
                };
                let val = match self.parse_expr(next, ParsingCondition::PrimitiveExpr) {
                    Ok(a) => a,
                    Err(e) => {
                        return Err(e);
                    },
                };
                match self.expect_close_paren() {
                    Ok(t) => {},
                    Err(e) => {
                        return Err(e);
                    },
                }
                Ok(val)
            },
            TokenKind::Identifier(_) => self.parse_expr(tk, ParsingCondition::Normal),
            TokenKind::Int(_) => self.parse_expr(tk, ParsingCondition::Normal),
            TokenKind::Float(_) => self.parse_expr(tk, ParsingCondition::Normal),
            TokenKind::Reserved(Reserved::If) => self.parse_if_expr(),
            TokenKind::Reserved(Reserved::Loop) => self.parse_loop_statment(),
            _ => Err(Self::unexpected(tk)),
        }
    }

    /// Parses the tail of a `let` statement after its name: the `=` sign,
    /// then either a total conditional or a primitive expression.
    fn parse_let_body(&mut self, varname: String, mutable: bool) -> (r: Result<AST, AstError>)
        ensures
            spec_let_body(varname@, mutable, old(self)@) == (match r {
                Ok(a) => Ok((a@, final(self)@)),
                Err(e) => Err::<(AstV, Seq<TokenV>), _>((e@, final(self)@)),
            }),
            final(self)@.len() <= old(self)@.len(),
        decreases self@.len(), 10int,
    {
        match self.expect_assign() {
            Ok(t) => {},
            Err(e) => {
                return Err(e);
            },
        }
        let next = match self.eat() {
            Ok(t) => t,
            Err(e) => {
                return Err(e);
            },
        };
        let body = if matches!(next.kind, TokenKind::Reserved(Reserved::If)) {
            match self.parse_if_assign_expr() {
                Ok(a) => a,
                Err(e) => {
                    return Err(e);
                },
            }
        } else {
            match self.parse_expr(next, ParsingCondition::PrimitiveExpr) {
                Ok(a) => a,
                Err(e) => {
                    return Err(e);
                },
            }
        };
        Ok(AST::VarDecl { varname, mutable, body: Box::new(body) })
    }

    /// Parses a top-level declaration from the already-consumed token:
    /// only struct and function declarations are allowed there.
    pub fn parse_global_scope(&mut self, token: Token) -> (r: Result<AST, AstError>)
        ensures
            spec_parse_global_scope(token@, old(self)@) == (match r {
                Ok(a) => Ok((a@, final(self)@)),
                Err(e) => Err::<(AstV, Seq<TokenV>), _>((e@, final(self)@)),
            }),
            final(self)@.len() <= old(self)@.len(),
        decreases self@.len(), 12int,
    {
        match &token.kind {
            TokenKind::Reserved(Reserved::Struct) => self.parse_struct_decl(),
            TokenKind::Reserved(Reserved::Function) => self.parse_function(),
            _ => Err(
                AstError {
                    kind: AstErrorKind::InvalidScopeExpr(token.kind),
                    line: token.line,
                    column: token.start,
                },
            ),
        }
    }
}

} // verus!
