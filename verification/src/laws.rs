//! Crate-wide laws: statements that relate several parts of the pipeline,
//! proved once and for all inputs.
use vstd::prelude::*;

use crate::parser::AstV;
use crate::parser::KeyTypePairV;
use crate::parser::TypeAstV;
use crate::parser::all_digits;
use crate::parser::valid_digit;
use crate::parser::spec_literal_value;
use crate::parser::spec_parse_int_result;
use crate::parser::valid_int_literal;
use crate::tokenizer::LexError;
use crate::tokenizer::TokenKindV;
use crate::tokenizer::TokenV;
use crate::tokenizer::alnum_char;
use crate::tokenizer::chars::ascii_digit;
use crate::tokenizer::chars::ascii_hex_digit;
use crate::tokenizer::chars::space_char;
use crate::tokenizer::scan::alnum_run_end;
use crate::tokenizer::scan::bin_run_end;
use crate::tokenizer::scan::hex_run_end;
use crate::tokenizer::scan::lemma_bin_run_end;
use crate::tokenizer::scan::lemma_check_operator_bounds;
use crate::tokenizer::scan::lemma_hex_run_end;
use crate::tokenizer::scan::num_run;
use crate::tokenizer::spec_check_numeric;
use crate::tokenizer::spec_check_operator;
use crate::tokenizer::spec_check_symbol;
use crate::tokenizer::spec_tokenize;
use crate::tokenizer::spec_tokenize_from;
use crate::transpiler::BeatriceTypeV;
use crate::transpiler::TypeErrorV;
use crate::transpiler::checkings::metadata::define_fn_in_last;
use crate::transpiler::checkings::metadata::define_var_in_last;
use crate::transpiler::checkings::metadata::empty_scope;
use crate::transpiler::checkings::metadata::spec_ast_typeof_function;
use crate::transpiler::checkings::metadata::spec_check;
use crate::transpiler::checkings::metadata::spec_check_body;
use crate::transpiler::checkings::metadata::spec_define_params;
use crate::transpiler::checkings::metadata::spec_t_abstract;
use crate::transpiler::checkings::metadata::spec_t_abstract_params;
use crate::transpiler::scope::ScopeV;

verus! {

/// The integer literal texts the lexer recognizes as one token: a
/// non-empty decimal digit run, `0x` or `0X` followed by hexadecimal
/// digits, or `0b` followed by binary digits.
pub open spec fn lexable_int_literal(s: Seq<char>) -> bool {
    (s.len() > 0 && all_digits(s, 10)) || (s.len() >= 3 && s[0] == '0' && (s[1] == 'x' || s[1]
        == 'X') && all_digits(s.subrange(2, s.len() as int), 16)) || (s.len() >= 3 && s[0] == '0'
        && s[1] == 'b' && all_digits(s.subrange(2, s.len() as int), 2))
}

/// The text of the one token such a literal becomes: the lexer always
/// writes the hexadecimal prefix as `0x`, even for a source `0X`.
pub open spec fn literal_token_text(s: Seq<char>) -> Seq<char> {
    if s.len() >= 3 && s[0] == '0' && (s[1] == 'x' || s[1] == 'X') {
        seq!['0', 'x'] + s.subrange(2, s.len() as int)
    } else {
        s
    }
}

/// A run of decimal digits, with no dot seen, scans to the end of the
/// sequence.
proof fn lemma_num_run_all_digits(s: Seq<char>, i: int, dot: bool)
    requires
        0 <= i <= s.len(),
        forall|k: int| i <= k < s.len() ==> ascii_digit(#[trigger] s[k]),
    ensures
        num_run(s, i, dot) == Ok::<_, LexError>((s.len() as int, dot)),
    decreases s.len() - i,
{
    if i < s.len() {
        lemma_num_run_all_digits(s, i + 1, dot);
    }
}

/// Tokenizing a well-formed integer literal text yields exactly its one
/// integer token and the end-of-stream token, and converting that token's
/// text reproduces the value of the reference radix parser, whenever that
/// value is representable. A source `0X` prefix is carried as `0x`.
pub proof fn lemma_tokenize_literal(s: Seq<char>)
    requires
        lexable_int_literal(s),
    ensures
        ({
            let r = spec_tokenize(s);
            &&& r is Ok
            &&& r->Ok_0.len() == 2
            &&& r->Ok_0[0].kind == TokenKindV::Int(literal_token_text(s))
            &&& r->Ok_0[1].kind == TokenKindV::EOF
        }),
        spec_literal_value(s) <= i64::MAX ==> spec_parse_int_result(literal_token_text(s))
            == spec_literal_value(s),
{
    let n = s.len() as int;
    let c = s[0];
    assert(!space_char(c));
    assert(spec_check_symbol(c, s, 0) is None);
    if s.len() >= 3 && s[0] == '0' && (s[1] == 'x' || s[1] == 'X') {
        let digits = s.subrange(2, n);
        assert forall|k: int| 2 <= k < n implies ascii_hex_digit(#[trigger] s[k]) by {
            assert(digits[k - 2] == s[k]);
            assert(valid_digit(digits[k - 2], 16));
        }
        lemma_hex_run_end(s, 2, n);
        let t = literal_token_text(s);
        assert(spec_check_numeric(c, s, 0) == Ok::<_, LexError>(
            Some((TokenKindV::Int(t), n)),
        ));
        assert(spec_tokenize_from(s, n, 0, (n - 1) as int) == Ok::<_, LexError>(
            seq![
                TokenV {
                    kind: TokenKindV::EOF,
                    start: (n - 1) as int,
                    line: 0,
                    column: (n - 1) as int,
                },
            ],
        ));
        assert(spec_tokenize(s)->Ok_0.len() == 2);
        assert(spec_tokenize(s)->Ok_0[0].kind == TokenKindV::Int(t));
        assert(spec_tokenize(s)->Ok_0[1].kind == TokenKindV::EOF);
        assert(t.subrange(2, t.len() as int) =~= digits);
        assert(valid_int_literal(t));
        assert(spec_literal_value(t) == spec_literal_value(s));
    } else if s.len() >= 3 && s[0] == '0' && s[1] == 'b' {
        let digits = s.subrange(2, n);
        assert forall|k: int| 2 <= k < n implies (#[trigger] s[k] == '0' || s[k] == '1') by {
            assert(digits[k - 2] == s[k]);
            assert(valid_digit(digits[k - 2], 2));
        }
        lemma_bin_run_end(s, 2, n);
        let t = seq!['0', 'b'] + digits;
        assert(t =~= s);
        assert(spec_check_numeric(c, s, 0) == Ok::<_, LexError>(
            Some((TokenKindV::Int(t), n)),
        ));
        assert(spec_tokenize_from(s, n, 0, (n - 1) as int) is Ok);
        assert(spec_tokenize(s)->Ok_0.len() == 2);
        assert(spec_tokenize(s)->Ok_0[0].kind == TokenKindV::Int(t));
        assert(spec_tokenize(s)->Ok_0[1].kind == TokenKindV::EOF);
        assert(literal_token_text(s) == s);
        assert(valid_int_literal(s));
    } else {
        assert(s.len() > 0 && all_digits(s, 10));
        assert(ascii_digit(c));
        assert(literal_token_text(s) == s);
        if s.len() == 1 && c == '0' {
            assert(spec_check_numeric(c, s, 0) == Ok::<_, LexError>(
                Some((TokenKindV::Int(seq!['0']), 1int)),
            ));
            assert(seq!['0'] =~= s);
        } else {
            if c == '0' {
                assert(ascii_digit(s[1]));
            }
            lemma_num_run_all_digits(s, 0, false);
            assert(s.subrange(0, n) =~= s);
            assert(spec_check_numeric(c, s, 0) == Ok::<_, LexError>(
                Some((TokenKindV::Int(s), n)),
            ));
        }
        assert(spec_tokenize(s)->Ok_0.len() == 2);
        assert(spec_tokenize(s)->Ok_0[0].kind == TokenKindV::Int(s));
        assert(spec_tokenize(s)->Ok_0[1].kind == TokenKindV::EOF);
        assert(valid_int_literal(s));
    }
}

/// The maximal alphanumeric run never crosses a position holding a
/// non-alphanumeric character.
proof fn lemma_alnum_run_le(s: Seq<char>, i: int, a: int)
    requires
        0 <= i <= a < s.len(),
        !alnum_char(s[a]),
    ensures
        alnum_run_end(s, i) <= a,
    decreases s.len() - i,
{
    if i < s.len() && alnum_char(s[i]) {
        lemma_alnum_run_le(s, i + 1, a);
    }
}

/// The maximal hexadecimal run never crosses a position holding a
/// character that is no hexadecimal digit.
proof fn lemma_hex_run_le(s: Seq<char>, i: int, a: int)
    requires
        0 <= i <= a < s.len(),
        !ascii_hex_digit(s[a]),
    ensures
        hex_run_end(s, i) <= a,
    decreases s.len() - i,
{
    if i < s.len() && ascii_hex_digit(s[i]) {
        lemma_hex_run_le(s, i + 1, a);
    }
}

/// The maximal binary run never crosses a position holding a character
/// that is no binary digit.
proof fn lemma_bin_run_le(s: Seq<char>, i: int, a: int)
    requires
        0 <= i <= a < s.len(),
        !(s[a] == '0' || s[a] == '1'),
    ensures
        bin_run_end(s, i) <= a,
    decreases s.len() - i,
{
    if i < s.len() && (s[i] == '0' || s[i] == '1') {
        lemma_bin_run_le(s, i + 1, a);
    }
}

/// Once a numeral run has passed its first dot, digits leading to a second
/// dot make the scan fatal.
proof fn lemma_num_run_second_dot(s: Seq<char>, j: int, a: int, b: int)
    requires
        0 <= a < j <= b < s.len(),
        s[b] == '.',
        forall|k: int| a < k < b ==> ascii_digit(#[trigger] s[k]),
    ensures
        num_run(s, j, true) is Err,
    decreases b - j,
{
    if j < b {
        lemma_num_run_second_dot(s, j + 1, a, b);
    }
}

/// A numeral run starting at or before the first of two digit-separated
/// dots either becomes fatal or stops no later than that first dot.
proof fn lemma_num_run_dd(s: Seq<char>, i: int, dot: bool, a: int, b: int)
    requires
        0 <= i <= a < b < s.len(),
        s[a] == '.',
        s[b] == '.',
        forall|k: int| a < k < b ==> ascii_digit(#[trigger] s[k]),
    ensures
        match num_run(s, i, dot) {
            Ok(ed) => ed.0 <= a,
            Err(e) => true,
        },
    decreases s.len() - i,
{
    let c = s[i];
    if c == '.' {
        if !dot {
            if i == a {
                lemma_num_run_second_dot(s, a + 1, a, b);
            } else {
                lemma_num_run_dd(s, i + 1, true, a, b);
            }
        }
    } else if ascii_digit(c) {
        assert(i != a);
        lemma_num_run_dd(s, i + 1, dot, a, b);
    }
}

/// The scan from any position at or before the first of two dots that are
/// separated only by decimal digits ends in the fatal double-dot fault.
proof fn lemma_scan_double_dot(s: Seq<char>, i: int, line: int, column: int, a: int, b: int)
    requires
        0 <= i <= a,
        a < b < s.len(),
        s[a] == '.',
        s[b] == '.',
        forall|k: int| a < k < b ==> ascii_digit(#[trigger] s[k]),
    ensures
        spec_tokenize_from(s, i, line, column) is Err,
    decreases s.len() - i,
{
    let c = s[i];
    assert(!alnum_char('.'));
    if c == ' ' {
        assert(i < a);
        lemma_scan_double_dot(s, i + 1, line, column + 1, a, b);
    } else if space_char(c) {
        assert(i < a);
        lemma_scan_double_dot(s, i + 1, line + 1, 0, a, b);
    } else if spec_check_symbol(c, s, i) is Some {
        let end = alnum_run_end(s, i);
        lemma_alnum_run_le(s, i, a);
        crate::tokenizer::scan::lemma_alnum_run_bounds(s, i);
        lemma_scan_double_dot(s, end, line, column + (end - i) - 1, a, b);
    } else {
        match spec_check_numeric(c, s, i) {
            Err(e) => {},
            Ok(res) => {
                if c == '0' && i + 1 < s.len() && (s[i + 1] == 'x' || s[i + 1] == 'X') {
                    assert(i < a && i + 1 != a);
                    let end = hex_run_end(s, i + 2);
                    lemma_hex_run_le(s, i + 2, a);
                    crate::tokenizer::scan::lemma_hex_run_bounds(s, i + 2);
                    lemma_scan_double_dot(s, end, line, column + (end - i) - 1, a, b);
                } else if c == '0' && i + 1 < s.len() && s[i + 1] == 'b' {
                    assert(i < a && i + 1 != a);
                    let end = bin_run_end(s, i + 2);
                    lemma_bin_run_le(s, i + 2, a);
                    crate::tokenizer::scan::lemma_bin_run_bounds(s, i + 2);
                    lemma_scan_double_dot(s, end, line, column + (end - i) - 1, a, b);
                } else if c == '0' && i + 1 < s.len() && !ascii_digit(s[i + 1]) {
                    assert(false);
                } else if c == '0' && i + 1 >= s.len() {
                    assert(false);
                } else if ascii_digit(c) || c == '.' {
                    lemma_num_run_dd(s, i, false, a, b);
                    match num_run(s, i, false) {
                        Ok(ed) => {
                            crate::tokenizer::scan::lemma_num_run_bounds(s, i + 1, true);
                            crate::tokenizer::scan::lemma_num_run_bounds(s, i + 1, false);
                            assert(ed.0 >= i + 1);
                            lemma_scan_double_dot(s, ed.0, line, column + (ed.0 - i) - 1, a, b);
                        },
                        Err(e) => {
                            assert(false);
                        },
                    }
                } else {
                    // No numeral starts here, so the dot at `a` is still
                    // ahead of every character this step consumes.
                    assert(c != '.');
                    assert(i < a);
                    if crate::tokenizer::scan::spec_punct_kind(c) is Some {
                        lemma_scan_double_dot(s, i + 1, line, column, a, b);
                    } else {
                        match spec_check_operator(c, s, i) {
                            Some(on) => {
                                lemma_check_operator_bounds(c, s, i);
                                if i + 1 == a {
                                    assert(on.1 == 1);
                                } else if i + 2 == a {
                                    assert(on.1 <= 2);
                                }
                                assert(i + on.1 <= a);
                                lemma_scan_double_dot(
                                    s,
                                    i + on.1,
                                    line,
                                    column + on.1 - 1,
                                    a,
                                    b,
                                );
                            },
                            None => {
                                lemma_scan_double_dot(s, i + 1, line, column, a, b);
                            },
                        }
                    }
                }
            },
        }
    }
}

/// Any input holding a second decimal point inside one numeral — two dots
/// separated only by decimal digits — makes lexing fatal.
pub proof fn lemma_double_dot_is_fatal(s: Seq<char>, a: int, b: int)
    requires
        0 <= a < b < s.len(),
        s[a] == '.',
        s[b] == '.',
        forall|k: int| a < k < b ==> ascii_digit(#[trigger] s[k]),
    ensures
        spec_tokenize(s) is Err,
{
    lemma_scan_double_dot(s, 0, 0, 0, a, b);
}


/// When every parameter annotation denotes a type, binding the parameters
/// cannot fail.
proof fn lemma_define_params_ok(scopes: Seq<ScopeV>, params: Seq<KeyTypePairV>, i: int)
    requires
        spec_t_abstract_params(params, i) is Ok,
    ensures
        spec_define_params(scopes, params, i) is Ok,
    decreases params.len() - i,
{
    if 0 <= i < params.len() {
        lemma_define_params_ok(
            define_var_in_last(scopes, params[i].key, spec_t_abstract(params[i].kindof)->Ok_0),
            params,
            i + 1,
        );
    }
}

/// A body walk over statements none of which is a return keeps its
/// seen-a-return flag unchanged.
proof fn lemma_check_body_no_return(
    scopes: Seq<ScopeV>,
    rt: BeatriceTypeV,
    body: Seq<AstV>,
    i: int,
    seen: bool,
)
    requires
        forall|k: int| 0 <= k < body.len() ==> !((#[trigger] body[k]) is Return),
    ensures
        match spec_check_body(scopes, rt, body, i, seen) {
            Ok(cs) => cs.1 == seen,
            Err(e) => true,
        },
    decreases body.len() - i,
{
    if 0 <= i < body.len() {
        match spec_check(scopes, body[i]) {
            Ok(scopes2) => {
                lemma_check_body_no_return(scopes2, rt, body, i + 1, seen);
            },
            Err(e) => {},
        }
    }
}

/// A function whose body holds no return statement checks successfully
/// only when its declared return type is void: with any other declared
/// type it fails, and — whenever its parameters and body statements are
/// themselves fine — with exactly the mismatch naming the declared type
/// against void.
pub proof fn lemma_function_without_return_needs_void(
    scopes: Seq<ScopeV>,
    name: Seq<char>,
    params: Seq<KeyTypePairV>,
    returntype: TypeAstV,
    body: Seq<AstV>,
)
    requires
        forall|k: int| 0 <= k < body.len() ==> !((#[trigger] body[k]) is Return),
        spec_ast_typeof_function(AstV::Function { name, params, returntype, body }) is Ok,
        spec_t_abstract(returntype) is Ok,
        spec_t_abstract(returntype)->Ok_0 != BeatriceTypeV::Void,
    ensures
        spec_check(scopes, AstV::Function { name, params, returntype, body }) is Err,
        ({
            let f = AstV::Function { name, params, returntype, body };
            let rt = spec_t_abstract(returntype)->Ok_0;
            let ftype = spec_ast_typeof_function(f)->Ok_0;
            let chain1 = define_fn_in_last(scopes, name, ftype).push(empty_scope());
            let chain2 = spec_define_params(chain1, params, 0)->Ok_0;
            let expected_err = TypeErrorV::UnexpectedType {
                expected: rt,
                received: BeatriceTypeV::Void,
            };
            spec_check_body(chain2, rt, body, 0, false) is Ok ==> spec_check(scopes, f)
                == Err::<Seq<ScopeV>, TypeErrorV>(expected_err)
        }),
{
    let f = AstV::Function { name, params, returntype, body };
    let rt = spec_t_abstract(returntype)->Ok_0;
    let ftype = spec_ast_typeof_function(f)->Ok_0;
    assert(ftype == (BeatriceTypeV::Function {
        params: spec_t_abstract_params(params, 0)->Ok_0,
        return_type: Box::new(rt),
    }));
    let chain1 = define_fn_in_last(scopes, name, ftype).push(empty_scope());
    lemma_define_params_ok(chain1, params, 0);
    let chain2 = spec_define_params(chain1, params, 0)->Ok_0;
    match spec_check_body(chain2, rt, body, 0, false) {
        Ok(cs) => {
            lemma_check_body_no_return(chain2, rt, body, 0, false);
            assert(!cs.1);
            assert(spec_check(scopes, f) == Err::<Seq<ScopeV>, _>(
                TypeErrorV::UnexpectedType { expected: rt, received: BeatriceTypeV::Void },
            ));
        },
        Err(e) => {
            assert(spec_check(scopes, f) == Err::<Seq<ScopeV>, _>(e));
        },
    }
}

} // verus!
