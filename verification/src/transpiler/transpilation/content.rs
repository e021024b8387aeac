//! The rendering walk and its mathematical mirror: every piece of generated
//! text is pinned down by a spec function over the tree.
use vstd::prelude::*;

use crate::parser::AST;
use crate::parser::AstV;
use crate::parser::KeyExprPair;
use crate::parser::KeyExprPairV;
use crate::parser::KeyTypePair;
use crate::parser::KeyTypePairV;
use crate::parser::lemma_view_ast_seq_index;
use crate::parser::lemma_view_ast_seq_len;
use crate::parser::lemma_view_kep_seq_index;
use crate::parser::lemma_view_kep_seq_len;
use crate::parser::lemma_view_ktp_seq_index;
use crate::parser::lemma_view_ktp_seq_len;
use crate::parser::view_ast_seq;
use crate::parser::view_kep_seq;
use crate::parser::view_ktp_seq;
use crate::tokenizer::chars::str_eq;
use crate::tokenizer::spec_operator_text;
use crate::tokenizer::spec_precedence;
use crate::transpiler::transpilation::TranspileCondition;
use crate::transpiler::transpilation::TranspileConditionV;
use crate::transpiler::transpilation::cond_text;
use crate::transpiler::transpilation::numbers::int_to_string;
use crate::transpiler::transpilation::numbers::spec_int_text;
use crate::transpiler::transpiler::spaces;
use crate::transpiler::transpiler::spec_indent_grow;
use vstd::string::StringExecFns;

verus! {

/// The rendering of one expression or statement at the given indentation.
///
/// Identifiers and float literals render as their text, integers in
/// decimal; declared types are erased, and a struct declaration emits
/// nothing. A returned loop renders as the bare loop followed by `;`, a
/// returned conditional is desugared with a return in each terminal
/// branch, and any other returned expression as `return e;`. A block
/// renders brace-delimited, one statement per line, one step deeper.
pub open spec fn spec_gen_expr(e: AstV, ind: int) -> Seq<char>
    decreases e, 3int,
{
    match e {
        AstV::Function { .. } => spec_gen_function(e, ind),
        AstV::Identifier(s) => s,
        AstV::Float(f) => f,
        AstV::Int(n) => spec_int_text(n),
        AstV::VarDecl { .. } => spec_gen_var_decl(e, ind),
        AstV::BinExpr(..) => spec_gen_binexpr(e, ind),
        AstV::Return(r) => match *r {
            AstV::Loop(body) => spec_gen_loop(*body, ind) + ";"@,
            AstV::If { .. } => spec_gen_if_assign(*r, TranspileConditionV::Return, ind),
            _ => "return "@ + spec_gen_expr(*r, ind) + ";"@,
        },
        AstV::FunctionCall { name, args } => name + "("@ + spec_join_args(args, 0, ind) + ")"@,
        AstV::Struct { .. } => Seq::empty(),
        AstV::StructExpr { name, fields } => "/**"@ + name + "*/ {"@ + spec_fields_text(
            fields,
            0,
            ind,
        ) + "}"@,
        AstV::If { .. } => spec_gen_if_expr(e, ind),
        AstV::Block(stmts) => "{\n"@ + spec_stmt_lines(stmts, 0, spec_indent_grow(ind)) + spaces(
            ind,
        ) + "}"@,
        AstV::Loop(b) => spec_gen_loop(*b, ind),
    }
}

/// The rendering of a function declaration: its bare parameter names, then
/// the body statements one per line, one step deeper.
pub open spec fn spec_gen_function(e: AstV, ind: int) -> Seq<char>
    decreases e, 2int,
{
    match e {
        AstV::Function { name, params, body, .. } => "function "@ + name + "("@ + spec_param_names(
            params,
            0,
        ) + "){\n"@ + spec_stmt_lines(body, 0, spec_indent_grow(ind)) + spaces(ind) + "}\n"@,
        _ => Seq::empty(),
    }
}

/// The parameter names from position `i` on, comma-separated.
pub open spec fn spec_param_names(params: Seq<KeyTypePairV>, i: int) -> Seq<char>
    decreases params.len() - i,
{
    if i < 0 || i >= params.len() {
        Seq::empty()
    } else if i == params.len() - 1 {
        params[i].key
    } else {
        params[i].key + ","@ + spec_param_names(params, i + 1)
    }
}

/// The argument expressions from position `i` on, comma-separated.
pub open spec fn spec_join_args(args: Seq<AstV>, i: int, ind: int) -> Seq<char>
    decreases args, args.len() - i,
{
    if i < 0 || i >= args.len() {
        Seq::empty()
    } else if i == args.len() - 1 {
        spec_gen_expr(args[i], ind)
    } else {
        spec_gen_expr(args[i], ind) + ","@ + spec_join_args(args, i + 1, ind)
    }
}

/// The struct literal fields from position `i` on, comma-separated: a field
/// whose value is exactly an identifier equal to its key renders as the
/// bare key.
pub open spec fn spec_fields_text(fields: Seq<KeyExprPairV>, i: int, ind: int) -> Seq<char>
    decreases fields, fields.len() - i,
{
    if i < 0 || i >= fields.len() {
        Seq::empty()
    } else {
        let f = fields[i];
        let one = match f.value {
            AstV::Identifier(v) => {
                if v == f.key {
                    f.key
                } else {
                    f.key + ":"@ + spec_gen_expr(f.value, ind)
                }
            },
            _ => f.key + ":"@ + spec_gen_expr(f.value, ind),
        };
        if i == fields.len() - 1 {
            one
        } else {
            one + ","@ + spec_fields_text(fields, i + 1, ind)
        }
    }
}

/// The statements from position `i` on, one per line at the given
/// indentation.
pub open spec fn spec_stmt_lines(stmts: Seq<AstV>, i: int, ind: int) -> Seq<char>
    decreases stmts, stmts.len() - i,
{
    if i < 0 || i >= stmts.len() {
        Seq::empty()
    } else {
        spaces(ind) + spec_gen_expr(stmts[i], ind) + "\n"@ + spec_stmt_lines(stmts, i + 1, ind)
    }
}

/// The rendering of a binary expression: a right operand that is itself a
/// binary expression is parenthesized exactly when its operator binds more
/// loosely than the enclosing one; the left operand never is, since
/// left-associative folding already grouped it.
pub open spec fn spec_gen_binexpr(e: AstV, ind: int) -> Seq<char>
    decreases e, 2int,
{
    match e {
        AstV::BinExpr(lhs, rhs, op) => {
            let right = match *rhs {
                AstV::BinExpr(_, _, op2) => {
                    if spec_precedence(op2) > spec_precedence(op) {
                        "("@ + spec_gen_binexpr(*rhs, ind) + ")"@
                    } else {
                        spec_gen_binexpr(*rhs, ind)
                    }
                },
                _ => spec_gen_expr(*rhs, ind),
            };
            spec_gen_expr(*lhs, ind) + " "@ + spec_operator_text(op) + " "@ + right
        },
        _ => Seq::empty(),
    }
}

/// The rendering of a loop: the unconditional loop construct wrapping its
/// body.
pub open spec fn spec_gen_loop(body: AstV, ind: int) -> Seq<char>
    decreases body, 4int,
{
    "for(;;)"@ + spec_gen_expr(body, ind)
}

/// The rendering of a statement-position conditional: `if(cond)` and the
/// branch, then `;`, then the else branch if one is there.
pub open spec fn spec_gen_if_expr(e: AstV, ind: int) -> Seq<char>
    decreases e, 2int,
{
    match e {
        AstV::If { expr, block, elseblock } => {
            let head = "if("@ + spec_gen_expr(*expr, ind) + ")"@ + spec_gen_expr(*block, ind)
                + ";"@;
            match elseblock {
                Some(eb) => head + " else "@ + spec_gen_expr(*eb, ind),
                None => head,
            }
        },
        _ => Seq::empty(),
    }
}

/// The branch statements from position `i` on: every statement but the
/// last on its own line; the last one is the branch's terminal — a nested
/// conditional is desugared recursively under the same obligation, any
/// other expression is prefixed with the obligation.
pub open spec fn spec_branch_lines(
    stmts: Seq<AstV>,
    i: int,
    cv: TranspileConditionV,
    ind: int,
    in_else: bool,
) -> Seq<char>
    decreases stmts, stmts.len() - i,
{
    if i < 0 || i >= stmts.len() {
        Seq::empty()
    } else if i == stmts.len() - 1 {
        if stmts[i] is If {
            spec_gen_if_assign(stmts[i], cv, ind) + (if in_else {
                "\n"@
            } else {
                ";\n"@
            })
        } else {
            spaces(ind) + cond_text(cv) + " "@ + spec_gen_expr(stmts[i], ind) + ";\n"@
        }
    } else {
        spaces(ind) + spec_gen_expr(stmts[i], ind) + "\n"@ + spec_branch_lines(
            stmts,
            i + 1,
            cv,
            ind,
            in_else,
        )
    }
}

/// The then part of a desugared conditional: a single-expression branch
/// becomes one `if(cond) <obligation> e;` line; a block branch opens
/// `if(cond){`, renders its statements one step deeper with the obligation
/// on the last, and closes the brace.
pub open spec fn spec_gen_if_branch(e: AstV, cv: TranspileConditionV, ind: int) -> Seq<char>
    decreases e, 1int,
{
    match e {
        AstV::If { expr, block, .. } => {
            let cond = spec_gen_expr(*expr, ind);
            if !(*block is Block) {
                spaces(ind) + "if("@ + cond + ") "@ + cond_text(cv) + " "@ + spec_gen_expr(
                    *block,
                    ind,
                ) + ";\n"@ + spaces(ind)
            } else {
                match *block {
                    AstV::Block(stmts) => spaces(ind) + "if("@ + cond + "){\n"@
                        + spec_branch_lines(stmts, 0, cv, spec_indent_grow(ind), false) + spaces(
                        ind,
                    ) + "} "@,
                    _ => Seq::empty(),
                }
            }
        },
        _ => Seq::empty(),
    }
}

/// The else part of a desugared conditional: a block renders its
/// statements one step deeper with the obligation on the last; a single
/// expression becomes `else <obligation> e;`.
pub open spec fn spec_gen_else_branch(eb: AstV, cv: TranspileConditionV, ind: int) -> Seq<char>
    decreases eb, 4int,
{
    match eb {
        AstV::Block(stmts) => "else {\n"@ + spec_branch_lines(
            stmts,
            0,
            cv,
            spec_indent_grow(ind),
            true,
        ) + spaces(ind) + "}"@,
        _ => "else "@ + cond_text(cv) + " "@ + spec_gen_expr(eb, ind) + ";"@,
    }
}

/// The desugaring of a conditional whose value must be assigned or
/// returned: the then part, then the else part when one is there.
pub open spec fn spec_gen_if_assign(e: AstV, cv: TranspileConditionV, ind: int) -> Seq<char>
    decreases e, 2int,
{
    match e {
        AstV::If { elseblock, .. } => {
            let head = spec_gen_if_branch(e, cv, ind);
            match elseblock {
                Some(eb) => head + spec_gen_else_branch(*eb, cv, ind),
                None => head,
            }
        },
        _ => Seq::empty(),
    }
}

/// The rendering of a variable declaration. An immutable struct-literal
/// initializer is wrapped in an immutability-enforcing call. A conditional
/// initializer with two single-expression branches becomes a ternary; with
/// a block branch, the binding is pre-declared and an if/else assigns it
/// in every branch.
pub open spec fn spec_gen_var_decl(e: AstV, ind: int) -> Seq<char>
    decreases e, 2int,
{
    match e {
        AstV::VarDecl { varname, mutable, body } => {
            if *body is StructExpr {
                if !mutable {
                    "const "@ + varname + " = Object.seal("@ + spec_gen_expr(*body, ind) + ")"@
                } else {
                    "const "@ + varname + " = "@ + spec_gen_expr(*body, ind)
                }
            } else {
                match *body {
                    AstV::If { expr, block, elseblock } => match elseblock {
                        Some(eb) => {
                            if !(*block is Block) && !(*eb is Block) {
                                (if mutable {
                                    "let"@
                                } else {
                                    "const"@
                                }) + " "@ + varname + " = "@ + spec_gen_expr(*expr, ind) + " ? "@
                                    + spec_gen_expr(*block, ind) + " : "@ + spec_gen_expr(*eb, ind)
                            } else {
                                "let "@ + varname + ";\n"@ + spec_gen_if_assign(
                                    *body,
                                    TranspileConditionV::Assign(varname),
                                    ind,
                                )
                            }
                        },
                        None => (if mutable {
                            "let "@
                        } else {
                            "const "@
                        }) + varname + " = "@ + spec_gen_expr(*body, ind) + ";"@,
                    },
                    _ => (if mutable {
                        "let "@
                    } else {
                        "const "@
                    }) + varname + " = "@ + spec_gen_expr(*body, ind) + ";"@,
                }
            }
        },
        _ => Seq::empty(),
    }
}

/// The rendering of a whole statement sequence, one statement per line at
/// the given indentation.
pub open spec fn spec_gen_program(stmts: Seq<AstV>, ind: int) -> Seq<char> {
    spec_stmt_lines(stmts, 0, ind)
}


/// The comma-separated bare parameter names from position `i` on.
pub(crate) fn param_names(params: &Vec<KeyTypePair>, i: usize) -> (r: String)
    requires
        i <= params@.len(),
    ensures
        r@ == spec_param_names(view_ktp_seq(params@), i as int),
    decreases params@.len() - i,
{
    proof {
        lemma_view_ktp_seq_len(params@);
    }
    if i >= params.len() {
        let r = String::new();
        return r;
    }
    proof {
        lemma_view_ktp_seq_index(params@, i as int);
    }
    let mut out = params[i].key.clone();
    if i + 1 < params.len() {
        out.append(",");
        let rest = param_names(params, i + 1);
        out.append(rest.as_str());
        proof {
            assert(out@ =~= spec_param_names(view_ktp_seq(params@), i as int));
        }
    } else {
        proof {
            assert(out@ =~= spec_param_names(view_ktp_seq(params@), i as int));
        }
    }
    out
}

/// The comma-separated argument expressions from position `i` on.
pub(crate) fn join_args(args: &Vec<AST>, i: usize, ind: usize) -> (r: String)
    requires
        i <= args@.len(),
    ensures
        r@ == spec_join_args(view_ast_seq(args@), i as int, ind as int),
    decreases args@, args@.len() - i,
{
    proof {
        lemma_view_ast_seq_len(args@);
    }
    if i >= args.len() {
        let r = String::new();
        return r;
    }
    proof {
        lemma_view_ast_seq_index(args@, i as int);
    }
    let mut out = generate_expression_content(&args[i], ind);
    if i + 1 < args.len() {
        out.append(",");
        let rest = join_args(args, i + 1, ind);
        out.append(rest.as_str());
        proof {
            assert(out@ =~= spec_join_args(view_ast_seq(args@), i as int, ind as int));
        }
    } else {
        proof {
            assert(out@ =~= spec_join_args(view_ast_seq(args@), i as int, ind as int));
        }
    }
    out
}

/// The comma-separated struct literal fields from position `i` on; a field
/// whose value is exactly an identifier equal to its key degrades to the
/// bare key.
pub(crate) fn fields_text(fields: &Vec<KeyExprPair>, i: usize, ind: usize) -> (r: String)
    requires
        i <= fields@.len(),
    ensures
        r@ == spec_fields_text(view_kep_seq(fields@), i as int, ind as int),
    decreases fields@, fields@.len() - i,
{
    proof {
        lemma_view_kep_seq_len(fields@);
    }
    if i >= fields.len() {
        let r = String::new();
        return r;
    }
    proof {
        lemma_view_kep_seq_index(fields@, i as int);
    }
    let f = &fields[i];
    let shorthand = match &f.value {
        AST::Identifier(v) => str_eq(v.as_str(), f.key.as_str()),
        _ => false,
    };
    let mut out = f.key.clone();
    if !shorthand {
        out.append(":");
        let val = generate_expression_content(&f.value, ind);
        out.append(val.as_str());
    }
    if i + 1 < fields.len() {
        out.append(",");
        let rest = fields_text(fields, i + 1, ind);
        out.append(rest.as_str());
        proof {
            assert(out@ =~= spec_fields_text(view_kep_seq(fields@), i as int, ind as int));
        }
    } else {
        proof {
            assert(out@ =~= spec_fields_text(view_kep_seq(fields@), i as int, ind as int));
        }
    }
    out
}

/// The statements from position `i` on, one per line at the given
/// indentation.
pub(crate) fn stmt_lines(stmts: &Vec<AST>, i: usize, ind: usize) -> (r: String)
    requires
        i <= stmts@.len(),
    ensures
        r@ == spec_stmt_lines(view_ast_seq(stmts@), i as int, ind as int),
    decreases stmts@, stmts@.len() - i,
{
    proof {
        lemma_view_ast_seq_len(stmts@);
    }
    if i >= stmts.len() {
        let r = String::new();
        return r;
    }
    proof {
        lemma_view_ast_seq_index(stmts@, i as int);
    }
    let mut out = crate::transpiler::transpiler::spaces_string(ind);
    let line = generate_expression_content(&stmts[i], ind);
    out.append(line.as_str());
    out.append("\n");
    let rest = stmt_lines(stmts, i + 1, ind);
    out.append(rest.as_str());
    proof {
        assert(out@ =~= spec_stmt_lines(view_ast_seq(stmts@), i as int, ind as int));
    }
    out
}

/// The branch statements from position `i` on, the last one carrying the
/// branch's obligation.
pub(crate) fn branch_lines(
    stmts: &Vec<AST>,
    i: usize,
    cv: &TranspileCondition,
    ind: usize,
    in_else: bool,
) -> (r: String)
    requires
        i <= stmts@.len(),
    ensures
        r@ == spec_branch_lines(view_ast_seq(stmts@), i as int, cv@, ind as int, in_else),
    decreases stmts@, stmts@.len() - i,
{
    proof {
        lemma_view_ast_seq_len(stmts@);
    }
    if i >= stmts.len() {
        let r = String::new();
        return r;
    }
    proof {
        lemma_view_ast_seq_index(stmts@, i as int);
    }
    if i + 1 == stmts.len() {
        let last = &stmts[i];
        if matches!(last, AST::If { .. }) {
            let mut out = generate_if_expr_assign(last, cv, ind);
            if in_else {
                out.append("\n");
            } else {
                out.append(";\n");
            }
            proof {
                assert(out@ =~= spec_branch_lines(
                    view_ast_seq(stmts@),
                    i as int,
                    cv@,
                    ind as int,
                    in_else,
                ));
            }
            out
        } else {
            let mut out = crate::transpiler::transpiler::spaces_string(ind);
            let ct = cond_text_exec(cv);
            out.append(ct.as_str());
            out.append(" ");
            let line = generate_expression_content(last, ind);
            out.append(line.as_str());
            out.append(";\n");
            proof {
                assert(out@ =~= spec_branch_lines(
                    view_ast_seq(stmts@),
                    i as int,
                    cv@,
                    ind as int,
                    in_else,
                ));
            }
            out
        }
    } else {
        let mut out = crate::transpiler::transpiler::spaces_string(ind);
        let line = generate_expression_content(&stmts[i], ind);
        out.append(line.as_str());
        out.append("\n");
        let rest = branch_lines(stmts, i + 1, cv, ind, in_else);
        out.append(rest.as_str());
        proof {
            assert(out@ =~= spec_branch_lines(
                view_ast_seq(stmts@),
                i as int,
                cv@,
                ind as int,
                in_else,
            ));
        }
        out
    }
}

/// The text a branch obligation prefixes its terminal expression with.
pub(crate) fn cond_text_exec(cv: &TranspileCondition) -> (r: String)
    ensures
        r@ == cond_text(cv@),
{
    match cv {
        TranspileCondition::Assign(s) => {
            let mut out = s.clone();
            out.append(" =");
            proof {
                assert(out@ =~= cond_text(cv@));
            }
            out
        },
        TranspileCondition::Return => {
            let mut out = String::new();
            out.append("return");
            proof {
                assert(out@ =~= cond_text(cv@));
            }
            out
        },
        TranspileCondition::Bare => {
            let out = String::new();
            proof {
                assert(out@ =~= cond_text(cv@));
            }
            out
        },
    }
}

/// Renders one expression or statement at the given indentation, exactly
/// as [`spec_gen_expr`] describes.
pub(crate) fn generate_expression_content(ast: &AST, ind: usize) -> (r: String)
    ensures
        r@ == spec_gen_expr(ast@, ind as int),
    decreases *ast, 3int,
{
    match ast {
        AST::Function { .. } => generate_function_content(ast, ind),
        AST::Identifier(s) => s.clone(),
        AST::Float(f) => f.clone(),
        AST::Int(n) => int_to_string(*n),
        AST::VarDecl { .. } => generate_var_decl_content(ast, ind),
        AST::BinExpr(..) => generate_binexpr_content(ast, ind),
        AST::Return(r) => {
            match &**r {
                AST::Loop(body) => {
                    let mut out = generate_loop_content(body, ind);
                    out.append(";");
                    proof {
                        assert((**r)@ == AstV::Loop(Box::new((**body)@)));
                        assert(out@ =~= spec_gen_expr(ast@, ind as int));
                    }
                    out
                },
                AST::If { .. } => {
                    let out = generate_if_expr_assign(r, &TranspileCondition::Return, ind);
                    proof {
                        assert(out@ =~= spec_gen_expr(ast@, ind as int));
                    }
                    out
                },
                _ => {
                    let mut out = String::new();
                    out.append("return ");
                    let inner = generate_expression_content(r, ind);
                    out.append(inner.as_str());
                    out.append(";");
                    proof {
                        assert(out@ =~= spec_gen_expr(ast@, ind as int));
                    }
                    out
                },
            }
        },
        AST::FunctionCall { name, args } => generate_fcall_content(name, args, ind),
        AST::Struct { .. } => String::new(),
        AST::StructExpr { name, fields } => {
            let mut out = String::new();
            out.append("/**");
            out.append(name.as_str());
            out.append("*/ {");
            let fs = fields_text(fields, 0, ind);
            out.append(fs.as_str());
            out.append("}");
            proof {
                assert(out@ =~= spec_gen_expr(ast@, ind as int));
            }
            out
        },
        AST::If { .. } => generate_if_expr(ast, ind),
        AST::Block(stmts) => {
            let mut out = String::new();
            out.append("{\n");
            let inner = stmt_lines(stmts, 0, crate::transpiler::transpiler::grow_indent(ind));
            out.append(inner.as_str());
            let pad = crate::transpiler::transpiler::spaces_string(ind);
            out.append(pad.as_str());
            out.append("}");
            proof {
                assert(out@ =~= spec_gen_expr(ast@, ind as int));
            }
            out
        },
        AST::Loop(b) => {
            let out = generate_loop_content(b, ind);
            proof {
                assert(out@ =~= spec_gen_expr(ast@, ind as int));
            }
            out
        },
    }
}

/// Renders a function declaration: bare parameter names, then the body one
/// statement per line, one step deeper.
pub(crate) fn generate_function_content(ast: &AST, ind: usize) -> (r: String)
    ensures
        r@ == spec_gen_function(ast@, ind as int),
    decreases *ast, 2int,
{
    match ast {
        AST::Function { name, params, body, .. } => {
            let mut out = String::new();
            out.append("function ");
            out.append(name.as_str());
            out.append("(");
            let ps = param_names(params, 0);
            out.append(ps.as_str());
            out.append("){\n");
            let inner = stmt_lines(
                &body.body,
                0,
                crate::transpiler::transpiler::grow_indent(ind),
            );
            out.append(inner.as_str());
            let pad = crate::transpiler::transpiler::spaces_string(ind);
            out.append(pad.as_str());
            out.append("}\n");
            proof {
                assert(out@ =~= spec_gen_function(ast@, ind as int));
            }
            out
        },
        _ => {
            let out = String::new();
            proof {
                assert(out@ =~= spec_gen_function(ast@, ind as int));
            }
            out
        },
    }
}

/// Renders a call: the callee's name and its comma-separated arguments.
pub(crate) fn generate_fcall_content(name: &String, args: &Vec<AST>, ind: usize) -> (r: String)
    ensures
        r@ == name@ + "("@ + spec_join_args(view_ast_seq(args@), 0, ind as int) + ")"@,
    decreases args@, args@.len() + 1,
{
    let mut out = name.clone();
    out.append("(");
    let js = join_args(args, 0, ind);
    out.append(js.as_str());
    out.append(")");
    out
}

/// Renders a binary expression, parenthesizing a right operand whose
/// operator binds more loosely than the enclosing one.
pub(crate) fn generate_binexpr_content(ast: &AST, ind: usize) -> (r: String)
    ensures
        r@ == spec_gen_binexpr(ast@, ind as int),
    decreases *ast, 2int,
{
    match ast {
        AST::BinExpr(lhs, rhs, operator) => {
            let right: String = match &**rhs {
                AST::BinExpr(_, _, op2) => {
                    if op2.precedence() > operator.precedence() {
                        let mut p = String::new();
                        p.append("(");
                        let inner = generate_binexpr_content(rhs, ind);
                        p.append(inner.as_str());
                        p.append(")");
                        p
                    } else {
                        generate_binexpr_content(rhs, ind)
                    }
                },
                _ => generate_expression_content(rhs, ind),
            };
            let mut out = generate_expression_content(lhs, ind);
            out.append(" ");
            let op_text = operator.text();
            out.append(op_text.as_str());
            out.append(" ");
            out.append(right.as_str());
            proof {
                assert(out@ =~= spec_gen_binexpr(ast@, ind as int));
            }
            out
        },
        _ => {
            let out = String::new();
            proof {
                assert(out@ =~= spec_gen_binexpr(ast@, ind as int));
            }
            out
        },
    }
}

/// Renders a loop: the unconditional loop construct wrapping its body.
pub(crate) fn generate_loop_content(body: &AST, ind: usize) -> (r: String)
    ensures
        r@ == spec_gen_loop(body@, ind as int),
    decreases *body, 4int,
{
    let mut out = String::new();
    out.append("for(;;)");
    let inner = generate_expression_content(body, ind);
    out.append(inner.as_str());
    out
}

/// Renders a statement-position conditional.
pub(crate) fn generate_if_expr(ast: &AST, ind: usize) -> (r: String)
    ensures
        r@ == spec_gen_if_expr(ast@, ind as int),
    decreases *ast, 2int,
{
    match ast {
        AST::If { expr, block, elseblock } => {
            let mut out = String::new();
            out.append("if(");
            let cond = generate_expression_content(expr, ind);
            out.append(cond.as_str());
            out.append(")");
            let b = generate_expression_content(block, ind);
            out.append(b.as_str());
            out.append(";");
            match elseblock {
                Some(eb) => {
                    out.append(" else ");
                    let e = generate_expression_content(eb, ind);
                    out.append(e.as_str());
                },
                None => {},
            }
            proof {
                assert(out@ =~= spec_gen_if_expr(ast@, ind as int));
            }
            out
        },
        _ => {
            let out = String::new();
            proof {
                assert(out@ =~= spec_gen_if_expr(ast@, ind as int));
            }
            out
        },
    }
}

/// Renders the then part of a desugared conditional.
pub(crate) fn generate_if_branch(ast: &AST, cv: &TranspileCondition, ind: usize) -> (r: String)
    ensures
        r@ == spec_gen_if_branch(ast@, cv@, ind as int),
    decreases *ast, 1int,
{
    match ast {
        AST::If { expr, block, .. } => {
            let cond = generate_expression_content(expr, ind);
            match &**block {
                AST::Block(stmts) => {
                    let mut out = crate::transpiler::transpiler::spaces_string(ind);
                    out.append("if(");
                    out.append(cond.as_str());
                    out.append("){\n");
                    let inner = branch_lines(
                        stmts,
                        0,
                        cv,
                        crate::transpiler::transpiler::grow_indent(ind),
                        false,
                    );
                    out.append(inner.as_str());
                    let pad = crate::transpiler::transpiler::spaces_string(ind);
                    out.append(pad.as_str());
                    out.append("} ");
                    proof {
                        assert((**block)@ == AstV::Block(view_ast_seq(stmts@)));
                        assert(out@ =~= spec_gen_if_branch(ast@, cv@, ind as int));
                    }
                    out
                },
                _ => {
                    let mut out = crate::transpiler::transpiler::spaces_string(ind);
                    out.append("if(");
                    out.append(cond.as_str());
                    out.append(") ");
                    let ct = cond_text_exec(cv);
                    out.append(ct.as_str());
                    out.append(" ");
                    let b = generate_expression_content(block, ind);
                    out.append(b.as_str());
                    out.append(";\n");
                    let pad = crate::transpiler::transpiler::spaces_string(ind);
                    out.append(pad.as_str());
                    proof {
                        assert(out@ =~= spec_gen_if_branch(ast@, cv@, ind as int));
                    }
                    out
                },
            }
        },
        _ => {
            let out = String::new();
            proof {
                assert(out@ =~= spec_gen_if_branch(ast@, cv@, ind as int));
            }
            out
        },
    }
}

/// Renders the else part of a desugared conditional.
pub(crate) fn generate_else_branch(eb: &AST, cv: &TranspileCondition, ind: usize) -> (r: String)
    ensures
        r@ == spec_gen_else_branch(eb@, cv@, ind as int),
    decreases *eb, 4int,
{
    match eb {
        AST::Block(stmts) => {
            let mut out = String::new();
            out.append("else {\n");
            let inner = branch_lines(
                stmts,
                0,
                cv,
                crate::transpiler::transpiler::grow_indent(ind),
                true,
            );
            out.append(inner.as_str());
            let pad = crate::transpiler::transpiler::spaces_string(ind);
            out.append(pad.as_str());
            out.append("}");
            proof {
                assert(out@ =~= spec_gen_else_branch(eb@, cv@, ind as int));
            }
            out
        },
        _ => {
            let mut out = String::new();
            out.append("else ");
            let ct = cond_text_exec(cv);
            out.append(ct.as_str());
            out.append(" ");
            let e = generate_expression_content(eb, ind);
            out.append(e.as_str());
            out.append(";");
            proof {
                assert(out@ =~= spec_gen_else_branch(eb@, cv@, ind as int));
            }
            out
        },
    }
}

/// Renders a conditional whose value must be assigned or returned: the
/// then part, then the else part when one is there.
pub(crate) fn generate_if_expr_assign(ast: &AST, cv: &TranspileCondition, ind: usize) -> (r:
    String)
    ensures
        r@ == spec_gen_if_assign(ast@, cv@, ind as int),
    decreases *ast, 2int,
{
    match ast {
        AST::If { elseblock, .. } => {
            let mut out = generate_if_branch(ast, cv, ind);
            match elseblock {
                Some(eb) => {
                    let e = generate_else_branch(eb, cv, ind);
                    out.append(e.as_str());
                },
                None => {},
            }
            proof {
                assert(out@ =~= spec_gen_if_assign(ast@, cv@, ind as int));
            }
            out
        },
        _ => {
            let out = String::new();
            proof {
                assert(out@ =~= spec_gen_if_assign(ast@, cv@, ind as int));
            }
            out
        },
    }
}

/// Renders a variable declaration, desugaring struct-literal and
/// conditional initializers as [`spec_gen_var_decl`] describes.
pub(crate) fn generate_var_decl_content(ast: &AST, ind: usize) -> (r: String)
    ensures
        r@ == spec_gen_var_decl(ast@, ind as int),
    decreases *ast, 2int,
{
    match ast {
        AST::VarDecl { varname, mutable, body } => {
            if matches!(&**body, AST::StructExpr { .. }) {
                proof {
                    assert((**body)@ is StructExpr);
                }
                let content = generate_expression_content(body, ind);
                let mut out = String::new();
                out.append("const ");
                out.append(varname.as_str());
                if !*mutable {
                    out.append(" = Object.seal(");
                    out.append(content.as_str());
                    out.append(")");
                } else {
                    out.append(" = ");
                    out.append(content.as_str());
                }
                proof {
                    assert(out@ =~= spec_gen_var_decl(ast@, ind as int));
                }
                return out;
            }
            match &**body {
                AST::If { expr, block, elseblock } => {
                    match elseblock {
                        Some(eb) => {
                            let simple = !block.is_blockexpr() && !eb.is_blockexpr();
                            if simple {
                                let mut out = String::new();
                                if *mutable {
                                    out.append("let");
                                } else {
                                    out.append("const");
                                }
                                out.append(" ");
                                out.append(varname.as_str());
                                out.append(" = ");
                                let c = generate_expression_content(expr, ind);
                                out.append(c.as_str());
                                out.append(" ? ");
                                let b = generate_expression_content(block, ind);
                                out.append(b.as_str());
                                out.append(" : ");
                                let e = generate_expression_content(eb, ind);
                                out.append(e.as_str());
                                proof {
                                    assert(out@ =~= spec_gen_var_decl(ast@, ind as int));
                                }
                                out
                            } else {
                                let mut out = String::new();
                                out.append("let ");
                                out.append(varname.as_str());
                                out.append(";\n");
                                let cvv = TranspileCondition::Assign(varname.clone());
                                let rest = generate_if_expr_assign(body, &cvv, ind);
                                out.append(rest.as_str());
                                proof {
                                    assert(out@ =~= spec_gen_var_decl(ast@, ind as int));
                                }
                                out
                            }
                        },
                        None => {
                            let content = generate_expression_content(body, ind);
                            let mut out = String::new();
                            if *mutable {
                                out.append("let ");
                            } else {
                                out.append("const ");
                            }
                            out.append(varname.as_str());
                            out.append(" = ");
                            out.append(content.as_str());
                            out.append(";");
                            proof {
                                assert(out@ =~= spec_gen_var_decl(ast@, ind as int));
                            }
                            out
                        },
                    }
                },
                _ => {
                    let content = generate_expression_content(body, ind);
                    let mut out = String::new();
                    if *mutable {
                        out.append("let ");
                    } else {
                        out.append("const ");
                    }
                    out.append(varname.as_str());
                    out.append(" = ");
                    out.append(content.as_str());
                    out.append(";");
                    proof {
                        assert(out@ =~= spec_gen_var_decl(ast@, ind as int));
                    }
                    out
                },
            }
        },
        _ => {
            let out = String::new();
            proof {
                assert(out@ =~= spec_gen_var_decl(ast@, ind as int));
            }
            out
        },
    }
}

/// Renders a whole statement sequence, one statement per line at the given
/// indentation.
pub(crate) fn generate_transpilation_content(stmts: &Vec<AST>, ind: usize) -> (r: String)
    ensures
        r@ == spec_gen_program(view_ast_seq(stmts@), ind as int),
{
    stmt_lines(stmts, 0, ind)
}


impl crate::transpiler::transpiler::BeatriceTranspiler {
    /// Renders the whole declaration sequence as target text at the
    /// current indentation level. Generation is total: it performs no type
    /// validation of its own and never raises a type error.
    pub fn transpile(&self, ast: &Vec<AST>) -> (r: String)
        ensures
            r@ == spec_gen_program(view_ast_seq(ast@), self.indent_level as int),
    {
        generate_transpilation_content(ast, self.indentation_level())
    }

    /// Checks every top-level declaration in order and, when all of them
    /// pass, renders the whole program: the result is the generated text
    /// exactly when checking succeeded, and the first type error otherwise.
    pub fn start_transpilation(&mut self, ast: &Vec<AST>) -> (r: Result<
        String,
        crate::transpiler::TypeError,
    >)
        requires
            old(self)@.len() > 0,
        ensures
            match r {
                Ok(text) => (crate::transpiler::checkings::metadata::spec_check_stmts(
                    old(self)@,
                    view_ast_seq(ast@),
                    0,
                ) matches Ok(chain) && final(self)@ == chain && text@ == spec_gen_program(
                    view_ast_seq(ast@),
                    old(self).indent_level as int,
                )),
                Err(e) => crate::transpiler::checkings::metadata::spec_check_stmts(
                    old(self)@,
                    view_ast_seq(ast@),
                    0,
                ) == Err::<Seq<crate::transpiler::scope::ScopeV>, _>(e@),
            },
            final(self).indent_level == old(self).indent_level,
    {
        let ghost chain0 = self@;
        let ghost sv = view_ast_seq(ast@);
        proof {
            lemma_view_ast_seq_len(ast@);
        }
        let mut i: usize = 0;
        loop
            invariant
                i <= ast@.len(),
                sv == view_ast_seq(ast@),
                sv.len() == ast@.len(),
                self@.len() > 0,
                crate::transpiler::checkings::metadata::spec_check_stmts(chain0, sv, 0)
                    == crate::transpiler::checkings::metadata::spec_check_stmts(
                    self@,
                    sv,
                    i as int,
                ),
                self.indent_level == old(self).indent_level,
                chain0 == old(self)@,
            ensures
                crate::transpiler::checkings::metadata::spec_check_stmts(chain0, sv, 0) == Ok::<
                    _,
                    crate::transpiler::TypeErrorV,
                >(self@),
                self.indent_level == old(self).indent_level,
            decreases ast@.len() - i,
        {
            if i >= ast.len() {
                break;
            }
            proof {
                lemma_view_ast_seq_index(ast@, i as int);
            }
            match self.generate_metadata(&ast[i]) {
                Ok(u) => {},
                Err(e) => {
                    return Err(e);
                },
            }
            i = i + 1;
        }
        Ok(self.transpile(ast))
    }
}

} // verus!
