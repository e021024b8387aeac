//! The checking pass: each top-level declaration first registers its
//! declared type in the current scope, then its body is validated against
//! it. Name lookup scans the chain from the global frame inward and takes
//! the first frame that defines the name, and a function's child frame is
//! left on the chain when its body is done, so later declarations can still
//! see it — both deliberate traits of this checker.
use vstd::prelude::*;

use crate::parser::AST;
use crate::parser::AstV;
use crate::parser::KeyExprPair;
use crate::parser::KeyExprPairV;
use crate::parser::KeyTypePairV;
use crate::parser::Program;
use crate::parser::TypeAst;
use crate::parser::TypeAstV;
use crate::parser::lemma_view_ast_seq_index;
use crate::parser::lemma_view_kep_seq_index;
use crate::parser::lemma_view_ktp_seq_index;
use crate::parser::lemma_view_type_seq_index;
use crate::parser::view_ast_seq;
use crate::parser::view_kep_seq;
use crate::parser::view_ktp_seq;
use crate::parser::view_type_seq;
use crate::tokenizer::chars::str_eq;
use crate::transpiler::BeatriceType;
use crate::transpiler::BeatriceTypeV;
use crate::transpiler::FieldType;
use crate::transpiler::FieldTypeV;
use crate::transpiler::TypeError;
use crate::transpiler::TypeErrorV;
use crate::transpiler::bt_eq;
use crate::transpiler::lemma_view_ft_seq_index;
use crate::transpiler::lemma_view_ft_seq_len;
use crate::transpiler::lemma_view_name_seq_len;
use crate::transpiler::scope::ScopeV;
use crate::transpiler::scope::spec_kindof;
use crate::transpiler::transpiler::BeatriceTranspiler;
use crate::transpiler::transpiler::lemma_view_scope_seq_index;
use crate::transpiler::transpiler::lemma_view_scope_seq_len;
use crate::transpiler::view_bt_seq;
use crate::transpiler::view_ft_seq;
use crate::transpiler::view_name_seq;

verus! {

/// Mirror of [`BeatriceTranspiler::typeof_var`]: the type of a variable or
/// function name, resolved from the outermost frame inward — the first
/// frame whose variable or function set holds the name answers.
pub open spec fn spec_typeof_var(scopes: Seq<ScopeV>, name: Seq<char>) -> Result<
    BeatriceTypeV,
    TypeErrorV,
>
    decreases scopes.len(),
{
    if scopes.len() == 0 {
        Err(TypeErrorV::NotRecognizedVar(name))
    } else {
        let s = scopes[0];
        if s.var_names.contains(name) || s.function_names.contains(name) {
            match spec_kindof(s, name) {
                Some(t) => Ok(t),
                None => Err(TypeErrorV::NotRecognizedVar(name)),
            }
        } else {
            spec_typeof_var(scopes.drop_first(), name)
        }
    }
}

/// Mirror of [`BeatriceTranspiler::typeof_function`]: as variable lookup,
/// but only frames whose function set holds the name answer.
pub open spec fn spec_typeof_function(scopes: Seq<ScopeV>, name: Seq<char>) -> Result<
    BeatriceTypeV,
    TypeErrorV,
>
    decreases scopes.len(),
{
    if scopes.len() == 0 {
        Err(TypeErrorV::NotRecognizedVar(name))
    } else {
        let s = scopes[0];
        if s.function_names.contains(name) {
            match spec_kindof(s, name) {
                Some(t) => Ok(t),
                None => Err(TypeErrorV::NotRecognizedVar(name)),
            }
        } else {
            spec_typeof_function(scopes.drop_first(), name)
        }
    }
}

/// Mirror of [`BeatriceTranspiler::typeof_struct`]: as variable lookup, but
/// only frames whose struct set holds the name answer, and an unresolved
/// name is an unknown type.
pub open spec fn spec_typeof_struct(scopes: Seq<ScopeV>, name: Seq<char>) -> Result<
    BeatriceTypeV,
    TypeErrorV,
>
    decreases scopes.len(),
{
    if scopes.len() == 0 {
        Err(TypeErrorV::NotRecognizedType(name))
    } else {
        let s = scopes[0];
        if s.struct_names.contains(name) {
            match spec_kindof(s, name) {
                Some(t) => Ok(t),
                None => Err(TypeErrorV::NotRecognizedVar(name)),
            }
        } else {
            spec_typeof_struct(scopes.drop_first(), name)
        }
    }
}

/// Mirror of [`BeatriceTranspiler::t_abstract_from_primitive`]: the type an
/// annotation denotes — `void`, `int` and `float` are the primitives, any
/// other primitive name is unknown, and function annotations convert
/// pointwise.
pub open spec fn spec_t_abstract(t: TypeAstV) -> Result<BeatriceTypeV, TypeErrorV>
    decreases t, 1int,
{
    match t {
        TypeAstV::Primitive(s) => {
            if s == "void"@ {
                Ok(BeatriceTypeV::Void)
            } else if s == "int"@ {
                Ok(BeatriceTypeV::Int)
            } else if s == "float"@ {
                Ok(BeatriceTypeV::Float)
            } else {
                Err(TypeErrorV::NotRecognizedType(s))
            }
        },
        TypeAstV::Function { params, return_type } => {
            match spec_t_abstract_seq(params, 0) {
                Err(e) => Err(e),
                Ok(ps) => match spec_t_abstract(*return_type) {
                    Err(e) => Err(e),
                    Ok(rt) => Ok(
                        BeatriceTypeV::Function { params: ps, return_type: Box::new(rt) },
                    ),
                },
            }
        },
    }
}

/// The types denoted by the annotations from position `i` on.
pub open spec fn spec_t_abstract_seq(params: Seq<TypeAstV>, i: int) -> Result<
    Seq<BeatriceTypeV>,
    TypeErrorV,
>
    decreases params, params.len() - i,
{
    if i < 0 || i >= params.len() {
        Ok(Seq::empty())
    } else {
        match spec_t_abstract(params[i]) {
            Err(e) => Err(e),
            Ok(t) => match spec_t_abstract_seq(params, i + 1) {
                Err(e) => Err(e),
                Ok(rest) => Ok(seq![t] + rest),
            },
        }
    }
}

/// Mirror of [`BeatriceTranspiler::ast_typeof_function`]: the signature a
/// function declaration denotes. Only meaningful on function nodes.
pub open spec fn spec_ast_typeof_function(f: AstV) -> Result<BeatriceTypeV, TypeErrorV> {
    match f {
        AstV::Function { params, returntype, .. } => {
            match spec_t_abstract_params(params, 0) {
                Err(e) => Err(e),
                Ok(ps) => match spec_t_abstract(returntype) {
                    Err(e) => Err(e),
                    Ok(rt) => Ok(
                        BeatriceTypeV::Function { params: ps, return_type: Box::new(rt) },
                    ),
                },
            }
        },
        _ => Err(TypeErrorV::ExpectedValue),
    }
}

/// The types denoted by the parameter annotations from position `i` on.
pub open spec fn spec_t_abstract_params(params: Seq<KeyTypePairV>, i: int) -> Result<
    Seq<BeatriceTypeV>,
    TypeErrorV,
>
    decreases params.len() - i,
{
    if i < 0 || i >= params.len() {
        Ok(Seq::empty())
    } else {
        match spec_t_abstract(params[i].kindof) {
            Err(e) => Err(e),
            Ok(t) => match spec_t_abstract_params(params, i + 1) {
                Err(e) => Err(e),
                Ok(rest) => Ok(seq![t] + rest),
            },
        }
    }
}

/// Mirror of [`BeatriceTranspiler::ast_typeof_struct`]: the shape a struct
/// declaration denotes. Only meaningful on struct nodes.
pub open spec fn spec_ast_typeof_struct(s: AstV) -> Result<BeatriceTypeV, TypeErrorV> {
    match s {
        AstV::Struct { fields, .. } => match spec_struct_shape(fields, 0) {
            Err(e) => Err(e),
            Ok(fs) => Ok(BeatriceTypeV::Struct { fields: fs }),
        },
        _ => Err(TypeErrorV::ExpectedValue),
    }
}

/// The declared fields from position `i` on, with their denoted types.
pub open spec fn spec_struct_shape(fields: Seq<KeyTypePairV>, i: int) -> Result<
    Seq<FieldTypeV>,
    TypeErrorV,
>
    decreases fields.len() - i,
{
    if i < 0 || i >= fields.len() {
        Ok(Seq::empty())
    } else {
        match spec_t_abstract(fields[i].kindof) {
            Err(e) => Err(e),
            Ok(t) => match spec_struct_shape(fields, i + 1) {
                Err(e) => Err(e),
                Ok(rest) => Ok(seq![FieldTypeV { name: fields[i].key, kindof: t }] + rest),
            },
        }
    }
}

/// The declared type of a field name, searched front to back.
pub open spec fn find_field(declared: Seq<FieldTypeV>, key: Seq<char>) -> Option<BeatriceTypeV>
    decreases declared,
{
    if declared.len() == 0 {
        None
    } else if declared[0].name == key {
        Some(declared[0].kindof)
    } else {
        find_field(declared.drop_first(), key)
    }
}

/// Whether a literal provides a field of the given name.
pub open spec fn lits_have_key(lits: Seq<KeyExprPairV>, name: Seq<char>) -> bool {
    exists|i: int| 0 <= i < lits.len() && lits[i].key == name
}

/// The declared field names, in declaration order, that the literal does
/// not provide.
pub open spec fn missing_fields(declared: Seq<FieldTypeV>, lits: Seq<KeyExprPairV>) -> Seq<
    Seq<char>,
>
    decreases declared,
{
    if declared.len() == 0 {
        Seq::empty()
    } else {
        let rest = missing_fields(declared.drop_first(), lits);
        if lits_have_key(lits, declared[0].name) {
            rest
        } else {
            seq![declared[0].name] + rest
        }
    }
}

/// Checks the literal's fields from position `i` on against the declared
/// shape: an undeclared name is the unknown-field error, a value of the
/// wrong type the wrong-field-type error.
pub open spec fn spec_check_lit_fields(
    scopes: Seq<ScopeV>,
    target: Seq<char>,
    declared: Seq<FieldTypeV>,
    lits: Seq<KeyExprPairV>,
    i: int,
) -> Result<(), TypeErrorV>
    decreases lits, lits.len() - i,
{
    if i < 0 || i >= lits.len() {
        Ok(())
    } else {
        let f = lits[i];
        match find_field(declared, f.key) {
            None => Err(TypeErrorV::InvalidFieldName { field: f.key, target_struct: target }),
            Some(ft) => match spec_typeof_expr(scopes, f.value) {
                Err(e) => Err(e),
                Ok(vt) => {
                    if vt != ft {
                        Err(
                            TypeErrorV::InvalidFieldValue {
                                target,
                                field: f.key,
                                expected: ft,
                                received: vt,
                            },
                        )
                    } else {
                        spec_check_lit_fields(scopes, target, declared, lits, i + 1)
                    }
                },
            },
        }
    }
}

/// Mirror of the expression-typing walk: the type an expression evaluates
/// to, under the given scope chain. A binary expression takes its left
/// operand's type; a struct literal checks its fields against the declared
/// shape; a conditional with both branches takes their common type and
/// reports a mismatch; a conditional without an else, a loop and an empty
/// block are void; a non-empty block takes its last statement's type.
pub open spec fn spec_typeof_expr(scopes: Seq<ScopeV>, e: AstV) -> Result<
    BeatriceTypeV,
    TypeErrorV,
>
    decreases e, 1int,
{
    match e {
        AstV::Float(_) => Ok(BeatriceTypeV::Float),
        AstV::Int(_) => Ok(BeatriceTypeV::Int),
        AstV::VarDecl { body, .. } => spec_typeof_expr(scopes, *body),
        AstV::Identifier(s) => spec_typeof_var(scopes, s),
        AstV::BinExpr(lhs, _, _) => spec_typeof_expr(scopes, *lhs),
        AstV::Function { .. } => spec_ast_typeof_function(e),
        AstV::Return(r) => spec_typeof_expr(scopes, *r),
        AstV::FunctionCall { name, .. } => match spec_typeof_function(scopes, name) {
            Err(err) => Err(err),
            Ok(t) => match t {
                BeatriceTypeV::Function { return_type, .. } => Ok(*return_type),
                _ => Err(TypeErrorV::ExpectedValue),
            },
        },
        AstV::Struct { .. } => spec_ast_typeof_struct(e),
        AstV::StructExpr { name, fields } => match spec_typeof_struct(scopes, name) {
            Err(err) => Err(err),
            Ok(t) => match t {
                BeatriceTypeV::Struct { fields: declared } => {
                    match spec_check_lit_fields(scopes, name, declared, fields, 0) {
                        Err(e2) => Err(e2),
                        Ok(u) => {
                            let missing = missing_fields(declared, fields);
                            if missing.len() != 0 {
                                Err(TypeErrorV::NotCorrectFields { fields: missing, target: name })
                            } else {
                                Ok(BeatriceTypeV::Struct { fields: declared })
                            }
                        },
                    }
                },
                _ => Err(TypeErrorV::ExpectedValue),
            },
        },
        AstV::If { expr, block, elseblock } => match elseblock {
            Some(eb) => match spec_typeof_expr(scopes, *block) {
                Err(err) => Err(err),
                Ok(tb) => match spec_typeof_expr(scopes, *eb) {
                    Err(err) => Err(err),
                    Ok(te) => {
                        if tb != te {
                            Err(TypeErrorV::IfElseWrong { ifbranch: tb, elsebranch: te })
                        } else {
                            Ok(tb)
                        }
                    },
                },
            },
            None => Ok(BeatriceTypeV::Void),
        },
        AstV::Block(stmts) => {
            if stmts.len() == 0 {
                Ok(BeatriceTypeV::Void)
            } else {
                spec_typeof_expr(scopes, stmts.last())
            }
        },
        AstV::Loop(_) => Ok(BeatriceTypeV::Void),
    }
}

/// A frame chain with the name bound in its innermost frame as a variable.
pub open spec fn define_var_in_last(
    scopes: Seq<ScopeV>,
    name: Seq<char>,
    kind: BeatriceTypeV,
) -> Seq<ScopeV> {
    if scopes.len() == 0 {
        scopes
    } else {
        let s = scopes.last();
        scopes.update(
            scopes.len() - 1,
            ScopeV {
                var_names: s.var_names.insert(name),
                types: s.types.insert(name, kind),
                ..s
            },
        )
    }
}

/// A frame chain with the name bound in its innermost frame as a function.
pub open spec fn define_fn_in_last(
    scopes: Seq<ScopeV>,
    name: Seq<char>,
    kind: BeatriceTypeV,
) -> Seq<ScopeV> {
    if scopes.len() == 0 {
        scopes
    } else {
        let s = scopes.last();
        scopes.update(
            scopes.len() - 1,
            ScopeV {
                function_names: s.function_names.insert(name),
                types: s.types.insert(name, kind),
                ..s
            },
        )
    }
}

/// A frame chain with the name bound in its innermost frame as a struct.
pub open spec fn define_struct_in_last(
    scopes: Seq<ScopeV>,
    name: Seq<char>,
    kind: BeatriceTypeV,
) -> Seq<ScopeV> {
    if scopes.len() == 0 {
        scopes
    } else {
        let s = scopes.last();
        scopes.update(
            scopes.len() - 1,
            ScopeV {
                struct_names: s.struct_names.insert(name),
                types: s.types.insert(name, kind),
                ..s
            },
        )
    }
}

/// An empty child frame.
pub open spec fn empty_scope() -> ScopeV {
    ScopeV {
        var_names: Set::empty(),
        function_names: Set::empty(),
        struct_names: Set::empty(),
        types: Map::empty(),
    }
}

/// The chain after a function's parameters, from position `i` on, are bound
/// as typed variables in the innermost frame.
pub open spec fn spec_define_params(
    scopes: Seq<ScopeV>,
    params: Seq<KeyTypePairV>,
    i: int,
) -> Result<Seq<ScopeV>, TypeErrorV>
    decreases params.len() - i,
{
    if i < 0 || i >= params.len() {
        Ok(scopes)
    } else {
        match spec_t_abstract(params[i].kindof) {
            Err(e) => Err(e),
            Ok(t) => spec_define_params(
                define_var_in_last(scopes, params[i].key, t),
                params,
                i + 1,
            ),
        }
    }
}

/// The walk over a function body: every return's operand must have the
/// declared return type; other statements are checked and may extend the
/// chain. Yields the final chain and whether any return was seen.
pub open spec fn spec_check_body(
    scopes: Seq<ScopeV>,
    rt: BeatriceTypeV,
    body: Seq<AstV>,
    i: int,
    seen: bool,
) -> Result<(Seq<ScopeV>, bool), TypeErrorV>
    decreases body, body.len() - i,
{
    if i < 0 || i >= body.len() {
        Ok((scopes, seen))
    } else {
        match body[i] {
            AstV::Return(r) => match spec_typeof_expr(scopes, *r) {
                Err(e) => Err(e),
                Ok(rtype) => {
                    if rt != rtype {
                        Err(TypeErrorV::UnexpectedType { expected: rt, received: rtype })
                    } else {
                        spec_check_body(scopes, rt, body, i + 1, true)
                    }
                },
            },
            _ => match spec_check(scopes, body[i]) {
                Err(e) => Err(e),
                Ok(scopes2) => spec_check_body(scopes2, rt, body, i + 1, seen),
            },
        }
    }
}

/// The fold of checking over a statement sequence from position `i` on.
pub open spec fn spec_check_stmts(scopes: Seq<ScopeV>, stmts: Seq<AstV>, i: int) -> Result<
    Seq<ScopeV>,
    TypeErrorV,
>
    decreases stmts, stmts.len() - i,
{
    if i < 0 || i >= stmts.len() {
        Ok(scopes)
    } else {
        match spec_check(scopes, stmts[i]) {
            Err(e) => Err(e),
            Ok(scopes2) => spec_check_stmts(scopes2, stmts, i + 1),
        }
    }
}

/// Checks a call's arguments from position `i` on against the declared
/// parameter types.
pub open spec fn spec_check_args(
    scopes: Seq<ScopeV>,
    params: Seq<BeatriceTypeV>,
    args: Seq<AstV>,
    i: int,
) -> Result<(), TypeErrorV>
    decreases args.len() - i,
{
    if i < 0 || i >= params.len() || i >= args.len() {
        Ok(())
    } else {
        match spec_typeof_expr(scopes, args[i]) {
            Err(e) => Err(e),
            Ok(at) => {
                if at != params[i] {
                    Err(TypeErrorV::UnexpectedType { expected: params[i], received: at })
                } else {
                    spec_check_args(scopes, params, args, i + 1)
                }
            },
        }
    }
}

/// Mirror of [`BeatriceTranspiler::generate_metadata`]: checking one
/// declaration or statement under a scope chain, yielding the extended
/// chain. A function first registers its signature in the enclosing frame,
/// so recursive calls resolve, then opens a child frame for its parameters
/// and locals — which stays on the chain afterwards. A function whose body
/// has no return must be declared void. A call must name a known function
/// and supply exactly its declared parameters. A checked declaration stops
/// at its first error.
pub open spec fn spec_check(scopes: Seq<ScopeV>, a: AstV) -> Result<Seq<ScopeV>, TypeErrorV>
    decreases a, 2int,
{
    match a {
        AstV::Function { name, params, returntype, body } => {
            match spec_ast_typeof_function(a) {
                Err(e) => Err(e),
                Ok(ftype) => {
                    let scopes1 = define_fn_in_last(scopes, name, ftype).push(empty_scope());
                    match spec_define_params(scopes1, params, 0) {
                        Err(e) => Err(e),
                        Ok(scopes2) => {
                            let rt = match ftype {
                                BeatriceTypeV::Function { return_type, .. } => *return_type,
                                _ => BeatriceTypeV::Void,
                            };
                            match spec_check_body(scopes2, rt, body, 0, false) {
                                Err(e) => Err(e),
                                Ok(sb) => {
                                    if !sb.1 && rt != BeatriceTypeV::Void {
                                        Err(
                                            TypeErrorV::UnexpectedType {
                                                expected: rt,
                                                received: BeatriceTypeV::Void,
                                            },
                                        )
                                    } else {
                                        Ok(sb.0)
                                    }
                                },
                            }
                        },
                    }
                },
            }
        },
        AstV::Identifier(s) => match spec_typeof_var(scopes, s) {
            Err(e) => Err(e),
            Ok(_) => Ok(scopes),
        },
        AstV::Int(_) => Ok(scopes),
        AstV::Float(_) => Ok(scopes),
        AstV::VarDecl { varname, body, .. } => match spec_typeof_expr(scopes, *body) {
            Err(e) => Err(e),
            Ok(kind) => Ok(define_var_in_last(scopes, varname, kind)),
        },
        AstV::BinExpr(lhs, rhs, _) => match spec_check(scopes, *lhs) {
            Err(e) => Err(e),
            Ok(scopes2) => spec_check(scopes2, *rhs),
        },
        AstV::Return(r) => spec_check(scopes, *r),
        AstV::FunctionCall { name, args } => match spec_typeof_function(scopes, name) {
            Err(e) => Err(e),
            Ok(t) => match t {
                BeatriceTypeV::Function { params, .. } => {
                    if params.len() != args.len() {
                        Err(TypeErrorV::ExpectedValue)
                    } else {
                        match spec_check_args(scopes, params, args, 0) {
                            Err(e) => Err(e),
                            Ok(u) => Ok(scopes),
                        }
                    }
                },
                _ => Err(TypeErrorV::ExpectedValue),
            },
        },
        AstV::Struct { name, .. } => match spec_ast_typeof_struct(a) {
            Err(e) => Err(e),
            Ok(stype) => Ok(define_struct_in_last(scopes, name, stype)),
        },
        AstV::StructExpr { .. } => match spec_typeof_expr(scopes, a) {
            Err(e) => Err(e),
            Ok(_) => Ok(scopes),
        },
        AstV::If { expr, block, elseblock } => match spec_check(scopes, *expr) {
            Err(e) => Err(e),
            Ok(s1) => match spec_check(s1, *block) {
                Err(e) => Err(e),
                Ok(s2) => match elseblock {
                    Some(eb) => spec_check(s2, *eb),
                    None => Ok(s2),
                },
            },
        },
        AstV::Block(stmts) => spec_check_stmts(scopes, stmts, 0),
        AstV::Loop(b) => spec_check(scopes, *b),
    }
}


/// Whether the literal field list provides the name.
fn lits_have_key_exec(lits: &Vec<KeyExprPair>, name: &str) -> (r: bool)
    ensures
        r == lits_have_key(view_kep_seq(lits@), name@),
{
    let ghost lv = view_kep_seq(lits@);
    proof {
        crate::parser::lemma_view_kep_seq_len(lits@);
    }
    let mut i: usize = 0;
    loop
        invariant
            i <= lits@.len(),
            lv == view_kep_seq(lits@),
            lv.len() == lits@.len(),
            forall|j: int| 0 <= j < i ==> lv[j].key != name@,
        ensures
            forall|j: int| 0 <= j < lv.len() ==> lv[j].key != name@,
        decreases lits@.len() - i,
    {
        if i >= lits.len() {
            break;
        }
        if str_eq(lits[i].key.as_str(), name) {
            proof {
                lemma_view_kep_seq_index(lits@, i as int);
            }
            return true;
        }
        proof {
            lemma_view_kep_seq_index(lits@, i as int);
        }
        i = i + 1;
    }
    false
}

/// The declared type of a field name, searched front to back.
fn find_field_exec<'a>(declared: &'a Vec<FieldType>, key: &str) -> (r: Option<&'a BeatriceType>)
    ensures
        match r {
            Some(t) => find_field(view_ft_seq(declared@), key@) == Some(t@),
            None => find_field(view_ft_seq(declared@), key@) is None,
        },
{
    let ghost dv = view_ft_seq(declared@);
    proof {
        lemma_view_ft_seq_len(declared@);
        assert(dv.skip(0) =~= dv);
    }
    let mut i: usize = 0;
    loop
        invariant
            i <= declared@.len(),
            dv == view_ft_seq(declared@),
            dv.len() == declared@.len(),
            find_field(dv, key@) == find_field(dv.skip(i as int), key@),
        ensures
            find_field(dv, key@) == find_field(dv.skip(i as int), key@),
            i as int == dv.len(),
        decreases declared@.len() - i,
    {
        if i >= declared.len() {
            break;
        }
        proof {
            lemma_view_ft_seq_index(declared@, i as int);
            assert(dv.skip(i as int)[0] == dv[i as int]);
        }
        if str_eq(declared[i].name.as_str(), key) {
            proof {
                assert(find_field(dv.skip(i as int), key@) == Some(dv[i as int].kindof));
            }
            return Some(&declared[i].kindof);
        }
        i = i + 1;
        proof {
            assert(dv.skip(i - 1).drop_first() =~= dv.skip(i as int));
        }
    }
    proof {
        assert(dv.skip(dv.len() as int) =~= Seq::<FieldTypeV>::empty());
    }
    None
}

/// The declared field names the literal does not provide, in declaration
/// order.
fn compute_missing(declared: &Vec<FieldType>, lits: &Vec<KeyExprPair>) -> (r: Vec<String>)
    ensures
        view_name_seq(r@) == missing_fields(view_ft_seq(declared@), view_kep_seq(lits@)),
        r@.len() == view_name_seq(r@).len(),
{
    let ghost dv = view_ft_seq(declared@);
    let ghost lv = view_kep_seq(lits@);
    proof {
        lemma_view_ft_seq_len(declared@);
    }
    let mut out: Vec<String> = Vec::new();
    proof {
        assert(dv.skip(0) =~= dv);
        assert(view_name_seq(out@) =~= Seq::<Seq<char>>::empty());
        assert(view_name_seq(out@) + missing_fields(dv, lv) =~= missing_fields(dv, lv));
    }
    let mut i: usize = 0;
    loop
        invariant
            i <= declared@.len(),
            dv == view_ft_seq(declared@),
            lv == view_kep_seq(lits@),
            dv.len() == declared@.len(),
            missing_fields(dv, lv) == view_name_seq(out@) + missing_fields(
                dv.skip(i as int),
                lv,
            ),
        ensures
            missing_fields(dv, lv) == view_name_seq(out@),
            out@.len() == view_name_seq(out@).len(),
        decreases declared@.len() - i,
    {
        proof {
            lemma_view_name_seq_len(out@);
        }
        if i >= declared.len() {
            proof {
                assert(dv.skip(i as int) =~= Seq::<FieldTypeV>::empty());
                assert(missing_fields(dv.skip(i as int), lv) =~= Seq::<Seq<char>>::empty());
                assert(view_name_seq(out@) + Seq::<Seq<char>>::empty() =~= view_name_seq(out@));
            }
            break;
        }
        proof {
            lemma_view_ft_seq_index(declared@, i as int);
            assert(dv.skip(i as int)[0] == dv[i as int]);
            assert(dv.skip(i as int).drop_first() =~= dv.skip(i + 1));
        }
        let have = lits_have_key_exec(lits, declared[i].name.as_str());
        if !have {
            let ghost oldout = out@;
            out.push(declared[i].name.clone());
            proof {
                assert(out@.drop_last() =~= oldout);
                assert(view_name_seq(out@) =~= view_name_seq(oldout).push(dv[i as int].name));
                assert(view_name_seq(oldout).push(dv[i as int].name) + missing_fields(
                    dv.skip(i + 1),
                    lv,
                ) =~= view_name_seq(oldout) + (seq![dv[i as int].name] + missing_fields(
                    dv.skip(i + 1),
                    lv,
                )));
            }
        }
        i = i + 1;
    }
    proof {
        lemma_view_name_seq_len(out@);
    }
    out
}

impl BeatriceTranspiler {
    /// The type an annotation denotes: the three primitive names, or a
    /// function annotation converted pointwise; any other name is the
    /// unknown-type error.
    pub fn t_abstract_from_primitive(datatype: &TypeAst) -> (r: Result<BeatriceType, TypeError>)
        ensures
            match r {
                Ok(t) => spec_t_abstract(datatype@) == Ok::<_, TypeErrorV>(t@),
                Err(e) => spec_t_abstract(datatype@) == Err::<BeatriceTypeV, _>(e@),
            },
        decreases *datatype, 1int,
    {
        match datatype {
            TypeAst::Primitive(s) => {
                if str_eq(s.as_str(), "void") {
                    Ok(BeatriceType::Void)
                } else if str_eq(s.as_str(), "int") {
                    Ok(BeatriceType::Int)
                } else if str_eq(s.as_str(), "float") {
                    Ok(BeatriceType::Float)
                } else {
                    Err(TypeError::NotRecognizedType(s.clone()))
                }
            },
            TypeAst::Function { params, return_type } => {
                let ghost pv = view_type_seq(params@);
                let ghost dv_full = datatype@;
                proof {
                    crate::parser::lemma_view_type_seq_len(params@);
                    assert(decreases_to!(*datatype => *params));
                    assert(decreases_to!(*params => params@));
                }
                let mut ps: Vec<BeatriceType> = Vec::new();
                proof {
                    assert(view_bt_seq(ps@) =~= Seq::<BeatriceTypeV>::empty());
                    if spec_t_abstract_seq(pv, 0) is Ok {
                        assert(view_bt_seq(ps@) + spec_t_abstract_seq(pv, 0)->Ok_0
                            =~= spec_t_abstract_seq(pv, 0)->Ok_0);
                    }
                }
                let mut i: usize = 0;
                loop
                    invariant
                        i <= params@.len(),
                        pv == view_type_seq(params@),
                        pv.len() == params@.len(),
                        datatype@ == dv_full,
                        (match dv_full {
                            TypeAstV::Function { params: px, .. } => px == pv,
                            _ => false,
                        }),
                        (decreases_to!(*datatype => params@)),
                        spec_t_abstract_seq(pv, 0) == (match spec_t_abstract_seq(pv, i as int) {
                            Ok(rest) => Ok::<_, TypeErrorV>(view_bt_seq(ps@) + rest),
                            Err(e) => Err(e),
                        }),
                    ensures
                        spec_t_abstract_seq(pv, 0) == Ok::<_, TypeErrorV>(view_bt_seq(ps@)),
                    decreases params@.len() - i,
                {
                    if i >= params.len() {
                        proof {
                            assert(view_bt_seq(ps@) + Seq::<BeatriceTypeV>::empty() =~= view_bt_seq(
                                ps@,
                            ));
                        }
                        break;
                    }
                    proof {
                        lemma_view_type_seq_index(params@, i as int);
                        assert(decreases_to!(params@ => params@[i as int]));
                    }
                    let t = match Self::t_abstract_from_primitive(&params[i]) {
                        Ok(t) => t,
                        Err(e) => {
                            return Err(e);
                        },
                    };
                    let ghost oldps = ps@;
                    let ghost tv = t@;
                    ps.push(t);
                    i = i + 1;
                    proof {
                        assert(ps@.drop_last() =~= oldps);
                        assert(view_bt_seq(ps@) =~= view_bt_seq(oldps).push(tv));
                        if spec_t_abstract_seq(pv, i as int) is Ok {
                            let rest = spec_t_abstract_seq(pv, i as int)->Ok_0;
                            assert(view_bt_seq(oldps) + (seq![tv] + rest) =~= view_bt_seq(ps@)
                                + rest);
                        }
                    }
                }
                let rtype = match Self::t_abstract_from_primitive(return_type) {
                    Ok(t) => t,
                    Err(e) => {
                        return Err(e);
                    },
                };
                Ok(BeatriceType::Function { params: ps, return_type: Box::new(rtype) })
            },
        }
    }

    /// The signature a function declaration denotes: its parameter types in
    /// order and its return type.
    pub(crate) fn ast_typeof_function(&self, f: &AST) -> (r: Result<BeatriceType, TypeError>)
        requires
            f@ is Function,
        ensures
            match r {
                Ok(t) => spec_ast_typeof_function(f@) == Ok::<_, TypeErrorV>(t@) && t@ is Function,
                Err(e) => spec_ast_typeof_function(f@) == Err::<BeatriceTypeV, _>(e@),
            },
    {
        match f {
            AST::Function { params, returntype, .. } => {
                let ghost pv = view_ktp_seq(params@);
                let ghost fv0 = f@;
                proof {
                    crate::parser::lemma_view_ktp_seq_len(params@);
                }
                let mut fparams: Vec<BeatriceType> = Vec::new();
                proof {
                    assert(view_bt_seq(fparams@) =~= Seq::<BeatriceTypeV>::empty());
                    if spec_t_abstract_params(pv, 0) is Ok {
                        assert(view_bt_seq(fparams@) + spec_t_abstract_params(pv, 0)->Ok_0
                            =~= spec_t_abstract_params(pv, 0)->Ok_0);
                    }
                }
                let mut i: usize = 0;
                loop
                    invariant
                        i <= params@.len(),
                        pv == view_ktp_seq(params@),
                        pv.len() == params@.len(),
                        f@ == fv0,
                        (match fv0 {
                            AstV::Function { params: px, .. } => px == pv,
                            _ => false,
                        }),
                        spec_t_abstract_params(pv, 0) == (match spec_t_abstract_params(
                            pv,
                            i as int,
                        ) {
                            Ok(rest) => Ok::<_, TypeErrorV>(view_bt_seq(fparams@) + rest),
                            Err(e) => Err(e),
                        }),
                    ensures
                        spec_t_abstract_params(pv, 0) == Ok::<_, TypeErrorV>(
                            view_bt_seq(fparams@),
                        ),
                    decreases params@.len() - i,
                {
                    if i >= params.len() {
                        proof {
                            assert(view_bt_seq(fparams@) + Seq::<BeatriceTypeV>::empty()
                                =~= view_bt_seq(fparams@));
                        }
                        break;
                    }
                    proof {
                        lemma_view_ktp_seq_index(params@, i as int);
                    }
                    let t = match Self::t_abstract_from_primitive(&params[i].kindof) {
                        Ok(t) => t,
                        Err(e) => {
                            return Err(e);
                        },
                    };
                    let ghost oldps = fparams@;
                    let ghost tv = t@;
                    fparams.push(t);
                    i = i + 1;
                    proof {
                        assert(fparams@.drop_last() =~= oldps);
                        assert(view_bt_seq(fparams@) =~= view_bt_seq(oldps).push(tv));
                        if spec_t_abstract_params(pv, i as int) is Ok {
                            let rest = spec_t_abstract_params(pv, i as int)->Ok_0;
                            assert(view_bt_seq(oldps) + (seq![tv] + rest) =~= view_bt_seq(fparams@)
                                + rest);
                        }
                    }
                }
                let rtype = match Self::t_abstract_from_primitive(returntype) {
                    Ok(t) => t,
                    Err(e) => {
                        return Err(e);
                    },
                };
                Ok(BeatriceType::Function { params: fparams, return_type: Box::new(rtype) })
            },
            _ => {
                proof {
                    assert(false);
                }
                Err(TypeError::ExpectedValue)
            },
        }
    }

    /// The shape a struct declaration denotes: its fields in declaration
    /// order, each with the type its annotation denotes.
    pub(crate) fn ast_typeof_struct(&self, s: &AST) -> (r: Result<BeatriceType, TypeError>)
        requires
            s@ is Struct,
        ensures
            match r {
                Ok(t) => spec_ast_typeof_struct(s@) == Ok::<_, TypeErrorV>(t@) && t@ is Struct,
                Err(e) => spec_ast_typeof_struct(s@) == Err::<BeatriceTypeV, _>(e@),
            },
    {
        match s {
            AST::Struct { fields, .. } => {
                let ghost fv = view_ktp_seq(fields@);
                let ghost sv0 = s@;
                proof {
                    crate::parser::lemma_view_ktp_seq_len(fields@);
                }
                let mut shape: Vec<FieldType> = Vec::new();
                proof {
                    assert(view_ft_seq(shape@) =~= Seq::<FieldTypeV>::empty());
                    if spec_struct_shape(fv, 0) is Ok {
                        assert(view_ft_seq(shape@) + spec_struct_shape(fv, 0)->Ok_0
                            =~= spec_struct_shape(fv, 0)->Ok_0);
                    }
                }
                let mut i: usize = 0;
                loop
                    invariant
                        i <= fields@.len(),
                        fv == view_ktp_seq(fields@),
                        fv.len() == fields@.len(),
                        s@ == sv0,
                        (match sv0 {
                            AstV::Struct { fields: fx, .. } => fx == fv,
                            _ => false,
                        }),
                        spec_struct_shape(fv, 0) == (match spec_struct_shape(fv, i as int) {
                            Ok(rest) => Ok::<_, TypeErrorV>(view_ft_seq(shape@) + rest),
                            Err(e) => Err(e),
                        }),
                    ensures
                        spec_struct_shape(fv, 0) == Ok::<_, TypeErrorV>(view_ft_seq(shape@)),
                    decreases fields@.len() - i,
                {
                    if i >= fields.len() {
                        proof {
                            assert(view_ft_seq(shape@) + Seq::<FieldTypeV>::empty() =~= view_ft_seq(
                                shape@,
                            ));
                        }
                        break;
                    }
                    proof {
                        lemma_view_ktp_seq_index(fields@, i as int);
                    }
                    let t = match Self::t_abstract_from_primitive(&fields[i].kindof) {
                        Ok(t) => t,
                        Err(e) => {
                            return Err(e);
                        },
                    };
                    let name2 = fields[i].key.clone();
                    let node = FieldType { name: name2, kindof: t };
                    let ghost oldsh = shape@;
                    let ghost nv = node@;
                    shape.push(node);
                    i = i + 1;
                    proof {
                        assert(shape@.drop_last() =~= oldsh);
                        assert(view_ft_seq(shape@) =~= view_ft_seq(oldsh).push(nv));
                        if spec_struct_shape(fv, i as int) is Ok {
                            let rest = spec_struct_shape(fv, i as int)->Ok_0;
                            assert(view_ft_seq(oldsh) + (seq![nv] + rest) =~= view_ft_seq(shape@)
                                + rest);
                        }
                    }
                }
                Ok(BeatriceType::Struct { fields: shape })
            },
            _ => {
                proof {
                    assert(false);
                }
                Err(TypeError::ExpectedValue)
            },
        }
    }

    /// The type of a variable or function name, resolved from the global
    /// frame inward: an outer binding wins over an inner one of the same
    /// name.
    pub(crate) fn typeof_var(&self, identifier: &str) -> (r: Result<BeatriceType, TypeError>)
        ensures
            match r {
                Ok(t) => spec_typeof_var(self@, identifier@) == Ok::<_, TypeErrorV>(t@),
                Err(e) => spec_typeof_var(self@, identifier@) == Err::<BeatriceTypeV, _>(e@),
            },
    {
        let ghost chain = self@;
        proof {
            lemma_view_scope_seq_len(self.scopes@);
        }
        let n = self.scopes.len();
        proof {
            assert(chain.skip(0) =~= chain);
        }
        let mut i: usize = 0;
        loop
            invariant
                i <= n,
                n == self.scopes@.len(),
                chain == self@,
                chain.len() == n,
                spec_typeof_var(chain, identifier@) == spec_typeof_var(
                    chain.skip(i as int),
                    identifier@,
                ),
            ensures
                spec_typeof_var(chain, identifier@) == spec_typeof_var(
                    chain.skip(i as int),
                    identifier@,
                ),
                i == n,
            decreases n - i,
        {
            if i >= n {
                break;
            }
            proof {
                lemma_view_scope_seq_index(self.scopes@, i as int);
                assert(chain.skip(i as int)[0] == chain[i as int]);
            }
            let scope = &self.scopes[i];
            if scope.has_variable_or_function(identifier) {
                match scope.kindof(identifier) {
                    Ok(t) => {
                        return Ok(t.clone());
                    },
                    Err(e) => {
                        return Err(e);
                    },
                }
            }
            i = i + 1;
            proof {
                assert(chain.skip(i - 1).drop_first() =~= chain.skip(i as int));
            }
        }
        proof {
            assert(chain.skip(n as int) =~= Seq::<ScopeV>::empty());
        }
        Err(TypeError::NotRecognizedVar(identifier.to_owned()))
    }

    /// The type of a function name, resolved from the global frame inward.
    pub(crate) fn typeof_function(&self, identifier: &str) -> (r: Result<BeatriceType, TypeError>)
        ensures
            match r {
                Ok(t) => spec_typeof_function(self@, identifier@) == Ok::<_, TypeErrorV>(t@),
                Err(e) => spec_typeof_function(self@, identifier@) == Err::<BeatriceTypeV, _>(e@),
            },
    {
        let ghost chain = self@;
        proof {
            lemma_view_scope_seq_len(self.scopes@);
        }
        let n = self.scopes.len();
        proof {
            assert(chain.skip(0) =~= chain);
        }
        let mut i: usize = 0;
        loop
            invariant
                i <= n,
                n == self.scopes@.len(),
                chain == self@,
                chain.len() == n,
                spec_typeof_function(chain, identifier@) == spec_typeof_function(
                    chain.skip(i as int),
                    identifier@,
                ),
            ensures
                spec_typeof_function(chain, identifier@) == spec_typeof_function(
                    chain.skip(i as int),
                    identifier@,
                ),
                i == n,
            decreases n - i,
        {
            if i >= n {
                break;
            }
            proof {
                lemma_view_scope_seq_index(self.scopes@, i as int);
                assert(chain.skip(i as int)[0] == chain[i as int]);
            }
            let scope = &self.scopes[i];
            if scope.has_function(identifier) {
                match scope.kindof(identifier) {
                    Ok(t) => {
                        return Ok(t.clone());
                    },
                    Err(e) => {
                        return Err(e);
                    },
                }
            }
            i = i + 1;
            proof {
                assert(chain.skip(i - 1).drop_first() =~= chain.skip(i as int));
            }
        }
        proof {
            assert(chain.skip(n as int) =~= Seq::<ScopeV>::empty());
        }
        Err(TypeError::NotRecognizedVar(identifier.to_owned()))
    }

    /// The shape of a struct name, resolved from the global frame inward;
    /// an unresolved name is an unknown type.
    pub(crate) fn typeof_struct(&self, identifier: &str) -> (r: Result<BeatriceType, TypeError>)
        ensures
            match r {
                Ok(t) => spec_typeof_struct(self@, identifier@) == Ok::<_, TypeErrorV>(t@),
                Err(e) => spec_typeof_struct(self@, identifier@) == Err::<BeatriceTypeV, _>(e@),
            },
    {
        let ghost chain = self@;
        proof {
            lemma_view_scope_seq_len(self.scopes@);
        }
        let n = self.scopes.len();
        proof {
            assert(chain.skip(0) =~= chain);
        }
        let mut i: usize = 0;
        loop
            invariant
                i <= n,
                n == self.scopes@.len(),
                chain == self@,
                chain.len() == n,
                spec_typeof_struct(chain, identifier@) == spec_typeof_struct(
                    chain.skip(i as int),
                    identifier@,
                ),
            ensures
                spec_typeof_struct(chain, identifier@) == spec_typeof_struct(
                    chain.skip(i as int),
                    identifier@,
                ),
                i == n,
            decreases n - i,
        {
            if i >= n {
                break;
            }
            proof {
                lemma_view_scope_seq_index(self.scopes@, i as int);
                assert(chain.skip(i as int)[0] == chain[i as int]);
            }
            let scope = &self.scopes[i];
            if scope.has_struct(identifier) {
                match scope.kindof(identifier) {
                    Ok(t) => {
                        return Ok(t.clone());
                    },
                    Err(e) => {
                        return Err(e);
                    },
                }
            }
            i = i + 1;
            proof {
                assert(chain.skip(i - 1).drop_first() =~= chain.skip(i as int));
            }
        }
        proof {
            assert(chain.skip(n as int) =~= Seq::<ScopeV>::empty());
        }
        Err(TypeError::NotRecognizedType(identifier.to_owned()))
    }

    /// The type an expression evaluates to under the current scope chain,
    /// exactly [`spec_typeof_expr`].
    pub(crate) fn ast_typeof_expression(&self, expr: &AST) -> (r: Result<BeatriceType, TypeError>)
        ensures
            match r {
                Ok(t) => spec_typeof_expr(self@, expr@) == Ok::<_, TypeErrorV>(t@),
                Err(e) => spec_typeof_expr(self@, expr@) == Err::<BeatriceTypeV, _>(e@),
            },
        decreases *expr, 1int,
    {
        match expr {
            AST::Float(_) => Ok(BeatriceType::Float),
            AST::Int(_) => Ok(BeatriceType::Int),
            AST::VarDecl { body, .. } => self.ast_typeof_expression(body),
            AST::Identifier(s) => self.typeof_var(s.as_str()),
            AST::BinExpr(lhs, _, _) => self.ast_typeof_expression(lhs),
            AST::Function { .. } => self.ast_typeof_function(expr),
            AST::Return(r) => self.ast_typeof_expression(r),
            AST::FunctionCall { name, .. } => {
                let t = match self.typeof_function(name.as_str()) {
                    Ok(t) => t,
                    Err(e) => {
                        return Err(e);
                    },
                };
                match t {
                    BeatriceType::Function { return_type, .. } => Ok(*return_type),
                    _ => Err(TypeError::ExpectedValue),
                }
            },
            AST::Struct { .. } => self.ast_typeof_struct(expr),
            AST::StructExpr { name, fields } => {
                let st = match self.typeof_struct(name.as_str()) {
                    Ok(t) => t,
                    Err(e) => {
                        return Err(e);
                    },
                };
                let ghost stv = st@;
                let declared: Vec<FieldType> = match st {
                    BeatriceType::Struct { fields: declared } => declared,
                    _ => {
                        return Err(TypeError::ExpectedValue);
                    },
                };
                let ghost dv = view_ft_seq(declared@);
                let ghost lv = view_kep_seq(fields@);
                let ghost ev = expr@;
                proof {
                    crate::parser::lemma_view_kep_seq_len(fields@);
                    assert(decreases_to!(*expr => *fields));
                    assert(decreases_to!(*fields => fields@));
                }
                let mut i: usize = 0;
                loop
                    invariant
                        i <= fields@.len(),
                        dv == view_ft_seq(declared@),
                        lv == view_kep_seq(fields@),
                        lv.len() == fields@.len(),
                        expr@ == ev,
                        (match ev {
                            AstV::StructExpr { name: nx, fields: fx } => nx == name@ && fx == lv,
                            _ => false,
                        }),
                        spec_typeof_struct(self@, name@) == Ok::<_, TypeErrorV>(stv),
                        (match stv {
                            BeatriceTypeV::Struct { fields: dx } => dx == dv,
                            _ => false,
                        }),
                        (decreases_to!(*expr => fields@)),
                        spec_check_lit_fields(self@, name@, dv, lv, 0) == spec_check_lit_fields(
                            self@,
                            name@,
                            dv,
                            lv,
                            i as int,
                        ),
                    ensures
                        spec_check_lit_fields(self@, name@, dv, lv, 0) == Ok::<_, TypeErrorV>(()),
                    decreases fields@.len() - i,
                {
                    if i >= fields.len() {
                        break;
                    }
                    proof {
                        lemma_view_kep_seq_index(fields@, i as int);
                        assert(decreases_to!(fields@ => fields@[i as int]));
                        assert(decreases_to!(fields@[i as int] => fields@[i as int].value));
                    }
                    let f = &fields[i];
                    let ft = match find_field_exec(&declared, f.key.as_str()) {
                        Some(ft) => ft,
                        None => {
                            return Err(
                                TypeError::InvalidFieldName {
                                    field: f.key.clone(),
                                    target_struct: name.clone(),
                                },
                            );
                        },
                    };
                    let vt = match self.ast_typeof_expression(&f.value) {
                        Ok(t) => t,
                        Err(e) => {
                            return Err(e);
                        },
                    };
                    if !bt_eq(&vt, ft) {
                        return Err(
                            TypeError::InvalidFieldValue {
                                target: name.clone(),
                                field: f.key.clone(),
                                expected: ft.clone(),
                                received: vt,
                            },
                        );
                    }
                    i = i + 1;
                }
                let missing = compute_missing(&declared, fields);
                if missing.len() != 0 {
                    proof {
                        lemma_view_name_seq_len(missing@);
                    }
                    Err(TypeError::NotCorrectFields { fields: missing, target: name.clone() })
                } else {
                    proof {
                        lemma_view_name_seq_len(missing@);
                    }
                    Ok(BeatriceType::Struct { fields: declared })
                }
            },
            AST::If { expr: cond, block, elseblock } => match elseblock {
                Some(eb) => {
                    let tb = match self.ast_typeof_expression(block) {
                        Ok(t) => t,
                        Err(e) => {
                            return Err(e);
                        },
                    };
                    let te = match self.ast_typeof_expression(eb) {
                        Ok(t) => t,
                        Err(e) => {
                            return Err(e);
                        },
                    };
                    if !bt_eq(&tb, &te) {
                        Err(TypeError::IfElseWrong { ifbranch: tb, elsebranch: te })
                    } else {
                        Ok(tb)
                    }
                },
                None => Ok(BeatriceType::Void),
            },
            AST::Block(stmts) => {
                if stmts.len() == 0 {
                    Ok(BeatriceType::Void)
                } else {
                    proof {
                        crate::parser::lemma_view_ast_seq_len(stmts@);
                        lemma_view_ast_seq_index(stmts@, stmts@.len() - 1);
                    }
                    self.ast_typeof_expression(&stmts[stmts.len() - 1])
                }
            },
            AST::Loop(_) => Ok(BeatriceType::Void),
        }
    }
}


impl BeatriceTranspiler {
    /// Checks one declaration or statement, extending the scope chain as
    /// [`spec_check`] describes; stops at the first type error. When it
    /// fails, the chain may be left partially extended, as an abandoned
    /// check leaves it.
    pub(crate) fn generate_metadata(&mut self, ast: &AST) -> (r: Result<(), TypeError>)
        requires
            old(self)@.len() > 0,
        ensures
            match r {
                Ok(u) => spec_check(old(self)@, ast@) == Ok::<_, TypeErrorV>(final(self)@)
                    && final(self)@.len() >= old(self)@.len(),
                Err(e) => spec_check(old(self)@, ast@) == Err::<Seq<ScopeV>, _>(e@),
            },
            final(self).indent_level == old(self).indent_level,
        decreases *ast, 2int,
    {
        let ghost chain0 = self@;
        let ghost astv = ast@;
        match ast {
            AST::Function { name, params, returntype, body } => {
                let ftype = match self.ast_typeof_function(ast) {
                    Ok(t) => t,
                    Err(e) => {
                        return Err(e);
                    },
                };
                let ghost fv = ftype@;
                let ftype2 = ftype.clone();
                self.current_scope_mut().define_function(name.clone(), ftype2);
                self.enter_scope();
                let ghost chain1 = self@;
                proof {
                    assert(chain1 =~= define_fn_in_last(chain0, name@, ftype@).push(
                        empty_scope(),
                    ));
                }
                let ghost pv = view_ktp_seq(params@);
                proof {
                    crate::parser::lemma_view_ktp_seq_len(params@);
                }
                let mut i: usize = 0;
                loop
                    invariant
                        i <= params@.len(),
                        pv == view_ktp_seq(params@),
                        pv.len() == params@.len(),
                        self@.len() > 0,
                        self@.len() >= chain0.len() + 1,
                        ast@ == astv,
                        (match astv {
                            AstV::Function { name: nx, params: px, .. } => nx == name@ && px
                                == pv,
                            _ => false,
                        }),
                        spec_ast_typeof_function(astv) == Ok::<_, TypeErrorV>(fv),
                        chain1 == define_fn_in_last(chain0, name@, fv).push(empty_scope()),
                        spec_define_params(chain1, pv, 0) == spec_define_params(
                            self@,
                            pv,
                            i as int,
                        ),
                        self.indent_level == old(self).indent_level,
                        chain0 == old(self)@,
                    ensures
                        spec_define_params(chain1, pv, 0) == Ok::<_, TypeErrorV>(self@),
                        self@.len() > 0,
                        self@.len() >= chain0.len() + 1,
                        self.indent_level == old(self).indent_level,
                    decreases params@.len() - i,
                {
                    if i >= params.len() {
                        break;
                    }
                    proof {
                        lemma_view_ktp_seq_index(params@, i as int);
                    }
                    let param_type = match Self::t_abstract_from_primitive(&params[i].kindof) {
                        Ok(t) => t,
                        Err(e) => {
                            return Err(e);
                        },
                    };
                    let ghost pre = self@;
                    self.current_scope_mut().define_variable(params[i].key.clone(), param_type);
                    proof {
                        assert(self@ =~= define_var_in_last(pre, pv[i as int].key, spec_t_abstract(
                            pv[i as int].kindof,
                        )->Ok_0));
                    }
                    i = i + 1;
                }
                let rt: &BeatriceType = match &ftype {
                    BeatriceType::Function { return_type, .. } => return_type,
                    _ => {
                        proof {
                            assert(false);
                        }
                        &ftype
                    },
                };
                let ghost chain2 = self@;
                let ghost bodyv = view_ast_seq(body.body@);
                proof {
                    crate::parser::lemma_view_ast_seq_len(body.body@);
                    assert(decreases_to!(*ast => *body));
                    assert(decreases_to!(*body => body.body));
                    assert(decreases_to!(body.body => body.body@));
                }
                let mut j: usize = 0;
                let mut seen = false;
                loop
                    invariant
                        j <= body.body@.len(),
                        bodyv == view_ast_seq(body.body@),
                        bodyv.len() == body.body@.len(),
                        self@.len() > 0,
                        self@.len() >= chain0.len() + 1,
                        ast@ == astv,
                        (match astv {
                            AstV::Function { name: nx, params: px, body: bx, .. } => nx == name@
                                && px == pv && bx == bodyv,
                            _ => false,
                        }),
                        spec_ast_typeof_function(astv) == Ok::<_, TypeErrorV>(fv),
                        ftype@ == fv,
                        chain1 == define_fn_in_last(chain0, name@, fv).push(empty_scope()),
                        spec_define_params(chain1, pv, 0) == Ok::<_, TypeErrorV>(chain2),
                        rt@ == (match ftype@ {
                            BeatriceTypeV::Function { return_type, .. } => *return_type,
                            _ => BeatriceTypeV::Void,
                        }),
                        (decreases_to!(*ast => body.body@)),
                        spec_check_body(chain2, rt@, bodyv, 0, false) == spec_check_body(
                            self@,
                            rt@,
                            bodyv,
                            j as int,
                            seen,
                        ),
                        self.indent_level == old(self).indent_level,
                        chain0 == old(self)@,
                    ensures
                        spec_check_body(chain2, rt@, bodyv, 0, false) == Ok::<_, TypeErrorV>(
                            (self@, seen),
                        ),
                        self@.len() > 0,
                        self@.len() >= chain0.len() + 1,
                        rt@ == (match ftype@ {
                            BeatriceTypeV::Function { return_type, .. } => *return_type,
                            _ => BeatriceTypeV::Void,
                        }),
                        self.indent_level == old(self).indent_level,
                    decreases body.body@.len() - j,
                {
                    if j >= body.body.len() {
                        break;
                    }
                    proof {
                        lemma_view_ast_seq_index(body.body@, j as int);
                        assert(decreases_to!(body.body@ => body.body@[j as int]));
                    }
                    let stmt = &body.body[j];
                    match stmt {
                        AST::Return(rexpr) => {
                            let rtype = match self.ast_typeof_expression(rexpr) {
                                Ok(t) => t,
                                Err(e) => {
                                    return Err(e);
                                },
                            };
                            if !bt_eq(rt, &rtype) {
                                return Err(
                                    TypeError::UnexpectedType {
                                        expected: rt.clone(),
                                        received: rtype,
                                    },
                                );
                            }
                            seen = true;
                        },
                        _ => {
                            match self.generate_metadata(stmt) {
                                Ok(u) => {},
                                Err(e) => {
                                    return Err(e);
                                },
                            }
                        },
                    }
                    j = j + 1;
                }
                if !seen {
                    let void_type = BeatriceType::Void;
                    if !bt_eq(rt, &void_type) {
                        return Err(
                            TypeError::UnexpectedType {
                                expected: rt.clone(),
                                received: BeatriceType::Void,
                            },
                        );
                    }
                }
                Ok(())
            },
            AST::Identifier(s) => {
                match self.typeof_var(s.as_str()) {
                    Ok(t) => Ok(()),
                    Err(e) => Err(e),
                }
            },
            AST::Int(_) => Ok(()),
            AST::Float(_) => Ok(()),
            AST::VarDecl { varname, body, .. } => {
                let expr_kind = match self.ast_typeof_expression(body) {
                    Ok(t) => t,
                    Err(e) => {
                        return Err(e);
                    },
                };
                let ghost kv = expr_kind@;
                self.current_scope_mut().define_variable(varname.clone(), expr_kind);
                proof {
                    assert(self@ =~= define_var_in_last(chain0, varname@, kv));
                }
                Ok(())
            },
            AST::BinExpr(lhs, rhs, _) => {
                match self.generate_metadata(lhs) {
                    Ok(u) => {},
                    Err(e) => {
                        return Err(e);
                    },
                }
                self.generate_metadata(rhs)
            },
            AST::Return(r) => self.generate_metadata(r),
            AST::FunctionCall { name, args } => {
                let t = match self.typeof_function(name.as_str()) {
                    Ok(t) => t,
                    Err(e) => {
                        return Err(e);
                    },
                };
                let ghost tv = t@;
                let params: Vec<BeatriceType> = match t {
                    BeatriceType::Function { params, .. } => params,
                    _ => {
                        return Err(TypeError::ExpectedValue);
                    },
                };
                proof {
                    crate::transpiler::lemma_view_bt_seq_len(params@);
                    crate::parser::lemma_view_ast_seq_len(args@);
                }
                if params.len() != args.len() {
                    return Err(TypeError::ExpectedValue);
                }
                let ghost pv = view_bt_seq(params@);
                let ghost av = view_ast_seq(args@);
                let mut i: usize = 0;
                loop
                    invariant
                        i <= args@.len(),
                        pv == view_bt_seq(params@),
                        av == view_ast_seq(args@),
                        pv.len() == params@.len(),
                        av.len() == args@.len(),
                        params@.len() == args@.len(),
                        chain0 == self@,
                        ast@ == astv,
                        (match astv {
                            AstV::FunctionCall { name: nx, args: ax } => nx == name@ && ax == av,
                            _ => false,
                        }),
                        spec_typeof_function(chain0, name@) == Ok::<_, TypeErrorV>(tv),
                        (match tv {
                            BeatriceTypeV::Function { params: px, .. } => px == pv,
                            _ => false,
                        }),
                        spec_check_args(chain0, pv, av, 0) == spec_check_args(
                            chain0,
                            pv,
                            av,
                            i as int,
                        ),
                        self.indent_level == old(self).indent_level,
                        chain0 == old(self)@,
                    ensures
                        spec_check_args(chain0, pv, av, 0) == Ok::<_, TypeErrorV>(()),
                        chain0 == self@,
                        self.indent_level == old(self).indent_level,
                    decreases args@.len() - i,
                {
                    if i >= args.len() {
                        break;
                    }
                    proof {
                        lemma_view_ast_seq_index(args@, i as int);
                        crate::transpiler::lemma_view_bt_seq_index(params@, i as int);
                    }
                    let arg_type = match self.ast_typeof_expression(&args[i]) {
                        Ok(t) => t,
                        Err(e) => {
                            return Err(e);
                        },
                    };
                    if !bt_eq(&arg_type, &params[i]) {
                        return Err(
                            TypeError::UnexpectedType {
                                expected: params[i].clone(),
                                received: arg_type,
                            },
                        );
                    }
                    i = i + 1;
                }
                Ok(())
            },
            AST::Struct { name, .. } => {
                let stype = match self.ast_typeof_struct(ast) {
                    Ok(t) => t,
                    Err(e) => {
                        return Err(e);
                    },
                };
                let ghost sv = stype@;
                self.current_scope_mut().define_struct(name.clone(), stype);
                proof {
                    assert(self@ =~= define_struct_in_last(chain0, name@, sv));
                }
                Ok(())
            },
            AST::StructExpr { .. } => {
                match self.ast_typeof_expression(ast) {
                    Ok(t) => Ok(()),
                    Err(e) => Err(e),
                }
            },
            AST::If { expr, block, elseblock } => {
                match self.generate_metadata(expr) {
                    Ok(u) => {},
                    Err(e) => {
                        return Err(e);
                    },
                }
                match self.generate_metadata(block) {
                    Ok(u) => {},
                    Err(e) => {
                        return Err(e);
                    },
                }
                match elseblock {
                    Some(eb) => self.generate_metadata(eb),
                    None => Ok(()),
                }
            },
            AST::Block(stmts) => {
                let ghost sv = view_ast_seq(stmts@);
                proof {
                    crate::parser::lemma_view_ast_seq_len(stmts@);
                    assert(decreases_to!(*ast => *stmts));
                    assert(decreases_to!(*stmts => stmts@));
                }
                let mut i: usize = 0;
                loop
                    invariant
                        i <= stmts@.len(),
                        sv == view_ast_seq(stmts@),
                        sv.len() == stmts@.len(),
                        (decreases_to!(*ast => stmts@)),
                        self@.len() > 0,
                        self@.len() >= chain0.len(),
                        ast@ == astv,
                        astv == AstV::Block(sv),
                        spec_check_stmts(chain0, sv, 0) == spec_check_stmts(self@, sv, i as int),
                        self.indent_level == old(self).indent_level,
                        chain0 == old(self)@,
                    ensures
                        spec_check_stmts(chain0, sv, 0) == Ok::<_, TypeErrorV>(self@),
                        self@.len() >= chain0.len(),
                        self.indent_level == old(self).indent_level,
                    decreases stmts@.len() - i,
                {
                    if i >= stmts.len() {
                        break;
                    }
                    proof {
                        lemma_view_ast_seq_index(stmts@, i as int);
                        assert(decreases_to!(stmts@ => stmts@[i as int]));
                    }
                    match self.generate_metadata(&stmts[i]) {
                        Ok(u) => {},
                        Err(e) => {
                            return Err(e);
                        },
                    }
                    i = i + 1;
                }
                Ok(())
            },
            AST::Loop(b) => self.generate_metadata(b),
        }
    }
}

} // verus!
