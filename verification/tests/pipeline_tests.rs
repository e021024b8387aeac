use beatrice::parser::{AST, AstErrorKind, Operator, Parser, Program};
use beatrice::transpiler::transpiler::BeatriceTranspiler;
use beatrice::transpiler::{BeatriceType, TypeError};

fn parse_program(src: &str) -> Program {
    Parser::from_content(src).unwrap().gen_ast().unwrap()
}

fn check_and_generate(src: &str) -> Result<String, TypeError> {
    let prog = parse_program(src);
    let mut t = BeatriceTranspiler::new();
    t.start_transpilation(prog.body())
}

#[test]
fn test_let_with_multiplication_parses_to_binexpr() {
    let mut p = Parser::from_content("let a = 52 * 8.5").unwrap();
    let tk = p.eat().unwrap();
    let stmt = p.parse_statment(tk).unwrap();
    match stmt {
        AST::VarDecl {
            varname,
            mutable,
            body,
        } => {
            assert_eq!(varname, "a");
            assert!(!mutable);
            match *body {
                AST::BinExpr(lhs, rhs, op) => {
                    assert!(matches!(*lhs, AST::Int(52)));
                    assert!(matches!(*rhs, AST::Float(f) if f == "8.5"));
                    assert!(matches!(op, Operator::Star(false)));
                }
                other => panic!("expected a binary expression, got {:?}", other),
            }
        }
        other => panic!("expected a variable declaration, got {:?}", other),
    }
}

#[test]
fn test_struct_declaration_parses_with_ordered_fields() {
    let prog = parse_program("struct S { a: int; b: float; }");
    assert_eq!(prog.body().len(), 1);
    match &prog.body()[0] {
        AST::Struct { name, fields } => {
            assert_eq!(name, "S");
            assert_eq!(fields.len(), 2);
            assert_eq!(fields[0].key, "a");
            assert!(
                matches!(&fields[0].kindof, beatrice::parser::TypeAst::Primitive(t) if t == "int")
            );
            assert_eq!(fields[1].key, "b");
            assert!(
                matches!(&fields[1].kindof, beatrice::parser::TypeAst::Primitive(t) if t == "float")
            );
        }
        other => panic!("expected a struct declaration, got {:?}", other),
    }
}

#[test]
fn test_struct_literal_checks_against_declaration() {
    // A complete literal checks successfully.
    let ok = check_and_generate(
        "struct S { a: int; b: float; } function f() { let x = S { a: 1, b: 2.0 }; }",
    );
    assert!(ok.is_ok());

    // A literal missing a declared field fails, naming the absent field.
    let missing = check_and_generate(
        "struct S { a: int; b: float; } function f() { let x = S { a: 1 }; }",
    );
    match missing {
        Err(TypeError::NotCorrectFields { fields, target }) => {
            assert_eq!(target, "S");
            assert_eq!(fields, vec!["b".to_string()]);
        }
        other => panic!("expected a missing-fields error, got {:?}", other),
    }

    // A literal with an undeclared field fails, naming it.
    let unknown = check_and_generate(
        "struct S { a: int; b: float; } function f() { let x = S { a: 1, b: 2.0, c: 3 }; }",
    );
    match unknown {
        Err(TypeError::InvalidFieldName {
            field,
            target_struct,
        }) => {
            assert_eq!(field, "c");
            assert_eq!(target_struct, "S");
        }
        other => panic!("expected an unknown-field error, got {:?}", other),
    }

    // A field of the wrong type fails with the expected and received types.
    let wrong = check_and_generate(
        "struct S { a: int; b: float; } function f() { let x = S { a: 2.5, b: 2.0 }; }",
    );
    match wrong {
        Err(TypeError::InvalidFieldValue {
            target,
            field,
            expected,
            received,
        }) => {
            assert_eq!(target, "S");
            assert_eq!(field, "a");
            assert_eq!(expected, BeatriceType::Int);
            assert_eq!(received, BeatriceType::Float);
        }
        other => panic!("expected a wrong-field-type error, got {:?}", other),
    }
}

#[test]
fn test_single_expression_function_checks_and_generates() {
    let out = check_and_generate("function f(x: int): int = x;").unwrap();
    assert_eq!(out, "function f(x){\n    return x;\n}\n\n");
}

#[test]
fn test_function_without_return_must_be_void() {
    // Declared int, but the body has no return: the mismatch names the
    // declared type against void.
    let r = check_and_generate("function g(): int { let a = 1; }");
    match r {
        Err(TypeError::UnexpectedType { expected, received }) => {
            assert_eq!(expected, BeatriceType::Int);
            assert_eq!(received, BeatriceType::Void);
        }
        other => panic!("expected a type mismatch, got {:?}", other),
    }

    // With a void declaration the same body is fine.
    assert!(check_and_generate("function g() { let a = 1; }").is_ok());
}

#[test]
fn test_return_of_wrong_type_is_rejected() {
    // The last statement without a semicolon is an implicit return.
    let r = check_and_generate("function g(): int { 2.5 }");
    match r {
        Err(TypeError::UnexpectedType { expected, received }) => {
            assert_eq!(expected, BeatriceType::Int);
            assert_eq!(received, BeatriceType::Float);
        }
        other => panic!("expected a type mismatch, got {:?}", other),
    }
}

#[test]
fn test_checked_tree_always_generates() {
    let src = "function f(x: int): int = x; function g(): int { f(1) }";
    let prog = parse_program(src);

    // Checking the whole program succeeds ...
    let mut t = BeatriceTranspiler::new();
    let piped = t.start_transpilation(prog.body()).unwrap();

    // ... and generation alone is total on the checked tree: it consults
    // no type information and yields the same text every time.
    let t2 = BeatriceTranspiler::new();
    let once = t2.transpile(prog.body());
    let twice = t2.transpile(prog.body());
    assert_eq!(once, twice);
    assert_eq!(once, piped);
}

#[test]
fn test_conditional_initializer_with_single_expression_branches() {
    let out = check_and_generate("function h(a: int) { let y = if a -> 1 else -> 2; }").unwrap();
    assert_eq!(out, "function h(a){\n    const y = a ? 1 : 2\n}\n\n");
}

#[test]
fn test_conditional_initializer_with_block_branches() {
    let out =
        check_and_generate("function h(a: int) { let z = if a { 5 } else { 6 }; }").unwrap();
    let expected = "function h(a){\n    let z;\n    if(a){\n        z = 5;\n    } else {\n        z = 6;\n    }\n}\n\n";
    assert_eq!(out, expected);
}

#[test]
fn test_call_checking() {
    // A call with the wrong arity is an error.
    let r = check_and_generate("function f(x: int) { let u = 1; } function g() { f(); }");
    assert!(matches!(r, Err(TypeError::ExpectedValue)));

    // A call with a wrongly typed argument names both types.
    let r = check_and_generate("function f(x: int) { let u = 1; } function g() { f(2.5); }");
    match r {
        Err(TypeError::UnexpectedType { expected, received }) => {
            assert_eq!(expected, BeatriceType::Int);
            assert_eq!(received, BeatriceType::Float);
        }
        other => panic!("expected a type mismatch, got {:?}", other),
    }

    // An unknown callee is an unresolved name.
    let r = check_and_generate("function g() { nothing(); }");
    assert!(matches!(r, Err(TypeError::NotRecognizedVar(n)) if n == "nothing"));
}

#[test]
fn test_unknown_names_are_errors() {
    let r = check_and_generate("function f() { y; }");
    assert!(matches!(r, Err(TypeError::NotRecognizedVar(n)) if n == "y"));

    let r = check_and_generate("function f(x: banana) { let u = 1; }");
    assert!(matches!(r, Err(TypeError::NotRecognizedType(n)) if n == "banana"));
}

#[test]
fn test_conditional_branches_must_agree() {
    let r = check_and_generate("function f(a: int) { let y = if a -> 1 else -> 2.5; }");
    match r {
        Err(TypeError::IfElseWrong {
            ifbranch,
            elsebranch,
        }) => {
            assert_eq!(ifbranch, BeatriceType::Int);
            assert_eq!(elsebranch, BeatriceType::Float);
        }
        other => panic!("expected a branch mismatch, got {:?}", other),
    }
}

#[test]
fn test_expression_conditional_requires_else() {
    let mut p = Parser::from_content("let y = if 1 -> 2;").unwrap();
    let tk = p.eat().unwrap();
    let r = p.parse_statment(tk);
    match r {
        Err(e) => assert!(matches!(e.kind, AstErrorKind::ExpectedElseBranch)),
        Ok(a) => panic!("expected a missing-else error, got {:?}", a),
    }
}

#[test]
fn test_top_level_errors_are_collected() {
    // A stray expression at the top level is an error, but the struct after
    // it is still parsed and reported errors are gathered.
    let r = Parser::from_content("5 struct S { a: int; }")
        .unwrap()
        .gen_ast();
    match r {
        Err(errs) => {
            assert_eq!(errs.len(), 1);
            assert!(matches!(
                errs[0].kind,
                AstErrorKind::InvalidScopeExpr(_)
            ));
        }
        Ok(p) => panic!("expected collected errors, got {:?}", p),
    }
}

#[test]
fn test_struct_declarations_emit_nothing() {
    let out = check_and_generate("struct S { a: int; }").unwrap();
    assert_eq!(out, "\n");
}

#[test]
fn test_immutable_struct_literal_is_sealed() {
    // A bare-name field desugars to reading the identically-named binding;
    // the parser accepts the shorthand only with a following field.
    let out = check_and_generate(
        "struct S { a: int; b: int; } function f(a: int) { let s = S { a, b: 3 }; }",
    )
    .unwrap();
    assert!(out.contains("const s = Object.seal(/**S*/ {a,b:3})"));

    // A mutable binding is not sealed, and a non-shorthand field renders as
    // a key-value pair.
    let out = check_and_generate(
        "struct S { a: int; } function f() { let mut s = S { a: 3 }; }",
    )
    .unwrap();
    assert!(out.contains("const s = /**S*/ {a:3}"));
}

#[test]
fn test_binary_expression_generation_and_parenthesization() {
    // Left-associative folding groups the left side without parentheses.
    let out = check_and_generate("function f(a: int, b: int, c: int): int = a * b + c;").unwrap();
    assert!(out.contains("return a * b + c;"));

    // A loop body renders as the unconditional loop construct.
    let out = check_and_generate("function f() { loop { 1; } }").unwrap();
    assert!(out.contains("for(;;)"));
}

#[test]
fn test_right_operand_parenthesized_when_looser() {
    // A parenthesized additive expression parsed into the right operand of
    // a multiplication binds more loosely, so the generator restores the
    // parentheses; the tighter power operator on the right needs none.
    let out =
        check_and_generate("function f(a: int, b: int, c: int): int = a * (b + c);").unwrap();
    assert!(out.contains("return a * (b + c);"));
}

#[test]
fn test_invalid_return_type_annotation_position() {
    // After the annotated return type, only `=` or `{` may follow.
    let r = Parser::from_content("function f(): int 5;").unwrap().gen_ast();
    match r {
        Err(errs) => {
            // The failed declaration unwinds; the leftover semicolon is
            // then itself an invalid top-level token.
            assert_eq!(errs.len(), 2);
            assert!(matches!(
                errs[0].kind,
                AstErrorKind::InvalidReturnType(_)
            ));
        }
        Ok(p) => panic!("expected an invalid-return-type error, got {:?}", p),
    }
}

#[test]
fn test_unexpected_token_is_reported() {
    // A struct declaration whose field list opens with a semicolon reports
    // the offending token.
    let r = Parser::from_content("struct S { ; }").unwrap().gen_ast();
    match r {
        Err(errs) => {
            assert!(matches!(
                errs[0].kind,
                AstErrorKind::UnexpectedToken(_)
            ));
        }
        Ok(p) => panic!("expected an unexpected-token error, got {:?}", p),
    }
}

#[test]
fn test_outer_scope_wins_name_lookup() {
    // Lookup scans from the global frame inward, so an outer function name
    // resolves from within any later body.
    let src = "function f(): int = 1; function g(): int { f() }";
    assert!(check_and_generate(src).is_ok());
}
