use beatrice::transpiler::checkings::checker::TypeChecker as ScopeTable;
use beatrice::transpiler::scope::Scope;
use beatrice::transpiler::transpiler::BeatriceTranspiler;
use beatrice::transpiler::BeatriceType;

#[test]
fn test_scope_table_define_and_get() {
    let mut table = ScopeTable::new();
    assert!(table.get("x").is_none());
    table.define("x".to_string(), BeatriceType::Int);
    assert_eq!(table.get("x"), Some(&BeatriceType::Int));

    // A later definition of the same name replaces the earlier one.
    table.define("x".to_string(), BeatriceType::Float);
    assert_eq!(table.get("x"), Some(&BeatriceType::Float));
    assert!(table.get("y").is_none());
}

#[test]
fn test_scope_name_sets() {
    let mut s = Scope::new();
    assert!(!s.has_function("f"));
    assert!(!s.has_struct("S"));
    assert!(!s.has_variable_or_function("x"));

    s.define_variable("x".to_string(), BeatriceType::Int);
    assert!(s.has_variable_or_function("x"));
    assert!(!s.has_function("x"));

    s.define_function(
        "f".to_string(),
        BeatriceType::Function {
            params: vec![],
            return_type: Box::new(BeatriceType::Void),
        },
    );
    assert!(s.has_function("f"));
    assert!(s.has_variable_or_function("f"));

    s.define_struct(
        "S".to_string(),
        BeatriceType::Struct { fields: vec![] },
    );
    assert!(s.has_struct("S"));

    assert_eq!(s.kindof("x").unwrap(), &BeatriceType::Int);
    assert!(s.kindof("missing").is_err());
}

#[test]
fn test_indentation_bookkeeping() {
    let mut t = BeatriceTranspiler::new();
    assert_eq!(t.indentation_level(), 0);
    assert_eq!(t.indent("x"), "x");

    t.increase_identation_level();
    assert_eq!(t.indentation_level(), 4);
    assert_eq!(t.indent("x"), "    x");

    t.increase_identation_level();
    assert_eq!(t.indentation_level(), 8);

    t.decrease_identation_level();
    t.decrease_identation_level();
    assert_eq!(t.indentation_level(), 0);
}

#[test]
fn test_scope_chain_never_drops_the_global_frame() {
    let mut t = BeatriceTranspiler::new();
    assert_eq!(t.scopes().len(), 1);

    t.enter_scope();
    assert_eq!(t.scopes().len(), 2);
    t.current_scope_mut()
        .define_variable("local".to_string(), BeatriceType::Int);
    assert!(t.current_scope().has_variable_or_function("local"));

    let popped = t.exit_scope();
    assert!(popped.is_some());
    assert!(popped.unwrap().has_variable_or_function("local"));
    assert_eq!(t.scopes().len(), 1);

    // The global frame itself is never removed.
    assert!(t.exit_scope().is_none());
    assert_eq!(t.scopes().len(), 1);
}
