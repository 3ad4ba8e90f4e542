//! Unit tests of the components: scope table, namespace qualification and
//! the function registry.
use silex_lsp::qualify_name;
use silex_lsp::FunctionRegistry;
use silex_lsp::SemanticContext;
use silex_lsp::CAT_PARAMETER;
use silex_lsp::CAT_VARIABLE;

#[test]
fn scope_shadowing_and_restore() {
    let mut ctx = SemanticContext::new(FunctionRegistry::new());
    let name = "x".to_string();
    ctx.add_variable(&name, CAT_VARIABLE);
    assert_eq!(ctx.get_variable_type(&name), Some(CAT_VARIABLE));
    ctx.enter_scope();
    ctx.add_variable(&name, CAT_PARAMETER);
    assert_eq!(ctx.get_variable_type(&name), Some(CAT_PARAMETER));
    ctx.exit_scope();
    assert_eq!(ctx.get_variable_type(&name), Some(CAT_VARIABLE));
}

#[test]
fn scope_first_declaration_wins() {
    let mut ctx = SemanticContext::new(FunctionRegistry::new());
    let name = "x".to_string();
    ctx.add_variable(&name, CAT_VARIABLE);
    ctx.add_variable(&name, CAT_PARAMETER);
    assert_eq!(ctx.get_variable_type(&name), Some(CAT_VARIABLE));
}

#[test]
fn scope_exit_never_drops_global_scope() {
    let mut ctx = SemanticContext::new(FunctionRegistry::new());
    ctx.exit_scope();
    ctx.exit_scope();
    let name = "x".to_string();
    ctx.add_variable(&name, CAT_VARIABLE);
    assert_eq!(ctx.get_variable_type(&name), Some(CAT_VARIABLE));
}

#[test]
fn unresolved_name_is_none() {
    let ctx = SemanticContext::new(FunctionRegistry::new());
    assert_eq!(ctx.get_variable_type(&"missing".to_string()), None);
}

#[test]
fn qualify_empty_path_is_bare_name() {
    let namespace: Vec<String> = Vec::new();
    assert_eq!(qualify_name(&namespace, &"f".to_string()), "f");
}

#[test]
fn qualify_joins_segments_with_separator() {
    let namespace = vec!["a".to_string(), "b".to_string()];
    assert_eq!(qualify_name(&namespace, &"f".to_string()), "a::b::f");
}

#[test]
fn registry_register_and_lookup() {
    let mut funcs = FunctionRegistry::new();
    funcs.register(None, "f".to_string(), 2);
    assert_eq!(funcs.lookup(None, &"f".to_string()), Some(vec![2]));
    assert_eq!(funcs.lookup(None, &"g".to_string()), None);
}

#[test]
fn registry_arity_set_has_no_duplicates() {
    let mut funcs = FunctionRegistry::new();
    funcs.register(None, "f".to_string(), 2);
    funcs.register(None, "f".to_string(), 2);
    funcs.register(None, "f".to_string(), 3);
    assert_eq!(funcs.lookup(None, &"f".to_string()), Some(vec![2, 3]));
}

#[test]
fn registry_receivers_are_separate_buckets() {
    let mut funcs = FunctionRegistry::new();
    funcs.register(Some(7), "len".to_string(), 0);
    assert_eq!(funcs.lookup(Some(7), &"len".to_string()), Some(vec![0]));
    assert_eq!(funcs.lookup(None, &"len".to_string()), None);
    assert_eq!(funcs.lookup(Some(8), &"len".to_string()), None);
}

#[test]
fn context_qualifies_with_its_namespace() {
    let mut ctx = SemanticContext::new(FunctionRegistry::new());
    assert_eq!(ctx.to_complete_name(&"f".to_string()), "f");
    ctx.namespace.push("outer".to_string());
    assert_eq!(ctx.to_complete_name(&"f".to_string()), "outer::f");
}

#[test]
fn diagnostic_source_tag() {
    assert_eq!(silex_lsp::diagnostic_source(), "silex");
}
