//! Full-pass tests: classification, delta encoding and diagnostics of
//! whole token streams.
use silex_lsp::tokenize_document;
use silex_lsp::FunctionRegistry;
use silex_lsp::LexErrorInfo;
use silex_lsp::LiteralKind;
use silex_lsp::PositionedToken;
use silex_lsp::TokenEvent;
use silex_lsp::TokenKind;
use silex_lsp::DiagnosticCode;
use silex_lsp::CAT_FUNCTION;
use silex_lsp::CAT_KEYWORD;
use silex_lsp::CAT_LITERAL;
use silex_lsp::CAT_NUMBER;
use silex_lsp::CAT_OPERATOR;
use silex_lsp::CAT_OTHER;
use silex_lsp::CAT_PARAMETER;
use silex_lsp::CAT_STRING;
use silex_lsp::CAT_TYPE;
use silex_lsp::CAT_UNKNOWN_ID;
use silex_lsp::CAT_VARIABLE;
use silex_lsp::CAT_VAR_DECL_ITEM;
use silex_lsp::SEVERITY_ERROR;

fn tok(kind: TokenKind, line: u32, column_start: u32, column_end: u32) -> TokenEvent {
    Ok(PositionedToken { token: kind, line, column_start, column_end })
}

fn ident(name: &str, line: u32, column_start: u32, column_end: u32) -> TokenEvent {
    tok(TokenKind::Identifier(name.to_string()), line, column_start, column_end)
}

fn lex_error(line: u32, column: u32, message: &str) -> TokenEvent {
    Err(LexErrorInfo { line, column, message: message.to_string() })
}

fn categories(events: &Vec<TokenEvent>, funcs: FunctionRegistry) -> Vec<u32> {
    let (tokens, _) = tokenize_document(events, funcs);
    tokens.iter().map(|t| t.token_type).collect()
}

#[test]
fn delta_encoding_same_line() {
    // Two tokens on one line at columns 1-3 and 5-7: the second record is
    // (delta_line 0, delta_start 4, length 3).
    let events = vec![
        tok(TokenKind::Let, 1, 1, 3),
        ident("x", 1, 5, 7),
    ];
    let (tokens, _) = tokenize_document(&events, FunctionRegistry::new());
    assert_eq!(tokens.len(), 2);
    assert_eq!(tokens[0].delta_line, 0);
    assert_eq!(tokens[0].delta_start, 0);
    assert_eq!(tokens[0].length, 3);
    assert_eq!(tokens[1].delta_line, 0);
    assert_eq!(tokens[1].delta_start, 4);
    assert_eq!(tokens[1].length, 3);
    assert_eq!(tokens[1].token_modifiers_bitset, 0);
}

#[test]
fn delta_encoding_new_line() {
    let events = vec![
        tok(TokenKind::Let, 1, 1, 3),
        ident("x", 3, 9, 9),
    ];
    let (tokens, _) = tokenize_document(&events, FunctionRegistry::new());
    assert_eq!(tokens[1].delta_line, 2);
    // On a new line the start is absolute and 0-based.
    assert_eq!(tokens[1].delta_start, 8);
    assert_eq!(tokens[1].length, 1);
}

#[test]
fn unknown_identifier_flagging() {
    // `foo();` with an empty registry: one unknown-identifier diagnostic
    // on foo's exact span, and the token record carries the unknown id.
    let events = vec![
        ident("foo", 1, 1, 3),
        tok(TokenKind::ParenthesisOpen, 1, 4, 4),
        tok(TokenKind::ParenthesisClose, 1, 5, 5),
        tok(TokenKind::Operator, 1, 6, 6),
    ];
    let (tokens, diagnostics) = tokenize_document(&events, FunctionRegistry::new());
    assert_eq!(tokens[0].token_type, CAT_UNKNOWN_ID);
    assert_eq!(diagnostics.len(), 1);
    let d = &diagnostics[0];
    assert_eq!(d.code, DiagnosticCode::UnknownIdentifier);
    assert_eq!(d.message, "Unknown identifier: 'foo'");
    assert_eq!(d.severity, SEVERITY_ERROR);
    assert_eq!((d.start_line, d.start_character), (0, 0));
    assert_eq!((d.end_line, d.end_character), (0, 3));
}

#[test]
fn shadowing_inner_scope_wins_then_outer_returns() {
    // let x ... { foreach x ... x ... } x
    // Inside the block x resolves to the loop-variable category; after the
    // block closes it resolves to the outer variable again.
    let events = vec![
        tok(TokenKind::Let, 1, 1, 3),
        ident("x", 1, 5, 5),
        tok(TokenKind::BraceOpen, 1, 7, 7),
        tok(TokenKind::ForEach, 1, 9, 15),
        ident("x", 1, 17, 17),
        ident("x", 1, 19, 19),
        tok(TokenKind::BraceClose, 1, 21, 21),
        ident("x", 1, 23, 23),
    ];
    let cats = categories(&events, FunctionRegistry::new());
    assert_eq!(
        cats,
        vec![
            CAT_KEYWORD,
            CAT_VARIABLE,
            CAT_OTHER,
            CAT_KEYWORD,
            CAT_PARAMETER,
            CAT_PARAMETER,
            CAT_OTHER,
            CAT_VARIABLE,
        ]
    );
}

#[test]
fn function_resolution_precedence() {
    // `print` is both registered and locally declared as a variable: the
    // registry match wins.
    let mut funcs = FunctionRegistry::new();
    funcs.register(None, "print".to_string(), 1);
    let events = vec![
        tok(TokenKind::Let, 1, 1, 3),
        ident("print", 1, 5, 9),
        tok(TokenKind::Operator, 1, 11, 11),
        tok(TokenKind::Value(LiteralKind::Number), 1, 13, 13),
        ident("print", 2, 1, 5),
    ];
    let (tokens, diagnostics) = tokenize_document(&events, funcs);
    // The declaring occurrence itself already resolves through the registry.
    assert_eq!(tokens[1].token_type, CAT_FUNCTION);
    assert_eq!(tokens[4].token_type, CAT_FUNCTION);
    assert!(diagnostics.is_empty());
}

#[test]
fn arity_tracked_but_not_enforced() {
    // A two-argument function called with three arguments raises no
    // diagnostic.
    let mut funcs = FunctionRegistry::new();
    funcs.register(None, "clamp".to_string(), 2);
    let events = vec![
        ident("clamp", 1, 1, 5),
        tok(TokenKind::ParenthesisOpen, 1, 6, 6),
        tok(TokenKind::Value(LiteralKind::Number), 1, 7, 7),
        tok(TokenKind::Comma, 1, 8, 8),
        tok(TokenKind::Value(LiteralKind::Number), 1, 10, 10),
        tok(TokenKind::Comma, 1, 11, 11),
        tok(TokenKind::Value(LiteralKind::Number), 1, 13, 13),
        tok(TokenKind::ParenthesisClose, 1, 14, 14),
    ];
    let (tokens, diagnostics) = tokenize_document(&events, funcs);
    assert_eq!(tokens[0].token_type, CAT_FUNCTION);
    assert!(diagnostics.is_empty());
}

#[test]
fn lexer_error_resilience() {
    // One malformed span yields one syntax-error diagnostic; everything
    // after it still classifies, with deltas measured from the anchor.
    let events = vec![
        lex_error(1, 1, "unexpected character"),
        tok(TokenKind::Let, 1, 5, 7),
        ident("x", 1, 9, 9),
    ];
    let (tokens, diagnostics) = tokenize_document(&events, FunctionRegistry::new());
    assert_eq!(tokens.len(), 2);
    assert_eq!(tokens[0].token_type, CAT_KEYWORD);
    assert_eq!(tokens[0].delta_line, 0);
    assert_eq!(tokens[0].delta_start, 4);
    assert_eq!(tokens[1].token_type, CAT_VARIABLE);
    assert_eq!(diagnostics.len(), 1);
    let d = &diagnostics[0];
    assert_eq!(d.code, DiagnosticCode::SyntaxError);
    assert_eq!(d.message, "Lexer error: unexpected character");
    assert_eq!((d.start_line, d.start_character), (0, 0));
    assert_eq!((d.end_line, d.end_character), (0, 1));
}

#[test]
fn pass_is_idempotent() {
    let build_events = || {
        vec![
            ident("foo", 1, 1, 3),
            tok(TokenKind::ParenthesisOpen, 1, 4, 4),
            lex_error(1, 5, "bad"),
            tok(TokenKind::ParenthesisClose, 1, 7, 7),
        ]
    };
    let build_funcs = || {
        let mut funcs = FunctionRegistry::new();
        funcs.register(None, "foo".to_string(), 0);
        funcs
    };
    let (tokens1, diagnostics1) = tokenize_document(&build_events(), build_funcs());
    let (tokens2, diagnostics2) = tokenize_document(&build_events(), build_funcs());
    assert_eq!(tokens1, tokens2);
    assert_eq!(diagnostics1, diagnostics2);
}

#[test]
fn local_function_declaration_registers_and_resolves() {
    // function combine(a, b) { } ... combine
    let events = vec![
        tok(TokenKind::Function, 1, 1, 8),
        ident("combine", 1, 10, 16),
        tok(TokenKind::ParenthesisOpen, 1, 17, 17),
        ident("a", 1, 18, 18),
        tok(TokenKind::Comma, 1, 19, 19),
        ident("b", 1, 21, 21),
        tok(TokenKind::ParenthesisClose, 1, 22, 22),
        tok(TokenKind::BraceOpen, 1, 24, 24),
        tok(TokenKind::BraceClose, 1, 25, 25),
        ident("combine", 2, 1, 7),
    ];
    let (tokens, diagnostics) = tokenize_document(&events, FunctionRegistry::new());
    assert_eq!(tokens[1].token_type, CAT_FUNCTION);
    assert_eq!(tokens[3].token_type, CAT_PARAMETER);
    assert_eq!(tokens[5].token_type, CAT_PARAMETER);
    // The bare name after the declaration resolves through the registry.
    assert_eq!(tokens[9].token_type, CAT_FUNCTION);
    assert!(diagnostics.is_empty());
}

#[test]
fn namespace_qualifies_local_declarations() {
    // namespace ns { function f() } ... f resolves through the registry
    // under the same namespace path it was registered with.
    let events = vec![
        tok(TokenKind::EnterNamespace, 1, 1, 9),
        ident("ns", 1, 11, 12),
        tok(TokenKind::BraceOpen, 1, 14, 14),
        tok(TokenKind::Function, 2, 1, 8),
        ident("f", 2, 10, 10),
        tok(TokenKind::ParenthesisOpen, 2, 11, 11),
        tok(TokenKind::ParenthesisClose, 2, 12, 12),
        ident("f", 3, 1, 1),
    ];
    let (tokens, diagnostics) = tokenize_document(&events, FunctionRegistry::new());
    assert_eq!(tokens[1].token_type, silex_lsp::CAT_NAMESPACE);
    assert_eq!(tokens[4].token_type, CAT_FUNCTION);
    assert_eq!(tokens[7].token_type, CAT_FUNCTION);
    assert!(diagnostics.is_empty());
}

#[test]
fn literal_and_keyword_categories() {
    let events = vec![
        tok(TokenKind::Value(LiteralKind::Str), 1, 1, 5),
        tok(TokenKind::Value(LiteralKind::Number), 1, 7, 7),
        tok(TokenKind::Value(LiteralKind::Bool), 1, 9, 12),
        tok(TokenKind::Value(LiteralKind::Null), 1, 14, 17),
        tok(TokenKind::TypeKeyword, 1, 19, 24),
        tok(TokenKind::As, 1, 26, 27),
        tok(TokenKind::In, 1, 29, 30),
        tok(TokenKind::Operator, 1, 32, 32),
        tok(TokenKind::Return, 1, 34, 39),
        ident("import", 1, 41, 46),
    ];
    let cats = categories(&events, FunctionRegistry::new());
    assert_eq!(
        cats,
        vec![
            CAT_STRING,
            CAT_NUMBER,
            CAT_LITERAL,
            CAT_LITERAL,
            CAT_TYPE,
            CAT_VAR_DECL_ITEM,
            CAT_VAR_DECL_ITEM,
            CAT_OPERATOR,
            CAT_KEYWORD,
            CAT_KEYWORD,
        ]
    );
}

#[test]
fn empty_stream_yields_nothing() {
    let events: Vec<TokenEvent> = Vec::new();
    let (tokens, diagnostics) = tokenize_document(&events, FunctionRegistry::new());
    assert!(tokens.is_empty());
    assert!(diagnostics.is_empty());
}

#[test]
fn unbalanced_braces_degrade_gracefully() {
    // More closes than opens: the global scope survives and later
    // declarations still work.
    let events = vec![
        tok(TokenKind::BraceClose, 1, 1, 1),
        tok(TokenKind::BraceClose, 1, 2, 2),
        tok(TokenKind::Let, 1, 4, 6),
        ident("x", 1, 8, 8),
        ident("x", 1, 10, 10),
    ];
    let cats = categories(&events, FunctionRegistry::new());
    assert_eq!(cats, vec![CAT_OTHER, CAT_OTHER, CAT_KEYWORD, CAT_VARIABLE, CAT_VARIABLE]);
}
