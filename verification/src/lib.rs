//! Semantic-analysis core of an editor backend for the Silex language.
//!
//! The analysis consumes the lexer's positioned token stream and produces
//! the editor's delta-encoded semantic tokens together with diagnostics for
//! unknown identifiers and lexical failures. Classification is a single
//! pass driven by the previous token, a scope stack with innermost-wins
//! shadowing, a namespace path, a function registry and a call-context
//! tracker.
pub mod analysis;
pub mod laws;
pub mod classify;
pub mod context;
pub mod registry;
pub mod token;

pub use analysis::tokenize_document;
pub use classify::get_token_type;
pub use classify::handle_token;
pub use context::CallFrame;
pub use context::Scope;
pub use context::ScopeEntry;
pub use context::SemanticContext;
pub use context::qualify_name;
pub use registry::FuncEntry;
pub use registry::FunctionRegistry;
pub use registry::RegistryBucket;

pub use token::CAT_COMMENT;
pub use token::CAT_ENUM;
pub use token::CAT_FUNCTION;
pub use token::CAT_KEYWORD;
pub use token::CAT_LITERAL;
pub use token::CAT_NAMESPACE;
pub use token::CAT_NUMBER;
pub use token::CAT_OPERATOR;
pub use token::CAT_OTHER;
pub use token::CAT_PARAMETER;
pub use token::CAT_STRING;
pub use token::CAT_STRUCT;
pub use token::CAT_TYPE;
pub use token::CAT_UNKNOWN_ID;
pub use token::CAT_VARIABLE;
pub use token::CAT_VAR_DECL_ITEM;
pub use token::SEVERITY_ERROR;
pub use token::Diagnostic;
pub use token::DiagnosticCode;
pub use token::LexErrorInfo;
pub use token::LiteralKind;
pub use token::PositionedToken;
pub use token::SemanticToken;
pub use token::TokenEvent;
pub use token::TokenKind;
pub use token::diagnostic_source;
