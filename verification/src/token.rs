//! Data model of the analysis: tokens as the lexer hands them over, the
//! closed category enumeration shared with the editor, and the two output
//! record types (delta-encoded semantic tokens and diagnostics).
use vstd::prelude::*;

verus! {

/// Category ids of the editor legend. The legend declared at session start
/// and the ids emitted here must stay consistent.
pub const CAT_KEYWORD: u32 = 0;

pub const CAT_FUNCTION: u32 = 1;

pub const CAT_VARIABLE: u32 = 2;

pub const CAT_STRING: u32 = 3;

pub const CAT_LITERAL: u32 = 4;

pub const CAT_NUMBER: u32 = 5;

pub const CAT_OPERATOR: u32 = 6;

pub const CAT_COMMENT: u32 = 7;

pub const CAT_TYPE: u32 = 8;

pub const CAT_NAMESPACE: u32 = 9;

pub const CAT_PARAMETER: u32 = 10;

pub const CAT_UNKNOWN_ID: u32 = 11;

pub const CAT_VAR_DECL_ITEM: u32 = 12;

pub const CAT_STRUCT: u32 = 13;

pub const CAT_ENUM: u32 = 14;

/// Sentinel for spans that fall under no category; never an error.
pub const CAT_OTHER: u32 = 255;

/// Severity of every diagnostic this analysis emits (the protocol's Error).
pub const SEVERITY_ERROR: u32 = 1;

/// The class of a literal value. The classifier reads only the class,
/// never the value itself.
#[derive(Clone, Copy, PartialEq, Eq, Structural, Debug)]
pub enum LiteralKind {
    Str,
    Number,
    Bool,
    Null,
}

/// What the classifier reads of a lexical unit. Identifiers carry their
/// text; every operator and every primitive type keyword is one case each,
/// since classification depends only on those classes.
#[derive(Debug)]
pub enum TokenKind {
    Let,
    Const,
    Function,
    Entry,
    Struct,
    Enum,
    For,
    ForEach,
    While,
    If,
    Else,
    Return,
    Continue,
    Break,
    As,
    In,
    EnterNamespace,
    Identifier(String),
    Operator,
    Value(LiteralKind),
    TypeKeyword,
    ParenthesisOpen,
    ParenthesisClose,
    BraceOpen,
    BraceClose,
    Comma,
    Other,
}

/// Mathematical image of a `TokenKind`: identifier text as a character
/// sequence.
pub enum TokenModel {
    Let,
    Const,
    Function,
    Entry,
    Struct,
    Enum,
    For,
    ForEach,
    While,
    If,
    Else,
    Return,
    Continue,
    Break,
    As,
    In,
    EnterNamespace,
    Identifier(Seq<char>),
    Operator,
    Value(LiteralKind),
    TypeKeyword,
    ParenthesisOpen,
    ParenthesisClose,
    BraceOpen,
    BraceClose,
    Comma,
    Other,
}

impl View for TokenKind {
    type V = TokenModel;

    open spec fn view(&self) -> TokenModel {
        match self {
            TokenKind::Let => TokenModel::Let,
            TokenKind::Const => TokenModel::Const,
            TokenKind::Function => TokenModel::Function,
            TokenKind::Entry => TokenModel::Entry,
            TokenKind::Struct => TokenModel::Struct,
            TokenKind::Enum => TokenModel::Enum,
            TokenKind::For => TokenModel::For,
            TokenKind::ForEach => TokenModel::ForEach,
            TokenKind::While => TokenModel::While,
            TokenKind::If => TokenModel::If,
            TokenKind::Else => TokenModel::Else,
            TokenKind::Return => TokenModel::Return,
            TokenKind::Continue => TokenModel::Continue,
            TokenKind::Break => TokenModel::Break,
            TokenKind::As => TokenModel::As,
            TokenKind::In => TokenModel::In,
            TokenKind::EnterNamespace => TokenModel::EnterNamespace,
            TokenKind::Identifier(s) => TokenModel::Identifier(s@),
            TokenKind::Operator => TokenModel::Operator,
            TokenKind::Value(l) => TokenModel::Value(*l),
            TokenKind::TypeKeyword => TokenModel::TypeKeyword,
            TokenKind::ParenthesisOpen => TokenModel::ParenthesisOpen,
            TokenKind::ParenthesisClose => TokenModel::ParenthesisClose,
            TokenKind::BraceOpen => TokenModel::BraceOpen,
            TokenKind::BraceClose => TokenModel::BraceClose,
            TokenKind::Comma => TokenModel::Comma,
            TokenKind::Other => TokenModel::Other,
        }
    }
}

impl Clone for TokenKind {
    fn clone(&self) -> (r: Self)
        ensures
            r@ == self@,
    {
        match self {
            TokenKind::Let => TokenKind::Let,
            TokenKind::Const => TokenKind::Const,
            TokenKind::Function => TokenKind::Function,
            TokenKind::Entry => TokenKind::Entry,
            TokenKind::Struct => TokenKind::Struct,
            TokenKind::Enum => TokenKind::Enum,
            TokenKind::For => TokenKind::For,
            TokenKind::ForEach => TokenKind::ForEach,
            TokenKind::While => TokenKind::While,
            TokenKind::If => TokenKind::If,
            TokenKind::Else => TokenKind::Else,
            TokenKind::Return => TokenKind::Return,
            TokenKind::Continue => TokenKind::Continue,
            TokenKind::Break => TokenKind::Break,
            TokenKind::As => TokenKind::As,
            TokenKind::In => TokenKind::In,
            TokenKind::EnterNamespace => TokenKind::EnterNamespace,
            TokenKind::Identifier(s) => TokenKind::Identifier(s.clone()),
            TokenKind::Operator => TokenKind::Operator,
            TokenKind::Value(l) => TokenKind::Value(*l),
            TokenKind::TypeKeyword => TokenKind::TypeKeyword,
            TokenKind::ParenthesisOpen => TokenKind::ParenthesisOpen,
            TokenKind::ParenthesisClose => TokenKind::ParenthesisClose,
            TokenKind::BraceOpen => TokenKind::BraceOpen,
            TokenKind::BraceClose => TokenKind::BraceClose,
            TokenKind::Comma => TokenKind::Comma,
            TokenKind::Other => TokenKind::Other,
        }
    }
}

/// A token as the lexer positions it: 1-based line, 1-based start column,
/// inclusive 1-based end column.
#[derive(Clone, Debug)]
pub struct PositionedToken {
    pub token: TokenKind,
    pub line: u32,
    pub column_start: u32,
    pub column_end: u32,
}

/// A lexical failure reported in place of a token: the 1-based position it
/// was found at, and the lexer's description of it.
#[derive(Clone, Debug)]
pub struct LexErrorInfo {
    pub line: u32,
    pub column: u32,
    pub message: String,
}

/// One element of the input stream: a positioned token, or the lexer's
/// report that it could not form one.
pub type TokenEvent = Result<PositionedToken, LexErrorInfo>;

/// One output record: the position delta against the previously emitted
/// record, the span length, and the category id.
#[derive(Clone, Copy, PartialEq, Eq, Structural, Debug)]
pub struct SemanticToken {
    pub delta_line: u32,
    pub delta_start: u32,
    pub length: u32,
    pub token_type: u32,
    pub token_modifiers_bitset: u32,
}

/// The machine-readable code of a diagnostic.
#[derive(Clone, Copy, PartialEq, Eq, Structural, Debug)]
pub enum DiagnosticCode {
    UnknownIdentifier,
    SyntaxError,
}

/// A diagnostic for the editor: a 0-based range (end column exclusive),
/// the severity (always the protocol's Error), a stable code, and a
/// human-readable message.
#[derive(Clone, Debug, PartialEq, Eq)]
pub struct Diagnostic {
    pub start_line: u32,
    pub start_character: u32,
    pub end_line: u32,
    pub end_character: u32,
    pub severity: u32,
    pub code: DiagnosticCode,
    pub message: String,
}

/// Mathematical image of a `Diagnostic`.
pub struct DiagModel {
    pub start_line: u32,
    pub start_character: u32,
    pub end_line: u32,
    pub end_character: u32,
    pub severity: u32,
    pub code: DiagnosticCode,
    pub message: Seq<char>,
}

impl View for Diagnostic {
    type V = DiagModel;

    open spec fn view(&self) -> DiagModel {
        DiagModel {
            start_line: self.start_line,
            start_character: self.start_character,
            end_line: self.end_line,
            end_character: self.end_character,
            severity: self.severity,
            code: self.code,
            message: self.message@,
        }
    }
}

/// The source tag every diagnostic of this analysis carries.
pub fn diagnostic_source() -> (r: String)
    ensures
        r@ == "silex"@,
{
    "silex".to_owned()
}

} // verus!
