//! The semantic classifier: a state machine driven per token by the
//! previous token's kind and the current nesting flags. `handle_token`
//! updates the pass state (declarations, scopes, namespaces, parameter
//! lists); `get_token_type` assigns the token its category.
use vstd::prelude::*;

use crate::context::CtxModel;
use crate::context::SemanticContext;
use crate::context::scope_declare;
use crate::context::scope_exit;
use crate::context::spec_qualify;
use crate::context::stack_resolve;
use crate::registry::reg_lookup;
use crate::registry::reg_register;
use crate::token::CAT_ENUM;
use crate::token::CAT_FUNCTION;
use crate::token::CAT_KEYWORD;
use crate::token::CAT_LITERAL;
use crate::token::CAT_NAMESPACE;
use crate::token::CAT_NUMBER;
use crate::token::CAT_OPERATOR;
use crate::token::CAT_OTHER;
use crate::token::CAT_PARAMETER;
use crate::token::CAT_STRING;
use crate::token::CAT_STRUCT;
use crate::token::CAT_TYPE;
use crate::token::CAT_UNKNOWN_ID;
use crate::token::CAT_VARIABLE;
use crate::token::CAT_VAR_DECL_ITEM;
use crate::token::LiteralKind;
use crate::token::TokenKind;
use crate::token::TokenModel;

verus! {

/// State update for one token, before it is categorized.
///
/// Declarations are driven by the previous token: an identifier after a
/// declaration-introducing keyword enters the innermost scope with the
/// category that keyword introduces; an identifier after `(` or `,` inside
/// an open parameter list is a declared parameter or a counted argument.
/// A parameter-list context opens at a `(` whose preceding identifier
/// resolves to a function in scope, pushing a call frame; inner
/// parentheses only deepen the shared counter, so nested plain grouping
/// inside a call shares that counter (an accepted limitation of this
/// tracker). At the balanced close the frame pops and, for a declaration,
/// the function is registered under the current namespace path with the
/// counted arity. A brace opens a scope, and after an identifier known as
/// a namespace it also extends the namespace path; entering `namespace n {`
/// therefore extends the path once at the name and once at the brace, and
/// the path is never popped for the rest of the document.
pub open spec fn spec_handle_token(m: CtxModel, t: TokenModel) -> CtxModel {
    match t {
        TokenModel::Identifier(name) => match m.prev_token {
            TokenModel::Entry | TokenModel::Function => CtxModel {
                scope_stack: scope_declare(m.scope_stack, name, CAT_FUNCTION),
                in_function_declaration: true,
                current_func_name: spec_qualify(m.namespace, name),
                ..m
            },
            TokenModel::Struct => CtxModel {
                scope_stack: scope_declare(m.scope_stack, name, CAT_STRUCT),
                ..m
            },
            TokenModel::Enum => CtxModel {
                scope_stack: scope_declare(m.scope_stack, name, CAT_ENUM),
                ..m
            },
            TokenModel::EnterNamespace => CtxModel {
                scope_stack: scope_declare(m.scope_stack, name, CAT_NAMESPACE),
                namespace: m.namespace.push(name),
                ..m
            },
            TokenModel::Let | TokenModel::Const => CtxModel {
                scope_stack: scope_declare(m.scope_stack, name, CAT_VARIABLE),
                ..m
            },
            TokenModel::For | TokenModel::ForEach | TokenModel::While => CtxModel {
                scope_stack: scope_declare(m.scope_stack, name, CAT_PARAMETER),
                ..m
            },
            TokenModel::ParenthesisOpen | TokenModel::Comma => if m.in_function_params {
                if m.in_function_declaration {
                    CtxModel {
                        current_param_count: (m.current_param_count + 1) as usize,
                        scope_stack: scope_declare(m.scope_stack, name, CAT_PARAMETER),
                        ..m
                    }
                } else if m.call_stack.len() > 0 {
                    CtxModel {
                        call_stack: m.call_stack.update(
                            m.call_stack.len() - 1,
                            (m.call_stack.last().0, (m.call_stack.last().1 + 1) as usize),
                        ),
                        ..m
                    }
                } else {
                    m
                }
            } else {
                m
            },
            _ => m,
        },
        TokenModel::ParenthesisOpen => if m.in_function_params {
            CtxModel { open_p_count: (m.open_p_count + 1) as usize, ..m }
        } else {
            match m.prev_token {
                TokenModel::Identifier(pname) => if stack_resolve(m.scope_stack, pname) == Some(
                    CAT_FUNCTION,
                ) {
                    CtxModel {
                        in_function_params: true,
                        open_p_count: 1,
                        close_p_count: 0,
                        current_param_count: 0,
                        current_func_name: pname,
                        call_stack: m.call_stack.push((pname, 0)),
                        ..m
                    }
                } else {
                    m
                },
                _ => m,
            }
        },
        TokenModel::ParenthesisClose => if m.in_function_params {
            if m.open_p_count == m.close_p_count + 1 {
                CtxModel {
                    funcs: if m.in_function_declaration {
                        reg_register(
                            m.funcs,
                            None,
                            spec_qualify(m.namespace, m.current_func_name),
                            m.current_param_count,
                        )
                    } else {
                        m.funcs
                    },
                    in_function_declaration: false,
                    in_function_params: false,
                    call_stack: if m.call_stack.len() > 0 {
                        m.call_stack.drop_last()
                    } else {
                        m.call_stack
                    },
                    current_func_name: Seq::empty(),
                    open_p_count: 0,
                    close_p_count: 0,
                    ..m
                }
            } else {
                CtxModel { close_p_count: (m.close_p_count + 1) as usize, ..m }
            }
        } else {
            m
        },
        TokenModel::BraceOpen => {
            let pushed = CtxModel { scope_stack: m.scope_stack.push(Seq::empty()), ..m };
            match m.prev_token {
                TokenModel::Identifier(pname) => if stack_resolve(m.scope_stack, pname) == Some(
                    CAT_NAMESPACE,
                ) {
                    CtxModel { namespace: pushed.namespace.push(pname), ..pushed }
                } else {
                    pushed
                },
                _ => pushed,
            }
        },
        TokenModel::BraceClose => CtxModel { scope_stack: scope_exit(m.scope_stack), ..m },
        _ => m,
    }
}

/// The category assigned to one token, with the state updates that
/// classification itself makes.
///
/// Rules, first match wins: operators; the statement and declaration
/// keywords (`let` among them); `as` and `in` as declaration accessories;
/// identifiers, where the text `import` is a keyword, a registry match
/// under the current namespace path wins over any scope binding, a scope
/// binding supplies its stored category, and an unresolved name is
/// declared and classified as an unknown identifier; literals by their
/// class; primitive type keywords; everything else is the sentinel.
pub open spec fn spec_get_token_type(m: CtxModel, t: TokenModel) -> (u32, CtxModel) {
    match t {
        TokenModel::Operator => (CAT_OPERATOR, m),
        TokenModel::Let | TokenModel::Const | TokenModel::Function | TokenModel::Entry
            | TokenModel::Struct | TokenModel::Enum | TokenModel::For | TokenModel::ForEach
            | TokenModel::While | TokenModel::If | TokenModel::Else | TokenModel::Return
            | TokenModel::Continue | TokenModel::Break => (CAT_KEYWORD, m),
        TokenModel::As | TokenModel::In => (CAT_VAR_DECL_ITEM, m),
        TokenModel::Identifier(name) => if name == "import"@ {
            (CAT_KEYWORD, m)
        } else {
            match reg_lookup(m.funcs, None, spec_qualify(m.namespace, name)) {
                Some(expected) => (CAT_FUNCTION, CtxModel { valid_param_counts: expected, ..m }),
                None => match stack_resolve(m.scope_stack, name) {
                    Some(c) => (c, m),
                    None => (
                        CAT_UNKNOWN_ID,
                        CtxModel {
                            scope_stack: scope_declare(m.scope_stack, name, CAT_UNKNOWN_ID),
                            ..m
                        },
                    ),
                },
            }
        },
        TokenModel::Value(LiteralKind::Str) => (CAT_STRING, m),
        TokenModel::Value(LiteralKind::Number) => (CAT_NUMBER, m),
        TokenModel::Value(LiteralKind::Bool) | TokenModel::Value(LiteralKind::Null) => (
            CAT_LITERAL,
            m,
        ),
        TokenModel::TypeKeyword => (CAT_TYPE, m),
        _ => (CAT_OTHER, m),
    }
}

/// Applies the state update of one token, exactly as `spec_handle_token`
/// states it.
pub fn handle_token(token: &TokenKind, context: &mut SemanticContext)
    requires
        old(context)@.current_param_count < usize::MAX,
        old(context)@.open_p_count < usize::MAX,
        old(context)@.close_p_count < usize::MAX,
        forall|k: int|
            0 <= k < old(context)@.call_stack.len() ==> (#[trigger] old(
                context,
            )@.call_stack[k]).1 < usize::MAX,
    ensures
        final(context)@ == spec_handle_token(old(context)@, token@),
{
    let prev = context.prev_token.clone();
    match token {
        TokenKind::Identifier(name) => {
            match &prev {
                TokenKind::Entry | TokenKind::Function => {
                    context.add_variable(name, CAT_FUNCTION);
                    context.in_function_declaration = true;
                    let qualified = context.to_complete_name(name);
                    context.current_func_name = qualified;
                    assert(context@ =~~= spec_handle_token(old(context)@, token@));
                },
                TokenKind::Struct => {
                    context.add_variable(name, CAT_STRUCT);
                    assert(context@ =~~= spec_handle_token(old(context)@, token@));
                },
                TokenKind::Enum => {
                    context.add_variable(name, CAT_ENUM);
                    assert(context@ =~~= spec_handle_token(old(context)@, token@));
                },
                TokenKind::EnterNamespace => {
                    context.add_variable(name, CAT_NAMESPACE);
                    context.namespace.push(name.clone());
                    assert(context@.namespace =~~= old(context)@.namespace.push(name@));
                    assert(context@ =~~= spec_handle_token(old(context)@, token@));
                },
                TokenKind::Let | TokenKind::Const => {
                    context.add_variable(name, CAT_VARIABLE);
                    assert(context@ =~~= spec_handle_token(old(context)@, token@));
                },
                TokenKind::For | TokenKind::ForEach | TokenKind::While => {
                    context.add_variable(name, CAT_PARAMETER);
                    assert(context@ =~~= spec_handle_token(old(context)@, token@));
                },
                TokenKind::ParenthesisOpen | TokenKind::Comma => {
                    if context.in_function_params {
                        if context.in_function_declaration {
                            context.current_param_count = context.current_param_count + 1;
                            context.add_variable(name, CAT_PARAMETER);
                            assert(context@ =~~= spec_handle_token(old(context)@, token@));
                        } else {
                            if context.call_stack.len() > 0 {
                                let last = context.call_stack.len() - 1;
                                assert((old(context)@.call_stack[last as int]).1 < usize::MAX);
                                let mut frame = context.call_stack.remove(last);
                                frame.arg_count = frame.arg_count + 1;
                                context.call_stack.push(frame);
                                assert(context@.call_stack =~~= old(context)@.call_stack.update(
                                    old(context)@.call_stack.len() - 1,
                                    (
                                        old(context)@.call_stack.last().0,
                                        (old(context)@.call_stack.last().1 + 1) as usize,
                                    ),
                                ));
                                assert(context@ =~~= spec_handle_token(old(context)@, token@));
                            }
                        }
                    }
                },
                _ => {},
            }
        },
        TokenKind::ParenthesisOpen => {
            if context.in_function_params {
                context.open_p_count = context.open_p_count + 1;
                assert(context@ =~~= spec_handle_token(old(context)@, token@));
            } else {
                match &prev {
                    TokenKind::Identifier(pname) => {
                        match context.get_variable_type(pname) {
                            Some(category) => {
                                if category == CAT_FUNCTION {
                                    context.in_function_params = true;
                                    context.open_p_count = 1;
                                    context.close_p_count = 0;
                                    context.current_param_count = 0;
                                    context.current_func_name = pname.clone();
                                    context.enter_call_scope(pname.clone());
                                    assert(context@ =~~= spec_handle_token(
                                        old(context)@,
                                        token@,
                                    ));
                                }
                            },
                            None => {},
                        }
                    },
                    _ => {},
                }
            }
        },
        TokenKind::ParenthesisClose => {
            if context.in_function_params {
                context.close_p_count = context.close_p_count + 1;
                if context.open_p_count == context.close_p_count {
                    if context.in_function_declaration {
                        let declared = context.current_func_name.clone();
                        context.register_function(&declared, context.current_param_count);
                        context.in_function_declaration = false;
                    }
                    context.exit_call_scope();
                    context.in_function_params = false;
                    context.current_func_name = String::new();
                    context.open_p_count = 0;
                    context.close_p_count = 0;
                    assert(context@ =~~= spec_handle_token(old(context)@, token@));
                } else {
                    assert(context@ =~~= spec_handle_token(old(context)@, token@));
                }
            }
        },
        TokenKind::BraceOpen => {
            let mut namespace_entry: Option<String> = None;
            match &prev {
                TokenKind::Identifier(pname) => {
                    match context.get_variable_type(pname) {
                        Some(category) => {
                            if category == CAT_NAMESPACE {
                                namespace_entry = Some(pname.clone());
                            }
                        },
                        None => {},
                    }
                },
                _ => {},
            }
            context.enter_scope();
            match namespace_entry {
                Some(pname) => {
                    let ghost pname_view = pname@;
                    context.namespace.push(pname);
                    assert(context@.namespace =~~= old(context)@.namespace.push(pname_view));
                    assert(context@ =~~= spec_handle_token(old(context)@, token@));
                },
                None => {
                    assert(context@ =~~= spec_handle_token(old(context)@, token@));
                },
            }
        },
        TokenKind::BraceClose => {
            context.exit_scope();
            assert(context@ =~~= spec_handle_token(old(context)@, token@));
        },
        _ => {},
    }
}

/// Categorizes one token, exactly as `spec_get_token_type` states it: the
/// returned id and the state updates both.
pub fn get_token_type(token: &TokenKind, context: &mut SemanticContext) -> (r: u32)
    ensures
        r == spec_get_token_type(old(context)@, token@).0,
        final(context)@ == spec_get_token_type(old(context)@, token@).1,
{
    match token {
        TokenKind::Operator => CAT_OPERATOR,
        TokenKind::Let | TokenKind::Const | TokenKind::Function | TokenKind::Entry
            | TokenKind::Struct | TokenKind::Enum | TokenKind::For | TokenKind::ForEach
            | TokenKind::While | TokenKind::If | TokenKind::Else | TokenKind::Return
            | TokenKind::Continue | TokenKind::Break => CAT_KEYWORD,
        TokenKind::As | TokenKind::In => CAT_VAR_DECL_ITEM,
        TokenKind::Identifier(name) => {
            let import_keyword: String = "import".to_owned();
            if *name == import_keyword {
                CAT_KEYWORD
            } else {
                let params = context.get_function_params(None, name, &context.namespace);
                match params {
                    Some(expected) => {
                        context.valid_param_counts = expected;
                        assert(context@ =~~= spec_get_token_type(old(context)@, token@).1);
                        CAT_FUNCTION
                    },
                    None => {
                        match context.get_variable_type(name) {
                            Some(category) => category,
                            None => {
                                context.add_variable(name, CAT_UNKNOWN_ID);
                                assert(context@ =~~= spec_get_token_type(
                                    old(context)@,
                                    token@,
                                ).1);
                                CAT_UNKNOWN_ID
                            },
                        }
                    },
                }
            }
        },
        TokenKind::Value(LiteralKind::Str) => CAT_STRING,
        TokenKind::Value(LiteralKind::Number) => CAT_NUMBER,
        TokenKind::Value(LiteralKind::Bool) | TokenKind::Value(LiteralKind::Null) => CAT_LITERAL,
        TokenKind::TypeKeyword => CAT_TYPE,
        TokenKind::EnterNamespace | TokenKind::ParenthesisOpen | TokenKind::ParenthesisClose
            | TokenKind::BraceOpen | TokenKind::BraceClose | TokenKind::Comma
            | TokenKind::Other => CAT_OTHER,
    }
}

} // verus!
