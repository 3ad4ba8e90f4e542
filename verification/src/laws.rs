//! Laws of the analysis, stated and proved over the same spec functions
//! that the executable functions' contracts use.
use vstd::prelude::*;

use crate::analysis::spec_run;
use crate::analysis::spec_step;
use crate::analysis::spec_tokenize;
use crate::classify::spec_get_token_type;
use crate::context::CtxModel;
use crate::context::scope_declare;
use crate::context::scope_exit;
use crate::context::scope_lookup;
use crate::context::spec_qualify;
use crate::context::stack_resolve;
use crate::registry::RegModel;
use crate::registry::reg_lookup;
use crate::token::CAT_FUNCTION;
use crate::token::DiagModel;
use crate::token::DiagnosticCode;
use crate::token::TokenEvent;
use crate::token::TokenModel;

verus! {

/// Idempotence: the pass is a function of the token stream and the
/// registry overlay alone, so re-running it on an unchanged document
/// snapshot with an unchanged registry reproduces identical tokens and
/// diagnostics.
pub proof fn lemma_pass_deterministic(
    events1: Seq<TokenEvent>,
    events2: Seq<TokenEvent>,
    funcs1: RegModel,
    funcs2: RegModel,
)
    requires
        events1 == events2,
        funcs1 == funcs2,
    ensures
        spec_tokenize(events1, funcs1) == spec_tokenize(events2, funcs2),
{
}

/// Shadowing: a name bound outside keeps resolving to its outer category
/// until a nested block redeclares it; inside that block the inner
/// category wins, and when the block closes the outer binding is visible
/// again, the stack being exactly what it was.
pub proof fn lemma_shadowing(
    stack: Seq<Seq<(Seq<char>, u32)>>,
    name: Seq<char>,
    outer: u32,
    inner: u32,
)
    requires
        stack.len() >= 1,
        stack_resolve(stack, name) == Some(outer),
    ensures
        ({
            let nested = scope_declare(stack.push(Seq::empty()), name, inner);
            &&& stack_resolve(nested, name) == Some(inner)
            &&& scope_exit(nested) == stack
            &&& stack_resolve(scope_exit(nested), name) == Some(outer)
        }),
{
    let empty_scope = Seq::<(Seq<char>, u32)>::empty();
    let pushed = stack.push(empty_scope);
    assert(scope_lookup(pushed.last(), name) is None);
    let declared_scope = empty_scope.push((name, inner));
    let nested = scope_declare(pushed, name, inner);
    assert(nested == pushed.update(pushed.len() - 1, declared_scope));
    assert(nested.last() == declared_scope);
    assert(declared_scope[0] == (name, inner));
    assert(scope_lookup(declared_scope, name) == Some(inner));
    assert(stack_resolve(nested, name) == Some(inner));
    assert(nested.len() == stack.len() + 1);
    assert(scope_exit(nested) =~= stack);
}

/// Function-resolution precedence: an identifier that the registry knows
/// under the current namespace path classifies as a function, whatever
/// category any scope may bind the same name to.
pub proof fn lemma_registry_precedence(m: CtxModel, name: Seq<char>)
    requires
        name != "import"@,
        reg_lookup(m.funcs, None, spec_qualify(m.namespace, name)) is Some,
    ensures
        spec_get_token_type(m, TokenModel::Identifier(name)).0 == CAT_FUNCTION,
{
}

/// Tokens among the events, in order of appearance.
pub open spec fn count_ok(events: Seq<TokenEvent>) -> int
    decreases events.len(),
{
    if events.len() == 0 {
        0
    } else {
        (match events[0] {
            Result::Ok(_) => 1int,
            Result::Err(_) => 0int,
        }) + count_ok(events.skip(1))
    }
}

/// Lexical failures among the events.
pub open spec fn count_err(events: Seq<TokenEvent>) -> int
    decreases events.len(),
{
    if events.len() == 0 {
        0
    } else {
        (match events[0] {
            Result::Ok(_) => 0int,
            Result::Err(_) => 1int,
        }) + count_err(events.skip(1))
    }
}

/// Diagnostics carrying the syntax-error code.
pub open spec fn count_syntax(diags: Seq<DiagModel>) -> int
    decreases diags.len(),
{
    if diags.len() == 0 {
        0
    } else {
        (if diags[0].code == DiagnosticCode::SyntaxError {
            1int
        } else {
            0int
        }) + count_syntax(diags.skip(1))
    }
}

/// Counting syntax-error diagnostics distributes over concatenation.
pub proof fn lemma_count_syntax_add(a: Seq<DiagModel>, b: Seq<DiagModel>)
    ensures
        count_syntax(a + b) == count_syntax(a) + count_syntax(b),
    decreases a.len(),
{
    if a.len() == 0 {
        assert(a + b =~= b);
    } else {
        assert((a + b)[0] == a[0]);
        assert((a + b).skip(1) =~= a.skip(1) + b);
        lemma_count_syntax_add(a.skip(1), b);
    }
}

/// Lexer-error resilience: a pass never stops early. Every token of the
/// stream yields exactly one output record, and every lexical failure
/// yields exactly one syntax-error diagnostic while leaving the state of
/// the pass untouched, so the tokens after a malformed span classify as
/// they would have.
pub proof fn lemma_pass_resilient(events: Seq<TokenEvent>, m: CtxModel)
    ensures
        spec_run(events, m).1.len() == count_ok(events),
        count_syntax(spec_run(events, m).2) == count_err(events),
    decreases events.len(),
{
    if events.len() == 0 {
    } else {
        let first = spec_step(m, events[0]);
        match events[0] {
            Result::Err(e) => {
                assert(first.2 == seq![
                    crate::analysis::spec_syntax_diag(e.line, e.column, e.message@),
                ]);
                assert(first.2[0].code == DiagnosticCode::SyntaxError);
                assert(first.2.skip(1) =~= Seq::<DiagModel>::empty());
                assert(count_syntax(first.2.skip(1)) == 0);
                assert(count_syntax(first.2) == 1);
            },
            Result::Ok(_) => {
                if first.2.len() > 0 {
                    assert(first.2[0].code == DiagnosticCode::UnknownIdentifier);
                    assert(first.2.skip(1) =~= Seq::<DiagModel>::empty());
                    assert(count_syntax(first.2.skip(1)) == 0);
                }
                assert(count_syntax(first.2) == 0);
            },
        }
        lemma_pass_resilient(events.skip(1), first.0);
        lemma_count_syntax_add(first.2, spec_run(events.skip(1), first.0).2);
    }
}

/// A lexical failure is converted to its diagnostic and nothing else: it
/// leaves the state of the pass untouched and emits no token record, so
/// classification after the failing span proceeds as it would have.
pub proof fn lemma_error_leaves_state(m: CtxModel, e: crate::token::LexErrorInfo)
    ensures
        spec_step(m, Result::Err(e)).0 == m,
        spec_step(m, Result::Err(e)).1 == Seq::<crate::token::SemanticToken>::empty(),
{
}

/// The scope stack never loses its global scope: every step of the pass
/// keeps its depth at least one, however malformed the input.
pub proof fn lemma_global_scope_survives(m: CtxModel, ev: TokenEvent)
    requires
        m.scope_stack.len() >= 1,
    ensures
        spec_step(m, ev).0.scope_stack.len() >= 1,
{
}

/// Arity is tracked, never enforced: a diagnostic only ever carries the
/// syntax-error code (a lexical failure) or the unknown-identifier code
/// (an unresolved name). No mismatch between a call's argument count and
/// the registered arity set produces one.
pub proof fn lemma_no_arity_diagnostics(events: Seq<TokenEvent>, m: CtxModel)
    ensures
        forall|k: int|
            0 <= k < spec_run(events, m).2.len() ==> ((#[trigger] spec_run(
                events,
                m,
            ).2[k]).code == DiagnosticCode::SyntaxError || spec_run(events, m).2[k].code
                == DiagnosticCode::UnknownIdentifier),
    decreases events.len(),
{
    if events.len() == 0 {
    } else {
        let first = spec_step(m, events[0]);
        let rest = spec_run(events.skip(1), first.0);
        lemma_no_arity_diagnostics(events.skip(1), first.0);
        assert(forall|k: int|
            0 <= k < first.2.len() ==> ((#[trigger] first.2[k]).code
                == DiagnosticCode::SyntaxError || first.2[k].code
                == DiagnosticCode::UnknownIdentifier));
        assert(forall|k: int|
            0 <= k < spec_run(events, m).2.len() ==> ((#[trigger] spec_run(events, m).2[k])
                == if k < first.2.len() {
                first.2[k]
            } else {
                rest.2[k - first.2.len()]
            }));
    }
}

} // verus!
