//! The pass itself: it drives the classifier over the token stream in
//! lexical order, delta-encodes one output record per token, and collects
//! diagnostics for unknown identifiers and lexical failures. A pass always
//! terminates and returns what it classified, whatever the input.
use vstd::prelude::*;
use vstd::string::StringExecFns;

use crate::classify::get_token_type;
use crate::classify::handle_token;
use crate::classify::spec_get_token_type;
use crate::classify::spec_handle_token;
use crate::context::CtxModel;
use crate::context::SemanticContext;
use crate::context::init_ctx;
use crate::registry::FunctionRegistry;
use crate::registry::RegModel;
use crate::token::CAT_UNKNOWN_ID;
use crate::token::DiagModel;
use crate::token::Diagnostic;
use crate::token::DiagnosticCode;
use crate::token::SEVERITY_ERROR;
use crate::token::SemanticToken;
use crate::token::TokenEvent;
use crate::token::TokenKind;
use crate::token::TokenModel;

verus! {

/// The delta-encoded record of one classified token: lines relative to
/// the previously emitted record; on the same line the start column
/// relative to the previous start, on a new line the 0-based column; the
/// span length with both end columns inclusive; no modifiers.
pub open spec fn spec_sem_token(
    prev_line: u32,
    prev_start: u32,
    line: u32,
    column_start: u32,
    column_end: u32,
    category: u32,
) -> SemanticToken {
    SemanticToken {
        delta_line: (line - prev_line) as u32,
        delta_start: if line == prev_line {
            (column_start - prev_start) as u32
        } else {
            (column_start - 1) as u32
        },
        length: (column_end - column_start + 1) as u32,
        token_type: category,
        token_modifiers_bitset: 0,
    }
}

/// The diagnostic emitted for an unresolved identifier: its exact span,
/// 0-based, end column exclusive.
pub open spec fn spec_unknown_diag(
    line: u32,
    column_start: u32,
    column_end: u32,
    name: Seq<char>,
) -> DiagModel {
    DiagModel {
        start_line: (line - 1) as u32,
        start_character: (column_start - 1) as u32,
        end_line: (line - 1) as u32,
        end_character: column_end,
        severity: SEVERITY_ERROR,
        code: DiagnosticCode::UnknownIdentifier,
        message: "Unknown identifier: '"@ + name + "'"@,
    }
}

/// The diagnostic emitted for a lexical failure at the reported position.
pub open spec fn spec_syntax_diag(line: u32, column: u32, message: Seq<char>) -> DiagModel {
    DiagModel {
        start_line: (line - 1) as u32,
        start_character: (column - 1) as u32,
        end_line: (line - 1) as u32,
        end_character: column,
        severity: SEVERITY_ERROR,
        code: DiagnosticCode::SyntaxError,
        message: "Lexer error: "@ + message,
    }
}

/// One step of the pass: a lexical failure becomes one diagnostic and
/// changes no state; a token is handled, categorized, emitted as one
/// record (plus one diagnostic if it is an unknown identifier), and the
/// anchor position and previous token advance to it.
pub open spec fn spec_step(m: CtxModel, ev: TokenEvent) -> (CtxModel, Seq<SemanticToken>, Seq<
    DiagModel,
>) {
    match ev {
        Result::Err(e) => (m, Seq::empty(), seq![spec_syntax_diag(e.line, e.column, e.message@)]),
        Result::Ok(pt) => {
            let m1 = spec_handle_token(m, pt.token@);
            let classified = spec_get_token_type(m1, pt.token@);
            let record = spec_sem_token(
                m.line,
                m.start,
                pt.line,
                pt.column_start,
                pt.column_end,
                classified.0,
            );
            let diags = if classified.0 == CAT_UNKNOWN_ID {
                match pt.token@ {
                    TokenModel::Identifier(name) => seq![
                        spec_unknown_diag(pt.line, pt.column_start, pt.column_end, name),
                    ],
                    _ => Seq::empty(),
                }
            } else {
                Seq::empty()
            };
            let m2 = CtxModel {
                line: pt.line,
                start: pt.column_start,
                prev_token: pt.token@,
                ..classified.1
            };
            (m2, seq![record], diags)
        },
    }
}

/// The whole pass from a given state: records and diagnostics of every
/// event, in stream order.
pub open spec fn spec_run(events: Seq<TokenEvent>, m: CtxModel) -> (CtxModel, Seq<SemanticToken>, Seq<
    DiagModel,
>)
    decreases events.len(),
{
    if events.len() == 0 {
        (m, Seq::empty(), Seq::empty())
    } else {
        let first = spec_step(m, events[0]);
        let rest = spec_run(events.skip(1), first.0);
        (rest.0, first.1 + rest.1, first.2 + rest.2)
    }
}

/// The pass over a full stream, started on a fresh state over the given
/// registry overlay.
pub open spec fn spec_tokenize(events: Seq<TokenEvent>, funcs: RegModel) -> (CtxModel, Seq<
    SemanticToken,
>, Seq<DiagModel>) {
    spec_run(events, init_ctx(funcs))
}

/// Positions as the lexer promises them: 1-based, end column not before
/// the start column.
pub open spec fn event_position_ok(ev: TokenEvent) -> bool {
    match ev {
        Result::Ok(pt) => pt.line >= 1 && pt.column_start >= 1 && pt.column_start
            <= pt.column_end,
        Result::Err(e) => e.line >= 1 && e.column >= 1,
    }
}

/// Document order of two positions: a later line, or the same line at the
/// same or a later start column.
pub open spec fn pos_le(l1: u32, c1: u32, l2: u32, c2: u32) -> bool {
    l1 < l2 || (l1 == l2 && c1 <= c2)
}

/// Whether a token event lies at or after the given anchor position.
pub open spec fn event_after(prev_line: u32, prev_start: u32, ev: TokenEvent) -> bool {
    match ev {
        Result::Ok(pt) => pos_le(prev_line, prev_start, pt.line, pt.column_start),
        Result::Err(_) => true,
    }
}

/// Document order of two events; failures constrain nothing.
pub open spec fn event_pair_ordered(a: TokenEvent, b: TokenEvent) -> bool {
    match a {
        Result::Ok(pt) => event_after(pt.line, pt.column_start, b),
        Result::Err(_) => true,
    }
}

/// What the lexer guarantees of its stream: positions are 1-based and
/// well-formed, and tokens come in document order. Delta encoding is
/// cumulative, so the pass requires this order.
pub open spec fn stream_well_formed(events: Seq<TokenEvent>) -> bool {
    &&& forall|i: int| 0 <= i < events.len() ==> event_position_ok(#[trigger] events[i])
    &&& forall|i: int, j: int|
        0 <= i < j < events.len() ==> event_pair_ordered(
            #[trigger] events[i],
            #[trigger] events[j],
        )
}

/// Bound on every counter the tracker may increment: each grows by at
/// most one per event, so after `b` events none exceeds `b`.
pub open spec fn counters_bounded(m: CtxModel, b: int) -> bool {
    &&& m.current_param_count <= b
    &&& m.open_p_count <= b
    &&& m.close_p_count <= b
    &&& forall|k: int| 0 <= k < m.call_stack.len() ==> (#[trigger] m.call_stack[k]).1 <= b
}

/// One step grows no counter by more than one.
pub proof fn lemma_step_counters(m: CtxModel, ev: TokenEvent, b: int)
    requires
        counters_bounded(m, b),
        0 <= b < usize::MAX,
    ensures
        counters_bounded(spec_step(m, ev).0, b + 1),
{
    match ev {
        Result::Err(_) => {},
        Result::Ok(pt) => {
            let m1 = spec_handle_token(m, pt.token@);
            assert(counters_bounded(m1, b + 1)) by {
                match pt.token@ {
                    TokenModel::Identifier(name) => {
                        if m.in_function_params && !m.in_function_declaration
                            && m.call_stack.len() > 0 {
                            match m.prev_token {
                                TokenModel::ParenthesisOpen | TokenModel::Comma => {
                                    let updated = m.call_stack.update(
                                        m.call_stack.len() - 1,
                                        (
                                            m.call_stack.last().0,
                                            (m.call_stack.last().1 + 1) as usize,
                                        ),
                                    );
                                    assert(forall|k: int|
                                        0 <= k < updated.len() ==> (#[trigger] updated[k]).1 <= b
                                            + 1);
                                },
                                _ => {},
                            }
                        }
                    },
                    TokenModel::ParenthesisOpen => {
                        if !m.in_function_params {
                            match m.prev_token {
                                TokenModel::Identifier(pname) => {
                                    let pushed = m.call_stack.push((pname, 0));
                                    assert(forall|k: int|
                                        0 <= k < pushed.len() ==> (#[trigger] pushed[k]).1 <= b
                                            + 1);
                                },
                                _ => {},
                            }
                        }
                    },
                    TokenModel::ParenthesisClose => {
                        if m.call_stack.len() > 0 {
                            let shorter = m.call_stack.drop_last();
                            assert(forall|k: int|
                                0 <= k < shorter.len() ==> (#[trigger] shorter[k]).1 <= b + 1);
                        }
                    },
                    _ => {},
                }
            }
            let m2 = spec_get_token_type(m1, pt.token@).1;
            assert(counters_bounded(m2, b + 1));
        },
    }
}

/// One full classification pass over a document snapshot.
///
/// The pass consumes the lexer's event stream in order and a per-pass
/// registry overlay (the caller hands over its own copy; local
/// declarations entered during the pass die with it). It returns the
/// delta-encoded semantic tokens, one per token event, and the
/// diagnostics: one `SyntaxError` per lexical failure, at which the pass
/// continues, and one `UnknownIdentifier` per identifier that neither the
/// registry nor any scope resolves. Output is a function of the stream
/// and the registry alone, so an unchanged snapshot and registry
/// reproduce identical output.
#[verifier::loop_isolation(false)]
pub fn tokenize_document(events: &Vec<TokenEvent>, funcs: FunctionRegistry) -> (r: (Vec<
    SemanticToken,
>, Vec<Diagnostic>))
    requires
        stream_well_formed(events@),
    ensures
        r.0@ == spec_tokenize(events@, funcs@).1,
        r.1@.map_values(|d: Diagnostic| d@) == spec_tokenize(events@, funcs@).2,
{
    let ghost reg0 = funcs@;
    let mut context = SemanticContext::new(funcs);
    let mut tokens: Vec<SemanticToken> = Vec::new();
    let mut diagnostics: Vec<Diagnostic> = Vec::new();
    let n = events.len();
    let mut i: usize = 0;
    assert(events@.skip(0) =~= events@);
    assert(Seq::<SemanticToken>::empty() + spec_run(events@, context@).1 =~= spec_run(
        events@,
        context@,
    ).1);
    assert(Seq::<DiagModel>::empty() + spec_run(events@, context@).2 =~= spec_run(
        events@,
        context@,
    ).2);
    assert(diagnostics@.map_values(|d: Diagnostic| d@) =~= Seq::<DiagModel>::empty());
    while i < n
        invariant
            i <= n,
            n == events.len(),
            counters_bounded(context@, i as int),
            context@.line >= 1,
            context@.start >= 1,
            forall|j: int|
                i <= j < n ==> event_after(context@.line, context@.start, #[trigger] events@[j]),
            spec_tokenize(events@, reg0).1 == tokens@ + spec_run(
                events@.skip(i as int),
                context@,
            ).1,
            spec_tokenize(events@, reg0).2 == diagnostics@.map_values(|d: Diagnostic| d@)
                + spec_run(events@.skip(i as int), context@).2,
        decreases n - i,
    {
        let ghost m_pre = context@;
        let ghost stepped = spec_step(m_pre, events@[i as int]);
        assert(events@.skip(i as int)[0] == events@[i as int]);
        assert(events@.skip(i as int).skip(1) =~= events@.skip(i + 1));
        proof {
            lemma_step_counters(m_pre, events@[i as int], i as int);
        }
        match &events[i] {
            Result::Err(e) => {
                let mut message: String = "Lexer error: ".to_owned();
                message.append(e.message.as_str());
                let diag = Diagnostic {
                    start_line: e.line - 1,
                    start_character: e.column - 1,
                    end_line: e.line - 1,
                    end_character: e.column,
                    severity: SEVERITY_ERROR,
                    code: DiagnosticCode::SyntaxError,
                    message,
                };
                assert(diag@ =~~= spec_syntax_diag(e.line, e.column, e.message@));
                let ghost diags_pre = diagnostics@.map_values(|d: Diagnostic| d@);
                diagnostics.push(diag);
                assert(diagnostics@.map_values(|d: Diagnostic| d@) =~= diags_pre + stepped.2);
                assert(tokens@ + spec_run(events@.skip(i + 1), context@).1 =~= tokens@ + (
                stepped.1 + spec_run(events@.skip(i + 1), context@).1));
                assert(diagnostics@.map_values(|d: Diagnostic| d@) + spec_run(
                    events@.skip(i + 1),
                    context@,
                ).2 =~= diags_pre + (stepped.2 + spec_run(events@.skip(i + 1), context@).2));
            },
            Result::Ok(pt) => {
                handle_token(&pt.token, &mut context);
                let token_type = get_token_type(&pt.token, &mut context);
                assert(context@ == spec_get_token_type(
                    spec_handle_token(m_pre, pt.token@),
                    pt.token@,
                ).1);
                assert(context@.line == m_pre.line && context@.start == m_pre.start);
                assert(pos_le(m_pre.line, m_pre.start, pt.line, pt.column_start));
                let delta_line = pt.line - context.line;
                let delta_start = if delta_line == 0 {
                    pt.column_start - context.start
                } else {
                    pt.column_start - 1
                };
                let length = pt.column_end - pt.column_start + 1;
                let record = SemanticToken {
                    delta_line,
                    delta_start,
                    length,
                    token_type,
                    token_modifiers_bitset: 0,
                };
                assert(record == spec_sem_token(
                    m_pre.line,
                    m_pre.start,
                    pt.line,
                    pt.column_start,
                    pt.column_end,
                    token_type,
                ));
                let ghost tokens_pre = tokens@;
                tokens.push(record);
                assert(tokens@ =~= tokens_pre + stepped.1);
                let ghost diags_pre = diagnostics@.map_values(|d: Diagnostic| d@);
                if token_type == CAT_UNKNOWN_ID {
                    match &pt.token {
                        TokenKind::Identifier(name) => {
                            let mut message: String = "Unknown identifier: '".to_owned();
                            message.append(name.as_str());
                            message.append("'");
                            let diag = Diagnostic {
                                start_line: pt.line - 1,
                                start_character: pt.column_start - 1,
                                end_line: pt.line - 1,
                                end_character: pt.column_end,
                                severity: SEVERITY_ERROR,
                                code: DiagnosticCode::UnknownIdentifier,
                                message,
                            };
                            assert(diag@ =~~= spec_unknown_diag(
                                pt.line,
                                pt.column_start,
                                pt.column_end,
                                name@,
                            ));
                            diagnostics.push(diag);
                        },
                        _ => {},
                    }
                }
                assert(diagnostics@.map_values(|d: Diagnostic| d@) =~= diags_pre + stepped.2);
                context.start = pt.column_start;
                context.line = pt.line;
                context.prev_token = pt.token.clone();
                assert(context@ =~~= stepped.0);
                assert(tokens@ + spec_run(events@.skip(i + 1), context@).1 =~= tokens_pre + (
                stepped.1 + spec_run(events@.skip(i + 1), context@).1));
                assert(diagnostics@.map_values(|d: Diagnostic| d@) + spec_run(
                    events@.skip(i + 1),
                    context@,
                ).2 =~= diags_pre + (stepped.2 + spec_run(events@.skip(i + 1), context@).2));
            },
        }
        i = i + 1;
    }
    assert(events@.skip(n as int) =~= Seq::<TokenEvent>::empty());
    assert(tokens@ + spec_run(events@.skip(n as int), context@).1 =~= tokens@);
    assert(diagnostics@.map_values(|d: Diagnostic| d@) + spec_run(
        events@.skip(n as int),
        context@,
    ).2 =~= diagnostics@.map_values(|d: Diagnostic| d@));
    (tokens, diagnostics)
}

} // verus!
