//! The state one classification pass carries from token to token: the
//! scope stack with innermost-wins shadowing, the namespace path, the
//! per-pass overlay of the function registry, the call-context tracker and
//! the position of the previously emitted token.
use vstd::prelude::*;
use vstd::string::StringExecFns;

use crate::registry::FunctionRegistry;
use crate::registry::RegModel;
use crate::registry::reg_register;
use crate::token::LiteralKind;
use crate::token::TokenKind;
use crate::token::TokenModel;

verus! {

/// One binding of a lexical scope: an identifier and the category it was
/// declared with.
pub struct ScopeEntry {
    pub name: String,
    pub category: u32,
}

impl View for ScopeEntry {
    type V = (Seq<char>, u32);

    open spec fn view(&self) -> (Seq<char>, u32) {
        (self.name@, self.category)
    }
}

/// One lexical scope: its bindings in declaration order. `declare` keeps
/// names unique, so the order never decides a lookup.
pub struct Scope {
    pub entries: Vec<ScopeEntry>,
}

impl View for Scope {
    type V = Seq<(Seq<char>, u32)>;

    open spec fn view(&self) -> Seq<(Seq<char>, u32)> {
        self.entries@.map_values(|e: ScopeEntry| e@)
    }
}

/// One open parameter list being tracked: the function's name and the
/// running argument count. The count is recorded, never enforced.
pub struct CallFrame {
    pub name: String,
    pub arg_count: usize,
}

impl View for CallFrame {
    type V = (Seq<char>, usize);

    open spec fn view(&self) -> (Seq<char>, usize) {
        (self.name@, self.arg_count)
    }
}

/// Mathematical image of a `SemanticContext`.
#[verifier::ext_equal]
pub struct CtxModel {
    pub line: u32,
    pub start: u32,
    pub namespace: Seq<Seq<char>>,
    pub prev_token: TokenModel,
    pub funcs: RegModel,
    pub scope_stack: Seq<Seq<(Seq<char>, u32)>>,
    pub call_stack: Seq<(Seq<char>, usize)>,
    pub current_func_name: Seq<char>,
    pub current_param_count: usize,
    pub valid_param_counts: Seq<usize>,
    pub in_function_declaration: bool,
    pub in_function_params: bool,
    pub open_p_count: usize,
    pub close_p_count: usize,
}

/// The category bound to `name` in one scope: the first binding wins,
/// though `scope_declare` never admits a second one.
pub open spec fn scope_lookup(sc: Seq<(Seq<char>, u32)>, name: Seq<char>) -> Option<u32>
    decreases sc.len(),
{
    if sc.len() == 0 {
        None
    } else if sc[0].0 == name {
        Some(sc[0].1)
    } else {
        scope_lookup(sc.skip(1), name)
    }
}

/// Resolution across the whole stack, innermost scope first.
pub open spec fn stack_resolve(stack: Seq<Seq<(Seq<char>, u32)>>, name: Seq<char>) -> Option<u32>
    decreases stack.len(),
{
    if stack.len() == 0 {
        None
    } else {
        match scope_lookup(stack.last(), name) {
            Some(c) => Some(c),
            None => stack_resolve(stack.drop_last(), name),
        }
    }
}

/// Declaration into the innermost scope, first declaration wins: a name
/// already bound there keeps its category.
pub open spec fn scope_declare(
    stack: Seq<Seq<(Seq<char>, u32)>>,
    name: Seq<char>,
    category: u32,
) -> Seq<Seq<(Seq<char>, u32)>> {
    if stack.len() == 0 {
        stack
    } else if scope_lookup(stack.last(), name) is Some {
        stack
    } else {
        stack.update(stack.len() - 1, stack.last().push((name, category)))
    }
}

/// Scope exit: the innermost scope is dropped, but the global scope is
/// never removed, so malformed input degrades instead of crashing.
pub open spec fn scope_exit(stack: Seq<Seq<(Seq<char>, u32)>>) -> Seq<Seq<(Seq<char>, u32)>> {
    if stack.len() > 1 {
        stack.drop_last()
    } else {
        stack
    }
}

/// The qualifying prefix of a namespace path: every segment followed by
/// the separator, e.g. `a::b::` for the path `[a, b]`.
pub open spec fn path_prefix(ns: Seq<Seq<char>>) -> Seq<char>
    decreases ns.len(),
{
    if ns.len() == 0 {
        Seq::empty()
    } else {
        path_prefix(ns.drop_last()) + ns.last() + "::"@
    }
}

/// A name fully qualified by a namespace path; the bare name when the
/// path is empty.
pub open spec fn spec_qualify(ns: Seq<Seq<char>>, name: Seq<char>) -> Seq<char> {
    if ns.len() == 0 {
        name
    } else {
        path_prefix(ns) + name
    }
}

/// View of a sequence of owned strings as character sequences.
pub open spec fn ns_view(ns: Seq<String>) -> Seq<Seq<char>> {
    ns.map_values(|s: String| s@)
}

/// The state of the pass at its start: position (1, 1), no previous token
/// (a null literal, which no rule reacts to), one empty global scope, an
/// empty namespace path and call stack, and the given registry overlay.
pub open spec fn init_ctx(funcs: RegModel) -> CtxModel {
    CtxModel {
        line: 1,
        start: 1,
        namespace: Seq::empty(),
        prev_token: TokenModel::Value(LiteralKind::Null),
        funcs,
        scope_stack: seq![Seq::empty()],
        call_stack: Seq::empty(),
        current_func_name: Seq::empty(),
        current_param_count: 0,
        valid_param_counts: Seq::empty(),
        in_function_declaration: false,
        in_function_params: false,
        open_p_count: 0,
        close_p_count: 0,
    }
}

/// Joins a namespace path and a bare name into the registry key, exactly
/// as `spec_qualify` states it.
#[verifier::loop_isolation(false)]
pub fn qualify_name(namespace: &Vec<String>, name: &String) -> (r: String)
    ensures
        r@ == spec_qualify(ns_view(namespace@), name@),
{
    let ghost ns = ns_view(namespace@);
    if namespace.len() == 0 {
        name.clone()
    } else {
        let mut s = String::new();
        let n = namespace.len();
        let mut i: usize = 0;
        assert(s@ =~= path_prefix(ns.take(0)));
        while i < n
            invariant
                i <= n,
                s@ == path_prefix(ns.take(i as int)),
            decreases n - i,
        {
            assert(ns[i as int] == namespace@[i as int]@);
            s.append(namespace[i].as_str());
            s.append("::");
            assert(ns.take(i + 1).drop_last() =~= ns.take(i as int));
            assert(ns.take(i + 1).last() == ns[i as int]);
            i = i + 1;
        }
        assert(ns.take(n as int) =~= ns);
        s.append(name.as_str());
        s
    }
}

/// The state a classification pass threads through the token stream.
pub struct SemanticContext {
    /// Line of the previously emitted token (1-based; 1 before the first).
    pub line: u32,
    /// Start column of the previously emitted token (1-based).
    pub start: u32,
    /// The namespace path entered so far. Entries are never popped: every
    /// namespace entry extends the qualifying prefix for the rest of the
    /// document.
    pub namespace: Vec<String>,
    /// The previous token of the stream, operators included.
    pub prev_token: TokenKind,
    /// The per-pass registry overlay: the session registry plus the
    /// functions this document declares, discarded after the pass.
    pub funcs: FunctionRegistry,
    /// The scope stack; index 0 is the global scope and is never removed.
    pub scope_stack: Vec<Scope>,
    /// The call frames of open parameter lists.
    pub call_stack: Vec<CallFrame>,
    /// Name of the function whose parameter list is open, empty otherwise.
    pub current_func_name: String,
    /// Parameters counted so far in an open declaration parameter list.
    pub current_param_count: usize,
    /// The arity set of the registered function classified most recently.
    pub valid_param_counts: Vec<usize>,
    /// Whether an open parameter list belongs to a declaration.
    pub in_function_declaration: bool,
    /// Whether a parameter list is open.
    pub in_function_params: bool,
    /// Parentheses opened since the current parameter list began.
    pub open_p_count: usize,
    /// Parentheses closed since the current parameter list began.
    pub close_p_count: usize,
}

impl View for SemanticContext {
    type V = CtxModel;

    open spec fn view(&self) -> CtxModel {
        CtxModel {
            line: self.line,
            start: self.start,
            namespace: ns_view(self.namespace@),
            prev_token: self.prev_token@,
            funcs: self.funcs@,
            scope_stack: self.scope_stack@.map_values(|sc: Scope| sc@),
            call_stack: self.call_stack@.map_values(|f: CallFrame| f@),
            current_func_name: self.current_func_name@,
            current_param_count: self.current_param_count,
            valid_param_counts: self.valid_param_counts@,
            in_function_declaration: self.in_function_declaration,
            in_function_params: self.in_function_params,
            open_p_count: self.open_p_count,
            close_p_count: self.close_p_count,
        }
    }
}

impl SemanticContext {
    /// A fresh pass over the given registry overlay.
    pub fn new(funcs: FunctionRegistry) -> (r: Self)
        ensures
            r@ == init_ctx(funcs@),
    {
        let r = SemanticContext {
            line: 1,
            start: 1,
            namespace: Vec::new(),
            prev_token: TokenKind::Value(LiteralKind::Null),
            funcs,
            scope_stack: vec![Scope { entries: Vec::new() }],
            call_stack: Vec::new(),
            current_func_name: String::new(),
            current_param_count: 0,
            valid_param_counts: Vec::new(),
            in_function_declaration: false,
            in_function_params: false,
            open_p_count: 0,
            close_p_count: 0,
        };
        assert(r.scope_stack@.map_values(|sc: Scope| sc@) =~~= seq![
            Seq::<(Seq<char>, u32)>::empty(),
        ]);
        assert(r@ =~= init_ctx(r.funcs@));
        r
    }

    /// The given name qualified by the namespace path entered so far.
    pub fn to_complete_name(&self, name: &String) -> (r: String)
        ensures
            r@ == spec_qualify(self@.namespace, name@),
    {
        qualify_name(&self.namespace, name)
    }

    /// Block entry: pushes an empty innermost scope.
    pub fn enter_scope(&mut self)
        ensures
            final(self)@ == (CtxModel {
                scope_stack: old(self)@.scope_stack.push(Seq::empty()),
                ..old(self)@
            }),
    {
        self.scope_stack.push(Scope { entries: Vec::new() });
        assert(self@.scope_stack =~~= old(self)@.scope_stack.push(Seq::empty()));
        assert(self@ =~= (CtxModel {
            scope_stack: old(self)@.scope_stack.push(Seq::empty()),
            ..old(self)@
        }));
    }

    /// Opens a call frame for the named function's parameter list.
    pub fn enter_call_scope(&mut self, name: String)
        ensures
            final(self)@ == (CtxModel {
                call_stack: old(self)@.call_stack.push((name@, 0)),
                ..old(self)@
            }),
    {
        let ghost nm = name@;
        self.call_stack.push(CallFrame { name, arg_count: 0 });
        assert(self@.call_stack =~= old(self)@.call_stack.push((nm, 0)));
        assert(self@ =~= (CtxModel {
            call_stack: old(self)@.call_stack.push((nm, 0)),
            ..old(self)@
        }));
    }

    /// Block exit: drops the innermost scope; the global scope stays.
    pub fn exit_scope(&mut self)
        ensures
            final(self)@ == (CtxModel { scope_stack: scope_exit(old(self)@.scope_stack), ..old(self)@ }),
    {
        if self.scope_stack.len() > 1 {
            let _popped = self.scope_stack.pop();
            assert(self@.scope_stack =~= old(self)@.scope_stack.drop_last());
        }
        assert(self@ =~= (CtxModel { scope_stack: scope_exit(old(self)@.scope_stack), ..old(self)@ }));
    }

    /// Closes the innermost open call frame, if any.
    pub fn exit_call_scope(&mut self)
        ensures
            final(self)@ == (CtxModel {
                call_stack: if old(self)@.call_stack.len() > 0 {
                    old(self)@.call_stack.drop_last()
                } else {
                    old(self)@.call_stack
                },
                ..old(self)@
            }),
    {
        if self.call_stack.len() > 0 {
            let _popped = self.call_stack.pop();
            assert(self@.call_stack =~= old(self)@.call_stack.drop_last());
        }
        assert(self@ =~= (CtxModel {
            call_stack: if old(self)@.call_stack.len() > 0 {
                old(self)@.call_stack.drop_last()
            } else {
                old(self)@.call_stack
            },
            ..old(self)@
        }));
    }

    /// Registers a locally declared function, qualified by the current
    /// namespace path, under the free-function bucket: document-local
    /// declarations cannot put methods on foreign types.
    pub fn register_function(&mut self, name: &String, param_count: usize)
        ensures
            final(self)@ == (CtxModel {
                funcs: reg_register(
                    old(self)@.funcs,
                    None,
                    spec_qualify(old(self)@.namespace, name@),
                    param_count,
                ),
                ..old(self)@
            }),
    {
        let full_name = qualify_name(&self.namespace, name);
        self.funcs.register(None, full_name, param_count);
        assert(self@ =~= (CtxModel {
            funcs: reg_register(
                old(self)@.funcs,
                None,
                spec_qualify(old(self)@.namespace, name@),
                param_count,
            ),
            ..old(self)@
        }));
    }

    /// Declares `name` with the given category in the innermost scope;
    /// a name already declared there keeps its first category.
    #[verifier::loop_isolation(false)]
    pub fn add_variable(&mut self, name: &String, token_type: u32)
        ensures
            final(self)@ == (CtxModel {
                scope_stack: scope_declare(old(self)@.scope_stack, name@, token_type),
                ..old(self)@
            }),
    {
        let depth = self.scope_stack.len();
        if depth == 0 {
            assert(self@ =~= (CtxModel {
                scope_stack: scope_declare(old(self)@.scope_stack, name@, token_type),
                ..old(self)@
            }));
            return ;
        }
        let ghost stack0 = self@.scope_stack;
        let mut scope = self.scope_stack.remove(depth - 1);
        let ghost sc0 = scope@;
        assert(sc0 == stack0.last());
        assert(self@.scope_stack =~= stack0.drop_last());
        let ghost self_mid = *self;
        let m = scope.entries.len();
        let mut j: usize = 0;
        assert(sc0.skip(0) =~= sc0);
        while j < m
            invariant
                j <= m,
                m == scope.entries.len(),
                scope@ == sc0,
                *self == self_mid,
                scope_lookup(sc0, name@) == scope_lookup(sc0.skip(j as int), name@),
            decreases m - j,
        {
            assert(sc0[j as int] == scope.entries@[j as int]@);
            assert(sc0.skip(j as int)[0] == sc0[j as int]);
            if scope.entries[j].name == *name {
                self.scope_stack.push(scope);
                assert(self@.scope_stack =~= stack0);
                assert(self@ =~= (CtxModel {
                    scope_stack: scope_declare(old(self)@.scope_stack, name@, token_type),
                    ..old(self)@
                }));
                return ;
            }
            assert(sc0.skip(j as int).skip(1) =~= sc0.skip(j + 1));
            j = j + 1;
        }
        assert(sc0.skip(m as int) =~= Seq::<(Seq<char>, u32)>::empty());
        scope.entries.push(ScopeEntry { name: name.clone(), category: token_type });
        assert(scope@ =~~= sc0.push((name@, token_type)));
        self.scope_stack.push(scope);
        assert(self@.scope_stack =~~= stack0.update(
            stack0.len() - 1,
            sc0.push((name@, token_type)),
        ));
        assert(self@ =~~= (CtxModel {
            scope_stack: scope_declare(old(self)@.scope_stack, name@, token_type),
            ..old(self)@
        }));
    }

    /// The arity set registered for `name` under `on_type`, with the name
    /// qualified by the given namespace path the same way `register_function`
    /// qualifies it.
    pub fn get_function_params(
        &self,
        on_type: Option<u32>,
        name: &String,
        namespace: &Vec<String>,
    ) -> (r: Option<Vec<usize>>)
        ensures
            match r {
                Some(v) => crate::registry::reg_lookup(
                    self@.funcs,
                    on_type,
                    spec_qualify(ns_view(namespace@), name@),
                ) == Some(v@),
                None => crate::registry::reg_lookup(
                    self@.funcs,
                    on_type,
                    spec_qualify(ns_view(namespace@), name@),
                ) is None,
            },
    {
        let full_name = qualify_name(namespace, name);
        self.funcs.lookup(on_type, &full_name)
    }

    /// The category `name` resolves to, innermost scope first; `None` is a
    /// valid outcome consumed by the classifier.
    #[verifier::loop_isolation(false)]
    pub fn get_variable_type(&self, name: &String) -> (r: Option<u32>)
        ensures
            r == stack_resolve(self@.scope_stack, name@),
    {
        let ghost stack0 = self@.scope_stack;
        let depth = self.scope_stack.len();
        let mut i: usize = depth;
        assert(stack0.take(depth as int) =~= stack0);
        while i > 0
            invariant
                i <= depth,
                depth == self.scope_stack.len(),
                stack_resolve(stack0, name@) == stack_resolve(stack0.take(i as int), name@),
            decreases i,
    {
            let scope = &self.scope_stack[i - 1];
            let ghost sc0 = scope@;
            assert(sc0 == self@.scope_stack[i - 1]);
            assert(stack0.take(i as int).last() == stack0[i - 1]);
            assert(stack0.take(i as int).drop_last() =~= stack0.take(i - 1));
            let m = scope.entries.len();
            let mut j: usize = 0;
            assert(sc0.skip(0) =~= sc0);
            while j < m
                invariant
                    j <= m,
                    m == scope.entries.len(),
                    sc0 == scope@,
                    scope_lookup(sc0, name@) == scope_lookup(sc0.skip(j as int), name@),
                decreases m - j,
            {
                assert(sc0[j as int] == scope.entries@[j as int]@);
                assert(sc0.skip(j as int)[0] == sc0[j as int]);
                if scope.entries[j].name == *name {
                    return Some(scope.entries[j].category);
                }
                assert(sc0.skip(j as int).skip(1) =~= sc0.skip(j + 1));
                j = j + 1;
            }
            assert(sc0.skip(m as int) =~= Seq::<(Seq<char>, u32)>::empty());
            assert(scope_lookup(sc0, name@) is None);
            i = i - 1;
        }
        assert(stack0.take(0) =~= Seq::<Seq<(Seq<char>, u32)>>::empty());
        None
    }
}

} // verus!
