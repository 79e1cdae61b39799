//! The static pass: binds every variable, `nafs` and `ulya` use to the
//! distance of the scope that declared it, and rejects what a dynamic pass
//! could not: reading a local in its own initializer, duplicate locals,
//! `radd` outside a function or with a value inside an initializer, `nafs`
//! or `ulya` outside a class, `ulya` without a superclass, and a class that
//! inherits from itself.
use crate::ast::{expr_size, exprs_size, lemma_exprs_size_element, lemma_stmts_size_element, stmt_size, stmts_size, Expr, Stmt};
use crate::error::RuntimeError;
use crate::hashable::HashableMap;
use crate::stack::Stack;
use crate::strutil::str_eq;
use crate::token::Token;
use vstd::prelude::*;
use vstd::string::*;

verus! {

broadcast use vstd::std_specs::vec::axiom_vec_index_decreases;

#[derive(PartialEq, Eq, Structural, Clone, Copy, Debug)]
pub enum FunctionType {
    Function,
    Method,
    Initializer,
}

#[derive(PartialEq, Eq, Structural, Clone, Copy, Debug)]
pub enum ClassType {
    Class,
    Subclass,
}

/// The resolver's output: for each node id, the environment distance the
/// interpreter must walk, or nothing for a global.
pub struct Locals {
    pub depths: Vec<Option<usize>>,
}

impl Locals {
    pub fn new() -> (r: Self)
        ensures
            r.depths@.len() == 0,
    {
        Locals { depths: Vec::new() }
    }

    pub fn get(&self, id: usize) -> (r: Option<usize>)
        ensures
            id < self.depths@.len() ==> r == self.depths@[id as int],
            id >= self.depths@.len() ==> r is None,
    {
        if id < self.depths.len() {
            self.depths[id]
        } else {
            None
        }
    }

    pub fn set(&mut self, id: usize, depth: usize)
        requires
            id < usize::MAX,
        ensures
            final(self).depths@.len() == (if id < old(self).depths@.len() {
                old(self).depths@.len() as int
            } else {
                id + 1
            }),
            final(self).depths@[id as int] == Some(depth),
            forall|j: int|
                0 <= j < old(self).depths@.len() && j != id ==> final(self).depths@[j]
                    == #[trigger] old(self).depths@[j],
            forall|j: int|
                old(self).depths@.len() <= j < final(self).depths@.len() && j != id
                    ==> final(self).depths@[j] is None,
    {
        while self.depths.len() <= id
            invariant
                self.depths@.len() >= old(self).depths@.len(),
                self.depths@.len() <= id + 1 || self.depths@.len() == old(self).depths@.len(),
                forall|j: int|
                    0 <= j < old(self).depths@.len() ==> self.depths@[j] == #[trigger] old(
                        self,
                    ).depths@[j],
                forall|j: int|
                    old(self).depths@.len() <= j < self.depths@.len() ==> self.depths@[j] is None,
            decreases id + 1 - self.depths@.len(),
        {
            self.depths.push(None);
        }
        self.depths[id] = Some(depth);
    }
}

/// The distance, counted from the innermost scope, of the nearest scope that
/// declares the name.
pub open spec fn scope_depth(scopes: Seq<HashableMap<bool>>, name: Seq<char>) -> Option<int>
    decreases scopes.len(),
{
    if scopes.len() == 0 {
        None
    } else if scopes.last()@.contains_key(name) {
        Some(0)
    } else {
        match scope_depth(scopes.drop_last(), name) {
            Some(d) => Some(d + 1),
            None => None,
        }
    }
}

proof fn lemma_scope_depth_skip(s: Seq<HashableMap<bool>>, i: int, name: Seq<char>)
    requires
        0 <= i <= s.len(),
        forall|j: int| i <= j < s.len() ==> !(#[trigger] s[j])@.contains_key(name),
    ensures
        scope_depth(s, name) == (match scope_depth(s.take(i), name) {
            Some(d) => Some(d + (s.len() - i)),
            None => None::<int>,
        }),
    decreases s.len() - i,
{
    if i < s.len() {
        assert(s.last() == s[s.len() - 1]);
        lemma_scope_depth_skip(s.drop_last(), i, name);
        assert(s.drop_last().take(i) == s.take(i));
    } else {
        assert(s.take(i) == s);
    }
}


/// The resolver's state as mathematics: the scope maps, the two context
/// flags, and the depth table. Every resolving step's outcome is pinned as a
/// function of this state and the syntax alone, so two runs over the same
/// tree from equal states end in equal states.
pub ghost struct RState {
    pub scopes: Seq<Map<Seq<char>, bool>>,
    pub fun: Option<FunctionType>,
    pub cls: Option<ClassType>,
    pub locals: Seq<Option<usize>>,
}

/// The distance of the nearest scope declaring the name, over scope maps.
pub open spec fn scope_depth_m(scopes: Seq<Map<Seq<char>, bool>>, name: Seq<char>) -> Option<int>
    decreases scopes.len(),
{
    if scopes.len() == 0 {
        None
    } else if scopes.last().contains_key(name) {
        Some(0)
    } else {
        match scope_depth_m(scopes.drop_last(), name) {
            Some(d) => Some(d + 1),
            None => None,
        }
    }
}

proof fn lemma_scope_depth_model(s: Seq<HashableMap<bool>>, name: Seq<char>)
    ensures
        scope_depth(s, name) == scope_depth_m(
            s.map_values(|m: HashableMap<bool>| m@),
            name,
        ),
    decreases s.len(),
{
    let t = s.map_values(|m: HashableMap<bool>| m@);
    if s.len() > 0 {
        lemma_scope_depth_model(s.drop_last(), name);
        assert(t.drop_last() =~= s.drop_last().map_values(|m: HashableMap<bool>| m@));
        assert(t.last() == s.last()@);
    }
}

/// The depth table after recording one depth: grown with empty slots as far
/// as the id asks, and the id's slot set.
pub open spec fn spec_set_locals(l: Seq<Option<usize>>, id: int, d: usize) -> Seq<Option<usize>> {
    Seq::new(
        if id + 1 > l.len() {
            (id + 1) as nat
        } else {
            l.len()
        },
        |j: int|
            if j == id {
                Some(d)
            } else if j < l.len() {
                l[j]
            } else {
                None
            },
    )
}

/// What recording a node does to the state: nothing for a global name, and
/// one depth entry otherwise.
pub open spec fn spec_resolve_local(st: RState, id: int, name: Seq<char>) -> RState {
    if id >= usize::MAX {
        st
    } else {
        match scope_depth_m(st.scopes, name) {
            Some(d) => RState { locals: spec_set_locals(st.locals, id, d as usize), ..st },
            None => st,
        }
    }
}

pub open spec fn spec_push_scope(st: RState) -> RState {
    RState { scopes: st.scopes.push(Map::empty()), ..st }
}

pub open spec fn spec_pop_scope(st: RState) -> RState {
    RState { scopes: st.scopes.drop_last(), ..st }
}

pub open spec fn spec_with_fun(st: RState, f: Option<FunctionType>) -> RState {
    RState { fun: f, ..st }
}

pub open spec fn spec_with_cls(st: RState, c: Option<ClassType>) -> RState {
    RState { cls: c, ..st }
}

/// Declaring a name: an error where the innermost scope already has it, and
/// the name marked not-yet-usable otherwise; the global scope accepts
/// anything silently.
pub open spec fn spec_declare(st: RState, name: Seq<char>) -> Option<RState> {
    if st.scopes.len() == 0 {
        Some(st)
    } else if st.scopes.last().contains_key(name) {
        None
    } else {
        Some(
            RState {
                scopes: st.scopes.update(
                    st.scopes.len() - 1,
                    st.scopes.last().insert(name, false),
                ),
                ..st
            },
        )
    }
}

/// Defining a name: marked usable in the innermost scope.
pub open spec fn spec_define(st: RState, name: Seq<char>) -> RState {
    if st.scopes.len() == 0 {
        st
    } else {
        RState {
            scopes: st.scopes.update(st.scopes.len() - 1, st.scopes.last().insert(name, true)),
            ..st
        }
    }
}

/// What resolving one expression does to the state, or nothing where it is
/// one of the static errors.
pub open spec fn spec_resolve_expr(e: Expr, st: RState) -> Option<RState>
    decreases expr_size(e), 1int, 0int,
{
    match e {
        Expr::Assign { id, name, value } => match spec_resolve_expr(*value, st) {
            Some(st1) => Some(spec_resolve_local(st1, id as int, name.lexeme@)),
            None => None,
        },
        Expr::Binary { left, right, .. } => match spec_resolve_expr(*left, st) {
            Some(st1) => spec_resolve_expr(*right, st1),
            None => None,
        },
        Expr::Grouping { expression } => spec_resolve_expr(*expression, st),
        Expr::Literal { .. } => Some(st),
        Expr::Unary { right, .. } => spec_resolve_expr(*right, st),
        Expr::Variable { id, name } => if st.scopes.len() > 0 && st.scopes.last().contains_key(
            name.lexeme@,
        ) && st.scopes.last()[name.lexeme@] == false {
            None
        } else {
            Some(spec_resolve_local(st, id as int, name.lexeme@))
        },
        Expr::Logical { left, right, .. } => match spec_resolve_expr(*left, st) {
            Some(st1) => spec_resolve_expr(*right, st1),
            None => None,
        },
        Expr::Call { callee, arguments, .. } => match spec_resolve_expr(*callee, st) {
            Some(st1) => spec_resolve_exprs(arguments@, 0, st1),
            None => None,
        },
        Expr::Get { object, .. } => spec_resolve_expr(*object, st),
        Expr::SetProp { object, value, .. } => match spec_resolve_expr(*value, st) {
            Some(st1) => spec_resolve_expr(*object, st1),
            None => None,
        },
        Expr::This { id, keyword } => if st.cls is None {
            None
        } else {
            Some(spec_resolve_local(st, id as int, keyword.lexeme@))
        },
        Expr::Super { id, keyword, .. } => match st.cls {
            Some(ClassType::Subclass) => Some(spec_resolve_local(st, id as int, keyword.lexeme@)),
            _ => None,
        },
        Expr::Array { values } => spec_resolve_exprs(values@, 0, st),
        Expr::GetIndexed { object, index, .. } => match spec_resolve_expr(*object, st) {
            Some(st1) => spec_resolve_expr(*index, st1),
            None => None,
        },
        Expr::SetIndexed { object, index, value, .. } => match spec_resolve_expr(*object, st) {
            Some(st1) => match spec_resolve_expr(*index, st1) {
                Some(st2) => spec_resolve_expr(*value, st2),
                None => None,
            },
            None => None,
        },
    }
}

pub open spec fn spec_resolve_exprs(s: Seq<Expr>, i: int, st: RState) -> Option<RState>
    decreases exprs_size(s), 2int, s.len() - i,
    via spec_resolve_exprs_decreases
{
    if i < 0 || i >= s.len() {
        Some(st)
    } else {
        match spec_resolve_expr(s[i], st) {
            Some(st1) => spec_resolve_exprs(s, i + 1, st1),
            None => None,
        }
    }
}

#[via_fn]
proof fn spec_resolve_exprs_decreases(s: Seq<Expr>, i: int, st: RState) {
    if 0 <= i < s.len() {
        lemma_exprs_size_element(s, i);
    }
}

/// What resolving one statement does to the state, or nothing where it is
/// one of the static errors.
pub open spec fn spec_resolve_stmt(s: Stmt, st: RState) -> Option<RState>
    decreases stmt_size(s), 3int, 0int,
{
    match s {
        Stmt::Expression { expression } => spec_resolve_expr(expression, st),
        Stmt::Print { expression } => spec_resolve_expr(expression, st),
        Stmt::Var { name, initializer } => match spec_declare(st, name.lexeme@) {
            Some(st1) => match initializer {
                Some(e) => match spec_resolve_expr(e, st1) {
                    Some(st2) => Some(spec_define(st2, name.lexeme@)),
                    None => None,
                },
                None => Some(spec_define(st1, name.lexeme@)),
            },
            None => None,
        },
        Stmt::Block { statements } => match spec_resolve_stmts(
            statements@,
            0,
            spec_push_scope(st),
        ) {
            Some(st1) => Some(spec_pop_scope(st1)),
            None => None,
        },
        Stmt::If { condition, then, else_branch } => match spec_resolve_expr(condition, st) {
            Some(st1) => match spec_resolve_stmt(*then, st1) {
                Some(st2) => match else_branch {
                    Some(e) => spec_resolve_stmt(*e, st2),
                    None => Some(st2),
                },
                None => None,
            },
            None => None,
        },
        Stmt::While { condition, body } => match spec_resolve_expr(condition, st) {
            Some(st1) => spec_resolve_stmt(*body, st1),
            None => None,
        },
        Stmt::Function { name, params, body } => match spec_declare(st, name.lexeme@) {
            Some(st1) => spec_resolve_function(
                params@,
                body@,
                Some(FunctionType::Function),
                spec_define(st1, name.lexeme@),
            ),
            None => None,
        },
        Stmt::Return { keyword, value } => if st.fun is None {
            None
        } else {
            match value {
                Some(v) => if st.fun == Some(FunctionType::Initializer) {
                    None
                } else {
                    spec_resolve_expr(v, st)
                },
                None => Some(st),
            }
        },
        Stmt::Class { name, superclass, methods } => spec_resolve_class(
            name,
            superclass,
            methods@,
            st,
        ),
    }
}

pub open spec fn spec_resolve_stmts(v: Seq<Stmt>, i: int, st: RState) -> Option<RState>
    decreases stmts_size(v), 4int, v.len() - i,
    via spec_resolve_stmts_decreases
{
    if i < 0 || i >= v.len() {
        Some(st)
    } else {
        match spec_resolve_stmt(v[i], st) {
            Some(st1) => spec_resolve_stmts(v, i + 1, st1),
            None => None,
        }
    }
}

#[via_fn]
proof fn spec_resolve_stmts_decreases(v: Seq<Stmt>, i: int, st: RState) {
    if 0 <= i < v.len() {
        lemma_stmts_size_element(v, i);
    }
}

/// The parameters of a function, declared and defined in order.
pub open spec fn spec_params(params: Seq<Token>, i: int, st: RState) -> Option<RState>
    decreases params.len() - i,
{
    if i < 0 || i >= params.len() {
        Some(st)
    } else {
        match spec_declare(st, params[i].lexeme@) {
            Some(st1) => spec_params(params, i + 1, spec_define(st1, params[i].lexeme@)),
            None => None,
        }
    }
}

/// What resolving a function body does: a fresh scope with the parameters
/// under the given function context, with both restored afterwards.
pub open spec fn spec_resolve_function(
    params: Seq<Token>,
    body: Seq<Stmt>,
    ft: Option<FunctionType>,
    st: RState,
) -> Option<RState>
    decreases stmts_size(body), 5int, 0int,
{
    match spec_params(params, 0, spec_push_scope(spec_with_fun(st, ft))) {
        Some(st1) => match spec_resolve_stmts(body, 0, st1) {
            Some(st2) => Some(spec_with_fun(spec_pop_scope(st2), st.fun)),
            None => None,
        },
        None => None,
    }
}

/// The methods of a class, each resolved as a method or an initializer.
pub open spec fn spec_methods(methods: Seq<Stmt>, i: int, st: RState) -> Option<RState>
    decreases stmts_size(methods), 6int, methods.len() - i,
    via spec_methods_decreases
{
    if i < 0 || i >= methods.len() {
        Some(st)
    } else {
        match methods[i] {
            Stmt::Function { name, params, body } => {
                let ft = if name.lexeme@ == "khalaq"@ {
                    FunctionType::Initializer
                } else {
                    FunctionType::Method
                };
                match spec_resolve_function(params@, body@, Some(ft), st) {
                    Some(st1) => spec_methods(methods, i + 1, st1),
                    None => None,
                }
            },
            _ => None,
        }
    }
}

#[via_fn]
proof fn spec_methods_decreases(methods: Seq<Stmt>, i: int, st: RState) {
    if 0 <= i < methods.len() {
        lemma_stmts_size_element(methods, i);
    }
}

/// What resolving a class does: the class context set, the name declared and
/// defined, a scope naming `ulya` where there is a superclass, a scope
/// naming `nafs`, the methods, and everything restored.
pub open spec fn spec_resolve_class(
    name: Token,
    superclass: Option<Expr>,
    methods: Seq<Stmt>,
    st: RState,
) -> Option<RState>
    decreases 1 + (match superclass {
        Some(e) => expr_size(e),
        None => 0,
    }) + stmts_size(methods), 2int, 0int,
{
    let st0 = spec_with_cls(st, Some(ClassType::Class));
    match spec_declare(st0, name.lexeme@) {
        None => None,
        Some(st1) => {
            let st2 = spec_define(st1, name.lexeme@);
            match superclass {
                Some(sc) => match sc {
                    Expr::Variable { id, name: sname } => if sname.lexeme@ == name.lexeme@ {
                        None
                    } else {
                        match spec_resolve_expr(sc, spec_with_cls(st2, Some(ClassType::Subclass))) {
                            Some(st3) => {
                                let st4 = spec_define(spec_push_scope(st3), "ulya"@);
                                let st5 = spec_define(spec_push_scope(st4), "nafs"@);
                                match spec_methods(methods, 0, st5) {
                                    Some(st6) => Some(
                                        spec_with_cls(
                                            spec_pop_scope(spec_pop_scope(st6)),
                                            st.cls,
                                        ),
                                    ),
                                    None => None,
                                }
                            },
                            None => None,
                        }
                    },
                    _ => None,
                },
                None => {
                    let st5 = spec_define(spec_push_scope(st2), "nafs"@);
                    match spec_methods(methods, 0, st5) {
                        Some(st6) => Some(spec_with_cls(spec_pop_scope(st6), st.cls)),
                        None => None,
                    }
                },
            }
        },
    }
}

pub struct Resolver {
    pub scopes: Stack<HashableMap<bool>>,
    pub current_function: Option<FunctionType>,
    pub current_class: Option<ClassType>,
    pub locals: Locals,
}

impl Resolver {
    /// This resolver's state, viewed as mathematics.
    pub open spec fn model(self) -> RState {
        RState {
            scopes: self.scopes@.map_values(|m: HashableMap<bool>| m@),
            fun: self.current_function,
            cls: self.current_class,
            locals: self.locals.depths@,
        }
    }

    pub open spec fn wf(self) -> bool {
        forall|i: int| 0 <= i < self.scopes@.len() ==> (#[trigger] self.scopes@[i]).wf()
    }

    /// What every resolving step preserves: the function and class context
    /// and the scope depth are restored on every path.
    pub open spec fn balanced(self, post: Self) -> bool {
        &&& post.wf()
        &&& post.current_function == self.current_function
        &&& post.current_class == self.current_class
        &&& post.scopes@.len() == self.scopes@.len()
    }

    pub fn init() -> (r: Self)
        ensures
            r.wf(),
            r.scopes@.len() == 0,
            r.current_function is None,
            r.current_class is None,
            r.locals.depths@.len() == 0,
    {
        Resolver {
            scopes: Stack::new(),
            current_function: None,
            current_class: None,
            locals: Locals::new(),
        }
    }

    fn begin_scope(&mut self)
        requires
            old(self).wf(),
        ensures
            final(self).wf(),
            final(self).scopes@.len() == old(self).scopes@.len() + 1,
            final(self).current_function == old(self).current_function,
            final(self).current_class == old(self).current_class,
            final(self).locals == old(self).locals,
            final(self).model() == spec_push_scope(old(self).model()),
    {
        self.scopes.push(HashableMap::new());
        proof {
            assert(self.model().scopes =~= spec_push_scope(old(self).model()).scopes);
        }
    }

    fn end_scope(&mut self)
        requires
            old(self).wf(),
            old(self).scopes@.len() > 0,
        ensures
            final(self).wf(),
            final(self).scopes@.len() == old(self).scopes@.len() - 1,
            final(self).current_function == old(self).current_function,
            final(self).current_class == old(self).current_class,
            final(self).locals == old(self).locals,
            final(self).model() == spec_pop_scope(old(self).model()),
    {
        let _ = self.scopes.pop();
        proof {
            assert(forall|i: int|
                0 <= i < self.scopes@.len() ==> self.scopes@[i] == old(self).scopes@[i]);
            assert(self.model().scopes =~= spec_pop_scope(old(self).model()).scopes);
        }
    }

    /// Marks the name as declared but not yet usable in the innermost scope;
    /// declaring it twice in one scope is the error the spec demands.
    fn declare(&mut self, name: &Token) -> (r: Result<(), RuntimeError>)
        requires
            old(self).wf(),
        ensures
            final(self).wf(),
            final(self).scopes@.len() == old(self).scopes@.len(),
            final(self).current_function == old(self).current_function,
            final(self).current_class == old(self).current_class,
            final(self).locals == old(self).locals,
            old(self).scopes@.len() == 0 ==> r is Ok,
            old(self).scopes@.len() > 0 ==> (r is Err <==> old(
                self,
            ).scopes@.last()@.contains_key(name.lexeme@)),
            (match r {
                Ok(_) => spec_declare(old(self).model(), name.lexeme@) == Some(
                    final(self).model(),
                ),
                Err(_) => spec_declare(old(self).model(), name.lexeme@) is None,
            }),
    {
        if self.scopes.is_empty() {
            return Ok(());
        }
        let top = self.scopes.pop();
        match top {
            Some(mut scope) => {
                if scope.contains_key(&name.lexeme) {
                    self.scopes.push(scope);
                    proof {
                        assert(self.scopes@ =~= old(self).scopes@);
                    }
                    Err(
                        RuntimeError::init(
                            name,
                            String::from_str("Already a variable with this name in this scope."),
                        ),
                    )
                } else {
                    scope.insert(name.lexeme.clone(), false);
                    self.scopes.push(scope);
                    proof {
                        let st = old(self).model();
                        assert(self.model().scopes =~= st.scopes.update(
                            st.scopes.len() - 1,
                            st.scopes.last().insert(name.lexeme@, false),
                        ));
                    }
                    Ok(())
                }
            },
            None => Ok(()),
        }
    }

    /// Marks the name as fully defined in the innermost scope.
    fn define(&mut self, name: &Token)
        requires
            old(self).wf(),
        ensures
            final(self).wf(),
            final(self).scopes@.len() == old(self).scopes@.len(),
            final(self).current_function == old(self).current_function,
            final(self).current_class == old(self).current_class,
            final(self).locals == old(self).locals,
            old(self).scopes@.len() > 0 ==> final(self).scopes@.last()@ == old(
                self,
            ).scopes@.last()@.insert(name.lexeme@, true),
            final(self).model() == spec_define(old(self).model(), name.lexeme@),
    {
        if self.scopes.is_empty() {
            return ;
        }
        let top = self.scopes.pop();
        match top {
            Some(mut scope) => {
                scope.insert(name.lexeme.clone(), true);
                self.scopes.push(scope);
                proof {
                    let st = old(self).model();
                    assert(self.model().scopes =~= st.scopes.update(
                        st.scopes.len() - 1,
                        st.scopes.last().insert(name.lexeme@, true),
                    ));
                }
            },
            None => {},
        }
    }

    /// Records, for the node with this id, how many scopes out the name was
    /// found; absence means the name is a global.
    #[verifier::loop_isolation(false)]
    fn resolve_local(&mut self, id: usize, name: &Token)
        requires
            old(self).wf(),
        ensures
            final(self).wf(),
            final(self).scopes == old(self).scopes,
            final(self).current_function == old(self).current_function,
            final(self).current_class == old(self).current_class,
            id < usize::MAX ==> match scope_depth(old(self).scopes@, name.lexeme@) {
                Some(d) => final(self).locals.depths@[id as int] == Some(d as usize) && d < old(
                    self,
                ).scopes@.len(),
                None => final(self).locals == old(self).locals,
            },
            final(self).model() == spec_resolve_local(old(self).model(), id as int, name.lexeme@),
    {
        proof {
            lemma_scope_depth_model(self.scopes@, name.lexeme@);
        }
        if id >= usize::MAX {
            return ;
        }
        proof {
            lemma_scope_depth_bound(self.scopes@, name.lexeme@);
        }
        let mut i: usize = self.scopes.size();
        while i > 0
            invariant
                self.wf(),
                *self == *old(self),
                i <= self.scopes@.len(),
                forall|j: int|
                    i <= j < self.scopes@.len() ==> !(#[trigger] self.scopes@[j])@.contains_key(
                        name.lexeme@,
                    ),
            decreases i,
        {
            i = i - 1;
            let sc = self.scopes.get(i);
            match sc {
                Some(scope) => {
                    if scope.contains_key(&name.lexeme) {
                        proof {
                            lemma_scope_depth_skip(self.scopes@, i + 1, name.lexeme@);
                            assert(self.scopes@.take(i + 1).last() == self.scopes@[i as int]);
                            assert(scope_depth(self.scopes@.take(i + 1), name.lexeme@) == Some(
                                0int,
                            ));
                        }
                        let depth = self.scopes.size() - 1 - i;
                        self.locals.set(id, depth);
                        proof {
                            assert(self.locals.depths@ =~= spec_set_locals(
                                old(self).locals.depths@,
                                id as int,
                                depth,
                            ));
                        }
                        return ;
                    }
                },
                None => {},
            }
        }
        proof {
            lemma_scope_depth_skip(self.scopes@, 0, name.lexeme@);
            assert(self.scopes@.take(0) =~= Seq::<HashableMap<bool>>::empty());
        }
    }

    /// Resolves a whole statement list; the context flags and the scope
    /// depth are restored on every path, errors included.
    #[verifier::loop_isolation(false)]
    pub fn resolve_stmts(&mut self, statements: &Vec<Stmt>) -> (r: Result<(), RuntimeError>)
        requires
            old(self).wf(),
        ensures
            old(self).balanced(*final(self)),
            (match r {
                Ok(_) => spec_resolve_stmts(statements@, 0, old(self).model()) == Some(
                    final(self).model(),
                ),
                Err(_) => spec_resolve_stmts(statements@, 0, old(self).model()) is None,
            }),
        decreases stmts_size(statements@), 2int,
    {
        let mut i: usize = 0;
        loop
            invariant
                self.wf(),
                old(self).balanced(*self),
                i <= statements@.len(),
                spec_resolve_stmts(statements@, 0, old(self).model()) == spec_resolve_stmts(
                    statements@,
                    i as int,
                    self.model(),
                ),
            decreases statements@.len() - i,
        {
            if i < statements.len() {
                proof {
                    lemma_stmts_size_element(statements@, i as int);
                }
                self.resolve_stmt(&statements[i])?;
                i = i + 1;
            } else {
                break ;
            }
        }
        Ok(())
    }

    /// Resolves one function or method: a fresh scope for the parameters,
    /// under the given function context.
    #[verifier::loop_isolation(false)]
    fn resolve_function(
        &mut self,
        params: &Vec<Token>,
        body: &Vec<Stmt>,
        func_type: Option<FunctionType>,
    ) -> (r: Result<(), RuntimeError>)
        requires
            old(self).wf(),
        ensures
            old(self).balanced(*final(self)),
            (match r {
                Ok(_) => spec_resolve_function(params@, body@, func_type, old(self).model())
                    == Some(final(self).model()),
                Err(_) => spec_resolve_function(params@, body@, func_type, old(self).model())
                    is None,
            }),
        decreases stmts_size(body@), 3int,
    {
        let enclosing = self.current_function;
        self.current_function = func_type;
        self.begin_scope();
        let ghost st_init = self.model();
        let mut i: usize = 0;
        loop
            invariant
                self.wf(),
                self.scopes@.len() == old(self).scopes@.len() + 1,
                self.current_class == old(self).current_class,
                self.current_function == func_type,
                i <= params@.len(),
                st_init == spec_push_scope(spec_with_fun(old(self).model(), func_type)),
                spec_params(params@, 0, st_init) == spec_params(params@, i as int, self.model()),
            decreases params@.len() - i,
        {
            if i < params.len() {
                match self.declare(&params[i]) {
                    Ok(u) => u,
                    Err(e) => {
                        self.end_scope();
                        self.current_function = enclosing;
                        return Err(e);
                    },
                }
                self.define(&params[i]);
                i = i + 1;
            } else {
                break ;
            }
        }
        match self.resolve_stmts(body) {
            Ok(u) => u,
            Err(e) => {
                self.end_scope();
                self.current_function = enclosing;
                return Err(e);
            },
        }
        self.end_scope();
        self.current_function = enclosing;
        Ok(())
    }

    /// Defines a synthetic name (`nafs` or `ulya`) in the innermost scope.
    fn define_text(&mut self, name: &str)
        requires
            old(self).wf(),
        ensures
            final(self).wf(),
            final(self).scopes@.len() == old(self).scopes@.len(),
            final(self).current_function == old(self).current_function,
            final(self).current_class == old(self).current_class,
            final(self).locals == old(self).locals,
            old(self).scopes@.len() > 0 ==> final(self).scopes@.last()@ == old(
                self,
            ).scopes@.last()@.insert(name@, true),
            final(self).model() == spec_define(old(self).model(), name@),
    {
        if self.scopes.is_empty() {
            return ;
        }
        let top = self.scopes.pop();
        match top {
            Some(mut scope) => {
                scope.insert(String::from_str(name), true);
                self.scopes.push(scope);
                proof {
                    let st = old(self).model();
                    assert(self.model().scopes =~= st.scopes.update(
                        st.scopes.len() - 1,
                        st.scopes.last().insert(name@, true),
                    ));
                }
            },
            None => {},
        }
    }

    /// Resolves one statement. `radd` is rejected outside a function and,
    /// with a value, inside an initializer; bare `radd` always resolves
    /// inside a function; a class may not inherit from itself.
    #[verifier::loop_isolation(false)]
    pub fn resolve_stmt(&mut self, stmt: &Stmt) -> (r: Result<(), RuntimeError>)
        requires
            old(self).wf(),
        ensures
            old(self).balanced(*final(self)),
            (stmt matches Stmt::Return { .. } && old(self).current_function is None) ==> r is Err,
            (stmt matches Stmt::Return { value: Some(_), .. } && old(self).current_function
                == Some(FunctionType::Initializer)) ==> r is Err,
            (stmt matches Stmt::Return { value: None, .. } && old(self).current_function is Some)
                ==> r is Ok,
            (stmt matches Stmt::Class {
                name,
                superclass: Some(Expr::Variable { name: sname, .. }),
                ..
            } && sname.lexeme@ == name.lexeme@) ==> r is Err,
            (match r {
                Ok(_) => spec_resolve_stmt(*stmt, old(self).model()) == Some(final(self).model()),
                Err(_) => spec_resolve_stmt(*stmt, old(self).model()) is None,
            }),
        decreases stmt_size(*stmt), 1int,
    {
        match stmt {
            Stmt::Expression { expression } => {
                self.resolve_expr(expression)?;
                Ok(())
            },
            Stmt::Print { expression } => {
                self.resolve_expr(expression)?;
                Ok(())
            },
            Stmt::Var { name, initializer } => {
                self.declare(name)?;
                match initializer {
                    Some(init_expr) => {
                        self.resolve_expr(init_expr)?;
                    },
                    None => {},
                }
                self.define(name);
                Ok(())
            },
            Stmt::Block { statements } => {
                self.begin_scope();
                match self.resolve_stmts(statements) {
                    Ok(u) => u,
                    Err(e) => {
                        self.end_scope();
                        return Err(e);
                    },
                }
                self.end_scope();
                Ok(())
            },
            Stmt::If { condition, then, else_branch } => {
                self.resolve_expr(condition)?;
                self.resolve_stmt(then)?;
                match else_branch {
                    Some(e) => {
                        self.resolve_stmt(e)?;
                    },
                    None => {},
                }
                Ok(())
            },
            Stmt::While { condition, body } => {
                self.resolve_expr(condition)?;
                self.resolve_stmt(body)?;
                Ok(())
            },
            Stmt::Function { name, params, body } => {
                self.declare(name)?;
                self.define(name);
                self.resolve_function(params, body, Some(FunctionType::Function))?;
                Ok(())
            },
            Stmt::Return { keyword, value } => {
                if self.current_function.is_none() {
                    return Err(
                        RuntimeError::init(
                            keyword,
                            String::from_str("Can't return from top-level code."),
                        ),
                    );
                }
                match value {
                    Some(v) => {
                        match self.current_function {
                            Some(FunctionType::Initializer) => {
                                return Err(
                                    RuntimeError::init(
                                        keyword,
                                        String::from_str("Can't return from an initializer."),
                                    ),
                                );
                            },
                            _ => {},
                        }
                        self.resolve_expr(v)?;
                        Ok(())
                    },
                    None => Ok(()),
                }
            },
            Stmt::Class { name, superclass, methods } => self.resolve_class(
                name,
                superclass,
                methods,
            ),
        }
    }

    #[verifier::loop_isolation(false)]
    fn resolve_class(
        &mut self,
        name: &Token,
        superclass: &Option<Expr>,
        methods: &Vec<Stmt>,
    ) -> (r: Result<(), RuntimeError>)
        requires
            old(self).wf(),
        ensures
            old(self).balanced(*final(self)),
            (superclass matches Some(Expr::Variable { name: sname, .. }) && sname.lexeme@
                == name.lexeme@) ==> r is Err,
            (match r {
                Ok(_) => spec_resolve_class(*name, *superclass, methods@, old(self).model())
                    == Some(final(self).model()),
                Err(_) => spec_resolve_class(*name, *superclass, methods@, old(self).model())
                    is None,
            }),
        decreases 1 + (match *superclass {
            Some(e) => expr_size(e),
            None => 0,
        }) + stmts_size(methods@), 0int,
    {
        let enclosing_class = self.current_class;
        self.current_class = Some(ClassType::Class);
        match self.declare(name) {
            Ok(u) => u,
            Err(e) => {
                self.current_class = enclosing_class;
                return Err(e);
            },
        }
        self.define(name);
        let mut has_super = false;
        match superclass {
            Some(sc) => {
                match sc {
                    Expr::Variable { id, name: sname } => {
                        if str_eq(sname.lexeme.as_str(), name.lexeme.as_str()) {
                            self.current_class = enclosing_class;
                            return Err(
                                RuntimeError::init(
                                    sname,
                                    String::from_str("A class can't inherit from itself."),
                                ),
                            );
                        }
                        self.current_class = Some(ClassType::Subclass);
                        match self.resolve_expr(sc) {
                            Ok(u) => u,
                            Err(e) => {
                                self.current_class = enclosing_class;
                                return Err(e);
                            },
                        }
                        self.begin_scope();
                        self.define_text("ulya");
                        has_super = true;
                    },
                    _ => {
                        self.current_class = enclosing_class;
                        return Err(
                            RuntimeError::init(
                                name,
                                String::from_str("class must inherit from class."),
                            ),
                        );
                    },
                }
            },
            None => {},
        }
        self.begin_scope();
        self.define_text("nafs");
        let ghost st_methods = self.model();
        let mut i: usize = 0;
        loop
            invariant
                self.wf(),
                self.scopes@.len() == old(self).scopes@.len() + 1 + (if has_super {
                    1int
                } else {
                    0int
                }),
                self.current_function == old(self).current_function,
                self.current_class == (if has_super {
                    Some(ClassType::Subclass)
                } else {
                    Some(ClassType::Class)
                }),
                i <= methods@.len(),
                spec_methods(methods@, 0, st_methods) == spec_methods(
                    methods@,
                    i as int,
                    self.model(),
                ),
            decreases methods@.len() - i,
        {
            if i < methods.len() {
                proof {
                    lemma_stmts_size_element(methods@, i as int);
                }
                let m = &methods[i];
                match m {
                    Stmt::Function { name: mname, params, body } => {
                        let is_init = str_eq(mname.lexeme.as_str(), "khalaq");
                        let ftype = if is_init {
                            FunctionType::Initializer
                        } else {
                            FunctionType::Method
                        };
                        match self.resolve_function(params, body, Some(ftype)) {
                            Ok(u) => u,
                            Err(e) => {
                                self.end_scope();
                                if has_super {
                                    self.end_scope();
                                }
                                self.current_class = enclosing_class;
                                return Err(e);
                            },
                        }
                    },
                    _ => {
                        self.end_scope();
                        if has_super {
                            self.end_scope();
                        }
                        self.current_class = enclosing_class;
                        return Err(
                            RuntimeError::init(
                                name,
                                String::from_str("class method is not a function!"),
                            ),
                        );
                    },
                }
                i = i + 1;
            } else {
                break ;
            }
        }
        self.end_scope();
        if has_super {
            self.end_scope();
        }
        self.current_class = enclosing_class;
        Ok(())
    }

    /// Resolves one expression. `nafs` outside a class and `ulya` outside a
    /// subclass are rejected, as is reading a local in its own initializer.
    #[verifier::loop_isolation(false)]
    pub fn resolve_expr(&mut self, expr: &Expr) -> (r: Result<(), RuntimeError>)
        requires
            old(self).wf(),
        ensures
            old(self).balanced(*final(self)),
            final(self).scopes == old(self).scopes,
            (expr matches Expr::This { .. } && old(self).current_class is None) ==> r is Err,
            (expr matches Expr::Super { .. } && old(self).current_class != Some(
                ClassType::Subclass,
            )) ==> r is Err,
            (expr matches Expr::Variable { name, .. } && old(self).scopes@.len() > 0 && old(
                self,
            ).scopes@.last()@.contains_key(name.lexeme@) && old(self).scopes@.last()@[name.lexeme@]
                == false) ==> r is Err,
            (match r {
                Ok(_) => spec_resolve_expr(*expr, old(self).model()) == Some(final(self).model()),
                Err(_) => spec_resolve_expr(*expr, old(self).model()) is None,
            }),
        decreases expr_size(*expr), 0int,
    {
        match expr {
            Expr::Assign { id, name, value } => {
                self.resolve_expr(value)?;
                self.resolve_local(*id, name);
                Ok(())
            },
            Expr::Binary { left, operator, right } => {
                self.resolve_expr(left)?;
                self.resolve_expr(right)?;
                Ok(())
            },
            Expr::Grouping { expression } => {
                self.resolve_expr(expression)?;
                Ok(())
            },
            Expr::Literal { value } => Ok(()),
            Expr::Unary { operator, right } => {
                self.resolve_expr(right)?;
                Ok(())
            },
            Expr::Variable { id, name } => {
                proof {
                    if self.scopes@.len() > 0 {
                        assert(self.model().scopes.last() == self.scopes@.last()@);
                    }
                }
                if !self.scopes.is_empty() {
                    match self.scopes.peek() {
                        Some(scope) => {
                            match scope.get(&name.lexeme) {
                                Some(defined) => {
                                    if *defined == false {
                                        return Err(
                                            RuntimeError::init(
                                                name,
                                                String::from_str(
                                                    "Can't read local variable in its own initializer.",
                                                ),
                                            ),
                                        );
                                    }
                                },
                                None => {},
                            }
                        },
                        None => {},
                    }
                }
                self.resolve_local(*id, name);
                Ok(())
            },
            Expr::Logical { left, operator, right } => {
                self.resolve_expr(left)?;
                self.resolve_expr(right)?;
                Ok(())
            },
            Expr::Call { callee, paren, arguments } => {
                self.resolve_expr(callee)?;
                let ghost st1 = self.model();
                let mut i: usize = 0;
                loop
                    invariant
                        self.wf(),
                        old(self).balanced(*self),
                        self.scopes == old(self).scopes,
                        i <= arguments@.len(),
                        spec_resolve_exprs(arguments@, 0, st1) == spec_resolve_exprs(
                            arguments@,
                            i as int,
                            self.model(),
                        ),
                    decreases arguments@.len() - i,
                {
                    if i < arguments.len() {
                        proof {
                            lemma_exprs_size_element(arguments@, i as int);
                        }
                        self.resolve_expr(&arguments[i])?;
                        i = i + 1;
                    } else {
                        break ;
                    }
                }
                Ok(())
            },
            Expr::Get { object, name } => {
                self.resolve_expr(object)?;
                Ok(())
            },
            Expr::SetProp { object, name, value } => {
                self.resolve_expr(value)?;
                self.resolve_expr(object)?;
                Ok(())
            },
            Expr::This { id, keyword } => {
                if self.current_class.is_none() {
                    return Err(
                        RuntimeError::init(
                            keyword,
                            String::from_str("Can't use 'nafs' outside of a kitab."),
                        ),
                    );
                }
                self.resolve_local(*id, keyword);
                Ok(())
            },
            Expr::Super { id, keyword, method } => {
                match self.current_class {
                    None => Err(
                        RuntimeError::init(
                            keyword,
                            String::from_str("Can't use 'ulya' outside of a kitab"),
                        ),
                    ),
                    Some(ClassType::Class) => Err(
                        RuntimeError::init(
                            keyword,
                            String::from_str("Can't use 'ulya' in kitab with no superclass"),
                        ),
                    ),
                    Some(ClassType::Subclass) => {
                        self.resolve_local(*id, keyword);
                        Ok(())
                    },
                }
            },
            Expr::Array { values } => {
                let ghost st1 = self.model();
                let mut i: usize = 0;
                loop
                    invariant
                        self.wf(),
                        old(self).balanced(*self),
                        self.scopes == old(self).scopes,
                        i <= values@.len(),
                        spec_resolve_exprs(values@, 0, st1) == spec_resolve_exprs(
                            values@,
                            i as int,
                            self.model(),
                        ),
                    decreases values@.len() - i,
                {
                    if i < values.len() {
                        proof {
                            lemma_exprs_size_element(values@, i as int);
                        }
                        self.resolve_expr(&values[i])?;
                        i = i + 1;
                    } else {
                        break ;
                    }
                }
                Ok(())
            },
            Expr::GetIndexed { object, index, bracket } => {
                self.resolve_expr(object)?;
                self.resolve_expr(index)?;
                Ok(())
            },
            Expr::SetIndexed { object, index, value, bracket } => {
                self.resolve_expr(object)?;
                self.resolve_expr(index)?;
                self.resolve_expr(value)?;
                Ok(())
            },
        }
    }
}

/// Idempotent double-resolve. The contract of `resolve_stmts` pins each
/// run's whole outcome, the depth table included, to `spec_resolve_stmts`, a
/// function of the statement list and the starting state alone; so two
/// resolvers started in equal states and run over the same tree end with
/// equal depth tables, and a second run adds nothing the first did not.
pub proof fn lemma_double_resolve(program: Seq<Stmt>, a: Resolver, b: Resolver)
    requires
        a.model() == b.model(),
    ensures
        spec_resolve_stmts(program, 0, a.model()) == spec_resolve_stmts(program, 0, b.model()),
{
}

proof fn lemma_scope_depth_bound(s: Seq<HashableMap<bool>>, name: Seq<char>)
    ensures
        match scope_depth(s, name) {
            Some(d) => 0 <= d < s.len(),
            None => true,
        },
    decreases s.len(),
{
    if s.len() > 0 {
        lemma_scope_depth_bound(s.drop_last(), name);
    }
}

} // verus!
