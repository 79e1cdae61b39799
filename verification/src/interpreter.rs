//! The tree-walking evaluator. Environments, instances and arrays live in
//! the heap arena; the current-environment pointer is restored on every exit
//! path of every block and call; `radd` travels as a signal that only a call
//! frame absorbs; and every run is bounded by a fuel budget standing in for
//! the call stack, so evaluation provably terminates.
use crate::ast::{expr_size, lemma_exprs_size_element, lemma_stmts_size_element, stmt_size,
    stmts_size, Expr, Stmt};
use crate::callable::{rc_clone, Callable, QalamClass, QalamFunction, QalamInstance};
use crate::display::display_opt;
use crate::environment::Heap;
use crate::error::{RuntimeError, Signal};
use crate::hashable::HashableMap;
use crate::literal::{opt_dup, opt_eq, Literal, QalamArray};
use crate::native::NativeFn;
use crate::num::{add_bits, div_bits, mul_bits, num_add, num_div, num_le, num_le_bits, num_lt,
    num_lt_bits, num_mul, num_neg, num_sub, num_to_u64, sub_bits};
use crate::resolver::Locals;
use crate::strutil::{push_char, push_dec_u64};
use crate::token::{Token, TokenType};
use std::rc::Rc;
use vstd::prelude::*;
use vstd::string::*;

verus! {

/// The depth the resolver recorded for a node, where it recorded one.
pub open spec fn spec_depth(locals: Locals, id: int) -> Option<usize> {
    if 0 <= id < locals.depths@.len() {
        locals.depths@[id]
    } else {
        None
    }
}

/// Truthiness: only `batil` and the absent value are falsy.
pub open spec fn spec_truthy(v: Option<Literal>) -> bool {
    match v {
        None => false,
        Some(Literal::Bool(b)) => b,
        Some(_) => true,
    }
}

pub fn is_truthy(v: &Option<Literal>) -> (r: bool)
    ensures
        r == spec_truthy(*v),
{
    match v {
        None => false,
        Some(Literal::Bool(b)) => *b,
        Some(_) => true,
    }
}

/// One binary operator applied to two already-evaluated operands: `+` adds
/// numbers or concatenates strings, `- * /` and the comparisons demand
/// numbers (comparing in the total order where NaN is greatest), and the
/// equalities follow the language's equality on every pair of values.
pub fn apply_binary(op: TokenType, a: &Option<Literal>, b: &Option<Literal>, token: &Token) -> (r:
    Result<Option<Literal>, RuntimeError>)
    ensures
        op == TokenType::Plus ==> (match (*a, *b) {
            (Some(Literal::Number(x)), Some(Literal::Number(y))) => r == Ok::<
                Option<Literal>,
                RuntimeError,
            >(Some(Literal::Number(add_bits(x, y)))),
            (Some(Literal::String(x)), Some(Literal::String(y))) => (r matches Ok(v)
                && v matches Some(l) && l matches Literal::String(s2) && s2@ == x@ + y@),
            _ => r is Err,
        }),
        op == TokenType::Minus ==> (match (*a, *b) {
            (Some(Literal::Number(x)), Some(Literal::Number(y))) => r == Ok::<
                Option<Literal>,
                RuntimeError,
            >(Some(Literal::Number(sub_bits(x, y)))),
            _ => r is Err,
        }),
        op == TokenType::Star ==> (match (*a, *b) {
            (Some(Literal::Number(x)), Some(Literal::Number(y))) => r == Ok::<
                Option<Literal>,
                RuntimeError,
            >(Some(Literal::Number(mul_bits(x, y)))),
            _ => r is Err,
        }),
        op == TokenType::Slash ==> (match (*a, *b) {
            (Some(Literal::Number(x)), Some(Literal::Number(y))) => r == Ok::<
                Option<Literal>,
                RuntimeError,
            >(Some(Literal::Number(div_bits(x, y)))),
            _ => r is Err,
        }),
        op == TokenType::Greater ==> (match (*a, *b) {
            (Some(Literal::Number(x)), Some(Literal::Number(y))) => r == Ok::<
                Option<Literal>,
                RuntimeError,
            >(Some(Literal::Bool(num_lt_bits(y, x)))),
            _ => r is Err,
        }),
        op == TokenType::GreaterEqual ==> (match (*a, *b) {
            (Some(Literal::Number(x)), Some(Literal::Number(y))) => r == Ok::<
                Option<Literal>,
                RuntimeError,
            >(Some(Literal::Bool(num_le_bits(y, x)))),
            _ => r is Err,
        }),
        op == TokenType::Less ==> (match (*a, *b) {
            (Some(Literal::Number(x)), Some(Literal::Number(y))) => r == Ok::<
                Option<Literal>,
                RuntimeError,
            >(Some(Literal::Bool(num_lt_bits(x, y)))),
            _ => r is Err,
        }),
        op == TokenType::LessEqual ==> (match (*a, *b) {
            (Some(Literal::Number(x)), Some(Literal::Number(y))) => r == Ok::<
                Option<Literal>,
                RuntimeError,
            >(Some(Literal::Bool(num_le_bits(x, y)))),
            _ => r is Err,
        }),
        op == TokenType::EqualEqual ==> r == Ok::<Option<Literal>, RuntimeError>(
            Some(Literal::Bool(opt_eq(*a, *b))),
        ),
        op == TokenType::BangEqual ==> r == Ok::<Option<Literal>, RuntimeError>(
            Some(Literal::Bool(!opt_eq(*a, *b))),
        ),
{
    match op {
        TokenType::Plus => {
            match (a, b) {
                (Some(Literal::Number(x)), Some(Literal::Number(y))) => Ok(
                    Some(Literal::Number(num_add(*x, *y))),
                ),
                (Some(Literal::String(x)), Some(Literal::String(y))) => {
                    let mut s2 = x.clone();
                    s2.append(y.as_str());
                    Ok(Some(Literal::String(s2)))
                },
                _ => Err(
                    RuntimeError::init(
                        token,
                        String::from_str("Operands must be two numbers or two strings."),
                    ),
                ),
            }
        },
        TokenType::Minus => {
            match (a, b) {
                (Some(Literal::Number(x)), Some(Literal::Number(y))) => Ok(
                    Some(Literal::Number(num_sub(*x, *y))),
                ),
                _ => Err(
                    RuntimeError::init(token, String::from_str("Operands must be numbers.")),
                ),
            }
        },
        TokenType::Star => {
            match (a, b) {
                (Some(Literal::Number(x)), Some(Literal::Number(y))) => Ok(
                    Some(Literal::Number(num_mul(*x, *y))),
                ),
                _ => Err(
                    RuntimeError::init(token, String::from_str("Operands must be numbers.")),
                ),
            }
        },
        TokenType::Slash => {
            match (a, b) {
                (Some(Literal::Number(x)), Some(Literal::Number(y))) => Ok(
                    Some(Literal::Number(num_div(*x, *y))),
                ),
                _ => Err(
                    RuntimeError::init(token, String::from_str("Operands must be numbers.")),
                ),
            }
        },
        TokenType::Greater => {
            match (a, b) {
                (Some(Literal::Number(x)), Some(Literal::Number(y))) => Ok(
                    Some(Literal::Bool(num_lt(*y, *x))),
                ),
                _ => Err(
                    RuntimeError::init(token, String::from_str("Operands must be numbers.")),
                ),
            }
        },
        TokenType::GreaterEqual => {
            match (a, b) {
                (Some(Literal::Number(x)), Some(Literal::Number(y))) => Ok(
                    Some(Literal::Bool(num_le(*y, *x))),
                ),
                _ => Err(
                    RuntimeError::init(token, String::from_str("Operands must be numbers.")),
                ),
            }
        },
        TokenType::Less => {
            match (a, b) {
                (Some(Literal::Number(x)), Some(Literal::Number(y))) => Ok(
                    Some(Literal::Bool(num_lt(*x, *y))),
                ),
                _ => Err(
                    RuntimeError::init(token, String::from_str("Operands must be numbers.")),
                ),
            }
        },
        TokenType::LessEqual => {
            match (a, b) {
                (Some(Literal::Number(x)), Some(Literal::Number(y))) => Ok(
                    Some(Literal::Bool(num_le(*x, *y))),
                ),
                _ => Err(
                    RuntimeError::init(token, String::from_str("Operands must be numbers.")),
                ),
            }
        },
        TokenType::EqualEqual => Ok(Some(Literal::Bool(crate::literal::opt_equals(a, b)))),
        TokenType::BangEqual => Ok(Some(Literal::Bool(!crate::literal::opt_equals(a, b)))),
        _ => Err(
            RuntimeError::init(
                token,
                String::from_str("Invalid operation. This should not happen!"),
            ),
        ),
    }
}

pub struct Interpreter {
    pub heap: Heap,
    pub globals: usize,
    pub environment: usize,
    pub locals: Locals,
    pub output: Vec<String>,
    pub next_id: u64,
    pub next_node_id: usize,
}

impl Interpreter {
    pub open spec fn wf(self) -> bool {
        &&& self.heap.wf()
        &&& self.globals < self.heap.envs@.len()
        &&& self.environment < self.heap.envs@.len()
    }

    /// What every evaluation step guarantees: well-formedness is kept, the
    /// globals and the current-environment pointer come back to what they
    /// were on every exit path, environments are only ever created, and the
    /// resolver's table is untouched.
    pub open spec fn steps(self, post: Self) -> bool {
        &&& post.wf()
        &&& post.globals == self.globals
        &&& post.environment == self.environment
        &&& post.heap.envs@.len() >= self.heap.envs@.len()
        &&& (forall|i: int|
            #![trigger post.heap.envs@[i]]
            #![trigger self.heap.envs@[i]]
            0 <= i < self.heap.envs@.len() ==> post.heap.envs@[i].enclosing
                == self.heap.envs@[i].enclosing)
        &&& post.heap.instances@.len() >= self.heap.instances@.len()
        &&& post.heap.arrays@.len() >= self.heap.arrays@.len()
        &&& post.locals == self.locals
        &&& post.output@.len() >= self.output@.len()
    }

    fn add_global(&mut self, name: &str, k: NativeFn)
        requires
            old(self).wf(),
        ensures
            old(self).steps(*final(self)),
            final(self).heap.envs@.len() == old(self).heap.envs@.len(),
            final(self).output == old(self).output,
    {
        self.heap.define(
            self.globals,
            String::from_str(name),
            Some(Literal::Callable(Callable::Native(k))),
        );
    }

    /// A fresh interpreter: one global environment, pre-populated with the
    /// native library.
    pub fn init() -> (r: Self)
        ensures
            r.wf(),
            r.environment == r.globals,
            r.output@.len() == 0,
    {
        let mut heap = Heap::new();
        let globals = heap.new_env(None);
        let mut interp = Interpreter {
            heap,
            globals,
            environment: globals,
            locals: Locals::new(),
            output: Vec::new(),
            next_id: 0,
            next_node_id: 0,
        };
        interp.add_global("clock", NativeFn::Clock);
        interp.add_global("pow", NativeFn::Pow);
        interp.add_global("max", NativeFn::Max);
        interp.add_global("min", NativeFn::Min);
        interp.add_global("len", NativeFn::Len);
        interp.add_global("str2num", NativeFn::Num);
        interp.add_global("str", NativeFn::Str);
        interp.add_global("typeof", NativeFn::Typeof);
        interp.add_global("substr", NativeFn::Substr);
        interp.add_global("index_of", NativeFn::IndexOf);
        interp.add_global("replace", NativeFn::Replace);
        interp.add_global("random", NativeFn::Random);
        interp.add_global("random_int", NativeFn::RandomInt);
        interp.add_global("push", NativeFn::Push);
        interp.add_global("pop", NativeFn::Pop);
        interp.add_global("slice", NativeFn::Slice);
        interp.add_global("floor", NativeFn::Floor);
        interp.add_global("ceil", NativeFn::Ceil);
        interp.add_global("round", NativeFn::Round);
        interp.add_global("code", NativeFn::Code);
        interp.add_global("Array", NativeFn::ArrayConstructor);
        interp
    }

    /// Records a depth the resolver found for the node with this id.
    pub fn resolve(&mut self, id: usize, depth: usize)
        requires
            id < usize::MAX,
        ensures
            final(self).heap == old(self).heap,
            final(self).globals == old(self).globals,
            final(self).environment == old(self).environment,
            final(self).locals.depths@[id as int] == Some(depth),
    {
        self.locals.set(id, depth);
    }

    fn fresh_id(&mut self) -> (r: u64)
        ensures
            final(self).heap == old(self).heap,
            final(self).globals == old(self).globals,
            final(self).environment == old(self).environment,
            final(self).locals == old(self).locals,
            final(self).output == old(self).output,
    {
        let id = self.next_id;
        if self.next_id < u64::MAX {
            self.next_id = self.next_id + 1;
        }
        id
    }

    fn undefined_variable(&self, name: &Token) -> (r: RuntimeError) {
        let mut m = String::from_str("Undefined variable '");
        m.append(name.lexeme.as_str());
        m.append("'.");
        RuntimeError::init(name, m)
    }

    /// Reads a variable. Where the resolver recorded a depth, the value is
    /// the binding exactly that many environments above the current one;
    /// otherwise it is the global binding; a missing binding either way is
    /// the undefined-variable error.
    fn lookup_variable(&mut self, name: &Token, id: usize) -> (r: Result<
        Option<Literal>,
        RuntimeError,
    >)
        requires
            old(self).wf(),
        ensures
            old(self).steps(*final(self)),
            final(self).heap == old(self).heap,
            final(self).output == old(self).output,
            (match spec_depth(old(self).locals, id as int) {
                Some(d) => (match old(self).heap.lookup_at(
                    old(self).environment as int,
                    d as int,
                    name.lexeme@,
                ) {
                    Some(w) => r matches Ok(v) && crate::literal::opt_like(w, v),
                    None => r is Err,
                }),
                None => (match old(self).heap.lookup(old(self).globals as int, name.lexeme@) {
                    Some(w) => r matches Ok(v) && crate::literal::opt_like(w, v),
                    None => r is Err,
                }),
            }),
    {
        match self.locals.get(id) {
            Some(distance) => {
                match self.heap.get_at(self.environment, distance, &name.lexeme) {
                    Some(v) => Ok(v),
                    None => Err(self.undefined_variable(name)),
                }
            },
            None => {
                match self.heap.get(self.globals, &name.lexeme) {
                    Some(v) => Ok(v),
                    None => Err(self.undefined_variable(name)),
                }
            },
        }
    }

    /// Turns an evaluated index into a vector position: it must be a number
    /// whose value is exactly a non-negative integer.
    fn index_value(&self, v: &Option<Literal>, bracket: &Token) -> (r: Result<
        usize,
        RuntimeError,
    >)
        ensures
            (match *v {
                Some(Literal::Number(b)) => (match crate::num::int_of_bits(b) {
                    Some(n) => if n <= usize::MAX {
                        r == Ok::<usize, RuntimeError>(n as usize)
                    } else {
                        r is Err
                    },
                    None => r is Err,
                }),
                _ => r is Err,
            }),
    {
        match v {
            Some(Literal::Number(b)) => {
                match num_to_u64(*b) {
                    Some(n) => {
                        if n <= usize::MAX as u64 {
                            Ok(n as usize)
                        } else {
                            Err(
                                RuntimeError::init(
                                    bracket,
                                    String::from_str("index must be a positive integer!"),
                                ),
                            )
                        }
                    },
                    None => Err(
                        RuntimeError::init(
                            bracket,
                            String::from_str("index must be a positive integer!"),
                        ),
                    ),
                }
            },
            Some(_) => Err(
                RuntimeError::init(bracket, String::from_str("index must be a number!")),
            ),
            None => Err(
                RuntimeError::init(bracket, String::from_str("index cannot not be ghaib!")),
            ),
        }
    }

    /// Binds a method to a receiver: a fresh environment over the method's
    /// closure in which `nafs` names the instance.
    fn bind_method(&mut self, m: &Rc<QalamFunction>, instance: usize) -> (r: Result<
        Rc<QalamFunction>,
        RuntimeError,
    >)
        requires
            old(self).wf(),
        ensures
            old(self).steps(*final(self)),
            final(self).output == old(self).output,
            r is Ok <==> m.closure < old(self).heap.envs@.len(),
            (r matches Ok(f) ==> f.closure < final(self).heap.envs@.len() && f.params == m.params
                && f.body == m.body && f.is_initializer == m.is_initializer),
    {
        if m.closure >= self.heap.envs.len() {
            return Err(
                RuntimeError::init(
                    &Token::dummy(),
                    String::from_str("stale closure environment!"),
                ),
            );
        }
        let env = self.heap.new_env(Some(m.closure));
        self.heap.define(
            env,
            String::from_str("nafs"),
            Some(Literal::Instance(instance)),
        );
        let id = self.fresh_id();
        let f = QalamFunction::init(
            Token::copy(&m.name),
            rc_clone(&m.params),
            rc_clone(&m.body),
            env,
            m.is_initializer,
            id,
        );
        Ok(Rc::new(f))
    }

    /// The number of arguments the callable expects.
    fn callable_arity(&self, c: &Callable) -> (r: usize) {
        match c {
            Callable::Function(f) => f.arity(),
            Callable::Class(k) => {
                match k.find_method(&String::from_str("khalaq")) {
                    Some(m) => m.arity(),
                    None => 0,
                }
            },
            Callable::Native(n) => n.arity(),
        }
    }

    /// Runs a statement list in the given environment, restoring the
    /// current-environment pointer on every exit path, errors and `radd`
    /// included.
    #[verifier::loop_isolation(false)]
    pub fn execute_block(&mut self, statements: &Vec<Stmt>, environment: usize, fuel: u64) -> (r:
        Result<(), Signal>)
        requires
            old(self).wf(),
            environment < old(self).heap.envs@.len(),
        ensures
            old(self).steps(*final(self)),
        decreases fuel, stmts_size(statements@), 2int,
    {
        let previous = self.environment;
        self.environment = environment;
        let mut i: usize = 0;
        loop
            invariant
                self.wf(),
                self.environment == environment,
                self.globals == old(self).globals,
                self.heap.envs@.len() >= old(self).heap.envs@.len(),
                forall|ei: int|
                    #![trigger self.heap.envs@[ei]]
                    #![trigger old(self).heap.envs@[ei]]
                    0 <= ei < old(self).heap.envs@.len() ==> self.heap.envs@[ei].enclosing
                        == old(self).heap.envs@[ei].enclosing,
                self.heap.instances@.len() >= old(self).heap.instances@.len(),
                self.heap.arrays@.len() >= old(self).heap.arrays@.len(),
                self.locals == old(self).locals,
                self.output@.len() >= old(self).output@.len(),
                i <= statements@.len(),
            decreases statements@.len() - i,
        {
            if i < statements.len() {
                proof {
                    lemma_stmts_size_element(statements@, i as int);
                }
                match self.execute(&statements[i], fuel) {
                    Ok(u) => u,
                    Err(e) => {
                        self.environment = previous;
                        return Err(e);
                    },
                }
                i = i + 1;
            } else {
                break ;
            }
        }
        self.environment = previous;
        Ok(())
    }

    /// Invokes a user function: a fresh environment over its closure, the
    /// parameters bound to the arguments, and the body run in it. `radd` is
    /// absorbed here; an initializer always yields its `nafs`.
    #[verifier::loop_isolation(false)]
    fn call_function(
        &mut self,
        f: &Rc<QalamFunction>,
        args: &Vec<Option<Literal>>,
        paren: &Token,
        fuel: u64,
    ) -> (r: Result<Option<Literal>, RuntimeError>)
        requires
            old(self).wf(),
            args@.len() == f.params@.len(),
        ensures
            old(self).steps(*final(self)),
            f.is_initializer ==> (match r {
                Ok(v) => (match final(self).heap.lookup_at(f.closure as int, 0, "nafs"@) {
                    Some(w) => crate::literal::opt_like(w, v),
                    None => false,
                }),
                Err(_) => true,
            }),
        decreases fuel, 0int, 0int,
    {
        if fuel == 0 {
            return Err(
                RuntimeError::init(paren, String::from_str("evaluation budget exceeded.")),
            );
        }
        if f.closure >= self.heap.envs.len() {
            return Err(
                RuntimeError::init(paren, String::from_str("stale closure environment!")),
            );
        }
        let env = self.heap.new_env(Some(f.closure));
        let mut i: usize = 0;
        loop
            invariant
                self.wf(),
                self.environment == old(self).environment,
                self.globals == old(self).globals,
                self.heap.envs@.len() >= old(self).heap.envs@.len(),
                forall|ei: int|
                    #![trigger self.heap.envs@[ei]]
                    #![trigger old(self).heap.envs@[ei]]
                    0 <= ei < old(self).heap.envs@.len() ==> self.heap.envs@[ei].enclosing
                        == old(self).heap.envs@[ei].enclosing,
                self.heap.instances@.len() >= old(self).heap.instances@.len(),
                self.heap.arrays@.len() >= old(self).heap.arrays@.len(),
                self.locals == old(self).locals,
                self.output@.len() >= old(self).output@.len(),
                env < self.heap.envs@.len(),
                f.closure < self.heap.envs@.len(),
                i <= args@.len(),
                args@.len() == f.params@.len(),
            decreases args@.len() - i,
        {
            if i < args.len() {
                let param_name = f.params[i].lexeme.clone();
                let arg = opt_dup(&args[i]);
                self.heap.define(env, param_name, arg);
                i = i + 1;
            } else {
                break ;
            }
        }
        let outcome = self.execute_block(&f.body, env, fuel - 1);
        match outcome {
            Ok(u) => {
                if f.is_initializer {
                    self.initializer_result(f, paren)
                } else {
                    Ok(None)
                }
            },
            Err(Signal::Return(v)) => {
                if f.is_initializer {
                    self.initializer_result(f, paren)
                } else {
                    Ok(v)
                }
            },
            Err(Signal::Failure(e)) => Err(e),
        }
    }

    /// What an initializer yields no matter how it exits: the `nafs` its
    /// bound closure holds.
    fn initializer_result(&self, f: &Rc<QalamFunction>, paren: &Token) -> (r: Result<
        Option<Literal>,
        RuntimeError,
    >)
        requires
            self.wf(),
        ensures
            (r matches Ok(v) ==> (match self.heap.lookup_at(f.closure as int, 0, "nafs"@) {
                Some(w) => crate::literal::opt_like(w, v),
                None => false,
            })),
    {
        if f.closure >= self.heap.envs.len() {
            return Err(
                RuntimeError::init(paren, String::from_str("stale closure environment!")),
            );
        }
        match self.heap.get_at(f.closure, 0, &String::from_str("nafs")) {
            Some(v) => Ok(v),
            None => Err(RuntimeError::init(paren, String::from_str("Cannot find instance!"))),
        }
    }

    /// Instantiates a class: a fresh instance, with `khalaq` bound to it and
    /// run when the class has one.
    fn instantiate(
        &mut self,
        class: &Rc<QalamClass>,
        args: &Vec<Option<Literal>>,
        paren: &Token,
        fuel: u64,
    ) -> (r: Result<Option<Literal>, RuntimeError>)
        requires
            old(self).wf(),
        ensures
            old(self).steps(*final(self)),
            (r matches Ok(v) ==> v matches Some(l) && l matches Literal::Instance(h) && h == old(
                self,
            ).heap.instances@.len() && final(self).heap.instances@.len() > h),
        decreases fuel, 0int, 1int,
    {
        let inst = QalamInstance::init(rc_clone(class));
        let h = self.heap.alloc_instance(inst);
        let initializer = class.find_method(&String::from_str("khalaq"));
        match initializer {
            Some(init_m) => {
                let bound = self.bind_method(&init_m, h)?;
                if args.len() != bound.params.len() {
                    return Err(self.arity_error(bound.params.len(), args.len(), paren));
                }
                let _ = self.call_function(&bound, args, paren, fuel)?;
            },
            None => {
                if args.len() != 0 {
                    return Err(self.arity_error(0, args.len(), paren));
                }
            },
        }
        Ok(Some(Literal::Instance(h)))
    }

    fn arity_error(&self, expected: usize, got: usize, paren: &Token) -> (r: RuntimeError) {
        let mut m = String::from_str("Expected ");
        push_dec_u64(&mut m, expected as u64);
        m.append(" arguments but got ");
        push_dec_u64(&mut m, got as u64);
        m.append(".");
        RuntimeError::init(paren, m)
    }

    /// Evaluates one expression to an optional value.
    #[verifier::loop_isolation(false)]
    pub fn evaluate(&mut self, expr: &Expr, fuel: u64) -> (r: Result<
        Option<Literal>,
        RuntimeError,
    >)
        requires
            old(self).wf(),
        ensures
            old(self).steps(*final(self)),
            ((*expr) matches Expr::Literal { value } ==> r matches Ok(v)
                && crate::literal::opt_like(value, v)),
            ((*expr) matches Expr::SetProp { name, .. } ==> (match r {
                Ok(v) => (exists|h: int|
                    #![auto]
                    0 <= h < final(self).heap.instances@.len()
                        && final(self).heap.instances@[h].fields@.contains_key(name.lexeme@)
                        && crate::literal::opt_like(
                        final(self).heap.instances@[h].fields@[name.lexeme@],
                        v,
                    )),
                Err(_) => true,
            })),
            ((*expr) matches Expr::Assign { id, name, .. } ==> (match r {
                Ok(v) => (match spec_depth(old(self).locals, id as int) {
                    Some(d) => (match old(self).heap.ancestor_spec(
                        old(self).environment as int,
                        d as int,
                    ) {
                        Some(t) => final(self).heap.envs@[t].values@.contains_key(name.lexeme@)
                            && crate::literal::opt_like(
                            final(self).heap.envs@[t].values@[name.lexeme@],
                            v,
                        ),
                        None => false,
                    }),
                    None => (exists|t: int|
                        #![auto]
                        0 <= t < final(self).heap.envs@.len()
                            && final(self).heap.envs@[t].values@.contains_key(name.lexeme@)
                            && crate::literal::opt_like(
                            final(self).heap.envs@[t].values@[name.lexeme@],
                            v,
                        )),
                }),
                Err(_) => true,
            })),
            ((*expr) matches Expr::This { id, keyword } ==> (match spec_depth(
                old(self).locals,
                id as int,
            ) {
                Some(d) => (match old(self).heap.lookup_at(
                    old(self).environment as int,
                    d as int,
                    keyword.lexeme@,
                ) {
                    Some(w) => r matches Ok(v) && crate::literal::opt_like(w, v),
                    None => r is Err,
                }),
                None => (match old(self).heap.lookup(old(self).globals as int, keyword.lexeme@) {
                    Some(w) => r matches Ok(v) && crate::literal::opt_like(w, v),
                    None => r is Err,
                }),
            })),
            ((*expr) matches Expr::Variable { id, name } ==> (match spec_depth(
                old(self).locals,
                id as int,
            ) {
                Some(d) => (match old(self).heap.lookup_at(
                    old(self).environment as int,
                    d as int,
                    name.lexeme@,
                ) {
                    Some(w) => r matches Ok(v) && crate::literal::opt_like(w, v),
                    None => r is Err,
                }),
                None => (match old(self).heap.lookup(old(self).globals as int, name.lexeme@) {
                    Some(w) => r matches Ok(v) && crate::literal::opt_like(w, v),
                    None => r is Err,
                }),
            })),
        decreases fuel, expr_size(*expr), 0int,
    {
        match expr {
            Expr::Literal { value } => Ok(opt_dup(value)),
            Expr::Grouping { expression } => self.evaluate(expression, fuel),
            Expr::Unary { operator, right } => {
                let right_val = self.evaluate(right, fuel)?;
                if operator.token_type == TokenType::Minus {
                    match right_val {
                        Some(Literal::Number(n)) => Ok(Some(Literal::Number(num_neg(n)))),
                        _ => Err(
                            RuntimeError::init(
                                operator,
                                String::from_str("Operand must be a number."),
                            ),
                        ),
                    }
                } else if operator.token_type == TokenType::Bang {
                    Ok(Some(Literal::Bool(!is_truthy(&right_val))))
                } else {
                    Err(
                        RuntimeError::init(
                            operator,
                            String::from_str("Invalid operation. This should not happen!"),
                        ),
                    )
                }
            },
            Expr::Binary { left, operator, right } => {
                let left_val = self.evaluate(left, fuel)?;
                let right_val = self.evaluate(right, fuel)?;
                apply_binary(operator.token_type, &left_val, &right_val, operator)
            },
            Expr::Variable { id, name } => self.lookup_variable(name, *id),
            Expr::Assign { id, name, value } => {
                let res_value = self.evaluate(value, fuel)?;
                let stored = opt_dup(&res_value);
                proof {
                    crate::literal::lemma_opt_like_sym(res_value, stored);
                }
                let ghost mid = self.heap;
                match self.locals.get(*id) {
                    Some(distance) => {
                        let done = self.heap.assign_at(
                            self.environment,
                            distance,
                            &name.lexeme,
                            stored,
                        );
                        if !done {
                            return Err(self.undefined_variable(name));
                        }
                        proof {
                            crate::environment::lemma_ancestor_stable(
                                old(self).heap,
                                mid,
                                old(self).environment as int,
                                distance as int,
                            );
                            match mid.ancestor_spec(
                                old(self).environment as int,
                                distance as int,
                            ) {
                                Some(a) => {
                                    assert(self.heap.envs@[a].values@.contains_key(
                                        name.lexeme@,
                                    ));
                                    assert(crate::literal::opt_like(
                                        self.heap.envs@[a].values@[name.lexeme@],
                                        res_value,
                                    ));
                                },
                                None => {
                                    assert(false);
                                },
                            }
                        }
                    },
                    None => {
                        let done = self.heap.assign(self.globals, &name.lexeme, stored);
                        if !done {
                            return Err(self.undefined_variable(name));
                        }
                        proof {
                            crate::environment::lemma_assign_target_bound(
                                mid,
                                old(self).globals as int,
                                name.lexeme@,
                            );
                            match mid.assign_target(old(self).globals as int, name.lexeme@) {
                                Some(t) => {
                                    assert(0 <= t < self.heap.envs@.len());
                                    assert(self.heap.envs@[t].values@.contains_key(
                                        name.lexeme@,
                                    ));
                                    assert(crate::literal::opt_like(
                                        self.heap.envs@[t].values@[name.lexeme@],
                                        res_value,
                                    ));
                                },
                                None => {
                                    assert(false);
                                },
                            }
                        }
                    },
                }
                Ok(res_value)
            },
            Expr::Logical { left, operator, right } => {
                let left_val = self.evaluate(left, fuel)?;
                if operator.token_type == TokenType::Or {
                    if is_truthy(&left_val) {
                        return Ok(left_val);
                    }
                } else {
                    if !is_truthy(&left_val) {
                        return Ok(left_val);
                    }
                }
                self.evaluate(right, fuel)
            },
            Expr::Call { callee, paren, arguments } => {
                let callee_val = self.evaluate(callee, fuel)?;
                let mut args: Vec<Option<Literal>> = Vec::new();
                let mut i: usize = 0;
                loop
                    invariant
                        self.wf(),
                        self.environment == old(self).environment,
                        self.globals == old(self).globals,
                        self.heap.envs@.len() >= old(self).heap.envs@.len(),
                        forall|ei: int|
                            #![trigger self.heap.envs@[ei]]
                            #![trigger old(self).heap.envs@[ei]]
                            0 <= ei < old(self).heap.envs@.len() ==> self.heap.envs@[ei].enclosing
                                == old(self).heap.envs@[ei].enclosing,
                        self.heap.instances@.len() >= old(self).heap.instances@.len(),
                        self.heap.arrays@.len() >= old(self).heap.arrays@.len(),
                        self.locals == old(self).locals,
                        self.output@.len() >= old(self).output@.len(),
                        i <= arguments@.len(),
                    decreases arguments@.len() - i,
                {
                    if i < arguments.len() {
                        proof {
                            lemma_exprs_size_element(arguments@, i as int);
                        }
                        let a = self.evaluate(&arguments[i], fuel)?;
                        args.push(a);
                        i = i + 1;
                    } else {
                        break ;
                    }
                }
                match callee_val {
                    Some(Literal::Callable(c)) => {
                        match &c {
                            Callable::Function(f) => {
                                if args.len() != f.params.len() {
                                    return Err(
                                        self.arity_error(f.params.len(), args.len(), paren),
                                    );
                                }
                                self.call_function(f, &args, paren, fuel)
                            },
                            Callable::Class(k) => self.instantiate(k, &args, paren, fuel),
                            Callable::Native(n) => {
                                if args.len() != n.arity() {
                                    return Err(self.arity_error(n.arity(), args.len(), paren));
                                }
                                n.call(&args, &mut self.heap, paren)
                            },
                        }
                    },
                    _ => Err(
                        RuntimeError::init(
                            paren,
                            String::from_str("Can only call functions and classes."),
                        ),
                    ),
                }
            },
            Expr::Get { object, name } => {
                let object_val = self.evaluate(object, fuel)?;
                match object_val {
                    Some(Literal::Instance(h)) => self.instance_get(h, name),
                    _ => Err(
                        RuntimeError::init(
                            name,
                            String::from_str("Only instances have properties."),
                        ),
                    ),
                }
            },
            Expr::SetProp { object, name, value } => {
                let object_val = self.evaluate(object, fuel)?;
                match object_val {
                    Some(Literal::Instance(h)) => {
                        let v = self.evaluate(value, fuel)?;
                        if h >= self.heap.instances.len() {
                            return Err(
                                RuntimeError::init(
                                    name,
                                    String::from_str("invalid instance handle!"),
                                ),
                            );
                        }
                        let written = opt_dup(&v);
                        proof {
                            crate::literal::lemma_opt_like_sym(v, written);
                        }
                        self.heap.instance_set(h, &name.lexeme, written);
                        proof {
                            assert(self.heap.instances@[h as int].fields@.contains_key(
                                name.lexeme@,
                            ));
                        }
                        Ok(v)
                    },
                    _ => Err(
                        RuntimeError::init(
                            name,
                            String::from_str("Only instances have fields."),
                        ),
                    ),
                }
            },
            Expr::This { id, keyword } => self.lookup_variable(keyword, *id),
            Expr::Super { id, keyword, method } => self.super_method(*id, keyword, method),
            Expr::Array { values } => {
                let mut elems: Vec<Option<Literal>> = Vec::new();
                let mut i: usize = 0;
                loop
                    invariant
                        self.wf(),
                        self.environment == old(self).environment,
                        self.globals == old(self).globals,
                        self.heap.envs@.len() >= old(self).heap.envs@.len(),
                        forall|ei: int|
                            #![trigger self.heap.envs@[ei]]
                            #![trigger old(self).heap.envs@[ei]]
                            0 <= ei < old(self).heap.envs@.len() ==> self.heap.envs@[ei].enclosing
                                == old(self).heap.envs@[ei].enclosing,
                        self.heap.instances@.len() >= old(self).heap.instances@.len(),
                        self.heap.arrays@.len() >= old(self).heap.arrays@.len(),
                        self.locals == old(self).locals,
                        self.output@.len() >= old(self).output@.len(),
                        i <= values@.len(),
                    decreases values@.len() - i,
                {
                    if i < values.len() {
                        proof {
                            lemma_exprs_size_element(values@, i as int);
                        }
                        let v = self.evaluate(&values[i], fuel)?;
                        elems.push(v);
                        i = i + 1;
                    } else {
                        break ;
                    }
                }
                let h = self.heap.alloc_array(QalamArray::from_vec(elems));
                Ok(Some(Literal::Array(h)))
            },
            Expr::GetIndexed { object, index, bracket } => {
                let object_val = self.evaluate(object, fuel)?;
                match object_val {
                    Some(Literal::Array(h)) => {
                        let idx_val = self.evaluate(index, fuel)?;
                        let idx = self.index_value(&idx_val, bracket)?;
                        if h >= self.heap.arrays.len() {
                            return Err(
                                RuntimeError::init(
                                    bracket,
                                    String::from_str("invalid array handle!"),
                                ),
                            );
                        }
                        if idx >= self.heap.array_len(h) {
                            return Err(
                                RuntimeError::init(
                                    bracket,
                                    String::from_str("index is out of range!"),
                                ),
                            );
                        }
                        Ok(self.heap.array_get(h, idx))
                    },
                    Some(Literal::String(s)) => {
                        let idx_val = self.evaluate(index, fuel)?;
                        let idx = self.index_value(&idx_val, bracket)?;
                        let cs = s.as_str();
                        if idx >= cs.unicode_len() {
                            return Err(
                                RuntimeError::init(
                                    bracket,
                                    String::from_str("index is out of range!"),
                                ),
                            );
                        }
                        let c = cs.get_char(idx);
                        let mut one = String::new();
                        push_char(&mut one, c);
                        Ok(Some(Literal::String(one)))
                    },
                    Some(_) => Err(
                        RuntimeError::init(
                            bracket,
                            String::from_str("Can only index string and array!"),
                        ),
                    ),
                    None => Err(
                        RuntimeError::init(bracket, String::from_str("Cannot index ghaib!")),
                    ),
                }
            },
            Expr::SetIndexed { object, index, value, bracket } => {
                let object_val = self.evaluate(object, fuel)?;
                let new_val = self.evaluate(value, fuel)?;
                match object_val {
                    Some(Literal::Array(h)) => {
                        let idx_val = self.evaluate(index, fuel)?;
                        let idx = self.index_value(&idx_val, bracket)?;
                        if h >= self.heap.arrays.len() {
                            return Err(
                                RuntimeError::init(
                                    bracket,
                                    String::from_str("invalid array handle!"),
                                ),
                            );
                        }
                        if idx >= self.heap.array_len(h) {
                            return Err(
                                RuntimeError::init(
                                    bracket,
                                    String::from_str("index is out of range!"),
                                ),
                            );
                        }
                        self.heap.array_set(h, idx, opt_dup(&new_val));
                        Ok(new_val)
                    },
                    _ => Err(
                        RuntimeError::init(
                            bracket,
                            String::from_str("cannot access non-array-like by index!"),
                        ),
                    ),
                }
            },
        }
    }

    /// Reads a property off an instance: its own field first, then a bound
    /// method from its class chain; a field always shadows a method of the
    /// same name, and a name that is neither is an error.
    fn instance_get(&mut self, h: usize, name: &Token) -> (r: Result<
        Option<Literal>,
        RuntimeError,
    >)
        requires
            old(self).wf(),
        ensures
            old(self).steps(*final(self)),
            (h < old(self).heap.instances@.len() && old(
                self,
            ).heap.instances@[h as int].fields@.contains_key(name.lexeme@)) ==> (r matches Ok(v)
                && crate::literal::opt_like(
                old(self).heap.instances@[h as int].fields@[name.lexeme@],
                v,
            )),
            (h < old(self).heap.instances@.len() && !old(
                self,
            ).heap.instances@[h as int].fields@.contains_key(name.lexeme@)) ==> (match old(
                self,
            ).heap.instances@[h as int].class.find_method_spec(name.lexeme@) {
                Some(m) => if m.closure < old(self).heap.envs@.len() {
                    r matches Ok(v) && v matches Some(l) && l matches Literal::Callable(c)
                        && c matches Callable::Function(f) && f.params == m.params && f.body
                        == m.body && f.is_initializer == m.is_initializer
                } else {
                    r is Err
                },
                None => r is Err,
            }),
    {
        if h >= self.heap.instances.len() {
            return Err(
                RuntimeError::init(name, String::from_str("invalid instance handle!")),
            );
        }
        match self.heap.instances[h].fields.get(&name.lexeme) {
            Some(v) => Ok(opt_dup(v)),
            None => {
                let method = self.heap.instances[h].class.find_method(&name.lexeme);
                match method {
                    Some(m) => {
                        let bound = self.bind_method(&m, h)?;
                        Ok(Some(Literal::Callable(Callable::Function(bound))))
                    },
                    None => {
                        let mut msg = String::from_str("Undefined property '");
                        msg.append(name.lexeme.as_str());
                        msg.append("'.");
                        Err(RuntimeError::init(name, msg))
                    },
                }
            },
        }
    }

    /// Looks `ulya` up at its resolved depth, the receiver one environment
    /// nearer, and yields the superclass's method bound to the receiver.
    fn super_method(&mut self, id: usize, keyword: &Token, method: &Token) -> (r: Result<
        Option<Literal>,
        RuntimeError,
    >)
        requires
            old(self).wf(),
        ensures
            old(self).steps(*final(self)),
            (match spec_depth(old(self).locals, id as int) {
                None => r is Err,
                Some(d) => (match old(self).heap.lookup_at(
                    old(self).environment as int,
                    d as int,
                    "ulya"@,
                ) {
                    Some(Some(Literal::Callable(Callable::Class(k)))) => if d == 0 {
                        r is Err
                    } else {
                        (match old(self).heap.lookup_at(
                            old(self).environment as int,
                            d - 1,
                            "nafs"@,
                        ) {
                            Some(Some(Literal::Instance(obj))) => (match k.find_method_spec(
                                method.lexeme@,
                            ) {
                                Some(m) => if m.closure < old(self).heap.envs@.len() {
                                    r matches Ok(v) && v matches Some(l)
                                        && l matches Literal::Callable(c)
                                        && c matches Callable::Function(bf) && bf.params
                                        == m.params && bf.body == m.body && bf.is_initializer
                                        == m.is_initializer
                                } else {
                                    r is Err
                                },
                                None => r is Err,
                            }),
                            _ => r is Err,
                        })
                    },
                    _ => r is Err,
                }),
            }),
    {
        let distance = match self.locals.get(id) {
            Some(d) => d,
            None => {
                return Err(
                    RuntimeError::init(
                        keyword,
                        String::from_str("superclass does not exist!"),
                    ),
                );
            },
        };
        let superclass = match self.heap.get_at(
            self.environment,
            distance,
            &String::from_str("ulya"),
        ) {
            Some(Some(Literal::Callable(Callable::Class(k)))) => k,
            _ => {
                return Err(
                    RuntimeError::init(
                        keyword,
                        String::from_str("superclass does not exist!"),
                    ),
                );
            },
        };
        if distance == 0 {
            return Err(
                RuntimeError::init(keyword, String::from_str("Cannot find instance!")),
            );
        }
        let object = match self.heap.get_at(
            self.environment,
            distance - 1,
            &String::from_str("nafs"),
        ) {
            Some(Some(Literal::Instance(h))) => h,
            _ => {
                return Err(
                    RuntimeError::init(keyword, String::from_str("Cannot find instance!")),
                );
            },
        };
        match superclass.find_method(&method.lexeme) {
            Some(m) => {
                let bound = self.bind_method(&m, object)?;
                Ok(Some(Literal::Callable(Callable::Function(bound))))
            },
            None => {
                let mut msg = String::from_str("Undefined method '");
                msg.append(method.lexeme.as_str());
                msg.append("'.");
                Err(RuntimeError::init(method, msg))
            },
        }
    }

    /// Executes one statement for its effects.
    #[verifier::loop_isolation(false)]
    pub fn execute(&mut self, stmt: &Stmt, fuel: u64) -> (r: Result<(), Signal>)
        requires
            old(self).wf(),
        ensures
            old(self).steps(*final(self)),
            (stmt matches Stmt::Print { .. } && r is Ok) ==> final(self).output@.len() > old(
                self,
            ).output@.len(),
            ((*stmt) matches Stmt::Var { name, initializer: Option::None } ==> r is Ok
                && final(self).heap.envs@[old(self).environment as int].values@ == old(
                self,
            ).heap.envs@[old(self).environment as int].values@.insert(name.lexeme@, None)),
        decreases fuel, stmt_size(*stmt), 1int,
    {
        match stmt {
            Stmt::Expression { expression } => {
                match self.evaluate(expression, fuel) {
                    Ok(_) => Ok(()),
                    Err(e) => Err(Signal::Failure(e)),
                }
            },
            Stmt::Print { expression } => {
                let value = match self.evaluate(expression, fuel) {
                    Ok(v) => v,
                    Err(e) => {
                        return Err(Signal::Failure(e));
                    },
                };
                let line = display_opt(&self.heap, &value, 64);
                self.output.push(line);
                Ok(())
            },
            Stmt::Var { name, initializer } => {
                let value = match initializer {
                    Some(init_expr) => {
                        match self.evaluate(init_expr, fuel) {
                            Ok(v) => v,
                            Err(e) => {
                                return Err(Signal::Failure(e));
                            },
                        }
                    },
                    None => None,
                };
                self.heap.define(self.environment, name.lexeme.clone(), value);
                Ok(())
            },
            Stmt::Block { statements } => {
                let env = self.heap.new_env(Some(self.environment));
                self.execute_block(statements, env, fuel)
            },
            Stmt::If { condition, then, else_branch } => {
                let cond = match self.evaluate(condition, fuel) {
                    Ok(v) => v,
                    Err(e) => {
                        return Err(Signal::Failure(e));
                    },
                };
                if is_truthy(&cond) {
                    self.execute(then, fuel)
                } else {
                    match else_branch {
                        Some(e) => self.execute(e, fuel),
                        None => Ok(()),
                    }
                }
            },
            Stmt::While { condition, body } => {
                let mut budget = fuel;
                loop
                    invariant
                        self.wf(),
                        self.environment == old(self).environment,
                        self.globals == old(self).globals,
                        self.heap.envs@.len() >= old(self).heap.envs@.len(),
                        forall|ei: int|
                            #![trigger self.heap.envs@[ei]]
                            #![trigger old(self).heap.envs@[ei]]
                            0 <= ei < old(self).heap.envs@.len() ==> self.heap.envs@[ei].enclosing
                                == old(self).heap.envs@[ei].enclosing,
                        self.heap.instances@.len() >= old(self).heap.instances@.len(),
                        self.heap.arrays@.len() >= old(self).heap.arrays@.len(),
                        self.locals == old(self).locals,
                        self.output@.len() >= old(self).output@.len(),
                    decreases budget,
                {
                    let cond = match self.evaluate(condition, fuel) {
                        Ok(v) => v,
                        Err(e) => {
                            return Err(Signal::Failure(e));
                        },
                    };
                    if !is_truthy(&cond) {
                        break ;
                    }
                    match self.execute(body, fuel) {
                        Ok(u) => u,
                        Err(e) => {
                            return Err(e);
                        },
                    }
                    if budget == 0 {
                        return Err(
                            Signal::Failure(
                                RuntimeError::init(
                                    &Token::dummy(),
                                    String::from_str("evaluation budget exceeded."),
                                ),
                            ),
                        );
                    }
                    budget = budget - 1;
                }
                Ok(())
            },
            Stmt::Function { name, params, body } => {
                let id = self.fresh_id();
                let f = QalamFunction::init(
                    Token::copy(name),
                    rc_clone(params),
                    rc_clone(body),
                    self.environment,
                    false,
                    id,
                );
                self.heap.define(
                    self.environment,
                    name.lexeme.clone(),
                    Some(Literal::Callable(Callable::Function(Rc::new(f)))),
                );
                Ok(())
            },
            Stmt::Return { keyword, value } => {
                let v = match value {
                    Some(ve) => {
                        match self.evaluate(ve, fuel) {
                            Ok(v) => v,
                            Err(e) => {
                                return Err(Signal::Failure(e));
                            },
                        }
                    },
                    None => None,
                };
                Err(Signal::Return(v))
            },
            Stmt::Class { name, superclass, methods } => self.execute_class(
                name,
                superclass,
                methods,
                fuel,
            ),
        }
    }

    /// Defines a class: evaluates the superclass (which must be a class),
    /// closes the methods over an environment that names `ulya` where there
    /// is one, and assigns the class object to its name.
    #[verifier::loop_isolation(false)]
    fn execute_class(
        &mut self,
        name: &Token,
        superclass: &Option<Expr>,
        methods: &Vec<Stmt>,
        fuel: u64,
    ) -> (r: Result<(), Signal>)
        requires
            old(self).wf(),
        ensures
            old(self).steps(*final(self)),
            r is Ok ==> final(self).heap.envs@[old(self).environment as int].values@.contains_key(
                name.lexeme@,
            ) && (match final(self).heap.envs@[old(self).environment as int].values@[name.lexeme@] {
                Some(Literal::Callable(Callable::Class(k))) => k.name@ == name.lexeme@
                    && k.methods@.dom() == crate::ast::method_names(methods@) && (forall|n: Seq<char>|
                    #[trigger] k.methods@.contains_key(n) ==> k.methods@[n].is_initializer == (n
                        == "khalaq"@)) && (superclass is None ==> k.superclass is None),
                _ => false,
            }),
        decreases fuel, 1 + (match *superclass {
            Some(e) => expr_size(e),
            None => 0,
        }) + stmts_size(methods@), 0int,
    {
        let mut option_superclass: Option<Rc<QalamClass>> = None;
        match superclass {
            Some(sc) => {
                let sv = match self.evaluate(sc, fuel) {
                    Ok(v) => v,
                    Err(e) => {
                        return Err(Signal::Failure(e));
                    },
                };
                match sv {
                    Some(Literal::Callable(Callable::Class(k))) => {
                        option_superclass = Some(k);
                    },
                    _ => {
                        return Err(
                            Signal::Failure(
                                RuntimeError::init(
                                    name,
                                    String::from_str("Superclass must be a class."),
                                ),
                            ),
                        );
                    },
                }
            },
            None => {},
        }
        self.heap.define(self.environment, name.lexeme.clone(), None);
        let previous = self.environment;
        let closure_env: usize;
        match &option_superclass {
            Some(k) => {
                let env = self.heap.new_env(Some(self.environment));
                self.heap.define(
                    env,
                    String::from_str("ulya"),
                    Some(Literal::Callable(Callable::Class(rc_clone(k)))),
                );
                closure_env = env;
            },
            None => {
                closure_env = self.environment;
            },
        }
        let mut hash_methods: HashableMap<Rc<QalamFunction>> = HashableMap::new();
        let mut i: usize = 0;
        loop
            invariant
                self.wf(),
                self.environment == old(self).environment,
                self.globals == old(self).globals,
                self.heap.envs@.len() >= old(self).heap.envs@.len(),
                forall|ei: int|
                    #![trigger self.heap.envs@[ei]]
                    #![trigger old(self).heap.envs@[ei]]
                    0 <= ei < old(self).heap.envs@.len() ==> self.heap.envs@[ei].enclosing
                        == old(self).heap.envs@[ei].enclosing,
                self.heap.instances@.len() >= old(self).heap.instances@.len(),
                self.heap.arrays@.len() >= old(self).heap.arrays@.len(),
                self.locals == old(self).locals,
                self.output@.len() >= old(self).output@.len(),
                closure_env < self.heap.envs@.len(),
                hash_methods.wf(),
                i <= methods@.len(),
                hash_methods@.dom() == crate::ast::method_names(methods@.take(i as int)),
                forall|n: Seq<char>| #[trigger] hash_methods@.contains_key(n)
                    ==> hash_methods@[n].is_initializer == (n == "khalaq"@),
                self.heap.envs@[old(self).environment as int].values@.contains_key(name.lexeme@),
            decreases methods@.len() - i,
        {
            if i < methods.len() {
                match &methods[i] {
                    Stmt::Function { name: mname, params, body } => {
                        let is_init = crate::strutil::str_eq(mname.lexeme.as_str(), "khalaq");
                        let id = self.fresh_id();
                        let func = QalamFunction::init(
                            Token::copy(mname),
                            rc_clone(params),
                            rc_clone(body),
                            closure_env,
                            is_init,
                            id,
                        );
                        proof {
                            reveal_strlit("khalaq");
                        }
                        hash_methods.insert(mname.lexeme.clone(), Rc::new(func));
                        proof {
                            assert(methods@.take(i + 1).drop_last() =~= methods@.take(i as int));
                            assert(methods@.take(i + 1).last() == methods@[i as int]);
                            assert(hash_methods@.dom() =~= crate::ast::method_names(
                                methods@.take(i + 1),
                            ));
                        }
                    },
                    _ => {
                        return Err(
                            Signal::Failure(
                                RuntimeError::init(
                                    name,
                                    String::from_str("class method is not a function!"),
                                ),
                            ),
                        );
                    },
                }
                i = i + 1;
            } else {
                break ;
            }
        }
        proof {
            assert(methods@.take(methods@.len() as int) =~= methods@);
        }
        let id = self.fresh_id();
        let class = QalamClass::init(
            name.lexeme.clone(),
            hash_methods,
            option_superclass,
            id,
        );
        let done = self.heap.assign(
            self.environment,
            &name.lexeme,
            Some(Literal::Callable(Callable::Class(Rc::new(class)))),
        );
        if !done {
            return Err(Signal::Failure(self.undefined_variable(name)));
        }
        Ok(())
    }

    /// Runs a program: each top-level statement in order, stopping at the
    /// first runtime error; a stray `radd` signal is itself an error.
    #[verifier::loop_isolation(false)]
    pub fn interpret(&mut self, statements: &Vec<Stmt>) -> (r: Result<(), RuntimeError>)
        requires
            old(self).wf(),
        ensures
            old(self).steps(*final(self)),
    {
        let mut i: usize = 0;
        loop
            invariant
                self.wf(),
                self.environment == old(self).environment,
                self.globals == old(self).globals,
                self.heap.envs@.len() >= old(self).heap.envs@.len(),
                forall|ei: int|
                    #![trigger self.heap.envs@[ei]]
                    #![trigger old(self).heap.envs@[ei]]
                    0 <= ei < old(self).heap.envs@.len() ==> self.heap.envs@[ei].enclosing
                        == old(self).heap.envs@[ei].enclosing,
                self.heap.instances@.len() >= old(self).heap.instances@.len(),
                self.heap.arrays@.len() >= old(self).heap.arrays@.len(),
                self.locals == old(self).locals,
                self.output@.len() >= old(self).output@.len(),
                i <= statements@.len(),
            decreases statements@.len() - i,
        {
            if i < statements.len() {
                match self.execute(&statements[i], 0xFFFF_FFFF_FFFF_FFFFu64) {
                    Ok(u) => u,
                    Err(Signal::Failure(e)) => {
                        return Err(e);
                    },
                    Err(Signal::Return(_)) => {
                        return Err(
                            RuntimeError::init(
                                &Token::dummy(),
                                String::from_str("Can't return from top-level code."),
                            ),
                        );
                    },
                }
                i = i + 1;
            } else {
                break ;
            }
        }
        Ok(())
    }
}

} // verus!
