//! Callable objects: user functions, classes and the native library, plus
//! class instances. Functions and classes sit behind `Rc` so that copying a
//! value keeps the identity of the underlying object.
use crate::ast::Stmt;
use crate::hashable::HashableMap;
use crate::literal::Literal;
use crate::native::NativeFn;
use crate::token::Token;
use std::rc::Rc;
use vstd::prelude::*;

verus! {

/// Relies on `std::rc::Rc::clone`: the new pointer shares the same
/// allocation, so as a value it is the same object.
#[verifier::external_body]
pub fn rc_clone<T>(b: &Rc<T>) -> (res: Rc<T>)
    ensures
        res == *b,
{
    b.clone()
}

pub struct QalamFunction {
    pub id: u64,
    pub name: Token,
    pub params: Rc<Vec<Token>>,
    pub body: Rc<Vec<Stmt>>,
    pub closure: usize,
    pub is_initializer: bool,
}

impl QalamFunction {
    pub fn init(
        name: Token,
        params: Rc<Vec<Token>>,
        body: Rc<Vec<Stmt>>,
        closure: usize,
        is_initializer: bool,
        id: u64,
    ) -> (r: Self)
        ensures
            r.name == name,
            r.params == params,
            r.body == body,
            r.closure == closure,
            r.is_initializer == is_initializer,
            r.id == id,
    {
        QalamFunction { id, name, params, body, closure, is_initializer }
    }

    pub fn arity(&self) -> (r: usize)
        ensures
            r == self.params@.len(),
    {
        self.params.len()
    }
}

pub struct QalamClass {
    pub id: u64,
    pub name: String,
    pub methods: HashableMap<Rc<QalamFunction>>,
    pub superclass: Option<Rc<QalamClass>>,
}

impl QalamClass {
    pub fn init(
        name: String,
        methods: HashableMap<Rc<QalamFunction>>,
        superclass: Option<Rc<QalamClass>>,
        id: u64,
    ) -> (r: Self)
        ensures
            r.name == name,
            r.methods == methods,
            r.superclass == superclass,
            r.id == id,
    {
        QalamClass { id, name, methods, superclass }
    }

    /// The method of this name: the class's own where it has one, else the
    /// nearest ancestor's.
    pub open spec fn find_method_spec(self, name: Seq<char>) -> Option<Rc<QalamFunction>>
        decreases self,
    {
        if self.methods@.contains_key(name) {
            Some(self.methods@[name])
        } else {
            match self.superclass {
                Some(s) => (*s).find_method_spec(name),
                None => None,
            }
        }
    }

    pub fn find_method(&self, name: &String) -> (r: Option<Rc<QalamFunction>>)
        ensures
            r == self.find_method_spec(name@),
        decreases *self,
    {
        match self.methods.get(name) {
            Some(m) => Some(rc_clone(m)),
            None => match &self.superclass {
                Some(s) => s.find_method(name),
                None => None,
            },
        }
    }
}

pub struct QalamInstance {
    pub class: Rc<QalamClass>,
    pub fields: HashableMap<Option<Literal>>,
}

impl QalamInstance {
    pub fn init(class: Rc<QalamClass>) -> (r: Self)
        ensures
            r.class == class,
            r.fields@ == Map::<Seq<char>, Option<Literal>>::empty(),
            r.fields.wf(),
    {
        QalamInstance { class, fields: HashableMap::new() }
    }

    /// Sets the field, creating it where it is absent.
    pub fn set(&mut self, name: &Token, value: Option<Literal>)
        requires
            old(self).fields.wf(),
        ensures
            final(self).fields@ == old(self).fields@.insert(name.lexeme@, value),
            final(self).fields.wf(),
            final(self).class == old(self).class,
    {
        self.fields.insert(name.lexeme.clone(), value);
    }
}

pub enum Callable {
    Function(Rc<QalamFunction>),
    Class(Rc<QalamClass>),
    Native(NativeFn),
}

impl Callable {
    /// The identity that the language's equality compares: which kind of
    /// callable, and which object of that kind.
    pub open spec fn ident(self) -> (int, int) {
        match self {
            Callable::Function(f) => (0int, f.id as int),
            Callable::Class(c) => (1int, c.id as int),
            Callable::Native(k) => (2int, k.index()),
        }
    }

    pub fn ident_exec(&self) -> (r: (u8, u64))
        ensures
            self.ident() == (r.0 as int, r.1 as int),
    {
        match self {
            Callable::Function(f) => (0u8, f.id),
            Callable::Class(c) => (1u8, c.id),
            Callable::Native(k) => (2u8, k.index_exec()),
        }
    }

    /// A copy that is the same callable object.
    pub fn dup(&self) -> (r: Callable)
        ensures
            r == *self,
    {
        match self {
            Callable::Function(f) => Callable::Function(rc_clone(f)),
            Callable::Class(c) => Callable::Class(rc_clone(c)),
            Callable::Native(k) => Callable::Native(*k),
        }
    }
}

} // verus!
