//! The syntax tree. Every variable, assignment, `nafs` and `ulya` node
//! carries a numeric id assigned by the parser; the resolver's depth table is
//! keyed by these ids.
use crate::literal::Literal;
use crate::token::Token;
use std::rc::Rc;
use vstd::prelude::*;

verus! {

pub enum Expr {
    Assign { id: usize, name: Token, value: Box<Expr> },
    Binary { left: Box<Expr>, operator: Token, right: Box<Expr> },
    Grouping { expression: Box<Expr> },
    Literal { value: Option<Literal> },
    Unary { operator: Token, right: Box<Expr> },
    Variable { id: usize, name: Token },
    Logical { left: Box<Expr>, operator: Token, right: Box<Expr> },
    Call { callee: Box<Expr>, paren: Token, arguments: Vec<Expr> },
    Get { object: Box<Expr>, name: Token },
    SetProp { object: Box<Expr>, name: Token, value: Box<Expr> },
    This { id: usize, keyword: Token },
    Super { id: usize, keyword: Token, method: Token },
    Array { values: Vec<Expr> },
    GetIndexed { object: Box<Expr>, index: Box<Expr>, bracket: Token },
    SetIndexed { object: Box<Expr>, index: Box<Expr>, value: Box<Expr>, bracket: Token },
}

pub enum Stmt {
    Expression { expression: Expr },
    Print { expression: Expr },
    Var { name: Token, initializer: Option<Expr> },
    Block { statements: Vec<Stmt> },
    If { condition: Expr, then: Box<Stmt>, else_branch: Option<Box<Stmt>> },
    While { condition: Expr, body: Box<Stmt> },
    Function { name: Token, params: Rc<Vec<Token>>, body: Rc<Vec<Stmt>> },
    Return { keyword: Token, value: Option<Expr> },
    Class { name: Token, superclass: Option<Expr>, methods: Vec<Stmt> },
}

/// The number of nodes in an expression, the measure every walk over the
/// tree descends on.
pub open spec fn expr_size(e: Expr) -> nat
    decreases e,
{
    match e {
        Expr::Assign { value, .. } => 1 + expr_size(*value),
        Expr::Binary { left, right, .. } => 1 + expr_size(*left) + expr_size(*right),
        Expr::Grouping { expression } => 1 + expr_size(*expression),
        Expr::Literal { .. } => 1,
        Expr::Unary { right, .. } => 1 + expr_size(*right),
        Expr::Variable { .. } => 1,
        Expr::Logical { left, right, .. } => 1 + expr_size(*left) + expr_size(*right),
        Expr::Call { callee, arguments, .. } => 1 + expr_size(*callee) + exprs_size(arguments@),
        Expr::Get { object, .. } => 1 + expr_size(*object),
        Expr::SetProp { object, value, .. } => 1 + expr_size(*object) + expr_size(*value),
        Expr::This { .. } => 1,
        Expr::Super { .. } => 1,
        Expr::Array { values } => 1 + exprs_size(values@),
        Expr::GetIndexed { object, index, .. } => 1 + expr_size(*object) + expr_size(*index),
        Expr::SetIndexed { object, index, value, .. } => 1 + expr_size(*object) + expr_size(
            *index,
        ) + expr_size(*value),
    }
}

pub open spec fn exprs_size(s: Seq<Expr>) -> nat
    decreases s,
{
    if s.len() == 0 {
        0
    } else {
        exprs_size(s.drop_last()) + expr_size(s.last())
    }
}

pub open spec fn stmt_size(s: Stmt) -> nat
    decreases s,
{
    match s {
        Stmt::Expression { expression } => 1 + expr_size(expression),
        Stmt::Print { expression } => 1 + expr_size(expression),
        Stmt::Var { initializer, .. } => 1 + (match initializer {
            Some(e) => expr_size(e),
            None => 0,
        }),
        Stmt::Block { statements } => 1 + stmts_size(statements@),
        Stmt::If { condition, then, else_branch } => 1 + expr_size(condition) + stmt_size(*then)
            + (match else_branch {
            Some(e) => stmt_size(*e),
            None => 0,
        }),
        Stmt::While { condition, body } => 1 + expr_size(condition) + stmt_size(*body),
        Stmt::Function { body, .. } => 1 + stmts_size(body@),
        Stmt::Return { value, .. } => 1 + (match value {
            Some(e) => expr_size(e),
            None => 0,
        }),
        Stmt::Class { superclass, methods, .. } => 1 + (match superclass {
            Some(e) => expr_size(e),
            None => 0,
        }) + stmts_size(methods@),
    }
}

pub open spec fn stmts_size(s: Seq<Stmt>) -> nat
    decreases s,
{
    if s.len() == 0 {
        0
    } else {
        stmts_size(s.drop_last()) + stmt_size(s.last())
    }
}

/// The names of the declared methods of a class body.
pub open spec fn method_names(methods: Seq<Stmt>) -> Set<Seq<char>>
    decreases methods.len(),
{
    if methods.len() == 0 {
        Set::empty()
    } else {
        match methods.last() {
            Stmt::Function { name, .. } => method_names(methods.drop_last()).insert(name.lexeme@),
            _ => method_names(methods.drop_last()),
        }
    }
}

/// Every element weighs no more than its sequence.
pub proof fn lemma_exprs_size_element(s: Seq<Expr>, i: int)
    requires
        0 <= i < s.len(),
    ensures
        expr_size(s[i]) <= exprs_size(s),
    decreases s.len(),
{
    if i == s.len() - 1 {
        assert(s.last() == s[i]);
    } else {
        lemma_exprs_size_element(s.drop_last(), i);
        assert(s.drop_last()[i] == s[i]);
    }
}

pub proof fn lemma_stmts_size_element(s: Seq<Stmt>, i: int)
    requires
        0 <= i < s.len(),
    ensures
        stmt_size(s[i]) <= stmts_size(s),
    decreases s.len(),
{
    if i == s.len() - 1 {
        assert(s.last() == s[i]);
    } else {
        lemma_stmts_size_element(s.drop_last(), i);
        assert(s.drop_last()[i] == s[i]);
    }
}

} // verus!
