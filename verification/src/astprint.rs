//! A parenthesized rendering of expressions, for inspecting parser output.
use crate::ast::{expr_size, Expr};
use crate::literal::Literal;
use crate::num::num_to_display;
use vstd::prelude::*;
use vstd::string::*;

verus! {

fn literal_text(value: &Option<Literal>) -> (r: String) {
    match value {
        None => String::from_str("ghaib"),
        Some(Literal::Number(b)) => num_to_display(*b),
        Some(Literal::String(s)) => s.clone(),
        Some(Literal::Bool(b)) => {
            if *b {
                String::from_str("haqq")
            } else {
                String::from_str("batil")
            }
        },
        Some(_) => String::from_str("<value>"),
    }
}

fn paren_two(head: &str, a: String, b: String) -> (r: String) {
    let mut r = String::from_str("(");
    r.append(head);
    r.append(" ");
    r.append(a.as_str());
    r.append(" ");
    r.append(b.as_str());
    r.append(")");
    r
}

fn paren_one(head: &str, a: String) -> (r: String) {
    let mut r = String::from_str("(");
    r.append(head);
    r.append(" ");
    r.append(a.as_str());
    r.append(")");
    r
}

fn paren_expr(e: &Expr) -> (r: String)
    decreases expr_size(*e),
{
    match e {
        Expr::Binary { left, operator, right } => {
            let a = paren_expr(left);
            let b = paren_expr(right);
            paren_two(operator.lexeme.as_str(), a, b)
        },
        Expr::Logical { left, operator, right } => {
            let a = paren_expr(left);
            let b = paren_expr(right);
            paren_two(operator.lexeme.as_str(), a, b)
        },
        Expr::Grouping { expression } => {
            let a = paren_expr(expression);
            paren_one("grouping", a)
        },
        Expr::Literal { value } => literal_text(value),
        Expr::Unary { operator, right } => {
            let a = paren_expr(right);
            paren_one(operator.lexeme.as_str(), a)
        },
        Expr::Variable { name, .. } => name.lexeme.clone(),
        Expr::Assign { name, value, .. } => {
            let a = paren_expr(value);
            paren_one(name.lexeme.as_str(), a)
        },
        Expr::Call { callee, .. } => {
            let a = paren_expr(callee);
            paren_one("call", a)
        },
        Expr::Get { object, name } => {
            let a = paren_expr(object);
            paren_two(".", a, name.lexeme.clone())
        },
        Expr::SetProp { object, name, value } => {
            let a = paren_expr(object);
            let b = paren_expr(value);
            let named = paren_two(".", a, name.lexeme.clone());
            paren_two("=", named, b)
        },
        Expr::This { .. } => String::from_str("nafs"),
        Expr::Super { method, .. } => {
            paren_one("ulya", method.lexeme.clone())
        },
        Expr::Array { .. } => String::from_str("(array)"),
        Expr::GetIndexed { object, index, .. } => {
            let a = paren_expr(object);
            let b = paren_expr(index);
            paren_two("index", a, b)
        },
        Expr::SetIndexed { object, index, value, .. } => {
            let a = paren_expr(object);
            let b = paren_expr(index);
            let c = paren_expr(value);
            let ab = paren_two("index", a, b);
            paren_two("=", ab, c)
        },
    }
}

pub struct ASTParenString {}

impl ASTParenString {
    pub fn to_string(&mut self, expr: &Expr) -> (r: String) {
        paren_expr(expr)
    }
}

} // verus!
