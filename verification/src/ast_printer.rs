//! A diagnostic pretty-printer for the syntax tree: prefix notation with one
//! parenthesized group per operator, the form the parser tests compare
//! against. The specification is `print_expr_v` / `print_stmt_v`; the
//! printer's methods are proved to produce them.
use crate::nums::display_bits;
use crate::nums::num_render;
use crate::parser::expr_v;
use crate::parser::stmt_v;
use crate::parser::Binary;
use crate::parser::Expr;
use crate::parser::ExprV;
use crate::parser::Grouping;
use crate::parser::Literal;
use crate::parser::Stmt;
use crate::parser::StmtV;
use crate::parser::Unary;
use crate::parser::Var;
use crate::token::typ_symbol;
use crate::token::LitV;
use crate::token::LiteralValue;
use crate::token::Token;
use crate::token::TokenV;
use vstd::prelude::*;
use vstd::string::StringExecFns;

verus! {

/// A token's display text: its lexeme, or its type's spelling when the
/// lexeme is empty.
pub open spec fn token_text(t: TokenV) -> Seq<char> {
    if t.lexeme.len() > 0 {
        t.lexeme
    } else {
        typ_symbol(t.typ)
    }
}

/// A literal's display form in the tree: numbers in their decimal rendering,
/// strings bare, booleans as the words, nil as `nil`.
pub open spec fn print_lit(v: LitV) -> Seq<char> {
    match v {
        LitV::Num(b) => display_bits(b),
        LitV::Str(s) => s,
        LitV::Bool(b) => if b {
            "true"@
        } else {
            "false"@
        },
        LitV::Nil => "nil"@,
    }
}

/// The prefix rendering of an expression.
pub open spec fn print_expr_v(e: ExprV) -> Seq<char>
    decreases e,
{
    match e {
        ExprV::Binary { left, operator, right } => "("@ + token_text(operator) + " "@
            + print_expr_v(*left) + " "@ + print_expr_v(*right) + ")"@,
        ExprV::Unary { operator, right } => "("@ + token_text(operator) + " "@ + print_expr_v(
            *right,
        ) + ")"@,
        ExprV::Grouping { inner } => "(group "@ + print_expr_v(*inner) + ")"@,
        ExprV::Literal { value } => print_lit(value),
        ExprV::Variable { name } => token_text(name),
        ExprV::Assign { name, value } => "(= "@ + token_text(name) + " "@ + print_expr_v(*value)
            + ")"@,
    }
}

/// The rendering of a statement.
pub open spec fn print_stmt_v(s: StmtV) -> Seq<char> {
    match s {
        StmtV::Expr { expr } => print_expr_v(expr),
        StmtV::Print { expr } => "print "@ + print_expr_v(expr),
        StmtV::Var { name, initializer } => match initializer {
            Some(e) => "var "@ + token_text(name) + " = "@ + print_expr_v(e),
            None => "var "@ + token_text(name),
        },
    }
}

/// The pretty-printer. It holds no state; its methods render nodes.
pub struct AstPrinter {}

/// A token's display text.
fn token_string(t: &Token) -> (r: String)
    ensures
        r@ == token_text(t@),
{
    if !t.lexeme.as_str().is_empty() {
        t.lexeme.clone()
    } else {
        t.typ.symbol().to_owned()
    }
}

impl AstPrinter {
    pub fn new() -> (r: Self)
        ensures
            r == (AstPrinter {  }),
    {
        AstPrinter {  }
    }

    /// Renders one expression.
    pub fn print_expr(&self, e: &Expr) -> (r: String)
        ensures
            r@ == print_expr_v(e@),
        decreases e, 0int,
    {
        match e {
            Expr::Binary(b) => self.visit_binary(b),
            Expr::Unary(u) => self.visit_unary(u),
            Expr::Grouping(g) => self.visit_grouping(g),
            Expr::Literal(l) => self.visit_literal(l),
            Expr::Variable(t) => token_string(t),
            Expr::Assign(t, v) => {
                let mut s = "(= ".to_owned();
                s.append(token_string(t).as_str());
                s.append(" ");
                s.append(self.print_expr(v).as_str());
                s.append(")");
                s
            },
        }
    }

    /// Renders one statement.
    pub fn print_stmt(&self, s: &Stmt) -> (r: String)
        ensures
            r@ == print_stmt_v(s@),
    {
        match s {
            Stmt::Expr(e) => self.visit_expr(e),
            Stmt::Print(e) => self.visit_print(e),
            Stmt::Variable(v) => self.visit_variable(v),
        }
    }

    fn visit_expr(&self, e: &Expr) -> (r: String)
        ensures
            r@ == print_stmt_v(StmtV::Expr { expr: e@ }),
    {
        self.print_expr(e)
    }

    fn visit_print(&self, e: &Expr) -> (r: String)
        ensures
            r@ == print_stmt_v(StmtV::Print { expr: e@ }),
    {
        let mut s = "print ".to_owned();
        s.append(self.print_expr(e).as_str());
        s
    }

    fn visit_variable(&self, v: &Var) -> (r: String)
        ensures
            r@ == print_stmt_v(stmt_v(Stmt::Variable(*v))),
    {
        let mut s = "var ".to_owned();
        s.append(token_string(&v.name).as_str());
        match &v.initializer {
            Some(e) => {
                s.append(" = ");
                s.append(self.print_expr(e).as_str());
            },
            None => {},
        }
        s
    }

    fn visit_binary(&self, expr: &Binary) -> (r: String)
        ensures
            r@ == print_expr_v(expr_v(Expr::Binary(*expr))),
        decreases expr, 1int,
    {
        let mut s = "(".to_owned();
        s.append(token_string(&expr.operator).as_str());
        s.append(" ");
        s.append(self.print_expr(&expr.left).as_str());
        s.append(" ");
        s.append(self.print_expr(&expr.right).as_str());
        s.append(")");
        s
    }

    fn visit_unary(&self, expr: &Unary) -> (r: String)
        ensures
            r@ == print_expr_v(expr_v(Expr::Unary(*expr))),
        decreases expr, 1int,
    {
        let mut s = "(".to_owned();
        s.append(token_string(&expr.operator).as_str());
        s.append(" ");
        s.append(self.print_expr(&expr.right).as_str());
        s.append(")");
        s
    }

    fn visit_grouping(&self, expr: &Grouping) -> (r: String)
        ensures
            r@ == print_expr_v(expr_v(Expr::Grouping(*expr))),
        decreases expr, 1int,
    {
        let mut s = "(group ".to_owned();
        s.append(self.print_expr(&expr.expr).as_str());
        s.append(")");
        s
    }

    fn visit_literal(&self, expr: &Literal) -> (r: String)
        ensures
            r@ == print_expr_v(expr_v(Expr::Literal(*expr))),
    {
        match &expr.value {
            LiteralValue::Number(n) => num_render(*n),
            LiteralValue::String(s) => s.clone(),
            LiteralValue::Boolean(b) => {
                if *b {
                    "true".to_owned()
                } else {
                    "false".to_owned()
                }
            },
            LiteralValue::Nil => "nil".to_owned(),
        }
    }
}

} // verus!
