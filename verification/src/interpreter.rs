//! Tree-walking evaluation with a single flat variable environment. The
//! specification is `eval_expr` / `exec_stmts_from`, recursive functions over
//! expression shapes and an environment map; `Interpreter::interpret` is
//! proved to compute them. Statements run top to bottom; the first runtime
//! error stops the run; printed values accumulate in order.
use crate::nums::add_bits;
use crate::nums::display_bits;
use crate::nums::div_bits;
use crate::nums::eq_bits;
use crate::nums::lt_bits;
use crate::nums::mul_bits;
use crate::nums::neg_bits;
use crate::nums::num_add;
use crate::nums::num_div;
use crate::nums::num_eq;
use crate::nums::num_lt;
use crate::nums::num_mul;
use crate::nums::num_neg;
use crate::nums::num_render;
use crate::nums::num_sub;
use crate::nums::sub_bits;
use crate::parser::expr_v;
use crate::parser::stmt_v;
use crate::parser::stmts_v;
use crate::parser::Binary;
use crate::parser::Expr;
use crate::parser::ExprV;
use crate::parser::Grouping;
use crate::parser::Literal;
use crate::parser::Stmt;
use crate::parser::StmtV;
use crate::parser::Unary;
use crate::parser::Var;
use crate::token::typ_name;
use crate::token::LitV;
use crate::token::LiteralValue;
use crate::token::Token;
use crate::token::TokenType;
use crate::token::TokenV;
use vstd::prelude::*;
use vstd::string::StringExecFns;

verus! {

/// A runtime failure: what went wrong and the source line of the token that
/// triggered it.
pub struct RtErrV {
    pub msg: Seq<char>,
    pub line: nat,
}

/// A runtime failure, as the evaluator reports it.
#[derive(Debug)]
pub struct RuntimeError {
    pub message: String,
    pub line: usize,
}

impl View for RuntimeError {
    type V = RtErrV;

    open spec fn view(&self) -> RtErrV {
        RtErrV { msg: self.message@, line: self.line as nat }
    }
}

/// The display form of a value inside a diagnostic: strings quoted, numbers
/// in their decimal rendering.
pub open spec fn fmt_lit(v: LitV) -> Seq<char> {
    match v {
        LitV::Num(b) => display_bits(b),
        LitV::Str(s) => "\""@ + s + "\""@,
        LitV::Bool(b) => if b {
            "true"@
        } else {
            "false"@
        },
        LitV::Nil => "nil"@,
    }
}

/// The diagnostic for operands an operator cannot take.
pub open spec fn invalid_operands_err(l: LitV, r: LitV, m: Seq<char>, op: TokenV) -> RtErrV {
    RtErrV {
        msg: "Invalid operands: "@ + fmt_lit(l) + " and "@ + fmt_lit(r) + ". "@ + m,
        line: op.line,
    }
}

/// The diagnostic for an operator token no rule evaluates.
pub open spec fn invalid_operator_err(t: TokenType, line: nat) -> RtErrV {
    RtErrV { msg: "Invalid operator: "@ + typ_name(t), line }
}

/// The diagnostic for a reference to an unbound name.
pub open spec fn undefined_variable_err(name: Seq<char>, line: nat) -> RtErrV {
    RtErrV { msg: "Undefined variable: "@ + name, line }
}

/// What a binary operator yields on two evaluated operands. `+` adds numbers
/// and concatenates strings; `-`, `*`, `/` and the orderings take numbers
/// only; `==` and `!=` take two values of one variant (nil not included) and
/// never compare across variants.
pub open spec fn eval_binop(l: LitV, r: LitV, op: TokenV) -> Result<LitV, RtErrV> {
    if op.typ == TokenType::Plus {
        match (l, r) {
            (LitV::Num(a), LitV::Num(b)) => Ok(LitV::Num(add_bits(a, b))),
            (LitV::Str(a), LitV::Str(b)) => Ok(LitV::Str(a + b)),
            (LitV::Num(_), _) => Err(invalid_operands_err(l, r, "Expected a number"@, op)),
            (LitV::Str(_), _) => Err(invalid_operands_err(l, r, "Expected a string"@, op)),
            _ => Err(invalid_operands_err(l, r, "Expected a number or string"@, op)),
        }
    } else if op.typ == TokenType::Minus {
        match (l, r) {
            (LitV::Num(a), LitV::Num(b)) => Ok(LitV::Num(sub_bits(a, b))),
            _ => Err(invalid_operands_err(l, r, "Expected numbers"@, op)),
        }
    } else if op.typ == TokenType::Star {
        match (l, r) {
            (LitV::Num(a), LitV::Num(b)) => Ok(LitV::Num(mul_bits(a, b))),
            _ => Err(invalid_operands_err(l, r, "Expected numbers"@, op)),
        }
    } else if op.typ == TokenType::Slash {
        match (l, r) {
            (LitV::Num(a), LitV::Num(b)) => Ok(LitV::Num(div_bits(a, b))),
            _ => Err(invalid_operands_err(l, r, "Expected numbers"@, op)),
        }
    } else if op.typ == TokenType::EqualEqual {
        match (l, r) {
            (LitV::Num(a), LitV::Num(b)) => Ok(LitV::Bool(eq_bits(a, b))),
            (LitV::Str(a), LitV::Str(b)) => Ok(LitV::Bool(a == b)),
            (LitV::Bool(a), LitV::Bool(b)) => Ok(LitV::Bool(a == b)),
            _ => Err(invalid_operands_err(l, r, "Expected comparable types"@, op)),
        }
    } else if op.typ == TokenType::BangEqual {
        match (l, r) {
            (LitV::Num(a), LitV::Num(b)) => Ok(LitV::Bool(!eq_bits(a, b))),
            (LitV::Str(a), LitV::Str(b)) => Ok(LitV::Bool(a != b)),
            (LitV::Bool(a), LitV::Bool(b)) => Ok(LitV::Bool(a != b)),
            _ => Err(invalid_operands_err(l, r, "Expected comparable types"@, op)),
        }
    } else if op.typ == TokenType::Greater {
        match (l, r) {
            (LitV::Num(a), LitV::Num(b)) => Ok(LitV::Bool(lt_bits(b, a))),
            _ => Err(invalid_operands_err(l, r, "Expected numbers"@, op)),
        }
    } else if op.typ == TokenType::GreaterEqual {
        match (l, r) {
            (LitV::Num(a), LitV::Num(b)) => Ok(LitV::Bool(lt_bits(b, a) || eq_bits(a, b))),
            _ => Err(invalid_operands_err(l, r, "Expected numbers"@, op)),
        }
    } else if op.typ == TokenType::Less {
        match (l, r) {
            (LitV::Num(a), LitV::Num(b)) => Ok(LitV::Bool(lt_bits(a, b))),
            _ => Err(invalid_operands_err(l, r, "Expected numbers"@, op)),
        }
    } else if op.typ == TokenType::LessEqual {
        match (l, r) {
            (LitV::Num(a), LitV::Num(b)) => Ok(LitV::Bool(lt_bits(a, b) || eq_bits(a, b))),
            _ => Err(invalid_operands_err(l, r, "Expected numbers"@, op)),
        }
    } else {
        Err(invalid_operator_err(op.typ, op.line))
    }
}

/// What a unary operator yields: `-` negates a number (and nothing else);
/// `!` negates any value's truthiness and never fails.
pub open spec fn eval_unop(op: TokenV, v: LitV) -> Result<LitV, RtErrV> {
    if op.typ == TokenType::Minus {
        match v {
            LitV::Num(a) => Ok(LitV::Num(neg_bits(a))),
            _ => Err(invalid_operator_err(op.typ, op.line)),
        }
    } else if op.typ == TokenType::Bang {
        Ok(LitV::Bool(!v.truthy()))
    } else {
        Err(invalid_operator_err(op.typ, op.line))
    }
}

/// What evaluating an expression leaves behind: the value or the failure,
/// and the environment (assignment mutates it even when a later step fails).
pub struct EvalOut {
    pub r: Result<LitV, RtErrV>,
    pub env: Map<Seq<char>, LitV>,
}

/// Expression evaluation: left to right, the first failure aborting.
/// Assignment rebinds the name (creating it if absent) and yields the value.
pub open spec fn eval_expr(e: ExprV, env: Map<Seq<char>, LitV>) -> EvalOut
    decreases e,
{
    match e {
        ExprV::Binary { left, operator, right } => {
            let lo = eval_expr(*left, env);
            match lo.r {
                Err(_) => lo,
                Ok(l) => {
                    let ro = eval_expr(*right, lo.env);
                    match ro.r {
                        Err(_) => ro,
                        Ok(r) => EvalOut { r: eval_binop(l, r, operator), env: ro.env },
                    }
                },
            }
        },
        ExprV::Unary { operator, right } => {
            let ro = eval_expr(*right, env);
            match ro.r {
                Err(_) => ro,
                Ok(v) => EvalOut { r: eval_unop(operator, v), env: ro.env },
            }
        },
        ExprV::Grouping { inner } => eval_expr(*inner, env),
        ExprV::Literal { value } => EvalOut { r: Ok(value), env },
        ExprV::Variable { name } => {
            if env.contains_key(name.lexeme) {
                EvalOut { r: Ok(env[name.lexeme]), env }
            } else {
                EvalOut {
                    r: Err(undefined_variable_err(name.lexeme, name.line)),
                    env,
                }
            }
        },
        ExprV::Assign { name, value } => {
            let vo = eval_expr(*value, env);
            match vo.r {
                Err(_) => vo,
                Ok(v) => EvalOut { r: Ok(v), env: vo.env.insert(name.lexeme, v) },
            }
        },
    }
}

/// What executing statements leaves behind: the environment, the values
/// printed in order, and the first failure if one stopped the run.
pub struct ExecOut {
    pub r: Result<(), RtErrV>,
    pub env: Map<Seq<char>, LitV>,
    pub out: Seq<LitV>,
}

/// One statement: an expression for its effect, a print of its value, or a
/// variable declaration (nil when no initializer is given).
pub open spec fn exec_stmt(s: StmtV, env: Map<Seq<char>, LitV>) -> ExecOut {
    match s {
        StmtV::Expr { expr } => {
            let eo = eval_expr(expr, env);
            match eo.r {
                Ok(_) => ExecOut { r: Ok(()), env: eo.env, out: Seq::empty() },
                Err(err) => ExecOut { r: Err(err), env: eo.env, out: Seq::empty() },
            }
        },
        StmtV::Print { expr } => {
            let eo = eval_expr(expr, env);
            match eo.r {
                Ok(v) => ExecOut { r: Ok(()), env: eo.env, out: seq![v] },
                Err(err) => ExecOut { r: Err(err), env: eo.env, out: Seq::empty() },
            }
        },
        StmtV::Var { name, initializer } => match initializer {
            Some(e) => {
                let eo = eval_expr(e, env);
                match eo.r {
                    Ok(v) => ExecOut {
                        r: Ok(()),
                        env: eo.env.insert(name.lexeme, v),
                        out: Seq::empty(),
                    },
                    Err(err) => ExecOut { r: Err(err), env: eo.env, out: Seq::empty() },
                }
            },
            None => ExecOut {
                r: Ok(()),
                env: env.insert(name.lexeme, LitV::Nil),
                out: Seq::empty(),
            },
        },
    }
}

/// The statements from `i` on, top to bottom, stopping at the first failure.
pub open spec fn exec_stmts_from(ss: Seq<StmtV>, i: nat, env: Map<Seq<char>, LitV>) -> ExecOut
    decreases ss.len() - i,
    when i <= ss.len()
{
    if i >= ss.len() {
        ExecOut { r: Ok(()), env, out: Seq::empty() }
    } else {
        let so = exec_stmt(ss[i as int], env);
        match so.r {
            Err(err) => ExecOut { r: Err(err), env: so.env, out: so.out },
            Ok(_) => {
                let rest = exec_stmts_from(ss, i + 1, so.env);
                ExecOut { r: rest.r, env: rest.env, out: so.out + rest.out }
            },
        }
    }
}

/// The environment as a map: later bindings of a name shadow earlier ones.
pub open spec fn env_map(s: Seq<(String, LiteralValue)>) -> Map<Seq<char>, LitV>
    decreases s.len(),
{
    if s.len() == 0 {
        Map::empty()
    } else {
        env_map(s.drop_last()).insert(s.last().0@, s.last().1@)
    }
}

/// The views of a sequence of values.
pub open spec fn lits_v(vs: Seq<LiteralValue>) -> Seq<LitV> {
    vs.map_values(|v: LiteralValue| v@)
}

/// The flat variable environment: a name maps to its most recent binding.
pub struct Environment {
    values: Vec<(String, LiteralValue)>,
}

impl Environment {
    /// The bindings as a map.
    pub closed spec fn spec_map(self) -> Map<Seq<char>, LitV> {
        env_map(self.values@)
    }

    pub fn new() -> (r: Self)
        ensures
            r.spec_map() == Map::<Seq<char>, LitV>::empty(),
    {
        Environment { values: Vec::new() }
    }

    /// The current binding of `name`, if any.
    pub fn get(&self, name: &String) -> (r: Option<LiteralValue>)
        ensures
            match r {
                Some(v) => self.spec_map().contains_key(name@) && v@ == self.spec_map()[name@],
                None => !self.spec_map().contains_key(name@),
            },
    {
        let ghost full = self.values@;
        let mut i = self.values.len();
        proof {
            assert(full.take(full.len() as int) =~= full);
        }
        while i > 0
            invariant
                i <= full.len(),
                self.values@ == full,
                env_map(full).contains_key(name@) == env_map(full.take(i as int)).contains_key(
                    name@,
                ),
                env_map(full).contains_key(name@) ==> env_map(full)[name@] == env_map(
                    full.take(i as int),
                )[name@],
            decreases i,
        {
            proof {
                assert(full.take(i as int).drop_last() =~= full.take(i - 1));
                assert(full.take(i as int).last() == full[i - 1]);
            }
            let j = i - 1;
            if self.values[j].0 == *name {
                return Some(self.values[j].1.clone());
            }
            i = j;
        }
        proof {
            assert(full.take(0) =~= Seq::<(String, LiteralValue)>::empty());
        }
        None
    }

    /// Binds `name`, shadowing any prior binding.
    fn define(&mut self, name: &String, value: LiteralValue)
        ensures
            final(self).spec_map() == old(self).spec_map().insert(name@, value@),
    {
        let entry = (name.clone(), value);
        self.values.push(entry);
        proof {
            assert(self.values@.drop_last() =~= old(self).values@);
        }
    }
}

/// The evaluator: owns the environment for one interpretation run and
/// records the values the print statements produce, in order.
pub struct Interpreter {
    environment: Environment,
    output: Vec<LiteralValue>,
}

impl RuntimeError {
    /// The failure for operands an operator cannot take.
    fn invalid_operands(
        left: LiteralValue,
        right: LiteralValue,
        message: &str,
        token: Token,
    ) -> (r: Self)
        ensures
            r@ == invalid_operands_err(left@, right@, message@, token@),
    {
        let mut m = "Invalid operands: ".to_owned();
        m.append(format_literal(&left).as_str());
        m.append(" and ");
        m.append(format_literal(&right).as_str());
        m.append(". ");
        m.append(message);
        RuntimeError { message: m, line: token.line }
    }

    /// The failure for an operator token no rule evaluates.
    fn invalid_operator(token_type: TokenType, token: Token) -> (r: Self)
        ensures
            r@ == invalid_operator_err(token_type, token@.line),
    {
        let mut m = "Invalid operator: ".to_owned();
        m.append(token_type.debug_name());
        RuntimeError { message: m, line: token.line }
    }

    /// The failure for a reference to an unbound name.
    fn undefined_variable(name: String, line: usize) -> (r: Self)
        ensures
            r@ == undefined_variable_err(name@, line as nat),
    {
        let mut m = "Undefined variable: ".to_owned();
        m.append(name.as_str());
        RuntimeError { message: m, line }
    }
}

/// The display form of a value inside a diagnostic.
fn format_literal(literal: &LiteralValue) -> (r: String)
    ensures
        r@ == fmt_lit(literal@),
{
    match literal {
        LiteralValue::Number(n) => num_render(*n),
        LiteralValue::String(s) => {
            let mut m = "\"".to_owned();
            m.append(s.as_str());
            m.append("\"");
            m
        },
        LiteralValue::Boolean(b) => {
            if *b {
                "true".to_owned()
            } else {
                "false".to_owned()
            }
        },
        LiteralValue::Nil => "nil".to_owned(),
    }
}

/// What a binary operator yields on two evaluated operands.
#[verifier::rlimit(100)]
#[verifier::spinoff_prover]
fn evaluate_binary_expr(left: LiteralValue, right: LiteralValue, op: &Token) -> (r: Result<
    LiteralValue,
    RuntimeError,
>)
    ensures
        match r {
            Ok(v) => eval_binop(left@, right@, op@) matches Ok(vv) && vv == v@,
            Err(re) => eval_binop(left@, right@, op@) matches Err(err) && re@ == err,
        },
{
    let operator_type = op.typ;
    match operator_type {
        TokenType::Plus => match (&left, &right) {
            (LiteralValue::Number(l), LiteralValue::Number(r)) => Ok(
                LiteralValue::Number(num_add(*l, *r)),
            ),
            (LiteralValue::String(l), LiteralValue::String(r)) => Ok(
                LiteralValue::String(l.clone().concat(r.as_str())),
            ),
            (LiteralValue::Number(_), _) => Err(
                RuntimeError::invalid_operands(left, right, "Expected a number", op.clone()),
            ),
            (LiteralValue::String(_), _) => Err(
                RuntimeError::invalid_operands(left, right, "Expected a string", op.clone()),
            ),
            _ => Err(
                RuntimeError::invalid_operands(
                    left,
                    right,
                    "Expected a number or string",
                    op.clone(),
                ),
            ),
        },
        TokenType::Minus => match (&left, &right) {
            (LiteralValue::Number(l), LiteralValue::Number(r)) => Ok(
                LiteralValue::Number(num_sub(*l, *r)),
            ),
            _ => Err(RuntimeError::invalid_operands(left, right, "Expected numbers", op.clone())),
        },
        TokenType::Star => match (&left, &right) {
            (LiteralValue::Number(l), LiteralValue::Number(r)) => Ok(
                LiteralValue::Number(num_mul(*l, *r)),
            ),
            _ => Err(RuntimeError::invalid_operands(left, right, "Expected numbers", op.clone())),
        },
        TokenType::Slash => match (&left, &right) {
            (LiteralValue::Number(l), LiteralValue::Number(r)) => Ok(
                LiteralValue::Number(num_div(*l, *r)),
            ),
            _ => Err(RuntimeError::invalid_operands(left, right, "Expected numbers", op.clone())),
        },
        TokenType::EqualEqual => match (&left, &right) {
            (LiteralValue::Number(l), LiteralValue::Number(r)) => Ok(
                LiteralValue::Boolean(num_eq(*l, *r)),
            ),
            (LiteralValue::String(l), LiteralValue::String(r)) => Ok(
                LiteralValue::Boolean(*l == *r),
            ),
            (LiteralValue::Boolean(l), LiteralValue::Boolean(r)) => Ok(
                LiteralValue::Boolean(*l == *r),
            ),
            _ => Err(
                RuntimeError::invalid_operands(
                    left,
                    right,
                    "Expected comparable types",
                    op.clone(),
                ),
            ),
        },
        TokenType::BangEqual => match (&left, &right) {
            (LiteralValue::Number(l), LiteralValue::Number(r)) => Ok(
                LiteralValue::Boolean(!num_eq(*l, *r)),
            ),
            (LiteralValue::String(l), LiteralValue::String(r)) => Ok(
                LiteralValue::Boolean(!(*l == *r)),
            ),
            (LiteralValue::Boolean(l), LiteralValue::Boolean(r)) => Ok(
                LiteralValue::Boolean(*l != *r),
            ),
            _ => Err(
                RuntimeError::invalid_operands(
                    left,
                    right,
                    "Expected comparable types",
                    op.clone(),
                ),
            ),
        },
        TokenType::Greater => match (&left, &right) {
            (LiteralValue::Number(l), LiteralValue::Number(r)) => Ok(
                LiteralValue::Boolean(num_lt(*r, *l)),
            ),
            _ => Err(RuntimeError::invalid_operands(left, right, "Expected numbers", op.clone())),
        },
        TokenType::GreaterEqual => match (&left, &right) {
            (LiteralValue::Number(l), LiteralValue::Number(r)) => Ok(
                LiteralValue::Boolean(num_lt(*r, *l) || num_eq(*l, *r)),
            ),
            _ => Err(RuntimeError::invalid_operands(left, right, "Expected numbers", op.clone())),
        },
        TokenType::Less => match (&left, &right) {
            (LiteralValue::Number(l), LiteralValue::Number(r)) => Ok(
                LiteralValue::Boolean(num_lt(*l, *r)),
            ),
            _ => Err(RuntimeError::invalid_operands(left, right, "Expected numbers", op.clone())),
        },
        TokenType::LessEqual => match (&left, &right) {
            (LiteralValue::Number(l), LiteralValue::Number(r)) => Ok(
                LiteralValue::Boolean(num_lt(*l, *r) || num_eq(*l, *r)),
            ),
            _ => Err(RuntimeError::invalid_operands(left, right, "Expected numbers", op.clone())),
        },
        _ => Err(RuntimeError::invalid_operator(operator_type, op.clone())),
    }
}

impl Interpreter {
    /// The environment as a map.
    pub closed spec fn spec_env(self) -> Map<Seq<char>, LitV> {
        self.environment.spec_map()
    }

    /// The values printed so far, in order.
    pub closed spec fn spec_output(self) -> Seq<LitV> {
        lits_v(self.output@)
    }

    pub fn new() -> (r: Self)
        ensures
            r.spec_env() == Map::<Seq<char>, LitV>::empty(),
            r.spec_output() == Seq::<LitV>::empty(),
    {
        let r = Interpreter { environment: Environment::new(), output: Vec::new() };
        proof {
            assert(lits_v(r.output@) =~= Seq::<LitV>::empty());
        }
        r
    }

    /// The values the print statements produced, in order: the caller
    /// renders and writes them.
    pub fn take_output(&mut self) -> (r: Vec<LiteralValue>)
        ensures
            lits_v(r@) == old(self).spec_output(),
            final(self).spec_output() == Seq::<LitV>::empty(),
            final(self).spec_env() == old(self).spec_env(),
    {
        let mut out: Vec<LiteralValue> = Vec::new();
        core::mem::swap(&mut out, &mut self.output);
        proof {
            assert(lits_v(self.output@) =~= Seq::<LitV>::empty());
        }
        out
    }

    /// Binds `name`, shadowing any prior binding.
    pub fn define(&mut self, name: &String, value: LiteralValue)
        ensures
            final(self).spec_env() == old(self).spec_env().insert(name@, value@),
            final(self).spec_output() == old(self).spec_output(),
    {
        self.environment.define(name, value);
    }

    /// The current binding of `name`, or the undefined-variable failure
    /// tagged with the referencing line.
    pub fn get(&self, line: usize, name: &String) -> (r: Result<LiteralValue, RuntimeError>)
        ensures
            match r {
                Ok(v) => self.spec_env().contains_key(name@) && v@ == self.spec_env()[name@],
                Err(re) => !self.spec_env().contains_key(name@) && re@ == undefined_variable_err(
                    name@,
                    line as nat,
                ),
            },
    {
        match self.environment.get(name) {
            Some(v) => Ok(v),
            None => Err(RuntimeError::undefined_variable(name.clone(), line)),
        }
    }

    /// Evaluates one expression against the current environment.
    fn evaluate(&mut self, expr: &Expr) -> (r: Result<LiteralValue, RuntimeError>)
        ensures
            final(self).spec_output() == old(self).spec_output(),
            ({
                let res = eval_expr(expr@, old(self).spec_env());
                &&& final(self).spec_env() == res.env
                &&& match r {
                    Ok(v) => res.r matches Ok(vv) && vv == v@,
                    Err(re) => res.r matches Err(err) && re@ == err,
                }
            }),
        decreases expr, 0int,
    {
        match expr {
            Expr::Binary(b) => self.visit_binary(b),
            Expr::Unary(u) => self.visit_unary(u),
            Expr::Grouping(g) => self.visit_grouping(g),
            Expr::Literal(l) => self.visit_literal(l),
            Expr::Variable(t) => self.visit_variable_expr(t),
            Expr::Assign(t, v) => self.visit_assign(t, v),
        }
    }

    fn visit_binary(&mut self, expr: &Binary) -> (r: Result<LiteralValue, RuntimeError>)
        ensures
            final(self).spec_output() == old(self).spec_output(),
            ({
                let res = eval_expr(expr_v(Expr::Binary(*expr)), old(self).spec_env());
                &&& final(self).spec_env() == res.env
                &&& match r {
                    Ok(v) => res.r matches Ok(vv) && vv == v@,
                    Err(re) => res.r matches Err(err) && re@ == err,
                }
            }),
        decreases expr, 1int,
    {
        let left = match self.evaluate(&expr.left) {
            Ok(v) => v,
            Err(re) => {
                return Err(re);
            },
        };
        let right = match self.evaluate(&expr.right) {
            Ok(v) => v,
            Err(re) => {
                return Err(re);
            },
        };
        evaluate_binary_expr(left, right, &expr.operator)
    }

    fn visit_unary(&mut self, expr: &Unary) -> (r: Result<LiteralValue, RuntimeError>)
        ensures
            final(self).spec_output() == old(self).spec_output(),
            ({
                let res = eval_expr(expr_v(Expr::Unary(*expr)), old(self).spec_env());
                &&& final(self).spec_env() == res.env
                &&& match r {
                    Ok(v) => res.r matches Ok(vv) && vv == v@,
                    Err(re) => res.r matches Err(err) && re@ == err,
                }
            }),
        decreases expr, 1int,
    {
        let operator = expr.operator.typ;
        let right = match self.evaluate(&expr.right) {
            Ok(v) => v,
            Err(re) => {
                return Err(re);
            },
        };
        match (&operator, &right) {
            (TokenType::Minus, LiteralValue::Number(b)) => Ok(LiteralValue::Number(num_neg(*b))),
            (TokenType::Bang, _) => Ok(LiteralValue::Boolean(!right.is_truthy())),
            _ => Err(RuntimeError::invalid_operator(operator, expr.operator.clone())),
        }
    }

    fn visit_grouping(&mut self, expr: &Grouping) -> (r: Result<LiteralValue, RuntimeError>)
        ensures
            final(self).spec_output() == old(self).spec_output(),
            ({
                let res = eval_expr(expr_v(Expr::Grouping(*expr)), old(self).spec_env());
                &&& final(self).spec_env() == res.env
                &&& match r {
                    Ok(v) => res.r matches Ok(vv) && vv == v@,
                    Err(re) => res.r matches Err(err) && re@ == err,
                }
            }),
        decreases expr, 1int,
    {
        self.evaluate(&expr.expr)
    }

    fn visit_literal(&mut self, expr: &Literal) -> (r: Result<LiteralValue, RuntimeError>)
        ensures
            final(self).spec_output() == old(self).spec_output(),
            final(self).spec_env() == old(self).spec_env(),
            r matches Ok(v) && v@ == expr.value@,
    {
        Ok(expr.value.clone())
    }

    fn visit_variable_expr(&mut self, token: &Token) -> (r: Result<LiteralValue, RuntimeError>)
        ensures
            final(self).spec_output() == old(self).spec_output(),
            ({
                let res = eval_expr(expr_v(Expr::Variable(*token)), old(self).spec_env());
                &&& final(self).spec_env() == res.env
                &&& match r {
                    Ok(v) => res.r matches Ok(vv) && vv == v@,
                    Err(re) => res.r matches Err(err) && re@ == err,
                }
            }),
    {
        self.get(token.line, &token.lexeme)
    }

    fn visit_assign(&mut self, token: &Token, value: &Box<Expr>) -> (r: Result<
        LiteralValue,
        RuntimeError,
    >)
        ensures
            final(self).spec_output() == old(self).spec_output(),
            ({
                let res = eval_expr(
                    ExprV::Assign { name: token@, value: Box::new((**value)@) },
                    old(self).spec_env(),
                );
                &&& final(self).spec_env() == res.env
                &&& match r {
                    Ok(v) => res.r matches Ok(vv) && vv == v@,
                    Err(re) => res.r matches Err(err) && re@ == err,
                }
            }),
        decreases value, 1int,
    {
        let val = match self.evaluate(value) {
            Ok(v) => v,
            Err(re) => {
                return Err(re);
            },
        };
        self.define(&token.lexeme, val.clone());
        Ok(val)
    }

    fn visit_expr(&mut self, expr: &Expr) -> (r: Result<(), RuntimeError>)
        ensures
            ({
                let res = exec_stmt(StmtV::Expr { expr: expr@ }, old(self).spec_env());
                &&& final(self).spec_env() == res.env
                &&& final(self).spec_output() == old(self).spec_output() + res.out
                &&& match r {
                    Ok(u) => res.r is Ok,
                    Err(re) => res.r matches Err(err) && re@ == err,
                }
            }),
    {
        proof {
            lemma_lits_add_empty(old(self).spec_output());
        }
        match self.evaluate(expr) {
            Ok(_) => Ok(()),
            Err(re) => Err(re),
        }
    }

    fn visit_print(&mut self, expr: &Expr) -> (r: Result<(), RuntimeError>)
        ensures
            ({
                let res = exec_stmt(StmtV::Print { expr: expr@ }, old(self).spec_env());
                &&& final(self).spec_env() == res.env
                &&& final(self).spec_output() == old(self).spec_output() + res.out
                &&& match r {
                    Ok(u) => res.r is Ok,
                    Err(re) => res.r matches Err(err) && re@ == err,
                }
            }),
    {
        proof {
            lemma_lits_add_empty(old(self).spec_output());
        }
        let value = match self.evaluate(expr) {
            Ok(v) => v,
            Err(re) => {
                return Err(re);
            },
        };
        let ghost pre = self.output@;
        self.output.push(value);
        proof {
            assert(lits_v(self.output@) =~= lits_v(pre) + seq![value@]);
        }
        Ok(())
    }

    fn visit_variable(&mut self, var: &Var) -> (r: Result<(), RuntimeError>)
        ensures
            ({
                let res = exec_stmt(stmt_v(Stmt::Variable(*var)), old(self).spec_env());
                &&& final(self).spec_env() == res.env
                &&& final(self).spec_output() == old(self).spec_output() + res.out
                &&& match r {
                    Ok(u) => res.r is Ok,
                    Err(re) => res.r matches Err(err) && re@ == err,
                }
            }),
    {
        proof {
            lemma_lits_add_empty(old(self).spec_output());
        }
        match &var.initializer {
            Some(expr) => {
                let value = match self.evaluate(expr) {
                    Ok(v) => v,
                    Err(re) => {
                        return Err(re);
                    },
                };
                self.define(&var.name.lexeme, value);
                Ok(())
            },
            None => {
                self.define(&var.name.lexeme, LiteralValue::Nil);
                Ok(())
            },
        }
    }

    /// Runs the statements top to bottom against the environment carried in
    /// `self`, recording each printed value; execution stops at the first
    /// runtime error, which is returned.
    #[verifier::loop_isolation(false)]
    pub fn interpret(&mut self, statements: &Vec<Stmt>) -> (r: Result<(), RuntimeError>)
        ensures
            ({
                let res = exec_stmts_from(stmts_v(statements@), 0, old(self).spec_env());
                &&& final(self).spec_env() == res.env
                &&& final(self).spec_output() == old(self).spec_output() + res.out
                &&& match r {
                    Ok(u) => res.r is Ok,
                    Err(re) => res.r matches Err(err) && re@ == err,
                }
            }),
    {
        let ghost sv = stmts_v(statements@);
        let ghost res = exec_stmts_from(sv, 0, old(self).spec_env());
        let ghost out0 = old(self).spec_output();
        let mut i: usize = 0;
        proof {
            lemma_lits_add_empty(out0);
        }
        while i < statements.len()
            invariant
                i <= sv.len(),
                ({
                    let rest = exec_stmts_from(sv, i as nat, self.spec_env());
                    &&& res.env == rest.env
                    &&& res.r == rest.r
                    &&& out0 + res.out == self.spec_output() + rest.out
                }),
            decreases sv.len() - i,
        {
            let ghost env_pre = self.spec_env();
            let ghost out_pre = self.spec_output();
            let stmt = &statements[i];
            let sr = match stmt {
                Stmt::Expr(e) => self.visit_expr(e),
                Stmt::Print(e) => self.visit_print(e),
                Stmt::Variable(v) => self.visit_variable(v),
            };
            proof {
                assert(stmt@ == sv[i as int]);
                let so = exec_stmt(sv[i as int], env_pre);
                if so.r is Ok {
                    let rest_new = exec_stmts_from(sv, (i + 1) as nat, so.env);
                    assert((out_pre + so.out) + rest_new.out =~= out_pre + (so.out
                        + rest_new.out));
                }
            }
            match sr {
                Ok(_) => {},
                Err(re) => {
                    proof {
                        lemma_lits_add_empty(self.spec_output());
                        lemma_lits_add_empty(out0 + res.out);
                    }
                    return Err(re);
                },
            }
            i = i + 1;
        }
        proof {
            lemma_lits_add_empty(self.spec_output());
            lemma_lits_add_empty(out0 + res.out);
        }
        Ok(())
    }
}

/// `s + empty == s`, stated extensionally.
proof fn lemma_lits_add_empty(s: Seq<LitV>)
    ensures
        s + Seq::<LitV>::empty() == s,
{
    assert(s + Seq::<LitV>::empty() =~= s);
}


/// Law: equality is type-strict. Comparing values of two different variants,
/// or two nils, with `==` is a runtime error, never `false`.
pub proof fn lemma_equality_type_strict(l: LitV, r: LitV, op: TokenV)
    requires
        op.typ == TokenType::EqualEqual,
        !(l is Num && r is Num),
        !(l is Str && r is Str),
        !(l is Bool && r is Bool),
    ensures
        eval_binop(l, r, op) is Err,
{
}

/// Law: a reference to a name the environment does not bind evaluates to the
/// undefined-variable error, never to a fallback value, and leaves the
/// environment unchanged.
pub proof fn lemma_undefined_variable(name: TokenV, env: Map<Seq<char>, LitV>)
    requires
        !env.contains_key(name.lexeme),
    ensures
        eval_expr(ExprV::Variable { name }, env).r == Result::<LitV, RtErrV>::Err(
            undefined_variable_err(name.lexeme, name.line),
        ),
        eval_expr(ExprV::Variable { name }, env).env == env,
{
}

/// Law: `!` applies truthiness negation to any value and never fails; nil
/// and false are the only falsy values.
pub proof fn lemma_bang_truthiness(op: TokenV, v: LitV)
    requires
        op.typ == TokenType::Bang,
    ensures
        eval_unop(op, v) == Result::<LitV, RtErrV>::Ok(LitV::Bool(!v.truthy())),
        v.truthy() <==> !(v is Nil || v == LitV::Bool(false)),
{
}

} // verus!
