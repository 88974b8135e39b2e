use vstd::prelude::*;

use crate::numeric::num_display;
use crate::numeric::num_is_int;
use crate::numeric::number_is_int;
use crate::numeric::display_number;
use crate::token::TokenKind;
use crate::token::number_value_display;

verus! {

/// A literal value in the source: a number (as double bits), a string,
/// a boolean, or nil.
#[derive(Debug, Clone)]
pub enum Literal {
    Number(u64),
    String(String),
    Boolean(bool),
    Nil,
}

/// The mathematical image of a literal.
pub enum LiteralSpec {
    Number(u64),
    String(Seq<char>),
    Boolean(bool),
    Nil,
}

impl DeepView for Literal {
    type V = LiteralSpec;

    open spec fn deep_view(&self) -> LiteralSpec {
        match self {
            Literal::Number(bits) => LiteralSpec::Number(*bits),
            Literal::String(s) => LiteralSpec::String(s@),
            Literal::Boolean(b) => LiteralSpec::Boolean(*b),
            Literal::Nil => LiteralSpec::Nil,
        }
    }
}

/// An expression node.  `resolved` fields are `None` after parsing; the
/// resolver fills them with the number of scopes between the use and its
/// binding, `None` meaning the global scope.
#[derive(Debug)]
pub enum Expression {
    Assign { name: String, value: Box<Expression>, resolved: Option<usize> },
    Binary { left: Box<Expression>, operator: TokenKind, right: Box<Expression> },
    Literal(Literal),
    Unary { operator: TokenKind, expression: Box<Expression> },
    Group(Box<Expression>),
    Variable { name: String, resolved: Option<usize> },
    Logical { left: Box<Expression>, operator: TokenKind, right: Box<Expression> },
    Call { callee: Box<Expression>, args: Vec<Expression> },
    SetProp { object: Box<Expression>, property: String, value: Box<Expression> },
    Get { object: Box<Expression>, name: String },
    This { resolved: Option<usize> },
    Super { method: String, resolved: Option<usize> },
}

/// The mathematical image of an expression.
pub enum ExprSpec {
    Assign { name: Seq<char>, value: Box<ExprSpec>, resolved: Option<usize> },
    Binary { left: Box<ExprSpec>, operator: TokenKind, right: Box<ExprSpec> },
    Literal(LiteralSpec),
    Unary { operator: TokenKind, expression: Box<ExprSpec> },
    Group(Box<ExprSpec>),
    Variable { name: Seq<char>, resolved: Option<usize> },
    Logical { left: Box<ExprSpec>, operator: TokenKind, right: Box<ExprSpec> },
    Call { callee: Box<ExprSpec>, args: Seq<ExprSpec> },
    SetProp { object: Box<ExprSpec>, property: Seq<char>, value: Box<ExprSpec> },
    Get { object: Box<ExprSpec>, name: Seq<char> },
    This { resolved: Option<usize> },
    Super { method: Seq<char>, resolved: Option<usize> },
}

/// The mathematical image of an expression.
pub open spec fn expr_view(e: Expression) -> ExprSpec
    decreases e, 0int,
{
    match e {
        Expression::Assign { name, value, resolved } => ExprSpec::Assign {
            name: name@,
            value: Box::new(expr_view(*value)),
            resolved,
        },
        Expression::Binary { left, operator, right } => ExprSpec::Binary {
            left: Box::new(expr_view(*left)),
            operator,
            right: Box::new(expr_view(*right)),
        },
        Expression::Literal(l) => ExprSpec::Literal(l.deep_view()),
        Expression::Unary { operator, expression } => ExprSpec::Unary {
            operator,
            expression: Box::new(expr_view(*expression)),
        },
        Expression::Group(inner) => ExprSpec::Group(Box::new(expr_view(*inner))),
        Expression::Variable { name, resolved } => ExprSpec::Variable { name: name@, resolved },
        Expression::Logical { left, operator, right } => ExprSpec::Logical {
            left: Box::new(expr_view(*left)),
            operator,
            right: Box::new(expr_view(*right)),
        },
        Expression::Call { callee, args } => ExprSpec::Call {
            callee: Box::new(expr_view(*callee)),
            args: exprs_view_from(args@, 0),
        },
        Expression::SetProp { object, property, value } => ExprSpec::SetProp {
            object: Box::new(expr_view(*object)),
            property: property@,
            value: Box::new(expr_view(*value)),
        },
        Expression::Get { object, name } => ExprSpec::Get {
            object: Box::new(expr_view(*object)),
            name: name@,
        },
        Expression::This { resolved } => ExprSpec::This { resolved },
        Expression::Super { method, resolved } => ExprSpec::Super { method: method@, resolved },
    }
}

/// The images of the expressions from index `i` on.
pub open spec fn exprs_view_from(s: Seq<Expression>, i: int) -> Seq<ExprSpec>
    decreases s, s.len() - i,
{
    if i < 0 || i >= s.len() {
        seq![]
    } else {
        seq![expr_view(s[i])] + exprs_view_from(s, i + 1)
    }
}

impl DeepView for Expression {
    type V = ExprSpec;

    open spec fn deep_view(&self) -> ExprSpec {
        expr_view(*self)
    }
}

/// How `exprs_view_from` relates to the elements it images.
pub proof fn lemma_exprs_view_from(s: Seq<Expression>, i: int)
    requires
        0 <= i <= s.len(),
    ensures
        exprs_view_from(s, i).len() == s.len() - i,
        forall|j: int|
            0 <= j < s.len() - i ==> exprs_view_from(s, i)[j] == expr_view(s[i + j]),
    decreases s.len() - i,
{
    if i < s.len() {
        lemma_exprs_view_from(s, i + 1);
    }
}

/// A statement node.
#[derive(Debug)]
pub enum Statement {
    Expr(Expression),
    Block(Vec<Statement>),
    Class { name: String, superclass: Option<String>, methods: Vec<Statement> },
    Print(Expression),
    Var { name: String, initializer: Option<Expression> },
    If { condition: Expression, then_branch: Box<Statement>, else_branch: Option<Box<Statement>> },
    While { condition: Box<Expression>, body: Box<Statement> },
    For {
        initialize: Option<Box<Statement>>,
        condition: Option<Expression>,
        increment: Option<Expression>,
        body: Box<Statement>,
    },
    Function { name: String, params: Vec<String>, body: Vec<Statement> },
    Return { value: Option<Expression> },
}

/// The mathematical image of a statement.
pub enum StmtSpec {
    Expr(ExprSpec),
    Block(Seq<StmtSpec>),
    Class { name: Seq<char>, superclass: Option<Seq<char>>, methods: Seq<StmtSpec> },
    Print(ExprSpec),
    Var { name: Seq<char>, initializer: Option<ExprSpec> },
    If { condition: ExprSpec, then_branch: Box<StmtSpec>, else_branch: Option<Box<StmtSpec>> },
    While { condition: Box<ExprSpec>, body: Box<StmtSpec> },
    For {
        initialize: Option<Box<StmtSpec>>,
        condition: Option<ExprSpec>,
        increment: Option<ExprSpec>,
        body: Box<StmtSpec>,
    },
    Function { name: Seq<char>, params: Seq<Seq<char>>, body: Seq<StmtSpec> },
    Return { value: Option<ExprSpec> },
}

/// The mathematical image of a statement.
pub open spec fn stmt_view(st: Statement) -> StmtSpec
    decreases st, 0int,
{
    match st {
        Statement::Expr(e) => StmtSpec::Expr(expr_view(e)),
        Statement::Block(list) => StmtSpec::Block(stmts_view_from(list@, 0)),
        Statement::Class { name, superclass, methods } => StmtSpec::Class {
            name: name@,
            superclass: match superclass {
                Some(s) => Some(s@),
                None => None,
            },
            methods: stmts_view_from(methods@, 0),
        },
        Statement::Print(e) => StmtSpec::Print(expr_view(e)),
        Statement::Var { name, initializer } => StmtSpec::Var {
            name: name@,
            initializer: match initializer {
                Some(e) => Some(expr_view(e)),
                None => None,
            },
        },
        Statement::If { condition, then_branch, else_branch } => StmtSpec::If {
            condition: expr_view(condition),
            then_branch: Box::new(stmt_view(*then_branch)),
            else_branch: match else_branch {
                Some(s) => Some(Box::new(stmt_view(*s))),
                None => None,
            },
        },
        Statement::While { condition, body } => StmtSpec::While {
            condition: Box::new(expr_view(*condition)),
            body: Box::new(stmt_view(*body)),
        },
        Statement::For { initialize, condition, increment, body } => StmtSpec::For {
            initialize: match initialize {
                Some(s) => Some(Box::new(stmt_view(*s))),
                None => None,
            },
            condition: match condition {
                Some(e) => Some(expr_view(e)),
                None => None,
            },
            increment: match increment {
                Some(e) => Some(expr_view(e)),
                None => None,
            },
            body: Box::new(stmt_view(*body)),
        },
        Statement::Function { name, params, body } => StmtSpec::Function {
            name: name@,
            params: params.deep_view(),
            body: stmts_view_from(body@, 0),
        },
        Statement::Return { value } => StmtSpec::Return {
            value: match value {
                Some(e) => Some(expr_view(e)),
                None => None,
            },
        },
    }
}

/// The images of the statements from index `i` on.
pub open spec fn stmts_view_from(s: Seq<Statement>, i: int) -> Seq<StmtSpec>
    decreases s, s.len() - i,
{
    if i < 0 || i >= s.len() {
        seq![]
    } else {
        seq![stmt_view(s[i])] + stmts_view_from(s, i + 1)
    }
}

impl DeepView for Statement {
    type V = StmtSpec;

    open spec fn deep_view(&self) -> StmtSpec {
        stmt_view(*self)
    }
}

/// The images of a whole statement list.
pub open spec fn stmts_view(s: Seq<Statement>) -> Seq<StmtSpec> {
    stmts_view_from(s, 0)
}

/// How `stmts_view_from` relates to the elements it images.
pub proof fn lemma_stmts_view_from(s: Seq<Statement>, i: int)
    requires
        0 <= i <= s.len(),
    ensures
        stmts_view_from(s, i).len() == s.len() - i,
        forall|j: int|
            0 <= j < s.len() - i ==> stmts_view_from(s, i)[j] == stmt_view(s[i + j]),
    decreases s.len() - i,
{
    if i < s.len() {
        lemma_stmts_view_from(s, i + 1);
    }
}

/// The source spelling of an operator token, as the pretty-printer shows it.
pub open spec fn op_str(op: TokenKind) -> Seq<char> {
    match op {
        TokenKind::Plus => "+"@,
        TokenKind::Minus => "-"@,
        TokenKind::Star => "*"@,
        TokenKind::Slash => "/"@,
        TokenKind::BangEqual => "!="@,
        TokenKind::EqualEqual => "=="@,
        TokenKind::Greater => ">"@,
        TokenKind::GreaterEqual => ">="@,
        TokenKind::Less => "<"@,
        TokenKind::LessEqual => "<="@,
        TokenKind::Bang => "!"@,
        TokenKind::And => "and"@,
        TokenKind::Or => "or"@,
        _ => ""@,
    }
}

/// How a literal prints: numbers in decimal with one fractional digit forced
/// when integral, strings as their content, booleans and nil as their names.
pub open spec fn literal_display(l: LiteralSpec) -> Seq<char> {
    match l {
        LiteralSpec::Number(bits) => number_value_display(bits),
        LiteralSpec::String(s) => s,
        LiteralSpec::Boolean(b) => if b {
            "true"@
        } else {
            "false"@
        },
        LiteralSpec::Nil => "nil"@,
    }
}

/// The canonical parenthesized form of an expression: `(op operand)` for
/// unary, `(op left right)` for binary and logical, `(group inner)` for
/// grouping, literals by value, and source-like forms for the rest.
pub open spec fn expr_display(e: ExprSpec) -> Seq<char>
    decreases e, 0int,
{
    match e {
        ExprSpec::Literal(l) => literal_display(l),
        ExprSpec::Group(inner) => "(group "@ + expr_display(*inner) + ")"@,
        ExprSpec::Binary { left, operator, right } => "("@ + op_str(operator) + " "@
            + expr_display(*left) + " "@ + expr_display(*right) + ")"@,
        ExprSpec::Unary { operator, expression } => "("@ + op_str(operator) + " "@
            + expr_display(*expression) + ")"@,
        ExprSpec::Variable { name, resolved } => name,
        ExprSpec::Assign { name, value, resolved } => name + "="@ + expr_display(*value),
        ExprSpec::Logical { left, operator, right } => "("@ + op_str(operator) + " "@
            + expr_display(*left) + " "@ + expr_display(*right) + ")"@,
        ExprSpec::Call { callee, args } => expr_display(*callee) + "("@ + args_display(args, 0)
            + ")"@,
        ExprSpec::SetProp { object, property, value } => expr_display(*object) + "."@ + property
            + "="@ + expr_display(*value),
        ExprSpec::Get { object, name } => expr_display(*object) + "."@ + name,
        ExprSpec::This { resolved } => "this"@,
        ExprSpec::Super { method, resolved } => "super."@ + method,
    }
}

/// The comma-separated rendering of the arguments from index `i` on.
pub open spec fn args_display(args: Seq<ExprSpec>, i: int) -> Seq<char>
    decreases args, args.len() - i,
{
    if i < 0 || i >= args.len() {
        Seq::empty()
    } else if i == args.len() - 1 {
        expr_display(args[i])
    } else {
        expr_display(args[i]) + ", "@ + args_display(args, i + 1)
    }
}

impl Literal {
    /// Renders the literal exactly as `literal_display` describes it.
    pub fn display_string(&self) -> (r: String)
        ensures
            r@ == literal_display(self.deep_view()),
    {
        match self {
            Literal::Number(bits) => {
                let mut s = display_number(*bits);
                if number_is_int(*bits) {
                    s.append(".0");
                }
                s
            },
            Literal::String(text) => {
                let mut s = String::new();
                s.append(text.as_str());
                s
            },
            Literal::Boolean(b) => {
                if *b {
                    String::from_str("true")
                } else {
                    String::from_str("false")
                }
            },
            Literal::Nil => String::from_str("nil"),
        }
    }
}

/// Renders the spelling of an operator token.
fn op_string(op: TokenKind) -> (r: String)
    ensures
        r@ == op_str(op),
{
    match op {
        TokenKind::Plus => String::from_str("+"),
        TokenKind::Minus => String::from_str("-"),
        TokenKind::Star => String::from_str("*"),
        TokenKind::Slash => String::from_str("/"),
        TokenKind::BangEqual => String::from_str("!="),
        TokenKind::EqualEqual => String::from_str("=="),
        TokenKind::Greater => String::from_str(">"),
        TokenKind::GreaterEqual => String::from_str(">="),
        TokenKind::Less => String::from_str("<"),
        TokenKind::LessEqual => String::from_str("<="),
        TokenKind::Bang => String::from_str("!"),
        TokenKind::And => String::from_str("and"),
        TokenKind::Or => String::from_str("or"),
        _ => String::from_str(""),
    }
}

impl Expression {
    /// Renders the expression exactly as `expr_display` describes it.
    pub fn display_string(&self) -> (r: String)
        ensures
            r@ == expr_display(self.deep_view()),
        decreases self, 0int,
    {
        match self {
            Expression::Literal(l) => l.display_string(),
            Expression::Group(inner) => {
                let mut s = String::from_str("(group ");
                let shown = inner.display_string();
                s.append(shown.as_str());
                s.append(")");
                s
            },
            Expression::Binary { left, operator, right } => {
                let mut s = String::from_str("(");
                let op = op_string(*operator);
                s.append(op.as_str());
                s.append(" ");
                let l = left.display_string();
                s.append(l.as_str());
                s.append(" ");
                let r = right.display_string();
                s.append(r.as_str());
                s.append(")");
                s
            },
            Expression::Unary { operator, expression } => {
                let mut s = String::from_str("(");
                let op = op_string(*operator);
                s.append(op.as_str());
                s.append(" ");
                let inner = expression.display_string();
                s.append(inner.as_str());
                s.append(")");
                s
            },
            Expression::Variable { name, resolved } => {
                let mut s = String::new();
                s.append(name.as_str());
                s
            },
            Expression::Assign { name, value, resolved } => {
                let mut s = String::new();
                s.append(name.as_str());
                s.append("=");
                let v = value.display_string();
                s.append(v.as_str());
                s
            },
            Expression::Logical { left, operator, right } => {
                let mut s = String::from_str("(");
                let op = op_string(*operator);
                s.append(op.as_str());
                s.append(" ");
                let l = left.display_string();
                s.append(l.as_str());
                s.append(" ");
                let r = right.display_string();
                s.append(r.as_str());
                s.append(")");
                s
            },
            Expression::Call { callee, args } => {
                let mut s = callee.display_string();
                s.append("(");
                let shown = display_args(args, 0);
                s.append(shown.as_str());
                s.append(")");
                s
            },
            Expression::SetProp { object, property, value } => {
                let mut s = object.display_string();
                s.append(".");
                s.append(property.as_str());
                s.append("=");
                let v = value.display_string();
                s.append(v.as_str());
                s
            },
            Expression::Get { object, name } => {
                let mut s = object.display_string();
                s.append(".");
                s.append(name.as_str());
                s
            },
            Expression::This { resolved } => String::from_str("this"),
            Expression::Super { method, resolved } => {
                let mut s = String::from_str("super.");
                s.append(method.as_str());
                s
            },
        }
    }
}

/// Renders the arguments from index `i` on, separated by commas.
fn display_args(args: &Vec<Expression>, i: usize) -> (r: String)
    requires
        i <= args@.len(),
    ensures
        r@ == args_display(exprs_view_from(args@, 0), i as int),
    decreases args, args@.len() - i,
{
    proof {
        lemma_exprs_view_from(args@, 0);
    }
    if i >= args.len() {
        String::new()
    } else if i == args.len() - 1 {
        let s = args[i].display_string();
        s
    } else {
        let mut s = args[i].display_string();
        s.append(", ");
        let rest = display_args(args, i + 1);
        s.append(rest.as_str());
        s
    }
}

/// A copy of a literal, denoting the same value.
pub fn clone_literal(l: &Literal) -> (r: Literal)
    ensures
        r.deep_view() == l.deep_view(),
{
    match l {
        Literal::Number(bits) => Literal::Number(*bits),
        Literal::String(s) => Literal::String(s.clone()),
        Literal::Boolean(b) => Literal::Boolean(*b),
        Literal::Nil => Literal::Nil,
    }
}

/// A copy of an expression tree, with the same image.
pub fn clone_expression(e: &Expression) -> (r: Expression)
    ensures
        r.deep_view() == e.deep_view(),
    decreases e, 0int,
{
    match e {
        Expression::Assign { name, value, resolved } => Expression::Assign {
            name: name.clone(),
            value: Box::new(clone_expression(value)),
            resolved: *resolved,
        },
        Expression::Binary { left, operator, right } => Expression::Binary {
            left: Box::new(clone_expression(left)),
            operator: *operator,
            right: Box::new(clone_expression(right)),
        },
        Expression::Literal(l) => Expression::Literal(clone_literal(l)),
        Expression::Unary { operator, expression } => Expression::Unary {
            operator: *operator,
            expression: Box::new(clone_expression(expression)),
        },
        Expression::Group(inner) => Expression::Group(Box::new(clone_expression(inner))),
        Expression::Variable { name, resolved } => Expression::Variable {
            name: name.clone(),
            resolved: *resolved,
        },
        Expression::Logical { left, operator, right } => Expression::Logical {
            left: Box::new(clone_expression(left)),
            operator: *operator,
            right: Box::new(clone_expression(right)),
        },
        Expression::Call { callee, args } => {
            let c = Expression::Call {
                callee: Box::new(clone_expression(callee)),
                args: clone_expressions(args),
            };
            proof {
                lemma_exprs_view_from(args@, 0);
                match (c.deep_view(), e.deep_view()) {
                    (ExprSpec::Call { callee: c1, args: a1 }, ExprSpec::Call {
                        callee: c2,
                        args: a2,
                    }) => {
                        assert(a1 =~= a2);
                    },
                    _ => {},
                }
            }
            c
        },
        Expression::SetProp { object, property, value } => Expression::SetProp {
            object: Box::new(clone_expression(object)),
            property: property.clone(),
            value: Box::new(clone_expression(value)),
        },
        Expression::Get { object, name } => Expression::Get {
            object: Box::new(clone_expression(object)),
            name: name.clone(),
        },
        Expression::This { resolved } => Expression::This { resolved: *resolved },
        Expression::Super { method, resolved } => Expression::Super {
            method: method.clone(),
            resolved: *resolved,
        },
    }
}

/// A copy of an expression list, with the same images.
pub fn clone_expressions(es: &Vec<Expression>) -> (r: Vec<Expression>)
    ensures
        exprs_view_from(r@, 0) == exprs_view_from(es@, 0),
        r@.len() == es@.len(),
    decreases es, es@.len() + 1, 1int,
{
    let mut out: Vec<Expression> = Vec::new();
    let mut i: usize = 0;
    proof {
        lemma_exprs_view_from(es@, 0);
    }
    while i < es.len()
        invariant
            i <= es@.len(),
            out@.len() == i,
            forall|j: int| 0 <= j < i ==> expr_view(#[trigger] out@[j]) == expr_view(es@[j]),
        decreases es@.len() - i,
    {
        out.push(clone_expression(&es[i]));
        i = i + 1;
    }
    proof {
        lemma_exprs_view_from(out@, 0);
        lemma_exprs_view_from(es@, 0);
        assert(exprs_view_from(out@, 0) =~= exprs_view_from(es@, 0));
    }
    out
}

/// A copy of a name list.
pub fn clone_names(ns: &Vec<String>) -> (r: Vec<String>)
    ensures
        r.deep_view() == ns.deep_view(),
{
    let mut out: Vec<String> = Vec::new();
    let mut i: usize = 0;
    while i < ns.len()
        invariant
            i <= ns@.len(),
            out@.len() == i,
            forall|j: int| 0 <= j < i ==> out.deep_view()[j] == ns.deep_view()[j],
        decreases ns@.len() - i,
    {
        out.push(ns[i].clone());
        i = i + 1;
    }
    proof {
        assert(out.deep_view() =~= ns.deep_view());
    }
    out
}

/// A copy of a statement tree, with the same image.
pub fn clone_statement(st: &Statement) -> (r: Statement)
    ensures
        r.deep_view() == st.deep_view(),
    decreases st, 0int, 0int,
{
    match st {
        Statement::Expr(e) => Statement::Expr(clone_expression(e)),
        Statement::Print(e) => Statement::Print(clone_expression(e)),
        Statement::Block(list) => {
            let c = Statement::Block(clone_statements(list));
            proof {
                match (c.deep_view(), st.deep_view()) {
                    (StmtSpec::Block(a1), StmtSpec::Block(a2)) => {
                        assert(a1 =~= a2);
                    },
                    _ => {},
                }
            }
            c
        },
        Statement::Class { name, superclass, methods } => {
            let sup: Option<String> = match superclass {
                Some(s) => Some(s.clone()),
                None => None,
            };
            let c = Statement::Class {
                name: name.clone(),
                superclass: sup,
                methods: clone_statements(methods),
            };
            proof {
                match (c.deep_view(), st.deep_view()) {
                    (StmtSpec::Class { methods: a1, .. }, StmtSpec::Class { methods: a2, .. }) => {
                        assert(a1 =~= a2);
                    },
                    _ => {},
                }
            }
            c
        },
        Statement::Var { name, initializer } => Statement::Var {
            name: name.clone(),
            initializer: match initializer {
                Some(e) => Some(clone_expression(e)),
                None => None,
            },
        },
        Statement::If { condition, then_branch, else_branch } => Statement::If {
            condition: clone_expression(condition),
            then_branch: Box::new(clone_statement(then_branch)),
            else_branch: match else_branch {
                Some(s) => Some(Box::new(clone_statement(s))),
                None => None,
            },
        },
        Statement::While { condition, body } => Statement::While {
            condition: Box::new(clone_expression(condition)),
            body: Box::new(clone_statement(body)),
        },
        Statement::For { initialize, condition, increment, body } => Statement::For {
            initialize: match initialize {
                Some(s) => Some(Box::new(clone_statement(s))),
                None => None,
            },
            condition: match condition {
                Some(e) => Some(clone_expression(e)),
                None => None,
            },
            increment: match increment {
                Some(e) => Some(clone_expression(e)),
                None => None,
            },
            body: Box::new(clone_statement(body)),
        },
        Statement::Function { name, params, body } => {
            let c = Statement::Function {
                name: name.clone(),
                params: clone_names(params),
                body: clone_statements(body),
            };
            proof {
                match (c.deep_view(), st.deep_view()) {
                    (StmtSpec::Function { params: p1, body: b1, .. }, StmtSpec::Function {
                        params: p2,
                        body: b2,
                        ..
                    }) => {
                        assert(b1 =~= b2);
                    },
                    _ => {},
                }
            }
            c
        },
        Statement::Return { value } => Statement::Return {
            value: match value {
                Some(e) => Some(clone_expression(e)),
                None => None,
            },
        },
    }
}

/// A copy of a statement list, with the same images.
pub fn clone_statements(sts: &Vec<Statement>) -> (r: Vec<Statement>)
    ensures
        stmts_view_from(r@, 0) == stmts_view_from(sts@, 0),
        r@.len() == sts@.len(),
    decreases sts, sts@.len() + 1, 1int,
{
    let mut out: Vec<Statement> = Vec::new();
    let mut i: usize = 0;
    proof {
        lemma_stmts_view_from(sts@, 0);
    }
    while i < sts.len()
        invariant
            i <= sts@.len(),
            out@.len() == i,
            forall|j: int| 0 <= j < i ==> stmt_view(#[trigger] out@[j]) == stmt_view(sts@[j]),
        decreases sts@.len() - i,
    {
        out.push(clone_statement(&sts[i]));
        i = i + 1;
    }
    proof {
        lemma_stmts_view_from(out@, 0);
        lemma_stmts_view_from(sts@, 0);
        assert(stmts_view_from(out@, 0) =~= stmts_view_from(sts@, 0));
    }
    out
}

} // verus!
