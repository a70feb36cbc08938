//! Syntax trees of Trygve Bjerkreim programs, and their mathematical values.
use vstd::prelude::*;

verus! {

#[derive(Clone, Copy, Debug, PartialEq, Eq, Structural)]
pub enum BinOpKind {
    Add,
    Sub,
    Mul,
    Div,
    Mod,
    Eq,
    Ne,
    Lt,
    Gt,
}

/// Expressions. A decimal literal keeps its digits and dot as written.
pub enum Expr {
    Int(i64),
    Float(String),
    Str(String),
    Bool(bool),
    Null,
    Var(String),
    List(Vec<Expr>),
    Index { obj: Box<Expr>, idx: Box<Expr> },
    BinOp { op: BinOpKind, left: Box<Expr>, right: Box<Expr> },
    Not(Box<Expr>),
    Call { name: String, args: Vec<Expr> },
    New { class: String },
    Field { obj: Box<Expr>, field: String },
    MethodCall { obj: Box<Expr>, method: String, args: Vec<Expr> },
}

pub enum Stmt {
    Assign { name: String, value: Expr, line: usize },
    Reassign { name: String, value: Expr, line: usize },
    Print { value: Expr, line: usize },
    Input { name: String, line: usize },
    If { cond: Expr, then_body: Vec<Stmt>, else_body: Option<Vec<Stmt>>, line: usize },
    While { cond: Expr, body: Vec<Stmt>, line: usize },
    ForEach { var: String, iterable: Expr, body: Vec<Stmt>, line: usize },
    InfLoop { body: Vec<Stmt>, line: usize },
    CountLoop { count: Expr, var: String, body: Vec<Stmt>, line: usize },
    FuncDef { name: String, params: Vec<String>, body: Vec<Stmt>, line: usize },
    FuncCall { name: String, args: Vec<Expr>, line: usize },
    Return { value: Expr, line: usize },
    TryCatch { try_body: Vec<Stmt>, catch_body: Vec<Stmt>, line: usize },
    Break { line: usize },
    Continue { line: usize },
    Serve { port: Expr, body: Vec<Stmt>, line: usize },
    Respond { value: Expr, line: usize },
    Raise { value: Expr, line: usize },
    Assert { cond: Expr, line: usize },
    Sleep { secs: Expr, line: usize },
    ClassDef { name: String, body: Vec<Stmt>, line: usize },
    FieldAssign { obj: String, field: String, value: Expr, line: usize },
    MethodCall { obj: String, method: String, args: Vec<Expr>, line: usize },
    ReadFile { path: Expr, name: String, line: usize },
    WriteFile { path: Expr, content: Expr, line: usize },
}

pub type Program = Vec<Stmt>;

pub enum ExprV {
    Int(i64),
    Float(Seq<char>),
    Str(Seq<char>),
    Bool(bool),
    Null,
    Var(Seq<char>),
    List(Seq<ExprV>),
    Index { obj: Box<ExprV>, idx: Box<ExprV> },
    BinOp { op: BinOpKind, left: Box<ExprV>, right: Box<ExprV> },
    Not(Box<ExprV>),
    Call { name: Seq<char>, args: Seq<ExprV> },
    New { class: Seq<char> },
    Field { obj: Box<ExprV>, field: Seq<char> },
    MethodCall { obj: Box<ExprV>, method: Seq<char>, args: Seq<ExprV> },
}

pub enum StmtV {
    Assign { name: Seq<char>, value: ExprV, line: nat },
    Reassign { name: Seq<char>, value: ExprV, line: nat },
    Print { value: ExprV, line: nat },
    Input { name: Seq<char>, line: nat },
    If { cond: ExprV, then_body: Seq<StmtV>, else_body: Option<Seq<StmtV>>, line: nat },
    While { cond: ExprV, body: Seq<StmtV>, line: nat },
    ForEach { var: Seq<char>, iterable: ExprV, body: Seq<StmtV>, line: nat },
    InfLoop { body: Seq<StmtV>, line: nat },
    CountLoop { count: ExprV, var: Seq<char>, body: Seq<StmtV>, line: nat },
    FuncDef { name: Seq<char>, params: Seq<Seq<char>>, body: Seq<StmtV>, line: nat },
    FuncCall { name: Seq<char>, args: Seq<ExprV>, line: nat },
    Return { value: ExprV, line: nat },
    TryCatch { try_body: Seq<StmtV>, catch_body: Seq<StmtV>, line: nat },
    Break { line: nat },
    Continue { line: nat },
    Serve { port: ExprV, body: Seq<StmtV>, line: nat },
    Respond { value: ExprV, line: nat },
    Raise { value: ExprV, line: nat },
    Assert { cond: ExprV, line: nat },
    Sleep { secs: ExprV, line: nat },
    ClassDef { name: Seq<char>, body: Seq<StmtV>, line: nat },
    FieldAssign { obj: Seq<char>, field: Seq<char>, value: ExprV, line: nat },
    MethodCall { obj: Seq<char>, method: Seq<char>, args: Seq<ExprV>, line: nat },
    ReadFile { path: ExprV, name: Seq<char>, line: nat },
    WriteFile { path: ExprV, content: ExprV, line: nat },
}

pub open spec fn exprs_v(xs: Vec<Expr>) -> Seq<ExprV>
    decreases xs, 0nat,
{
    Seq::new(
        xs@.len(),
        |i: int|
            if 0 <= i < xs@.len() {
                expr_v(xs@[i])
            } else {
                ExprV::Null
            },
    )
}

pub open spec fn expr_v(e: Expr) -> ExprV
    decreases e, 1nat,
{
    match e {
        Expr::Int(n) => ExprV::Int(n),
        Expr::Float(s) => ExprV::Float(s@),
        Expr::Str(s) => ExprV::Str(s@),
        Expr::Bool(b) => ExprV::Bool(b),
        Expr::Null => ExprV::Null,
        Expr::Var(s) => ExprV::Var(s@),
        Expr::List(xs) => ExprV::List(exprs_v(xs)),
        Expr::Index { obj, idx } => ExprV::Index {
            obj: Box::new(expr_v(*obj)),
            idx: Box::new(expr_v(*idx)),
        },
        Expr::BinOp { op, left, right } => ExprV::BinOp {
            op,
            left: Box::new(expr_v(*left)),
            right: Box::new(expr_v(*right)),
        },
        Expr::Not(x) => ExprV::Not(Box::new(expr_v(*x))),
        Expr::Call { name, args } => ExprV::Call { name: name@, args: exprs_v(args) },
        Expr::New { class } => ExprV::New { class: class@ },
        Expr::Field { obj, field } => ExprV::Field { obj: Box::new(expr_v(*obj)), field: field@ },
        Expr::MethodCall { obj, method, args } => ExprV::MethodCall {
            obj: Box::new(expr_v(*obj)),
            method: method@,
            args: exprs_v(args),
        },
    }
}

pub open spec fn names_v(xs: Vec<String>) -> Seq<Seq<char>> {
    Seq::new(xs@.len(), |i: int| xs@[i]@)
}

pub open spec fn stmts_v(xs: Vec<Stmt>) -> Seq<StmtV>
    decreases xs, 0nat,
{
    Seq::new(
        xs@.len(),
        |i: int|
            if 0 <= i < xs@.len() {
                stmt_v(xs@[i])
            } else {
                StmtV::Break { line: 0 }
            },
    )
}

pub open spec fn opt_stmts_v(xs: Option<Vec<Stmt>>) -> Option<Seq<StmtV>>
    decreases xs, 1nat,
{
    match xs {
        Some(v) => Some(stmts_v(v)),
        None => None,
    }
}

pub open spec fn stmt_v(s: Stmt) -> StmtV
    decreases s, 2nat,
{
    match s {
        Stmt::Assign { name, value, line } => StmtV::Assign {
            name: name@,
            value: expr_v(value),
            line: line as nat,
        },
        Stmt::Reassign { name, value, line } => StmtV::Reassign {
            name: name@,
            value: expr_v(value),
            line: line as nat,
        },
        Stmt::Print { value, line } => StmtV::Print { value: expr_v(value), line: line as nat },
        Stmt::Input { name, line } => StmtV::Input { name: name@, line: line as nat },
        Stmt::If { cond, then_body, else_body, line } => StmtV::If {
            cond: expr_v(cond),
            then_body: stmts_v(then_body),
            else_body: opt_stmts_v(else_body),
            line: line as nat,
        },
        Stmt::While { cond, body, line } => StmtV::While {
            cond: expr_v(cond),
            body: stmts_v(body),
            line: line as nat,
        },
        Stmt::ForEach { var, iterable, body, line } => StmtV::ForEach {
            var: var@,
            iterable: expr_v(iterable),
            body: stmts_v(body),
            line: line as nat,
        },
        Stmt::InfLoop { body, line } => StmtV::InfLoop { body: stmts_v(body), line: line as nat },
        Stmt::CountLoop { count, var, body, line } => StmtV::CountLoop {
            count: expr_v(count),
            var: var@,
            body: stmts_v(body),
            line: line as nat,
        },
        Stmt::FuncDef { name, params, body, line } => StmtV::FuncDef {
            name: name@,
            params: names_v(params),
            body: stmts_v(body),
            line: line as nat,
        },
        Stmt::FuncCall { name, args, line } => StmtV::FuncCall {
            name: name@,
            args: exprs_v(args),
            line: line as nat,
        },
        Stmt::Return { value, line } => StmtV::Return { value: expr_v(value), line: line as nat },
        Stmt::TryCatch { try_body, catch_body, line } => StmtV::TryCatch {
            try_body: stmts_v(try_body),
            catch_body: stmts_v(catch_body),
            line: line as nat,
        },
        Stmt::Break { line } => StmtV::Break { line: line as nat },
        Stmt::Continue { line } => StmtV::Continue { line: line as nat },
        Stmt::Serve { port, body, line } => StmtV::Serve {
            port: expr_v(port),
            body: stmts_v(body),
            line: line as nat,
        },
        Stmt::Respond { value, line } => StmtV::Respond { value: expr_v(value), line: line as nat },
        Stmt::Raise { value, line } => StmtV::Raise { value: expr_v(value), line: line as nat },
        Stmt::Assert { cond, line } => StmtV::Assert { cond: expr_v(cond), line: line as nat },
        Stmt::Sleep { secs, line } => StmtV::Sleep { secs: expr_v(secs), line: line as nat },
        Stmt::ClassDef { name, body, line } => StmtV::ClassDef {
            name: name@,
            body: stmts_v(body),
            line: line as nat,
        },
        Stmt::FieldAssign { obj, field, value, line } => StmtV::FieldAssign {
            obj: obj@,
            field: field@,
            value: expr_v(value),
            line: line as nat,
        },
        Stmt::MethodCall { obj, method, args, line } => StmtV::MethodCall {
            obj: obj@,
            method: method@,
            args: exprs_v(args),
            line: line as nat,
        },
        Stmt::ReadFile { path, name, line } => StmtV::ReadFile {
            path: expr_v(path),
            name: name@,
            line: line as nat,
        },
        Stmt::WriteFile { path, content, line } => StmtV::WriteFile {
            path: expr_v(path),
            content: expr_v(content),
            line: line as nat,
        },
    }
}

impl View for Expr {
    type V = ExprV;

    open spec fn view(&self) -> ExprV {
        expr_v(*self)
    }
}

impl View for Stmt {
    type V = StmtV;

    open spec fn view(&self) -> StmtV {
        stmt_v(*self)
    }
}

pub proof fn lemma_exprs_push(v: Vec<Expr>, w: Vec<Expr>, e: Expr)
    requires
        w@ == v@.push(e),
    ensures
        exprs_v(w) == exprs_v(v).push(expr_v(e)),
{
    assert(exprs_v(w) =~= exprs_v(v).push(expr_v(e)));
}

pub proof fn lemma_stmts_push(v: Vec<Stmt>, w: Vec<Stmt>, s: Stmt)
    requires
        w@ == v@.push(s),
    ensures
        stmts_v(w) == stmts_v(v).push(stmt_v(s)),
{
    assert(stmts_v(w) =~= stmts_v(v).push(stmt_v(s)));
}

pub proof fn lemma_names_push(v: Vec<String>, w: Vec<String>, s: String)
    requires
        w@ == v@.push(s),
    ensures
        names_v(w) == names_v(v).push(s@),
{
    assert(names_v(w) =~= names_v(v).push(s@));
}

pub proof fn lemma_exprs_empty(v: Vec<Expr>)
    requires
        v@.len() == 0,
    ensures
        exprs_v(v) == Seq::<ExprV>::empty(),
{
    assert(exprs_v(v) =~= Seq::<ExprV>::empty());
}

pub proof fn lemma_stmts_empty(v: Vec<Stmt>)
    requires
        v@.len() == 0,
    ensures
        stmts_v(v) == Seq::<StmtV>::empty(),
{
    assert(stmts_v(v) =~= Seq::<StmtV>::empty());
}

pub proof fn lemma_names_empty(v: Vec<String>)
    requires
        v@.len() == 0,
    ensures
        names_v(v) == Seq::<Seq<char>>::empty(),
{
    assert(names_v(v) =~= Seq::<Seq<char>>::empty());
}

// ── copies ──

pub fn clone_names(xs: &Vec<String>) -> (r: Vec<String>)
    ensures
        names_v(r) == names_v(*xs),
{
    let mut out: Vec<String> = Vec::new();
    let mut i: usize = 0;
    while i < xs.len()
        invariant
            i <= xs.len(),
            out@.len() == i,
            forall|j: int| 0 <= j < i ==> (#[trigger] out@[j])@ == xs@[j]@,
        decreases xs.len() - i,
    {
        out.push(xs[i].clone());
        i += 1;
    }
    assert(names_v(out) =~= names_v(*xs));
    out
}

pub fn clone_expr(e: &Expr) -> (r: Expr)
    ensures
        r@ == e@,
    decreases e,
{
    match e {
        Expr::Int(n) => Expr::Int(*n),
        Expr::Float(s) => Expr::Float(s.clone()),
        Expr::Str(s) => Expr::Str(s.clone()),
        Expr::Bool(b) => Expr::Bool(*b),
        Expr::Null => Expr::Null,
        Expr::Var(s) => Expr::Var(s.clone()),
        Expr::List(xs) => Expr::List(clone_exprs(xs)),
        Expr::Index { obj, idx } => Expr::Index {
            obj: Box::new(clone_expr(obj)),
            idx: Box::new(clone_expr(idx)),
        },
        Expr::BinOp { op, left, right } => Expr::BinOp {
            op: *op,
            left: Box::new(clone_expr(left)),
            right: Box::new(clone_expr(right)),
        },
        Expr::Not(x) => Expr::Not(Box::new(clone_expr(x))),
        Expr::Call { name, args } => Expr::Call { name: name.clone(), args: clone_exprs(args) },
        Expr::New { class } => Expr::New { class: class.clone() },
        Expr::Field { obj, field } => Expr::Field {
            obj: Box::new(clone_expr(obj)),
            field: field.clone(),
        },
        Expr::MethodCall { obj, method, args } => Expr::MethodCall {
            obj: Box::new(clone_expr(obj)),
            method: method.clone(),
            args: clone_exprs(args),
        },
    }
}

pub fn clone_exprs(xs: &Vec<Expr>) -> (r: Vec<Expr>)
    ensures
        exprs_v(r) == exprs_v(*xs),
    decreases xs,
{
    let mut out: Vec<Expr> = Vec::new();
    let mut i: usize = 0;
    while i < xs.len()
        invariant
            i <= xs.len(),
            out@.len() == i,
            forall|j: int| 0 <= j < i ==> (#[trigger] out@[j])@ == xs@[j]@,
        decreases xs.len() - i,
    {
        let c = clone_expr(&xs[i]);
        out.push(c);
        i += 1;
    }
    assert(exprs_v(out) =~= exprs_v(*xs));
    out
}

pub fn clone_stmts(xs: &Vec<Stmt>) -> (r: Vec<Stmt>)
    ensures
        stmts_v(r) == stmts_v(*xs),
    decreases xs,
{
    let mut out: Vec<Stmt> = Vec::new();
    let mut i: usize = 0;
    while i < xs.len()
        invariant
            i <= xs.len(),
            out@.len() == i,
            forall|j: int| 0 <= j < i ==> (#[trigger] out@[j])@ == xs@[j]@,
        decreases xs.len() - i,
    {
        let c = clone_stmt(&xs[i]);
        out.push(c);
        i += 1;
    }
    assert(stmts_v(out) =~= stmts_v(*xs));
    out
}

pub fn clone_stmt(s: &Stmt) -> (r: Stmt)
    ensures
        r@ == s@,
    decreases s,
{
    match s {
        Stmt::Assign { name, value, line } => Stmt::Assign {
            name: name.clone(),
            value: clone_expr(value),
            line: *line,
        },
        Stmt::Reassign { name, value, line } => Stmt::Reassign {
            name: name.clone(),
            value: clone_expr(value),
            line: *line,
        },
        Stmt::Print { value, line } => Stmt::Print { value: clone_expr(value), line: *line },
        Stmt::Input { name, line } => Stmt::Input { name: name.clone(), line: *line },
        Stmt::If { cond, then_body, else_body, line } => {
            let e = match else_body {
                Some(b) => Some(clone_stmts(b)),
                None => None,
            };
            Stmt::If { cond: clone_expr(cond), then_body: clone_stmts(then_body), else_body: e, line: *line }
        },
        Stmt::While { cond, body, line } => Stmt::While {
            cond: clone_expr(cond),
            body: clone_stmts(body),
            line: *line,
        },
        Stmt::ForEach { var, iterable, body, line } => Stmt::ForEach {
            var: var.clone(),
            iterable: clone_expr(iterable),
            body: clone_stmts(body),
            line: *line,
        },
        Stmt::InfLoop { body, line } => Stmt::InfLoop { body: clone_stmts(body), line: *line },
        Stmt::CountLoop { count, var, body, line } => Stmt::CountLoop {
            count: clone_expr(count),
            var: var.clone(),
            body: clone_stmts(body),
            line: *line,
        },
        Stmt::FuncDef { name, params, body, line } => Stmt::FuncDef {
            name: name.clone(),
            params: clone_names(params),
            body: clone_stmts(body),
            line: *line,
        },
        Stmt::FuncCall { name, args, line } => Stmt::FuncCall {
            name: name.clone(),
            args: clone_exprs(args),
            line: *line,
        },
        Stmt::Return { value, line } => Stmt::Return { value: clone_expr(value), line: *line },
        Stmt::TryCatch { try_body, catch_body, line } => Stmt::TryCatch {
            try_body: clone_stmts(try_body),
            catch_body: clone_stmts(catch_body),
            line: *line,
        },
        Stmt::Break { line } => Stmt::Break { line: *line },
        Stmt::Continue { line } => Stmt::Continue { line: *line },
        Stmt::Serve { port, body, line } => Stmt::Serve {
            port: clone_expr(port),
            body: clone_stmts(body),
            line: *line,
        },
        Stmt::Respond { value, line } => Stmt::Respond { value: clone_expr(value), line: *line },
        Stmt::Raise { value, line } => Stmt::Raise { value: clone_expr(value), line: *line },
        Stmt::Assert { cond, line } => Stmt::Assert { cond: clone_expr(cond), line: *line },
        Stmt::Sleep { secs, line } => Stmt::Sleep { secs: clone_expr(secs), line: *line },
        Stmt::ClassDef { name, body, line } => Stmt::ClassDef {
            name: name.clone(),
            body: clone_stmts(body),
            line: *line,
        },
        Stmt::FieldAssign { obj, field, value, line } => Stmt::FieldAssign {
            obj: obj.clone(),
            field: field.clone(),
            value: clone_expr(value),
            line: *line,
        },
        Stmt::MethodCall { obj, method, args, line } => Stmt::MethodCall {
            obj: obj.clone(),
            method: method.clone(),
            args: clone_exprs(args),
            line: *line,
        },
        Stmt::ReadFile { path, name, line } => Stmt::ReadFile {
            path: clone_expr(path),
            name: name.clone(),
            line: *line,
        },
        Stmt::WriteFile { path, content, line } => Stmt::WriteFile {
            path: clone_expr(path),
            content: clone_expr(content),
            line: *line,
        },
    }
}

} // verus!
