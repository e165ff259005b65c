//! The reconstructed syntax tree: expressions, statements, and the
//! constructors the decompiler builds them with.
//!
//! Expression nodes share their child lists through `Rc`, so that the
//! register state can hand out a value while keeping it: duplicating a
//! node never copies a subtree.

use std::rc::Rc;

use vstd::prelude::*;

use vstd::pervasive::unreached;

use crate::types::{Bytecode, RefEnumConstruct, RefField, RefFloat, RefFun, RefString, RefType, Reg,
    Type, field_wf, type_strings_wf};

verus! {

/// A literal value appearing in an expression.
#[derive(PartialEq, Debug)]
pub enum Constant {
    Int(i32),
    /// Float literals carry their table reference; the renderer resolves it.
    Float(RefFloat),
    Bool(bool),
    Str(String),
    Null,
    This,
}

/// Operator of an `Expr::Op` node.  `Incr` and `Decr` are the
/// pre-increment and pre-decrement forms.
#[derive(Clone, Copy, PartialEq, Eq, Debug)]
pub enum OpKind {
    Neg,
    Not,
    Incr,
    Decr,
    Add,
    Sub,
    Mul,
    Div,
    Mod,
    Shl,
    Shr,
    And,
    Or,
    Xor,
    Eq,
    NotEq,
    Gt,
    Gte,
    Lt,
    Lte,
}

/// What a call applies: a direct function reference or a computed value.
#[derive(PartialEq, Debug)]
pub enum Callee {
    Fun(RefFun),
    Expr(Box<Expr>),
}

/// A reconstructed expression.
#[derive(PartialEq, Debug)]
pub enum Expr {
    /// Placeholder for a value the pass could not resolve.
    Unknown(String),
    /// A local variable; the name is present iff the register is named in
    /// the debug tables at the current instruction.
    Variable(Reg, Option<String>),
    Constant(Constant),
    Op(OpKind, Rc<Vec<Expr>>),
    Call(Callee, Rc<Vec<Expr>>),
    Field(Box<Expr>, String),
    Array(Box<Expr>, Box<Expr>),
    /// A `new T(args)` expression.
    Constructor(RefType, Rc<Vec<Expr>>),
    /// An anonymous record literal, fields in the order they were filled.
    Anonymous(RefType, Rc<Vec<(RefField, Expr)>>),
    EnumConstr(RefType, RefEnumConstruct, Rc<Vec<Expr>>),
    /// A function value; the body is the decompiled target function.
    Closure(RefFun, Rc<Vec<Statement>>),
}

/// A reconstructed statement.  Offsets kept in control-flow statements are
/// absolute opcode indices of the scope's end.
#[derive(PartialEq, Debug)]
pub enum Statement {
    Assign { declaration: bool, variable: Expr, value: Expr },
    ExprStmt(Expr),
    Return(Option<Expr>),
    If { end: usize, cond: Expr, stmts: Vec<Statement> },
    Else { end: usize, stmts: Vec<Statement> },
    While { cond: Expr, stmts: Vec<Statement> },
    Switch {
        end: usize,
        arg: Expr,
        offsets: Vec<usize>,
        cases: Vec<Vec<Statement>>,
        default: Vec<Statement>,
    },
    Try { end: usize, stmts: Vec<Statement> },
    Throw(Expr),
    Break,
    Continue,
}

/// Relies on `Rc::clone`: the returned handle shares the same underlying
/// value as the argument.
#[verifier::external_body]
fn rc_dup<T>(rc: &Rc<T>) -> (r: Rc<T>)
    ensures
        r == *rc,
{
    Rc::clone(rc)
}

/// `e` is an operator node with this kind and these operands.
pub open spec fn is_op(e: Expr, k: OpKind, args: Seq<Expr>) -> bool {
    e matches Expr::Op(k2, a) && k2 == k && a@ == args
}

/// `e` is a call of the function reference `fun` on `args`.
pub open spec fn is_fun_call(e: Expr, fun: RefFun, args: Seq<Expr>) -> bool {
    e matches Expr::Call(c, a) && c matches Callee::Fun(f2) && f2 == fun && a@ == args
}

/// `e` is a call of the computed value `callee` on `args`.
pub open spec fn is_expr_call(e: Expr, callee: Expr, args: Seq<Expr>) -> bool {
    e matches Expr::Call(c, a) && c matches Callee::Expr(c2) && *c2 == callee && a@ == args
}

/// `c` is a call of the method `name` on `recv` with these arguments.
pub open spec fn is_method_call(c: Expr, recv: Expr, name: Seq<char>, args: Seq<Expr>) -> bool {
    c matches Expr::Call(ca, a) && ca matches Callee::Expr(ce) && (*ce matches Expr::Field(b, n)
        && *b == recv && n@ == name) && a@ == args
}

/// `e` is a field access on `recv` under this source name.
pub open spec fn is_field(e: Expr, recv: Expr, name: Seq<char>) -> bool {
    e matches Expr::Field(r, n) && *r == recv && n@ == name
}

/// `e` is an indexed access of `idx` on `recv`.
pub open spec fn is_array(e: Expr, recv: Expr, idx: Expr) -> bool {
    e matches Expr::Array(r, x) && *r == recv && *x == idx
}

/// `e` is a constructor call of type `t` on `args`.
pub open spec fn is_constructor(e: Expr, t: RefType, args: Seq<Expr>) -> bool {
    e matches Expr::Constructor(t2, a) && t2 == t && a@ == args
}

/// `e` is an anonymous record literal of type `t` with these entries.
pub open spec fn is_anonymous(e: Expr, t: RefType, fields: Seq<(RefField, Expr)>) -> bool {
    e matches Expr::Anonymous(t2, fs) && t2 == t && fs@ == fields
}

/// `e` is an enum construction.
pub open spec fn is_enum_constr(e: Expr, t: RefType, c: RefEnumConstruct, args: Seq<Expr>) -> bool {
    e matches Expr::EnumConstr(t2, c2, a) && t2 == t && c2 == c && a@ == args
}

/// `e` is a closure over `fun` with this decompiled body.
pub open spec fn is_closure(e: Expr, fun: RefFun, body: Seq<Statement>) -> bool {
    e matches Expr::Closure(f2, b) && f2 == fun && b@ == body
}

/// `e` is an `Unknown` placeholder carrying this message.
pub open spec fn is_unknown(e: Expr, msg: Seq<char>) -> bool {
    e matches Expr::Unknown(m) && m@ == msg
}

/// The source name of field `fld` of the type `t`, as the string table
/// spells it.
pub open spec fn spec_field_name(code: Bytecode, t: RefType, fld: RefField) -> Seq<char>
    recommends
        field_wf(code, t, fld),
{
    match code.types@[t.0 as int] {
        Type::Obj(o) => code.strings@[o.fields@[fld.0 as int].name.0 as int]@,
        Type::Struct(o) => code.strings@[o.fields@[fld.0 as int].name.0 as int]@,
        Type::Virtual { fields } => code.strings@[fields@[fld.0 as int].name.0 as int]@,
        _ => Seq::empty(),
    }
}

impl Constant {
    /// Duplicate the literal; the copy equals the original.
    pub fn dup(&self) -> (r: Constant)
        ensures
            r == *self,
    {
        match self {
            Constant::Int(i) => Constant::Int(*i),
            Constant::Float(p) => Constant::Float(*p),
            Constant::Bool(b) => Constant::Bool(*b),
            Constant::Str(s) => Constant::Str(s.clone()),
            Constant::Null => Constant::Null,
            Constant::This => Constant::This,
        }
    }
}

impl Expr {
    /// Duplicate the expression; child lists are shared, not copied.
    /// The copy equals the original.
    pub fn dup(&self) -> (r: Expr)
        ensures
            r == *self,
        decreases self,
    {
        match self {
            Expr::Unknown(m) => Expr::Unknown(m.clone()),
            Expr::Variable(r, n) => Expr::Variable(
                *r,
                match n {
                    Some(s) => Some(s.clone()),
                    None => None,
                },
            ),
            Expr::Constant(c) => Expr::Constant(c.dup()),
            Expr::Op(k, args) => Expr::Op(*k, rc_dup(args)),
            Expr::Call(c, args) => Expr::Call(c.dup(), rc_dup(args)),
            Expr::Field(r, n) => Expr::Field(Box::new(r.dup()), n.clone()),
            Expr::Array(r, x) => Expr::Array(Box::new(r.dup()), Box::new(x.dup())),
            Expr::Constructor(t, args) => Expr::Constructor(*t, rc_dup(args)),
            Expr::Anonymous(t, fs) => Expr::Anonymous(*t, rc_dup(fs)),
            Expr::EnumConstr(t, c, args) => Expr::EnumConstr(*t, *c, rc_dup(args)),
            Expr::Closure(f, b) => Expr::Closure(*f, rc_dup(b)),
        }
    }
}

impl Expr {
    pub fn cst_int(i: i32) -> (r: Expr)
        ensures
            r == Expr::Constant(Constant::Int(i)),
    {
        Expr::Constant(Constant::Int(i))
    }

    pub fn cst_float(p: RefFloat) -> (r: Expr)
        ensures
            r == Expr::Constant(Constant::Float(p)),
    {
        Expr::Constant(Constant::Float(p))
    }

    pub fn cst_bool(b: bool) -> (r: Expr)
        ensures
            r == Expr::Constant(Constant::Bool(b)),
    {
        Expr::Constant(Constant::Bool(b))
    }

    pub fn cst_null() -> (r: Expr)
        ensures
            r == Expr::Constant(Constant::Null),
    {
        Expr::Constant(Constant::Null)
    }

    pub fn cst_this() -> (r: Expr)
        ensures
            r == Expr::Constant(Constant::This),
    {
        Expr::Constant(Constant::This)
    }

    pub fn cst_string(s: String) -> (r: Expr)
        ensures
            r == Expr::Constant(Constant::Str(s)),
    {
        Expr::Constant(Constant::Str(s))
    }

    /// String literal resolved from the module's string table.
    pub fn cst_refstring(ptr: RefString, code: &Bytecode) -> (r: Expr)
        requires
            ptr.0 < code.strings@.len(),
        ensures
            r == Expr::Constant(Constant::Str(code.strings@[ptr.0 as int])),
    {
        Expr::Constant(Constant::Str(code.strings[ptr.0].clone()))
    }

    fn unop(k: OpKind, e: Expr) -> (r: Expr)
        ensures
            is_op(r, k, seq![e]),
    {
        let v: Vec<Expr> = vec![e];
        proof {
            assert(v@ =~= seq![e]);
        }
        Expr::Op(k, Rc::new(v))
    }

    fn binop(k: OpKind, a: Expr, b: Expr) -> (r: Expr)
        ensures
            is_op(r, k, seq![a, b]),
    {
        let v: Vec<Expr> = vec![a, b];
        proof {
            assert(v@ =~= seq![a, b]);
        }
        Expr::Op(k, Rc::new(v))
    }

    pub fn not(e: Expr) -> (r: Expr)
        ensures
            is_op(r, OpKind::Not, seq![e]),
    {
        Expr::unop(OpKind::Not, e)
    }

    pub fn neg(e: Expr) -> (r: Expr)
        ensures
            is_op(r, OpKind::Neg, seq![e]),
    {
        Expr::unop(OpKind::Neg, e)
    }

    pub fn incr(e: Expr) -> (r: Expr)
        ensures
            is_op(r, OpKind::Incr, seq![e]),
    {
        Expr::unop(OpKind::Incr, e)
    }

    pub fn decr(e: Expr) -> (r: Expr)
        ensures
            is_op(r, OpKind::Decr, seq![e]),
    {
        Expr::unop(OpKind::Decr, e)
    }

    pub fn add(a: Expr, b: Expr) -> (r: Expr)
        ensures
            is_op(r, OpKind::Add, seq![a, b]),
    {
        Expr::binop(OpKind::Add, a, b)
    }

    pub fn sub(a: Expr, b: Expr) -> (r: Expr)
        ensures
            is_op(r, OpKind::Sub, seq![a, b]),
    {
        Expr::binop(OpKind::Sub, a, b)
    }

    pub fn mul(a: Expr, b: Expr) -> (r: Expr)
        ensures
            is_op(r, OpKind::Mul, seq![a, b]),
    {
        Expr::binop(OpKind::Mul, a, b)
    }

    pub fn div(a: Expr, b: Expr) -> (r: Expr)
        ensures
            is_op(r, OpKind::Div, seq![a, b]),
    {
        Expr::binop(OpKind::Div, a, b)
    }

    pub fn modulo(a: Expr, b: Expr) -> (r: Expr)
        ensures
            is_op(r, OpKind::Mod, seq![a, b]),
    {
        Expr::binop(OpKind::Mod, a, b)
    }

    pub fn shl(a: Expr, b: Expr) -> (r: Expr)
        ensures
            is_op(r, OpKind::Shl, seq![a, b]),
    {
        Expr::binop(OpKind::Shl, a, b)
    }

    pub fn shr(a: Expr, b: Expr) -> (r: Expr)
        ensures
            is_op(r, OpKind::Shr, seq![a, b]),
    {
        Expr::binop(OpKind::Shr, a, b)
    }

    pub fn and(a: Expr, b: Expr) -> (r: Expr)
        ensures
            is_op(r, OpKind::And, seq![a, b]),
    {
        Expr::binop(OpKind::And, a, b)
    }

    pub fn or(a: Expr, b: Expr) -> (r: Expr)
        ensures
            is_op(r, OpKind::Or, seq![a, b]),
    {
        Expr::binop(OpKind::Or, a, b)
    }

    pub fn xor(a: Expr, b: Expr) -> (r: Expr)
        ensures
            is_op(r, OpKind::Xor, seq![a, b]),
    {
        Expr::binop(OpKind::Xor, a, b)
    }

    pub fn eq(a: Expr, b: Expr) -> (r: Expr)
        ensures
            is_op(r, OpKind::Eq, seq![a, b]),
    {
        Expr::binop(OpKind::Eq, a, b)
    }

    pub fn noteq(a: Expr, b: Expr) -> (r: Expr)
        ensures
            is_op(r, OpKind::NotEq, seq![a, b]),
    {
        Expr::binop(OpKind::NotEq, a, b)
    }

    pub fn lt(a: Expr, b: Expr) -> (r: Expr)
        ensures
            is_op(r, OpKind::Lt, seq![a, b]),
    {
        Expr::binop(OpKind::Lt, a, b)
    }

    pub fn lte(a: Expr, b: Expr) -> (r: Expr)
        ensures
            is_op(r, OpKind::Lte, seq![a, b]),
    {
        Expr::binop(OpKind::Lte, a, b)
    }

    pub fn gt(a: Expr, b: Expr) -> (r: Expr)
        ensures
            is_op(r, OpKind::Gt, seq![a, b]),
    {
        Expr::binop(OpKind::Gt, a, b)
    }

    pub fn gte(a: Expr, b: Expr) -> (r: Expr)
        ensures
            is_op(r, OpKind::Gte, seq![a, b]),
    {
        Expr::binop(OpKind::Gte, a, b)
    }

    /// A call whose callee is a computed expression.
    pub fn call(callee: Expr, args: Vec<Expr>) -> (r: Expr)
        ensures
            is_expr_call(r, callee, args@),
    {
        Expr::Call(Callee::Expr(Box::new(callee)), Rc::new(args))
    }

    /// A call of a direct function reference.
    pub fn call_fun(fun: RefFun, args: Vec<Expr>) -> (r: Expr)
        ensures
            is_fun_call(r, fun, args@),
    {
        Expr::Call(Callee::Fun(fun), Rc::new(args))
    }

    pub fn array(recv: Expr, idx: Expr) -> (r: Expr)
        ensures
            is_array(r, recv, idx),
    {
        Expr::Array(Box::new(recv), Box::new(idx))
    }

    /// Field access on `recv`, the field's name resolved from the
    /// receiver's type definition.
    pub fn field_of(recv: Expr, t: RefType, fld: RefField, code: &Bytecode) -> (r: Expr)
        requires
            field_wf(*code, t, fld),
            type_strings_wf(*code),
        ensures
            is_field(r, recv, spec_field_name(*code, t, fld)),
    {
        let name: String = match &code.types[t.0] {
            Type::Obj(o) => code.strings[o.fields[fld.0].name.0].clone(),
            Type::Struct(o) => code.strings[o.fields[fld.0].name.0].clone(),
            Type::Virtual { fields } => code.strings[fields[fld.0].name.0].clone(),
            _ => unreached(),
        };
        Expr::Field(Box::new(recv), name)
    }

    pub fn constructor(t: RefType, args: Vec<Expr>) -> (r: Expr)
        ensures
            is_constructor(r, t, args@),
    {
        Expr::Constructor(t, Rc::new(args))
    }

    pub fn anonymous(t: RefType, fields: Vec<(RefField, Expr)>) -> (r: Expr)
        ensures
            is_anonymous(r, t, fields@),
    {
        Expr::Anonymous(t, Rc::new(fields))
    }

    pub fn enum_constr(t: RefType, c: RefEnumConstruct, args: Vec<Expr>) -> (r: Expr)
        ensures
            is_enum_constr(r, t, c, args@),
    {
        Expr::EnumConstr(t, c, Rc::new(args))
    }

    pub fn closure(fun: RefFun, body: Vec<Statement>) -> (r: Expr)
        ensures
            is_closure(r, fun, body@),
    {
        Expr::Closure(fun, Rc::new(body))
    }
}

impl Statement {
    /// Wrap a side-effecting expression as a statement of its own.
    pub fn stmt(e: Expr) -> (r: Statement)
        ensures
            r == Statement::ExprStmt(e),
    {
        Statement::ExprStmt(e)
    }
}

impl Callee {
    /// Duplicate the callee; the copy equals the original.
    pub fn dup(&self) -> (r: Callee)
        ensures
            r == *self,
        decreases self,
    {
        match self {
            Callee::Fun(f) => Callee::Fun(*f),
            Callee::Expr(e) => Callee::Expr(Box::new(e.dup())),
        }
    }
}

} // verus!
