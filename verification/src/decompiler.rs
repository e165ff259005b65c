//! The per-function reconstruction pass and the class assembler around it.
//!
//! The pass walks the opcode stream once.  Registers carry symbolic
//! expressions; instructions that produce a value either propagate it
//! silently or, when the debug tables name the destination at that
//! instruction, emit an assignment.  A small idiom stack defers
//! constructor calls and anonymous structure literals that span several
//! instructions, and the scope stack rebuilds structured control flow
//! from jump offsets.

use vstd::pervasive::unreached;
use vstd::prelude::*;
use vstd::string::StringExecFns;

use crate::ast::{is_unknown, Expr, OpKind, Statement};
use crate::scopes::{advance_effect, spec_find_loop, spec_loop_start, switch_case_effect, ScopeKind,
    Scopes};
use crate::types::{Binding, Bytecode, FunPtr, Function, Opcode, RefField, RefFun, RefType, Reg,
    Type, TypeObj};

verus! {

/// Expression values currently held by the registers.
pub struct RegState {
    pub slots: Vec<Option<Expr>>,
}

impl RegState {
    /// Reading register `r` observes `e`: the stored expression where one
    /// is defined, and the `missing expr` placeholder everywhere else.  A
    /// read never fails.
    pub open spec fn reads_as(self, r: Reg, e: Expr) -> bool {
        if r.0 < self.slots@.len() {
            match self.slots@[r.0 as int] {
                Some(v) => e == v,
                None => is_unknown(e, "missing expr"@),
            }
        } else {
            is_unknown(e, "missing expr"@)
        }
    }

    /// A register state with one undefined slot per register.
    pub fn new(n: usize) -> (s: RegState)
        ensures
            s.slots@.len() == n,
            forall|j: int| 0 <= j < n ==> (#[trigger] s.slots@[j]) is None,
    {
        let mut slots: Vec<Option<Expr>> = Vec::new();
        while slots.len() < n
            invariant
                slots@.len() <= n,
                forall|j: int| 0 <= j < slots@.len() ==> (#[trigger] slots@[j]) is None,
            decreases n - slots@.len(),
        {
            slots.push(None);
        }
        RegState { slots }
    }

    /// Read a register; undefined registers read as the `missing expr`
    /// placeholder rather than failing.
    pub fn get(&self, r: Reg) -> (e: Expr)
        ensures
            self.reads_as(r, e),
    {
        if r.0 < self.slots.len() {
            match &self.slots[r.0] {
                Some(v) => v.dup(),
                None => Expr::Unknown(String::from_str("missing expr")),
            }
        } else {
            Expr::Unknown(String::from_str("missing expr"))
        }
    }

    /// Bind register `r` to `e`.
    pub fn set(&mut self, r: Reg, e: Expr)
        requires
            r.0 < old(self).slots@.len(),
        ensures
            final(self).slots@ == old(self).slots@.update(r.0 as int, Some(e)),
    {
        self.slots.set(r.0, Some(e));
    }
}

/// Whether the name `n` is among the recorded names.
pub open spec fn seen_contains(s: Seq<String>, n: Seq<char>) -> bool {
    exists|k: int| 0 <= k < s.len() && (#[trigger] s[k])@ == n
}

/// The variable names already declared in the current function.
pub struct SeenNames {
    pub names: Vec<String>,
}

impl SeenNames {
    pub fn new() -> (s: SeenNames)
        ensures
            s.names@.len() == 0,
    {
        SeenNames { names: Vec::new() }
    }

    /// Record a name; the result says whether it was new.  A name is
    /// declared at most once: once recorded, inserting it again reports
    /// it as not fresh and leaves the set unchanged.
    pub fn insert(&mut self, n: String) -> (fresh: bool)
        ensures
            fresh == !seen_contains(old(self).names@, n@),
            final(self).names@ == if fresh {
                old(self).names@.push(n)
            } else {
                old(self).names@
            },
    {
        let mut k: usize = 0;
        while k < self.names.len()
            invariant
                k <= self.names@.len(),
                forall|j: int| 0 <= j < k ==> (#[trigger] self.names@[j])@ != n@,
                self.names@ == old(self).names@,
            decreases self.names@.len() - k,
        {
            if self.names[k] == n {
                return false;
            }
            k = k + 1;
        }
        self.names.push(n);
        true
    }
}

/// A pending multi-instruction idiom.
pub enum ExprCtx {
    /// A `New` of an object or structure was seen at `pos`; the next
    /// direct call whose first argument is `reg` completes the
    /// constructor call.
    Constructor { reg: Reg, pos: usize },
    /// A `New` of a virtual type was seen at `pos`; field writes on the
    /// allocation fill `fields` until `remaining` reaches zero.  `total`
    /// records how many fields the virtual type had.
    Anonymous {
        pos: usize,
        fields: Vec<(RefField, Expr)>,
        remaining: usize,
        total: Ghost<int>,
    },
}

/// Bookkeeping invariant of a pending idiom: a constructor's register
/// exists, and an anonymous literal always holds exactly its type's field
/// count split between filled entries and entries still awaited.
pub open spec fn ctx_wf(c: ExprCtx, nregs: int) -> bool {
    match c {
        ExprCtx::Constructor { reg, .. } => reg.0 < nregs,
        ExprCtx::Anonymous { fields, remaining, total, .. } => fields@.len() + remaining == total@
            && remaining >= 1,
    }
}

/// Bookkeeping invariant of the whole idiom stack.
pub open spec fn ctxs_wf(s: Seq<ExprCtx>, nregs: int) -> bool {
    forall|j: int| 0 <= j < s.len() ==> ctx_wf(#[trigger] s[j], nregs)
}

/// What the dual assignment rule does to the pass state when the value
/// `e` is produced for register `dst` at instruction `i`: silent
/// propagation when the destination is unnamed there, otherwise a rebind
/// to the named variable and an emitted assignment that is a declaration
/// exactly when the name is new.
pub open spec fn assign_effect(
    code: Bytecode,
    f: Function,
    s0: Scopes,
    s1: Scopes,
    r0: RegState,
    r1: RegState,
    n0: SeenNames,
    n1: SeenNames,
    i: int,
    dst: Reg,
    e: Expr,
) -> bool {
    match f.spec_var_name(i) {
        None => {
            &&& r1.slots@ == r0.slots@.update(dst.0 as int, Some(e))
            &&& s1.stack@ == s0.stack@
            &&& n1.names@ == n0.names@
        },
        Some(ns) => {
            let n = code.strings@[ns.0 as int];
            let fresh = !seen_contains(n0.names@, n@);
            &&& r1.slots@ == r0.slots@.update(dst.0 as int, Some(Expr::Variable(dst, Some(n))))
            &&& n1.names@ == if fresh {
                n0.names@.push(n)
            } else {
                n0.names@
            }
            &&& s1.top().stmts@ == s0.top().stmts@.push(
                Statement::Assign {
                    declaration: fresh,
                    variable: Expr::Variable(dst, Some(n)),
                    value: e,
                },
            )
        },
    }
}

/// The scope stack kept its shape: same cursor and depth, everything
/// below the innermost scope untouched, and the innermost scope's kind
/// unchanged (only its statements may have grown).
pub open spec fn scopes_frame(s0: Scopes, s1: Scopes) -> bool {
    &&& s1.wf()
    &&& s1.cursor == s0.cursor
    &&& s1.depth() == s0.depth()
    &&& (forall|j: int| 0 <= j < s0.depth() - 1 ==> s1.stack@[j] == s0.stack@[j])
    &&& s1.top().kind == s0.top().kind
}

/// The dual assignment rule every value-producing instruction goes
/// through.  If the debug tables do not name the destination register at
/// instruction `i`, the value is propagated silently through the register
/// state.  Otherwise the register is rebound to the named variable and an
/// assignment statement is emitted, marked as a declaration exactly when
/// the name has not been declared before.
pub fn push_expr(
    code: &Bytecode,
    f: &Function,
    scopes: &mut Scopes,
    regs: &mut RegState,
    seen: &mut SeenNames,
    i: usize,
    dst: Reg,
    e: Expr,
)
    requires
        f.wf(*code),
        old(scopes).wf(),
        dst.0 < old(regs).slots@.len(),
    ensures
        scopes_frame(*old(scopes), *final(scopes)),
        final(regs).slots@.len() == old(regs).slots@.len(),
        assign_effect(
            *code,
            *f,
            *old(scopes),
            *final(scopes),
            *old(regs),
            *final(regs),
            *old(seen),
            *final(seen),
            i as int,
            dst,
            e,
        ),
{
    match f.var_name(i) {
        None => {
            regs.set(dst, e);
        },
        Some(ns) => {
            proof {
                crate::types::lemma_lookup_assign_bound(
                    f.assigns@,
                    i as int,
                    code.strings@.len() as int,
                );
            }
            let name: String = code.strings[ns.0].clone();
            regs.set(dst, Expr::Variable(dst, Some(name.clone())));
            let fresh = seen.insert(name.clone());
            scopes.push_stmt(
                Statement::Assign {
                    declaration: fresh,
                    variable: Expr::Variable(dst, Some(name)),
                    value: e,
                },
            );
        },
    }
}

/// Each expression of `es` is what reading the corresponding register of
/// `rs` observes.
pub open spec fn args_read(regs: RegState, rs: Seq<Reg>, es: Seq<Expr>) -> bool {
    es.len() == rs.len() && (forall|k: int|
        0 <= k < rs.len() ==> regs.reads_as(rs[k], #[trigger] es[k]))
}

/// Read the registers `args[from..]` into a list of expressions.
pub fn exprs_of_regs(regs: &RegState, args: &Vec<Reg>, from: usize) -> (v: Vec<Expr>)
    requires
        from <= args@.len(),
    ensures
        args_read(*regs, args@.skip(from as int), v@),
{
    let mut v: Vec<Expr> = Vec::new();
    let mut k = from;
    while k < args.len()
        invariant
            from <= k <= args@.len(),
            v@.len() == k - from,
            forall|j: int| 0 <= j < v@.len() ==> regs.reads_as(args@[from + j], #[trigger] v@[j]),
        decreases args@.len() - k,
    {
        v.push(regs.get(args[k]));
        k = k + 1;
    }
    proof {
        assert(forall|j: int|
            0 <= j < args@.skip(from as int).len() ==> #[trigger] args@.skip(from as int)[j]
                == args@[from + j]);
    }
    v
}

/// The arguments of a call after its receiver.
fn reg_tail(args: &Vec<Reg>) -> (r: Vec<Reg>)
    requires
        args@.len() >= 1,
    ensures
        r@ == args@.skip(1),
{
    let mut r: Vec<Reg> = Vec::new();
    let mut k: usize = 1;
    while k < args.len()
        invariant
            1 <= k <= args@.len(),
            r@.len() == k - 1,
            forall|j: int| 0 <= j < r@.len() ==> #[trigger] r@[j] == args@[j + 1],
        decreases args@.len() - k,
    {
        r.push(args[k]);
        k = k + 1;
    }
    proof {
        assert(r@ =~= args@.skip(1));
    }
    r
}

/// Whether the callable `fun` returns void.
pub open spec fn spec_fun_ret_void(code: Bytecode, fun: RefFun) -> bool
    recommends
        fun.0 < code.functions@.len(),
{
    match code.functions@[fun.0 as int] {
        FunPtr::Fun(g) => g.spec_ty(code).ret.0 == 0,
        FunPtr::Native(n) => match code.types@[n.t.0 as int] {
            Type::Fun(tf) => tf.ret.0 == 0,
            _ => false,
        },
    }
}

fn fun_ret_is_void(code: &Bytecode, fun: RefFun) -> (r: bool)
    requires
        code.wf(),
        fun.0 < code.functions@.len(),
    ensures
        r == spec_fun_ret_void(*code, fun),
{
    match &code.functions[fun.0] {
        FunPtr::Fun(g) => g.ty(code).ret.is_void(),
        FunPtr::Native(n) => match &code.types[n.t.0] {
            Type::Fun(tf) => tf.ret.is_void(),
            _ => unreached(),
        },
    }
}

/// Whether method slot `fld` of receiver type `rt` resolves to a
/// bytecode function that returns void.  Anything unresolved counts as
/// not void.
pub open spec fn spec_method_ret_void(code: Bytecode, rt: RefType, fld: RefField) -> bool {
    match crate::types::spec_method_of(code, rt, fld.0 as int) {
        Some(p) => p.findex.0 < code.functions@.len() && (match code.functions@[p.findex.0 as int] {
            FunPtr::Fun(g) => g.spec_ty(code).ret.0 == 0,
            _ => false,
        }),
        None => false,
    }
}

fn method_ret_is_void(code: &Bytecode, rt: RefType, fld: RefField) -> (r: bool)
    requires
        code.wf(),
    ensures
        r == spec_method_ret_void(*code, rt, fld),
{
    match crate::types::method_of(code, rt, fld.0) {
        Some(p) => {
            if p.findex.0 < code.functions.len() {
                match &code.functions[p.findex.0] {
                    FunPtr::Fun(g) => g.ty(code).ret.is_void(),
                    FunPtr::Native(_) => false,
                }
            } else {
                false
            }
        },
        None => false,
    }
}

/// Whether a value of type `rt` is a callable returning void.  Anything
/// else counts as not void.
pub open spec fn spec_closure_ret_void(code: Bytecode, rt: RefType) -> bool {
    rt.0 < code.types@.len() && (match code.types@[rt.0 as int] {
        Type::Fun(tf) => tf.ret.0 == 0,
        _ => false,
    })
}

fn closure_ret_is_void(code: &Bytecode, rt: RefType) -> (r: bool)
    ensures
        r == spec_closure_ret_void(*code, rt),
{
    if rt.0 < code.types.len() {
        match &code.types[rt.0] {
            Type::Fun(tf) => tf.ret.is_void(),
            _ => false,
        }
    } else {
        false
    }
}

/// The constructor idiom on top of the idiom stack, if there is one.
pub open spec fn ctor_top(s: Seq<ExprCtx>) -> Option<(Reg, usize)> {
    if s.len() > 0 {
        match s.last() {
            ExprCtx::Constructor { reg, pos } => Some((reg, pos)),
            _ => None,
        }
    } else {
        None
    }
}

/// The surface a direct call takes: a call of a non-native method becomes
/// `receiver.name(rest)`; every other callable is applied to the full
/// argument list.
pub open spec fn call_shape(
    code: Bytecode,
    f: Function,
    regs: RegState,
    fun: RefFun,
    arg0: Reg,
    rest: Seq<Reg>,
    c: Expr,
) -> bool
    recommends
        fun.0 < code.functions@.len(),
{
    match code.functions@[fun.0 as int] {
        FunPtr::Fun(g) => if g.is_method {
            g.name matches Some(ns) && (exists|recv: Expr, es: Seq<Expr>|
                regs.reads_as(arg0, recv) && args_read(regs, rest, es) && crate::ast::is_method_call(
                    c,
                    recv,
                    code.strings@[ns.0 as int]@,
                    es,
                ))
        } else {
            exists|a0: Expr, es: Seq<Expr>|
                regs.reads_as(arg0, a0) && args_read(regs, rest, es) && crate::ast::is_fun_call(
                    c,
                    fun,
                    seq![a0] + es,
                )
        },
        FunPtr::Native(_) => exists|a0: Expr, es: Seq<Expr>|
            regs.reads_as(arg0, a0) && args_read(regs, rest, es) && crate::ast::is_fun_call(
                c,
                fun,
                seq![a0] + es,
            ),
    }
}

/// How a completed call surface `c` enters the output: a void-returning
/// callable is emitted as a statement of its own, anything else goes
/// through the dual assignment rule for `dst`.
pub open spec fn call_emit_effect(
    code: Bytecode,
    f: Function,
    s0: Scopes,
    s1: Scopes,
    r0: RegState,
    r1: RegState,
    n0: SeenNames,
    n1: SeenNames,
    i: int,
    dst: Reg,
    fun: RefFun,
    c: Expr,
) -> bool {
    if spec_fun_ret_void(code, fun) {
        &&& s1.top().stmts@ == s0.top().stmts@.push(Statement::ExprStmt(c))
        &&& r1.slots@ == r0.slots@
        &&& n1.names@ == n0.names@
    } else {
        assign_effect(code, f, s0, s1, r0, r1, n0, n1, i, dst, c)
    }
}

/// What a direct call does when no constructor idiom consumes it: the
/// call surface is built from the current register values and either
/// emitted as a statement of its own (void return) or run through the
/// dual assignment rule.
pub open spec fn normal_call_rel(
    code: Bytecode,
    f: Function,
    s0: Scopes,
    s1: Scopes,
    r0: RegState,
    r1: RegState,
    n0: SeenNames,
    n1: SeenNames,
    i: int,
    dst: Reg,
    fun: RefFun,
    arg0: Reg,
    rest: Seq<Reg>,
) -> bool {
    &&& scopes_frame(s0, s1)
    &&& r1.slots@.len() == r0.slots@.len()
    &&& exists|c: Expr|
        call_shape(code, f, r0, fun, arg0, rest, c) && call_emit_effect(
            code,
            f,
            s0,
            s1,
            r0,
            r1,
            n0,
            n1,
            i,
            dst,
            fun,
            c,
        )
}

/// What completing a pending constructor idiom does: the constructor
/// expression over the call's remaining arguments is assigned at the
/// allocation's instruction through the dual assignment rule.
pub open spec fn ctor_complete_rel(
    code: Bytecode,
    f: Function,
    s0: Scopes,
    s1: Scopes,
    r0: RegState,
    r1: RegState,
    n0: SeenNames,
    n1: SeenNames,
    reg: Reg,
    pos: int,
    rest: Seq<Reg>,
) -> bool {
    &&& scopes_frame(s0, s1)
    &&& r1.slots@.len() == r0.slots@.len()
    &&& exists|ce: Expr, es: Seq<Expr>|
        crate::ast::is_constructor(ce, f.spec_regtype(reg), es) && args_read(r0, rest, es)
            && assign_effect(code, f, s0, s1, r0, r1, n0, n1, pos, reg, ce)
}

/// Build and emit a direct call that no constructor idiom consumes.
fn emit_direct_call(
    code: &Bytecode,
    f: &Function,
    scopes: &mut Scopes,
    regs: &mut RegState,
    seen: &mut SeenNames,
    i: usize,
    dst: Reg,
    fun: RefFun,
    arg0: Reg,
    rest: &Vec<Reg>,
)
    requires
        code.wf(),
        f.wf(*code),
        old(scopes).wf(),
        old(regs).slots@.len() == f.regs@.len(),
        dst.0 < f.regs@.len(),
        crate::types::call_target_wf(*code, fun),
    ensures
        normal_call_rel(
            *code,
            *f,
            *old(scopes),
            *final(scopes),
            *old(regs),
            *final(regs),
            *old(seen),
            *final(seen),
            i as int,
            dst,
            fun,
            arg0,
            rest@,
        ),
{
    let is_method = match &code.functions[fun.0] {
        FunPtr::Fun(g) => g.is_method,
        FunPtr::Native(_) => false,
    };
    let c: Expr;
    if is_method {
        let ns = match &code.functions[fun.0] {
            FunPtr::Fun(g) => match g.name {
                Some(ns) => ns,
                None => unreached(),
            },
            FunPtr::Native(_) => unreached(),
        };
        proof {
            assert(code.functions@[fun.0 as int] matches FunPtr::Fun(g) && g.wf(*code));
        }
        let recv = regs.get(arg0);
        let ghost grecv = recv;
        let args = exprs_of_regs(regs, rest, 0);
        proof {
            assert(rest@.skip(0) =~= rest@);
        }
        let ghost ges = args@;
        c = Expr::call(Expr::Field(Box::new(recv), code.strings[ns.0].clone()), args);
        proof {
            assert(crate::ast::is_method_call(c, grecv, code.strings@[ns.0 as int]@, ges));
            assert(call_shape(*code, *f, *old(regs), fun, arg0, rest@, c));
        }
    } else {
        let mut args: Vec<Expr> = Vec::new();
        args.push(regs.get(arg0));
        let mut tail = exprs_of_regs(regs, rest, 0);
        proof {
            assert(rest@.skip(0) =~= rest@);
        }
        let ghost a0 = args@[0];
        let ghost es = tail@;
        args.append(&mut tail);
        proof {
            assert(args@ =~= seq![a0] + es);
        }
        c = Expr::call_fun(fun, args);
        proof {
            assert(regs.reads_as(arg0, a0) && args_read(*regs, rest@, es)
                && crate::ast::is_fun_call(c, fun, seq![a0] + es));
            assert(call_shape(*code, *f, *old(regs), fun, arg0, rest@, c));
        }
    }
    let ghost gc = c;
    if fun_ret_is_void(code, fun) {
        scopes.push_stmt(Statement::ExprStmt(c));
    } else {
        push_expr(code, f, scopes, regs, seen, i, dst, c);
    }
    proof {
        assert(call_shape(*code, *f, *old(regs), fun, arg0, rest@, gc) && call_emit_effect(
            *code,
            *f,
            *old(scopes),
            *scopes,
            *old(regs),
            *regs,
            *old(seen),
            *seen,
            i as int,
            dst,
            fun,
            gc,
        ));
    }
}

/// Handle a direct call instruction.  If the innermost pending idiom is a
/// constructor whose register is the call's receiver, the call completes
/// it: the idiom is popped and the constructor expression is assigned at
/// the allocation's instruction.  Every other direct call -- including
/// one made while an unrelated constructor is pending -- is a normal
/// call: its surface is built and either emitted as a statement (void
/// return) or run through the dual assignment rule.
pub fn push_call(
    code: &Bytecode,
    f: &Function,
    scopes: &mut Scopes,
    regs: &mut RegState,
    seen: &mut SeenNames,
    ctxs: &mut Vec<ExprCtx>,
    i: usize,
    dst: Reg,
    fun: RefFun,
    arg0: Reg,
    rest: Vec<Reg>,
)
    requires
        code.wf(),
        f.wf(*code),
        old(scopes).wf(),
        old(regs).slots@.len() == f.regs@.len(),
        ctxs_wf(old(ctxs)@, f.regs@.len() as int),
        dst.0 < f.regs@.len(),
        crate::types::call_target_wf(*code, fun),
    ensures
        ctxs_wf(final(ctxs)@, f.regs@.len() as int),
        match ctor_top(old(ctxs)@) {
            Some((reg, pos)) => if reg == arg0 {
                &&& final(ctxs)@ == old(ctxs)@.drop_last()
                &&& ctor_complete_rel(
                    *code,
                    *f,
                    *old(scopes),
                    *final(scopes),
                    *old(regs),
                    *final(regs),
                    *old(seen),
                    *final(seen),
                    reg,
                    pos as int,
                    rest@,
                )
            } else {
                &&& final(ctxs)@ == old(ctxs)@
                &&& normal_call_rel(
                    *code,
                    *f,
                    *old(scopes),
                    *final(scopes),
                    *old(regs),
                    *final(regs),
                    *old(seen),
                    *final(seen),
                    i as int,
                    dst,
                    fun,
                    arg0,
                    rest@,
                )
            },
            None => {
                &&& final(ctxs)@ == old(ctxs)@
                &&& normal_call_rel(
                    *code,
                    *f,
                    *old(scopes),
                    *final(scopes),
                    *old(regs),
                    *final(regs),
                    *old(seen),
                    *final(seen),
                    i as int,
                    dst,
                    fun,
                    arg0,
                    rest@,
                )
            },
        },
{
    let ctor: Option<(Reg, usize)> = if ctxs.len() > 0 {
        match &ctxs[ctxs.len() - 1] {
            ExprCtx::Constructor { reg, pos } => Some((*reg, *pos)),
            _ => None,
        }
    } else {
        None
    };
    proof {
        assert(ctor == ctor_top(ctxs@));
    }
    let completes = match ctor {
        Some((reg, _)) => reg == arg0,
        None => false,
    };
    if completes {
        let (reg, pos) = match ctor {
            Some(rp) => rp,
            None => unreached(),
        };
        proof {
            assert(ctx_wf(old(ctxs)@.last(), f.regs@.len() as int));
        }
        let args = exprs_of_regs(regs, &rest, 0);
        proof {
            assert(rest@.skip(0) =~= rest@);
        }
        let ghost ges = args@;
        let ce = Expr::constructor(f.regtype(reg), args);
        let ghost gce = ce;
        ctxs.pop();
        push_expr(code, f, scopes, regs, seen, pos, reg, ce);
        proof {
            assert(crate::ast::is_constructor(gce, f.spec_regtype(reg), ges));
            assert(args_read(*old(regs), rest@, ges));
        }
    } else {
        emit_direct_call(code, f, scopes, regs, seen, i, dst, fun, arg0, &rest);
    }
}

/// Another unconditional backward jump to `target` exists after `i`.
pub open spec fn spec_has_backjump(ops: Seq<Opcode>, i: int, target: int) -> bool {
    exists|j: int| i < j < ops.len() && is_backjump_to(#[trigger] ops[j], j, target)
}

/// `op` at index `j` is an unconditional backward jump to `target`.
pub open spec fn is_backjump_to(op: Opcode, j: int, target: int) -> bool {
    op matches Opcode::JAlways { offset } && offset < 0 && j + offset + 1 == target
}

/// Scan the instructions after `i` for another unconditional backward
/// jump to `target`.
fn scan_backjump(f: &Function, i: usize, target: usize) -> (b: bool)
    requires
        i < f.ops@.len(),
    ensures
        b == spec_has_backjump(f.ops@, i as int, target as int),
{
    let n = f.ops.len();
    proof {
        assert(i < n);
    }
    let mut j = i + 1;
    while j < f.ops.len()
        invariant
            i < j <= f.ops@.len(),
            forall|k: int| i < k < j ==> !is_backjump_to(#[trigger] f.ops@[k], k, target as int),
        decreases f.ops@.len() - j,
    {
        let hit = match &f.ops[j] {
            Opcode::JAlways { offset } => if *offset < 0 {
                let back = (-(*offset as i64)) as usize;
                j + 1 >= back && j + 1 - back == target
            } else {
                false
            },
            _ => false,
        };
        proof {
            assert(hit == is_backjump_to(f.ops@[j as int], j as int, target as int));
        }
        if hit {
            return true;
        }
        j = j + 1;
    }
    false
}

/// An if scope over `cond` closing at `end` was opened on top of an
/// otherwise untouched stack.
pub open spec fn if_pushed(s0: Scopes, s1: Scopes, end: int, cond: Expr) -> bool {
    &&& s1.depth() == s0.depth() + 1
    &&& (forall|j: int| 0 <= j < s0.depth() ==> s1.stack@[j] == s0.stack@[j])
    &&& s1.top().kind == (ScopeKind::If { end: end as usize, cond })
    &&& s1.top().stmts@.len() == 0
}

/// The innermost loop (scope `j`) had its condition back-patched to
/// `cond`; everything else is untouched.
pub open spec fn loop_patched(s0: Scopes, s1: Scopes, j: int, cond: Expr) -> bool {
    &&& s1.depth() == s0.depth()
    &&& (forall|k: int| 0 <= k < s0.depth() && k != j ==> s1.stack@[k] == s0.stack@[k])
    &&& s1.stack@[j].stmts == s0.stack@[j].stmts
    &&& (s0.stack@[j].kind matches ScopeKind::Loop { start, .. } ==> s1.stack@[j].kind
        == (ScopeKind::Loop { start, cond }))
}

/// What handling a conditional jump at `i` with the (already negated)
/// condition `cond` does to the scope stack: nothing unless the jump is
/// forward; the loop-exit pattern back-patches the innermost loop's
/// still-unknown condition; every other forward jump opens an if scope
/// ending just past the jump's target.
pub open spec fn jmp_effect(
    code: Bytecode,
    f: Function,
    i: int,
    offset: int,
    cond: Expr,
    s0: Scopes,
    s1: Scopes,
) -> bool {
    &&& s1.wf()
    &&& s1.cursor == s0.cursor
    &&& (offset <= 0 ==> s1.stack@ == s0.stack@)
    &&& (offset > 0 ==> ({
        let exit = f.ops@[i + offset] matches Opcode::JAlways { offset: o2 } && o2 < 0;
        if exit {
            match spec_find_loop(s0.stack@) {
                Some(j) => if s0.stack@[j].kind matches ScopeKind::Loop { cond: c0, .. }
                    && c0 matches Expr::Unknown(_) {
                    loop_patched(s0, s1, j, cond)
                } else {
                    if_pushed(s0, s1, i + offset + 1, cond)
                },
                None => if_pushed(s0, s1, i + offset + 1, cond),
            }
        } else {
            if_pushed(s0, s1, i + offset + 1, cond)
        }
    }))
}

/// Handle a conditional forward jump at `i` whose (already negated)
/// condition is `cond`.  A jump straight to a loop's back edge is the
/// loop's exit: its condition is back-patched if still unknown.  Every
/// other forward jump opens an if scope ending just past the jump's
/// target.  Jumps that are not forward do nothing.
pub fn push_jmp(code: &Bytecode, f: &Function, scopes: &mut Scopes, i: usize, offset: i32, cond: Expr)
    requires
        f.wf(*code),
        old(scopes).wf(),
        old(scopes).cursor == i,
        offset > 0 ==> i + offset < f.ops@.len(),
    ensures
        jmp_effect(*code, *f, i as int, offset as int, cond, *old(scopes), *final(scopes)),
{
    if offset <= 0 {
        return ;
    }
    let n = f.ops.len();
    proof {
        assert(i + offset < n);
    }
    let t = i + (offset as usize);
    let exit = match &f.ops[t] {
        Opcode::JAlways { offset: o2 } => *o2 < 0,
        _ => false,
    };
    if exit {
        match scopes.try_patch_loop_cond(cond) {
            None => {},
            Some(c) => {
                scopes.push_if((offset as usize) + 1, c);
            },
        }
    } else {
        scopes.push_if((offset as usize) + 1, cond);
    }
}


/// The whole mutable state of the pass between two instructions.
pub struct PassState {
    pub scopes: Scopes,
    pub regs: RegState,
    pub seen: SeenNames,
    pub ctxs: Vec<ExprCtx>,
}

/// Nothing changed at this instruction.
pub open spec fn quiet_step(s0: PassState, sc: Scopes, rg: RegState, sn: SeenNames, cx: Vec<ExprCtx>) -> bool {
    &&& sc == s0.scopes
    &&& rg == s0.regs
    &&& sn == s0.seen
    &&& cx@ == s0.ctxs@
}

/// The instruction produced the value `e` for register `dst` and ran it
/// through the dual assignment rule; nothing else changed.
pub open spec fn assign_step(
    code: Bytecode,
    f: Function,
    i: int,
    s0: PassState,
    sc: Scopes,
    rg: RegState,
    sn: SeenNames,
    cx: Vec<ExprCtx>,
    dst: Reg,
    e: Expr,
) -> bool {
    &&& scopes_frame(s0.scopes, sc)
    &&& rg.slots@.len() == s0.regs.slots@.len()
    &&& assign_effect(code, f, s0.scopes, sc, s0.regs, rg, s0.seen, sn, i, dst, e)
    &&& cx@ == s0.ctxs@
}

/// The instruction emitted the statement `st` into the innermost scope;
/// nothing else changed.
pub open spec fn stmt_step(
    s0: PassState,
    sc: Scopes,
    rg: RegState,
    sn: SeenNames,
    cx: Vec<ExprCtx>,
    st: Statement,
) -> bool {
    &&& scopes_frame(s0.scopes, sc)
    &&& sc.top().stmts@ == s0.scopes.top().stmts@.push(st)
    &&& rg == s0.regs
    &&& sn == s0.seen
    &&& cx@ == s0.ctxs@
}

/// What a direct call instruction does: completing a matching pending
/// constructor, or a normal call while the idiom stack is untouched.
pub open spec fn direct_call_step(
    code: Bytecode,
    f: Function,
    i: int,
    s0: PassState,
    sc: Scopes,
    rg: RegState,
    sn: SeenNames,
    cx: Vec<ExprCtx>,
    dst: Reg,
    fun: RefFun,
    arg0: Reg,
    rest: Seq<Reg>,
) -> bool {
    match ctor_top(s0.ctxs@) {
        Some((reg, pos)) => if reg == arg0 {
            &&& cx@ == s0.ctxs@.drop_last()
            &&& ctor_complete_rel(
                code,
                f,
                s0.scopes,
                sc,
                s0.regs,
                rg,
                s0.seen,
                sn,
                reg,
                pos as int,
                rest,
            )
        } else {
            &&& cx@ == s0.ctxs@
            &&& normal_call_rel(
                code,
                f,
                s0.scopes,
                sc,
                s0.regs,
                rg,
                s0.seen,
                sn,
                i,
                dst,
                fun,
                arg0,
                rest,
            )
        },
        None => {
            &&& cx@ == s0.ctxs@
            &&& normal_call_rel(
                code,
                f,
                s0.scopes,
                sc,
                s0.regs,
                rg,
                s0.seen,
                sn,
                i,
                dst,
                fun,
                arg0,
                rest,
            )
        },
    }
}

/// The reconstructed (already negated) condition a conditional jump
/// carries, built from the current register values.
pub open spec fn cond_shape(op: Opcode, regs: RegState, cond: Expr) -> bool {
    match op {
        Opcode::JTrue { cond: r, .. } => exists|e: Expr|
            regs.reads_as(r, e) && crate::ast::is_op(cond, OpKind::Not, seq![e]),
        Opcode::JFalse { cond: r, .. } => regs.reads_as(r, cond),
        Opcode::JNull { reg, .. } => exists|e: Expr|
            regs.reads_as(reg, e) && crate::ast::is_op(
                cond,
                OpKind::NotEq,
                seq![e, Expr::Constant(crate::ast::Constant::Null)],
            ),
        Opcode::JNotNull { reg, .. } => exists|e: Expr|
            regs.reads_as(reg, e) && crate::ast::is_op(
                cond,
                OpKind::Eq,
                seq![e, Expr::Constant(crate::ast::Constant::Null)],
            ),
        Opcode::JSGte { a, b, .. } => exists|ea: Expr, eb: Expr|
            regs.reads_as(a, ea) && regs.reads_as(b, eb) && crate::ast::is_op(
                cond,
                OpKind::Gt,
                seq![eb, ea],
            ),
        Opcode::JUGte { a, b, .. } => exists|ea: Expr, eb: Expr|
            regs.reads_as(a, ea) && regs.reads_as(b, eb) && crate::ast::is_op(
                cond,
                OpKind::Gt,
                seq![eb, ea],
            ),
        Opcode::JSGt { a, b, .. } => exists|ea: Expr, eb: Expr|
            regs.reads_as(a, ea) && regs.reads_as(b, eb) && crate::ast::is_op(
                cond,
                OpKind::Gte,
                seq![eb, ea],
            ),
        Opcode::JSLte { a, b, .. } => exists|ea: Expr, eb: Expr|
            regs.reads_as(a, ea) && regs.reads_as(b, eb) && crate::ast::is_op(
                cond,
                OpKind::Lt,
                seq![eb, ea],
            ),
        Opcode::JSLt { a, b, .. } => exists|ea: Expr, eb: Expr|
            regs.reads_as(a, ea) && regs.reads_as(b, eb) && crate::ast::is_op(
                cond,
                OpKind::Lte,
                seq![eb, ea],
            ),
        Opcode::JULt { a, b, .. } => exists|ea: Expr, eb: Expr|
            regs.reads_as(a, ea) && regs.reads_as(b, eb) && crate::ast::is_op(
                cond,
                OpKind::Lte,
                seq![eb, ea],
            ),
        Opcode::JEq { a, b, .. } => exists|ea: Expr, eb: Expr|
            regs.reads_as(a, ea) && regs.reads_as(b, eb) && crate::ast::is_op(
                cond,
                OpKind::NotEq,
                seq![ea, eb],
            ),
        Opcode::JNotEq { a, b, .. } => exists|ea: Expr, eb: Expr|
            regs.reads_as(a, ea) && regs.reads_as(b, eb) && crate::ast::is_op(
                cond,
                OpKind::Eq,
                seq![ea, eb],
            ),
        _ => false,
    }
}

/// A conditional jump was handled: the negated condition was built from
/// the registers and the jump rule applied; nothing else changed.
pub open spec fn cond_jump_step(
    code: Bytecode,
    f: Function,
    i: int,
    offset: int,
    s0: PassState,
    sc: Scopes,
    rg: RegState,
    sn: SeenNames,
    cx: Vec<ExprCtx>,
) -> bool {
    &&& exists|cond: Expr|
        #[trigger] cond_shape(f.ops@[i], s0.regs, cond) && jmp_effect(
            code,
            f,
            i,
            offset,
            cond,
            s0.scopes,
            sc,
        )
    &&& rg == s0.regs
    &&& sn == s0.seen
    &&& cx@ == s0.ctxs@
}

/// A scope was pushed on an otherwise untouched state.
pub open spec fn scope_pushed_step(
    s0: PassState,
    sc: Scopes,
    rg: RegState,
    sn: SeenNames,
    cx: Vec<ExprCtx>,
) -> bool {
    &&& sc.wf()
    &&& sc.cursor == s0.scopes.cursor
    &&& sc.depth() == s0.scopes.depth() + 1
    &&& (forall|j: int| 0 <= j < s0.scopes.depth() ==> sc.stack@[j] == s0.scopes.stack@[j])
    &&& sc.top().stmts@.len() == 0
    &&& rg == s0.regs
    &&& sn == s0.seen
    &&& cx@ == s0.ctxs@
}

/// What one instruction of the pass does to the state, before the cursor
/// advances: the relational rendition of every opcode's handling.  The
/// body of a nested closure is pinned only by the decompiler's own
/// contract, not repeated here.
pub open spec fn op_rel(
    code: Bytecode,
    f: Function,
    i: int,
    s0: PassState,
    sc: Scopes,
    rg: RegState,
    sn: SeenNames,
    cx: Vec<ExprCtx>,
) -> bool {
    match f.ops@[i] {
        Opcode::JTrue { offset, .. } => cond_jump_step(code, f, i, offset as int, s0, sc, rg, sn, cx),
        Opcode::JFalse { offset, .. } => cond_jump_step(code, f, i, offset as int, s0, sc, rg, sn, cx),
        Opcode::JNull { offset, .. } => cond_jump_step(code, f, i, offset as int, s0, sc, rg, sn, cx),
        Opcode::JNotNull { offset, .. } => cond_jump_step(code, f, i, offset as int, s0, sc, rg, sn, cx),
        Opcode::JSGte { offset, .. } => cond_jump_step(code, f, i, offset as int, s0, sc, rg, sn, cx),
        Opcode::JUGte { offset, .. } => cond_jump_step(code, f, i, offset as int, s0, sc, rg, sn, cx),
        Opcode::JSGt { offset, .. } => cond_jump_step(code, f, i, offset as int, s0, sc, rg, sn, cx),
        Opcode::JSLte { offset, .. } => cond_jump_step(code, f, i, offset as int, s0, sc, rg, sn, cx),
        Opcode::JSLt { offset, .. } => cond_jump_step(code, f, i, offset as int, s0, sc, rg, sn, cx),
        Opcode::JULt { offset, .. } => cond_jump_step(code, f, i, offset as int, s0, sc, rg, sn, cx),
        Opcode::JEq { offset, .. } => cond_jump_step(code, f, i, offset as int, s0, sc, rg, sn, cx),
        Opcode::JNotEq { offset, .. } => cond_jump_step(code, f, i, offset as int, s0, sc, rg, sn, cx),
        Opcode::JAlways { offset } => if offset < 0 {
            spec_loop_start(s0.scopes.stack@) matches Some(ls) && (if spec_has_backjump(
                f.ops@,
                i,
                ls as int,
            ) {
                stmt_step(s0, sc, rg, sn, cx, Statement::Continue)
            } else {
                &&& s0.scopes.top().kind matches ScopeKind::Loop { .. }
                &&& s0.scopes.depth() >= 2
                &&& sc.wf()
                &&& sc.cursor == s0.scopes.cursor
                &&& sc.depth() == s0.scopes.depth() - 1
                &&& (forall|j: int|
                    0 <= j < sc.depth() - 1 ==> sc.stack@[j] == s0.scopes.stack@[j])
                &&& sc.top().kind == s0.scopes.stack@[sc.depth() - 1].kind
                &&& (s0.scopes.top().kind matches ScopeKind::Loop { cond, .. } ==> sc.top().stmts@
                    == s0.scopes.stack@[sc.depth() - 1].stmts@.push(
                    Statement::While { cond, stmts: s0.scopes.top().stmts },
                ))
                &&& rg == s0.regs
                &&& sn == s0.seen
                &&& cx@ == s0.ctxs@
            })
        } else {
            if s0.scopes.top().kind matches ScopeKind::Switch { .. } {
                &&& (s0.scopes.top().kind matches ScopeKind::Switch { offsets, .. } ==> exists|
                    p: usize,
                |
                    p < offsets@.len() && offsets@[p as int] == i && #[trigger] switch_case_effect(
                        s0.scopes,
                        sc,
                        p,
                    ))
                &&& rg == s0.regs
                &&& sn == s0.seen
                &&& cx@ == s0.ctxs@
            } else if spec_loop_start(s0.scopes.stack@) is Some {
                if f.ops@[i + offset] matches Opcode::JAlways { offset: o2 } && o2 < 0 {
                    stmt_step(s0, sc, rg, sn, cx, Statement::Break)
                } else {
                    quiet_step(s0, sc, rg, sn, cx)
                }
            } else if s0.scopes.top().kind matches ScopeKind::If { .. } {
                &&& sc.wf()
                &&& sc.cursor == s0.scopes.cursor
                &&& sc.depth() == s0.scopes.depth()
                &&& (forall|j: int|
                    0 <= j < s0.scopes.depth() - 2 ==> sc.stack@[j] == s0.scopes.stack@[j])
                &&& sc.stack@[s0.scopes.depth() - 2].kind == s0.scopes.stack@[s0.scopes.depth()
                    - 2].kind
                &&& (exists|st: Statement|
                    sc.stack@[s0.scopes.depth() - 2].stmts@ == #[trigger] s0.scopes.stack@[
                        s0.scopes.depth() - 2
                    ].stmts@.push(st) && crate::scopes::closed_matches(
                        st,
                        s0.scopes.top().kind,
                        s0.scopes.top().stmts@,
                    ))
                &&& sc.top().kind == (ScopeKind::Else { end: (i + offset + 1) as usize })
                &&& sc.top().stmts@.len() == 0
                &&& rg == s0.regs
                &&& sn == s0.seen
                &&& cx@ == s0.ctxs@
            } else {
                quiet_step(s0, sc, rg, sn, cx)
            }
        },
        Opcode::Switch { reg, offsets, end } => exists|a: Expr|
            #[trigger] s0.regs.reads_as(reg, a) && {
                &&& sc.wf()
                &&& sc.cursor == s0.scopes.cursor
                &&& sc.depth() == s0.scopes.depth() + 1
                &&& (forall|j: int|
                    0 <= j < s0.scopes.depth() ==> sc.stack@[j] == s0.scopes.stack@[j])
                &&& sc.top().kind matches ScopeKind::Switch {
                    end: e2,
                    arg: a2,
                    offsets: o2,
                    cases: cs2,
                    current: cur2,
                    default: d2,
                } && e2 == i + end + 1 && a2 == a && o2@.len() == offsets@.len() && (forall|k: int|
                    0 <= k < offsets@.len() ==> o2@[k] == i + #[trigger] offsets@[k]) && cur2
                    is None && d2@.len() == 0 && cs2@.len() == offsets@.len() && (forall|k: int|
                    0 <= k < cs2@.len() ==> (#[trigger] cs2@[k])@.len() == 0)
                &&& sc.top().stmts@.len() == 0
                &&& rg == s0.regs
                &&& sn == s0.seen
                &&& cx@ == s0.ctxs@
            },
        Opcode::Label => {
            &&& scope_pushed_step(s0, sc, rg, sn, cx)
            &&& sc.top().kind matches ScopeKind::Loop { start, cond } && start == i && cond
                matches Expr::Unknown(_)
        },
        Opcode::Ret { ret } => if s0.scopes.depth() > 1 {
            if f.spec_regtype(ret).0 == 0 {
                stmt_step(s0, sc, rg, sn, cx, Statement::Return(None))
            } else {
                exists|ev: Expr|
                    #[trigger] s0.regs.reads_as(ret, ev) && stmt_step(
                        s0,
                        sc,
                        rg,
                        sn,
                        cx,
                        Statement::Return(Some(ev)),
                    )
            }
        } else if f.spec_regtype(ret).0 != 0 {
            exists|ev: Expr|
                #[trigger] s0.regs.reads_as(ret, ev) && stmt_step(
                    s0,
                    sc,
                    rg,
                    sn,
                    cx,
                    Statement::Return(Some(ev)),
                )
        } else {
            quiet_step(s0, sc, rg, sn, cx)
        },
        Opcode::Throw { exc } => exists|ev: Expr|
            #[trigger] s0.regs.reads_as(exc, ev) && stmt_step(s0, sc, rg, sn, cx, Statement::Throw(ev)),
        Opcode::Rethrow { exc } => exists|ev: Expr|
            #[trigger] s0.regs.reads_as(exc, ev) && stmt_step(s0, sc, rg, sn, cx, Statement::Throw(ev)),
        Opcode::Trap { offset, .. } => {
            &&& scope_pushed_step(s0, sc, rg, sn, cx)
            &&& sc.top().kind == (ScopeKind::Try { end: (i + offset + 1) as usize })
        },
        Opcode::Int { dst, ptr } => assign_step(
            code,
            f,
            i,
            s0,
            sc,
            rg,
            sn,
            cx,
            dst,
            Expr::Constant(crate::ast::Constant::Int(code.ints@[ptr.0 as int])),
        ),
        Opcode::Float { dst, ptr } => assign_step(
            code,
            f,
            i,
            s0,
            sc,
            rg,
            sn,
            cx,
            dst,
            Expr::Constant(crate::ast::Constant::Float(ptr)),
        ),
        Opcode::Bool { dst, value } => assign_step(
            code,
            f,
            i,
            s0,
            sc,
            rg,
            sn,
            cx,
            dst,
            Expr::Constant(crate::ast::Constant::Bool(value)),
        ),
        Opcode::Str { dst, ptr } => assign_step(
            code,
            f,
            i,
            s0,
            sc,
            rg,
            sn,
            cx,
            dst,
            Expr::Constant(crate::ast::Constant::Str(code.strings@[ptr.0 as int])),
        ),
        Opcode::Null { dst } => assign_step(
            code,
            f,
            i,
            s0,
            sc,
            rg,
            sn,
            cx,
            dst,
            Expr::Constant(crate::ast::Constant::Null),
        ),
        Opcode::Mov { dst, src } => exists|e: Expr, rmid: RegState|
            #[trigger] s0.regs.reads_as(src, e) && scopes_frame(s0.scopes, sc) && #[trigger] assign_effect(
                code,
                f,
                s0.scopes,
                sc,
                s0.regs,
                rmid,
                s0.seen,
                sn,
                i,
                dst,
                e,
            ) && rg.slots@ == rmid.slots@.update(
                src.0 as int,
                Some(
                    Expr::Variable(
                        dst,
                        match f.spec_var_name(i) {
                            Some(ns) => Some(code.strings@[ns.0 as int]),
                            None => None,
                        },
                    ),
                ),
            ) && cx@ == s0.ctxs@,
        Opcode::Add { dst, a, b } => binop_step(code, f, i, s0, sc, rg, sn, cx, dst, OpKind::Add, a, b),
        Opcode::Sub { dst, a, b } => binop_step(code, f, i, s0, sc, rg, sn, cx, dst, OpKind::Sub, a, b),
        Opcode::Mul { dst, a, b } => binop_step(code, f, i, s0, sc, rg, sn, cx, dst, OpKind::Mul, a, b),
        Opcode::SDiv { dst, a, b } => binop_step(code, f, i, s0, sc, rg, sn, cx, dst, OpKind::Div, a, b),
        Opcode::UDiv { dst, a, b } => binop_step(code, f, i, s0, sc, rg, sn, cx, dst, OpKind::Div, a, b),
        Opcode::SMod { dst, a, b } => binop_step(code, f, i, s0, sc, rg, sn, cx, dst, OpKind::Mod, a, b),
        Opcode::UMod { dst, a, b } => binop_step(code, f, i, s0, sc, rg, sn, cx, dst, OpKind::Mod, a, b),
        Opcode::Shl { dst, a, b } => binop_step(code, f, i, s0, sc, rg, sn, cx, dst, OpKind::Shl, a, b),
        Opcode::SShr { dst, a, b } => binop_step(code, f, i, s0, sc, rg, sn, cx, dst, OpKind::Shr, a, b),
        Opcode::UShr { dst, a, b } => binop_step(code, f, i, s0, sc, rg, sn, cx, dst, OpKind::Shr, a, b),
        Opcode::And { dst, a, b } => binop_step(code, f, i, s0, sc, rg, sn, cx, dst, OpKind::And, a, b),
        Opcode::Or { dst, a, b } => binop_step(code, f, i, s0, sc, rg, sn, cx, dst, OpKind::Or, a, b),
        Opcode::Xor { dst, a, b } => binop_step(code, f, i, s0, sc, rg, sn, cx, dst, OpKind::Xor, a, b),
        Opcode::Neg { dst, src } => unop_step(code, f, i, s0, sc, rg, sn, cx, dst, OpKind::Neg, src),
        Opcode::Not { dst, src } => unop_step(code, f, i, s0, sc, rg, sn, cx, dst, OpKind::Not, src),
        Opcode::Incr { dst } => exists|ed: Expr, e: Expr|
            #[trigger] s0.regs.reads_as(dst, ed) && crate::ast::is_op(e, OpKind::Incr, seq![ed])
                && #[trigger] stmt_step(s0, sc, rg, sn, cx, Statement::ExprStmt(e)),
        Opcode::Decr { dst } => exists|ed: Expr, e: Expr|
            #[trigger] s0.regs.reads_as(dst, ed) && crate::ast::is_op(e, OpKind::Decr, seq![ed])
                && #[trigger] stmt_step(s0, sc, rg, sn, cx, Statement::ExprStmt(e)),
        Opcode::Call0 { dst, fun } => {
            &&& exists|c: Expr|
                #[trigger] crate::ast::is_fun_call(c, fun, Seq::<Expr>::empty())
                    && scopes_frame(s0.scopes, sc) && rg.slots@.len() == s0.regs.slots@.len()
                    && call_emit_effect(
                    code,
                    f,
                    s0.scopes,
                    sc,
                    s0.regs,
                    rg,
                    s0.seen,
                    sn,
                    i,
                    dst,
                    fun,
                    c,
                )
            &&& cx@ == s0.ctxs@
        },
        Opcode::Call1 { dst, fun, arg0 } => direct_call_step(
            code, f, i, s0, sc, rg, sn, cx, dst, fun, arg0, Seq::<Reg>::empty(),
        ),
        Opcode::Call2 { dst, fun, arg0, arg1 } => direct_call_step(
            code, f, i, s0, sc, rg, sn, cx, dst, fun, arg0, seq![arg1],
        ),
        Opcode::Call3 { dst, fun, arg0, arg1, arg2 } => direct_call_step(
            code, f, i, s0, sc, rg, sn, cx, dst, fun, arg0, seq![arg1, arg2],
        ),
        Opcode::Call4 { dst, fun, arg0, arg1, arg2, arg3 } => direct_call_step(
            code, f, i, s0, sc, rg, sn, cx, dst, fun, arg0, seq![arg1, arg2, arg3],
        ),
        Opcode::CallN { dst, fun, args } => direct_call_step(
            code, f, i, s0, sc, rg, sn, cx, dst, fun, args@[0], args@.skip(1),
        ),
        Opcode::CallMethod { dst, field, args } => exists|recv: Expr, es: Seq<Expr>, c: Expr|
            #[trigger] s0.regs.reads_as(args@[0], recv) && args_read(s0.regs, args@.skip(1), es)
                && #[trigger] crate::ast::is_method_call(
                c,
                recv,
                crate::ast::spec_field_name(code, f.spec_regtype(args@[0]), field),
                es,
            ) && (if spec_method_ret_void(code, f.spec_regtype(args@[0]), field) {
                stmt_step(s0, sc, rg, sn, cx, Statement::ExprStmt(c))
            } else {
                assign_step(code, f, i, s0, sc, rg, sn, cx, dst, c)
            }),
        Opcode::CallThis { dst, field, args } => crate::types::spec_method_of(
            code,
            f.regs@[0],
            field.0 as int,
        ) matches Some(p) && (exists|es: Seq<Expr>, c: Expr|
            #[trigger] args_read(s0.regs, args@, es) && #[trigger] crate::ast::is_method_call(
                c,
                Expr::Constant(crate::ast::Constant::This),
                code.strings@[p.name.0 as int]@,
                es,
            ) && (if spec_method_ret_void(code, f.regs@[0], field) {
                stmt_step(s0, sc, rg, sn, cx, Statement::ExprStmt(c))
            } else {
                assign_step(code, f, i, s0, sc, rg, sn, cx, dst, c)
            })),
        Opcode::CallClosure { dst, fun, args } => exists|ce: Expr, es: Seq<Expr>, c: Expr|
            #[trigger] s0.regs.reads_as(fun, ce) && args_read(s0.regs, args@, es)
                && #[trigger] crate::ast::is_expr_call(c, ce, es) && (if spec_closure_ret_void(
                code,
                f.spec_regtype(fun),
            ) {
                stmt_step(s0, sc, rg, sn, cx, Statement::ExprStmt(c))
            } else {
                assign_step(code, f, i, s0, sc, rg, sn, cx, dst, c)
            }),
        Opcode::StaticClosure { dst, fun } => exists|e: Expr, body: Seq<Statement>|
            #[trigger] crate::ast::is_closure(e, fun, body) && #[trigger] assign_step(
                code, f, i, s0, sc, rg, sn, cx, dst, e,
            ),
        Opcode::InstanceClosure { dst, fun, obj } => code.functions@[fun.0 as int]
            matches FunPtr::Fun(g) && (exists|eo: Expr, e: Expr|
            #[trigger] s0.regs.reads_as(obj, eo) && crate::ast::is_field(
                e,
                eo,
                match g.name {
                    Some(ns) => code.strings@[ns.0 as int]@,
                    None => "_"@,
                },
            ) && #[trigger] assign_step(code, f, i, s0, sc, rg, sn, cx, dst, e)),
        Opcode::GetGlobal { dst, global } => if f.spec_regtype(dst).0
            == crate::types::STRING_TYPE_INDEX {
            crate::types::spec_lookup_global(code.globals_initializers@, global) matches Some(x)
                && code.constants matches Some(cs) && assign_step(
                code,
                f,
                i,
                s0,
                sc,
                rg,
                sn,
                cx,
                dst,
                Expr::Constant(
                    crate::ast::Constant::Str(
                        code.strings@[cs@[x as int].fields@[0] as int],
                    ),
                ),
            )
        } else {
            match code.types@[f.spec_regtype(dst).0 as int] {
                Type::Obj(o) => assign_step(
                    code,
                    f,
                    i,
                    s0,
                    sc,
                    rg,
                    sn,
                    cx,
                    dst,
                    Expr::Variable(dst, Some(code.strings@[o.name.0 as int])),
                ),
                Type::Struct(o) => assign_step(
                    code,
                    f,
                    i,
                    s0,
                    sc,
                    rg,
                    sn,
                    cx,
                    dst,
                    Expr::Variable(dst, Some(code.strings@[o.name.0 as int])),
                ),
                Type::Enum { .. } => exists|e: Expr|
                    #[trigger] crate::ast::is_unknown(e, "unknown enum variant"@) && #[trigger] assign_step(
                        code, f, i, s0, sc, rg, sn, cx, dst, e,
                    ),
                _ => quiet_step(s0, sc, rg, sn, cx),
            }
        },
        Opcode::Field { dst, obj, field } => exists|eo: Expr, e: Expr|
            #[trigger] s0.regs.reads_as(obj, eo) && crate::ast::is_field(
                e,
                eo,
                crate::ast::spec_field_name(code, f.spec_regtype(obj), field),
            ) && #[trigger] assign_step(code, f, i, s0, sc, rg, sn, cx, dst, e),
        Opcode::GetThis { dst, field } => exists|e: Expr|
            #[trigger] crate::ast::is_field(
                e,
                Expr::Constant(crate::ast::Constant::This),
                crate::ast::spec_field_name(code, f.regs@[0], field),
            ) && #[trigger] assign_step(code, f, i, s0, sc, rg, sn, cx, dst, e),
        Opcode::SetField { obj, field, src } => if s0.ctxs@.len() > 0 {
            match s0.ctxs@.last() {
                ExprCtx::Anonymous { pos, fields, remaining, .. } => exists|ev: Expr|
                    #[trigger] s0.regs.reads_as(src, ev) && (if remaining == 1 {
                        &&& cx@ == s0.ctxs@.drop_last()
                        &&& exists|e: Expr|
                            #[trigger] crate::ast::is_anonymous(
                                e,
                                f.spec_regtype(obj),
                                fields@.push((field, ev)),
                            ) && scopes_frame(s0.scopes, sc) && rg.slots@.len()
                                == s0.regs.slots@.len() && assign_effect(
                                code,
                                f,
                                s0.scopes,
                                sc,
                                s0.regs,
                                rg,
                                s0.seen,
                                sn,
                                pos as int,
                                obj,
                                e,
                            )
                    } else {
                        &&& sc == s0.scopes
                        &&& rg == s0.regs
                        &&& sn == s0.seen
                        &&& cx@.len() == s0.ctxs@.len()
                        &&& cx@.drop_last() == s0.ctxs@.drop_last()
                        &&& cx@.last() matches ExprCtx::Anonymous {
                            pos: p2,
                            fields: f2,
                            remaining: r2,
                            total: t2,
                        } && p2 == pos && f2@ == fields@.push((field, ev)) && r2 == remaining - 1
                            && t2 == s0.ctxs@.last()->Anonymous_total
                    }),
                _ => quiet_step(s0, sc, rg, sn, cx),
            }
        } else {
            exists|eo: Expr, ev: Expr, evar: Expr|
                #[trigger] s0.regs.reads_as(obj, eo) && #[trigger] s0.regs.reads_as(src, ev)
                    && #[trigger] crate::ast::is_field(
                    evar,
                    eo,
                    crate::ast::spec_field_name(code, f.spec_regtype(obj), field),
                ) && stmt_step(
                    s0,
                    sc,
                    rg,
                    sn,
                    cx,
                    Statement::Assign { declaration: false, variable: evar, value: ev },
                )
        },
        Opcode::SetThis { field, src } => exists|ev: Expr, evar: Expr|
            #[trigger] s0.regs.reads_as(src, ev) && #[trigger] crate::ast::is_field(
                evar,
                Expr::Constant(crate::ast::Constant::This),
                crate::ast::spec_field_name(code, f.regs@[0], field),
            ) && stmt_step(
                s0,
                sc,
                rg,
                sn,
                cx,
                Statement::Assign { declaration: false, variable: evar, value: ev },
            ),
        Opcode::DynGet { dst, obj, field } => exists|eo: Expr, e: Expr|
            #[trigger] s0.regs.reads_as(obj, eo) && crate::ast::is_array(
                e,
                eo,
                Expr::Constant(crate::ast::Constant::Str(code.strings@[field.0 as int])),
            ) && #[trigger] assign_step(code, f, i, s0, sc, rg, sn, cx, dst, e),
        Opcode::DynSet { obj, field, src } => exists|eo: Expr, ev: Expr, evar: Expr|
            #[trigger] s0.regs.reads_as(obj, eo) && #[trigger] s0.regs.reads_as(src, ev)
                && #[trigger] crate::ast::is_array(
                evar,
                eo,
                Expr::Constant(crate::ast::Constant::Str(code.strings@[field.0 as int])),
            ) && stmt_step(
                s0,
                sc,
                rg,
                sn,
                cx,
                Statement::Assign { declaration: false, variable: evar, value: ev },
            ),
        Opcode::ToDyn { dst, src } => cast_step(code, f, i, s0, sc, rg, sn, cx, dst, src),
        Opcode::ToSFloat { dst, src } => cast_step(code, f, i, s0, sc, rg, sn, cx, dst, src),
        Opcode::ToUFloat { dst, src } => cast_step(code, f, i, s0, sc, rg, sn, cx, dst, src),
        Opcode::ToInt { dst, src } => cast_step(code, f, i, s0, sc, rg, sn, cx, dst, src),
        Opcode::SafeCast { dst, src } => cast_step(code, f, i, s0, sc, rg, sn, cx, dst, src),
        Opcode::UnsafeCast { dst, src } => cast_step(code, f, i, s0, sc, rg, sn, cx, dst, src),
        Opcode::ToVirtual { dst, src } => cast_step(code, f, i, s0, sc, rg, sn, cx, dst, src),
        Opcode::New { dst } => match code.types@[f.spec_regtype(dst).0 as int] {
            Type::Obj(_) => {
                &&& sc == s0.scopes
                &&& rg == s0.regs
                &&& sn == s0.seen
                &&& cx@ == s0.ctxs@.push(ExprCtx::Constructor { reg: dst, pos: i as usize })
            },
            Type::Struct(_) => {
                &&& sc == s0.scopes
                &&& rg == s0.regs
                &&& sn == s0.seen
                &&& cx@ == s0.ctxs@.push(ExprCtx::Constructor { reg: dst, pos: i as usize })
            },
            Type::Virtual { fields } => if fields@.len() == 0 {
                exists|e: Expr|
                    #[trigger] crate::ast::is_anonymous(
                        e,
                        f.spec_regtype(dst),
                        Seq::empty(),
                    ) && assign_step(code, f, i, s0, sc, rg, sn, cx, dst, e)
            } else {
                &&& sc == s0.scopes
                &&& rg == s0.regs
                &&& sn == s0.seen
                &&& cx@.len() == s0.ctxs@.len() + 1
                &&& cx@.drop_last() == s0.ctxs@
                &&& cx@.last() matches ExprCtx::Anonymous { pos, fields: fl, remaining, total }
                    && pos == i && fl@.len() == 0 && remaining == fields@.len() && total@
                    == fields@.len()
            },
            _ => exists|e: Expr|
                #[trigger] crate::ast::is_constructor(e, f.spec_regtype(dst), Seq::empty())
                    && assign_step(code, f, i, s0, sc, rg, sn, cx, dst, e),
        },
        Opcode::EnumAlloc { dst, construct } => exists|e: Expr|
            #[trigger] crate::ast::is_enum_constr(e, f.spec_regtype(dst), construct, Seq::empty())
                && assign_step(code, f, i, s0, sc, rg, sn, cx, dst, e),
        Opcode::MakeEnum { dst, construct, args } => exists|es: Seq<Expr>, e: Expr|
            #[trigger] args_read(s0.regs, args@, es) && crate::ast::is_enum_constr(
                e,
                f.spec_regtype(dst),
                construct,
                es,
            ) && #[trigger] assign_step(code, f, i, s0, sc, rg, sn, cx, dst, e),
        Opcode::GetMem { dst, bytes, index } => exists|eb: Expr, ei: Expr, e: Expr|
            #[trigger] s0.regs.reads_as(bytes, eb) && #[trigger] s0.regs.reads_as(index, ei)
                && #[trigger] crate::ast::is_array(e, eb, ei) && #[trigger] assign_step(
                code, f, i, s0, sc, rg, sn, cx, dst, e,
            ),
        _ => quiet_step(s0, sc, rg, sn, cx),
    }
}

/// A binary operator instruction: both operands are read and the
/// operator node assigned.
pub open spec fn binop_step(
    code: Bytecode,
    f: Function,
    i: int,
    s0: PassState,
    sc: Scopes,
    rg: RegState,
    sn: SeenNames,
    cx: Vec<ExprCtx>,
    dst: Reg,
    k: OpKind,
    a: Reg,
    b: Reg,
) -> bool {
    exists|ea: Expr, eb: Expr, e: Expr|
        #[trigger] s0.regs.reads_as(a, ea) && #[trigger] s0.regs.reads_as(b, eb)
            && crate::ast::is_op(
            e,
            k,
            seq![ea, eb],
        ) && #[trigger] assign_step(code, f, i, s0, sc, rg, sn, cx, dst, e)
}

/// A unary operator instruction.
pub open spec fn unop_step(
    code: Bytecode,
    f: Function,
    i: int,
    s0: PassState,
    sc: Scopes,
    rg: RegState,
    sn: SeenNames,
    cx: Vec<ExprCtx>,
    dst: Reg,
    k: OpKind,
    src: Reg,
) -> bool {
    exists|ea: Expr, e: Expr|
        #[trigger] s0.regs.reads_as(src, ea) && crate::ast::is_op(e, k, seq![ea])
            && #[trigger] assign_step(code, f, i, s0, sc, rg, sn, cx, dst, e)
}

/// A cast instruction: the value moves between registers unchanged.
pub open spec fn cast_step(
    code: Bytecode,
    f: Function,
    i: int,
    s0: PassState,
    sc: Scopes,
    rg: RegState,
    sn: SeenNames,
    cx: Vec<ExprCtx>,
    dst: Reg,
    src: Reg,
) -> bool {
    exists|e: Expr|
        #[trigger] s0.regs.reads_as(src, e) && assign_step(code, f, i, s0, sc, rg, sn, cx, dst, e)
}

/// One full instruction of the pass: its handling followed by the cursor
/// step that closes every scope whose end is reached.
pub open spec fn step_rel(code: Bytecode, f: Function, i: int, s0: PassState, s1: PassState) -> bool {
    exists|mid: Scopes|
        #[trigger] op_rel(code, f, i, s0, mid, s1.regs, s1.seen, s1.ctxs) && advance_effect(
            mid,
            s1.scopes,
        )
}

/// Whether the function's first register is pre-seeded with `this`.
pub open spec fn spec_this_seeded(code: Bytecode, f: Function) -> bool {
    f.is_method || f.spec_is_constructor(code)
}

/// Index of the first formal argument register that is not `this`.
pub open spec fn spec_seed_start(code: Bytecode, f: Function) -> int {
    if spec_this_seeded(code, f) {
        1
    } else {
        0
    }
}

/// What register `k` holds before the first instruction: `this` for a
/// method's or constructor's register zero, a variable for each formal
/// argument, nothing for every other register.
pub open spec fn seeded_slot(code: Bytecode, f: Function, k: int) -> Option<Expr> {
    let start = spec_seed_start(code, f);
    if k == 0 && start == 1 {
        Some(Expr::Constant(crate::ast::Constant::This))
    } else if start <= k < f.spec_ty(code).args@.len() {
        Some(
            Expr::Variable(
                Reg(k as usize),
                match f.spec_arg_name(k - start) {
                    Some(ns) => Some(code.strings@[ns.0 as int]),
                    None => None,
                },
            ),
        )
    } else {
        None
    }
}

/// The names recorded after seeding the first `k` registers: each named
/// formal argument's name, in order, first occurrence only.
pub open spec fn seed_names(code: Bytecode, f: Function, k: int) -> Seq<String>
    decreases k,
{
    let start = spec_seed_start(code, f);
    if k <= start {
        Seq::empty()
    } else {
        let prev = seed_names(code, f, k - 1);
        match f.spec_arg_name(k - 1 - start) {
            Some(ns) => if seen_contains(prev, code.strings@[ns.0 as int]@) {
                prev
            } else {
                prev.push(code.strings@[ns.0 as int])
            },
            None => prev,
        }
    }
}

/// The state the pass starts from: an empty body scope, the registers
/// seeded with `this` and the formal arguments, the argument names
/// recorded, and no pending idiom.
pub open spec fn init_state(code: Bytecode, f: Function, s: PassState) -> bool {
    &&& s.scopes.wf()
    &&& s.scopes.depth() == 1
    &&& s.scopes.cursor == 0
    &&& s.scopes.stack@[0].stmts@.len() == 0
    &&& s.regs.slots@.len() == f.regs@.len()
    &&& (forall|k: int|
        0 <= k < f.regs@.len() ==> #[trigger] s.regs.slots@[k] == seeded_slot(code, f, k))
    &&& s.seen.names@ == seed_names(code, f, f.spec_ty(code).args@.len() as int)
    &&& s.ctxs@.len() == 0
}

/// The trace of states the pass went through: the seeded start, then one
/// state per instruction handled, each step related to the next by
/// `step_rel`.
pub open spec fn valid_trace(code: Bytecode, f: Function, trace: Seq<PassState>) -> bool {
    &&& trace.len() >= 1
    &&& init_state(code, f, trace[0])
    &&& (forall|i: int|
        0 <= i < trace.len() - 1 ==> #[trigger] step_rel(code, f, i, trace[i], trace[i + 1]))
}

/// The structural-bug conditions at instruction `i` in state `s`: an
/// unconditional backward jump with no loop open, a loop's final back
/// edge arriving while an inner scope is still open, or a forward jump
/// into a switch that matches no recorded case entry.  A nested closure
/// counts unconditionally here; `abort_possible` refines that case.
pub open spec fn abort_basic(code: Bytecode, f: Function, i: int, s: PassState) -> bool {
    match f.ops@[i] {
        Opcode::JAlways { offset } => if offset < 0 {
            ||| spec_loop_start(s.scopes.stack@) is None
            ||| (spec_loop_start(s.scopes.stack@) matches Some(ls) && !spec_has_backjump(
                f.ops@,
                i,
                ls as int,
            ) && !(s.scopes.top().kind matches ScopeKind::Loop { .. }))
        } else {
            s.scopes.top().kind matches ScopeKind::Switch { offsets, .. } && (forall|k: int|
                0 <= k < offsets@.len() ==> offsets@[k] != i)
        },
        Opcode::StaticClosure { .. } => true,
        _ => false,
    }
}

/// The nested function `g` itself gave up: some valid run of it ends at
/// an instruction satisfying the give-up conditions.  A give-up more
/// than one closure level down is summarized by that level's own
/// closure clause of `abort_basic`.
pub open spec fn nested_abort(code: Bytecode, g: Function) -> bool {
    exists|t: Seq<PassState>|
        #[trigger] valid_trace(code, g, t) && t.len() <= g.ops@.len() && abort_basic(
            code,
            g,
            t.len() - 1,
            t.last(),
        )
}

/// The conditions under which the pass, running with `depth` closure
/// levels left, gives a function up at instruction `i` in state `s`: a
/// structural bug, or a nested closure whose budget was exhausted or
/// whose own run gave up.
pub open spec fn abort_possible(code: Bytecode, f: Function, depth: u64, i: int, s: PassState) -> bool {
    match f.ops@[i] {
        Opcode::StaticClosure { fun, .. } => depth == 0 || (code.functions@[fun.0 as int]
            matches FunPtr::Fun(g) && nested_abort(code, g)),
        _ => abort_basic(code, f, i, s),
    }
}

/// How many levels of nested closures the pass will follow.
pub const CLOSURE_DEPTH: u64 = 64;

/// Decompile a function into the statements of its body.
///
/// The pass is best-effort: unresolved register reads become `Unknown`
/// placeholders and instructions outside the supported set produce no
/// statement.  `None` is returned only when the bytecode violates the
/// structured shape the reconstruction assumes: an unconditional backward
/// jump outside any loop, a jump into a switch that matches no recorded
/// case entry, a loop whose back edge arrives while an inner scope is
/// still open, or closure nesting beyond `CLOSURE_DEPTH`.  All of those
/// arise from `JAlways` or `StaticClosure` instructions: a function
/// without them always decompiles.
/// What `decompile_function` may hand back for the function `g`: a
/// `Some` result is exactly the body scope's statements at the end of a
/// full valid trace of `g`; a `None` result comes with a valid trace
/// ending at an instruction where the pass gives up.
pub open spec fn decompiled_body_ok(
    code: Bytecode,
    g: Function,
    statements: Option<Vec<Statement>>,
) -> bool {
    match statements {
        Some(v) => exists|trace: Seq<PassState>|
            #[trigger] valid_trace(code, g, trace) && trace.len() == g.ops@.len() + 1 && v
                == trace.last().scopes.stack@[0].stmts,
        None => exists|trace: Seq<PassState>|
            #[trigger] valid_trace(code, g, trace) && trace.len() <= g.ops@.len()
                && abort_possible(code, g, CLOSURE_DEPTH, trace.len() - 1, trace.last()),
    }
}

pub fn decompile_function(code: &Bytecode, f: &Function) -> (r: Option<Vec<Statement>>)
    requires
        code.wf(),
        f.wf(*code),
    ensures
        decompiled_body_ok(*code, *f, r),
        f.ops@.len() == 0 ==> (r matches Some(v) && v@.len() == 0),
        (forall|j: int|
            0 <= j < f.ops@.len() ==> !((#[trigger] f.ops@[j]) matches Opcode::JAlways { .. })
                && !(f.ops@[j] matches Opcode::StaticClosure { .. })) ==> r is Some,
{
    let (r, gt) = decompile_depth(code, f, CLOSURE_DEPTH);
    proof {
        assert(valid_trace(*code, *f, gt@));
    }
    r
}

/// The depth-limited worker behind [`decompile_function`].  Besides the
/// result it returns the trace of pass states its run went through, one
/// per instruction handled, so that the result is pinned: a `Some`
/// result is exactly the body scope's statements at the end of a full
/// valid trace, and `None` arises only at an instruction whose state
/// satisfies `abort_possible`.
#[verifier::loop_isolation(false)]
#[verifier::rlimit(100)]
fn decompile_depth(code: &Bytecode, f: &Function, depth: u64) -> (r: (
    Option<Vec<Statement>>,
    Ghost<Seq<PassState>>,
))
    requires
        code.wf(),
        f.wf(*code),
    ensures
        valid_trace(*code, *f, r.1@),
        r.0 matches Some(v) ==> r.1@.len() == f.ops@.len() + 1 && v == r.1@.last().scopes.stack@[0].stmts,
        r.0 is None ==> r.1@.len() <= f.ops@.len() && abort_possible(
            *code,
            *f,
            depth,
            r.1@.len() - 1,
            r.1@.last(),
        ),
        f.ops@.len() == 0 ==> (r.0 matches Some(v) && v@.len() == 0),
        (forall|j: int|
            0 <= j < f.ops@.len() ==> !((#[trigger] f.ops@[j]) matches Opcode::JAlways { .. })
                && !(f.ops@[j] matches Opcode::StaticClosure { .. })) ==> r.0 is Some,
    decreases depth,
{
    let mut scopes = Scopes::new();
    let mut regs = RegState::new(f.regs.len());
    let mut ctxs: Vec<ExprCtx> = Vec::new();
    let mut seen = SeenNames::new();
    let ghost nregs = f.regs@.len() as int;

    // The first register of a method or constructor is `this`.
    let is_ctor = match f.name {
        Some(ns) => {
            let cs = String::from_str("__constructor__");
            code.strings[ns.0] == cs
        },
        None => false,
    };
    proof {
        assert(is_ctor == f.spec_is_constructor(*code));
    }
    let mut start: usize = 0;
    if f.is_method || is_ctor {
        regs.set(Reg(0), Expr::cst_this());
        start = 1;
    }
    proof {
        assert(start as int == spec_seed_start(*code, *f));
    }

    // Seed the registers holding the formal arguments.
    let nargs = f.ty(code).args.len();
    let mut k = start;
    while k < nargs
        invariant
            start <= k,
            k <= nargs || k == start,
            start as int == spec_seed_start(*code, *f),
            regs.slots@.len() == f.regs@.len(),
            nargs == f.spec_ty(*code).args@.len(),
            forall|j: int| 0 <= j < k ==> #[trigger] regs.slots@[j] == seeded_slot(*code, *f, j),
            forall|j: int| k <= j < f.regs@.len() ==> (#[trigger] regs.slots@[j]) is None,
            seen.names@ == seed_names(*code, *f, k as int),
        decreases nargs - k,
    {
        let name: Option<String> = match f.arg_name(k - start) {
            Some(ns) => Some(code.strings[ns.0].clone()),
            None => None,
        };
        let stored = match &name {
            Some(n) => Some(n.clone()),
            None => None,
        };
        regs.set(Reg(k), Expr::Variable(Reg(k), stored));
        proof {
            assert(regs.slots@[k as int] == seeded_slot(*code, *f, k as int));
        }
        match name {
            Some(n) => {
                seen.insert(n);
            },
            None => {},
        }
        proof {
            assert(seen.names@ == seed_names(*code, *f, k + 1));
        }
        k = k + 1;
    }

    let ghost mut trace: Seq<PassState> = seq![
        PassState { scopes: scopes, regs: regs, seen: seen, ctxs: ctxs },
    ];
    proof {
        assert(forall|j: int|
            0 <= j < f.regs@.len() ==> #[trigger] regs.slots@[j] == seeded_slot(*code, *f, j));
        assert(seen.names@ == seed_names(*code, *f, nargs as int));
        assert(init_state(*code, *f, trace[0]));
        assert(valid_trace(*code, *f, trace));
    }

    let mut i: usize = 0;
    while i < f.ops.len()
        invariant
            i <= f.ops@.len(),
            scopes.wf(),
            scopes.cursor == i,
            regs.slots@.len() == f.regs@.len(),
            ctxs_wf(ctxs@, nregs),
            trace.len() == i + 1,
            valid_trace(*code, *f, trace),
            trace.last().scopes == scopes,
            trace.last().regs == regs,
            trace.last().seen == seen,
            trace.last().ctxs == ctxs,
        decreases f.ops@.len() - i,
    {
        proof {
            assert(f.ops@[i as int].wf(i as int, *f, *code));
        }
        let ghost pre = trace.last();
        let op = &f.ops[i];
        match op {
            Opcode::JTrue { cond, offset } => {
                let ec = regs.get(*cond);
                let ghost gec = ec;
                let c = Expr::not(ec);
                let ghost gcond = c;
                push_jmp(code, f, &mut scopes, i, *offset, c);
                proof {
                    assert(pre.regs.reads_as(*cond, gec));
                    assert(cond_shape(f.ops@[i as int], pre.regs, gcond));
                }
            },
            Opcode::JFalse { cond, offset } => {
                let c = regs.get(*cond);
                let ghost gcond = c;
                push_jmp(code, f, &mut scopes, i, *offset, c);
                proof {
                    assert(cond_shape(f.ops@[i as int], pre.regs, gcond));
                }
            },
            Opcode::JNull { reg, offset } => {
                let er = regs.get(*reg);
                let ghost ger = er;
                let c = Expr::noteq(er, Expr::cst_null());
                let ghost gcond = c;
                push_jmp(code, f, &mut scopes, i, *offset, c);
                proof {
                    assert(pre.regs.reads_as(*reg, ger));
                    assert(cond_shape(f.ops@[i as int], pre.regs, gcond));
                }
            },
            Opcode::JNotNull { reg, offset } => {
                let er = regs.get(*reg);
                let ghost ger = er;
                let c = Expr::eq(er, Expr::cst_null());
                let ghost gcond = c;
                push_jmp(code, f, &mut scopes, i, *offset, c);
                proof {
                    assert(pre.regs.reads_as(*reg, ger));
                    assert(cond_shape(f.ops@[i as int], pre.regs, gcond));
                }
            },
            Opcode::JSGte { a, b, offset } => {
                let ea = regs.get(*a);
                let eb = regs.get(*b);
                let ghost gea = ea;
                let ghost geb = eb;
                let c = Expr::gt(eb, ea);
                let ghost gcond = c;
                push_jmp(code, f, &mut scopes, i, *offset, c);
                proof {
                    assert(pre.regs.reads_as(*a, gea) && pre.regs.reads_as(*b, geb));
                    assert(cond_shape(f.ops@[i as int], pre.regs, gcond));
                }
            },
            Opcode::JUGte { a, b, offset } => {
                let ea = regs.get(*a);
                let eb = regs.get(*b);
                let ghost gea = ea;
                let ghost geb = eb;
                let c = Expr::gt(eb, ea);
                let ghost gcond = c;
                push_jmp(code, f, &mut scopes, i, *offset, c);
                proof {
                    assert(pre.regs.reads_as(*a, gea) && pre.regs.reads_as(*b, geb));
                    assert(cond_shape(f.ops@[i as int], pre.regs, gcond));
                }
            },
            Opcode::JSGt { a, b, offset } => {
                let ea = regs.get(*a);
                let eb = regs.get(*b);
                let ghost gea = ea;
                let ghost geb = eb;
                let c = Expr::gte(eb, ea);
                let ghost gcond = c;
                push_jmp(code, f, &mut scopes, i, *offset, c);
                proof {
                    assert(pre.regs.reads_as(*a, gea) && pre.regs.reads_as(*b, geb));
                    assert(cond_shape(f.ops@[i as int], pre.regs, gcond));
                }
            },
            Opcode::JSLte { a, b, offset } => {
                let ea = regs.get(*a);
                let eb = regs.get(*b);
                let ghost gea = ea;
                let ghost geb = eb;
                let c = Expr::lt(eb, ea);
                let ghost gcond = c;
                push_jmp(code, f, &mut scopes, i, *offset, c);
                proof {
                    assert(pre.regs.reads_as(*a, gea) && pre.regs.reads_as(*b, geb));
                    assert(cond_shape(f.ops@[i as int], pre.regs, gcond));
                }
            },
            Opcode::JSLt { a, b, offset } => {
                let ea = regs.get(*a);
                let eb = regs.get(*b);
                let ghost gea = ea;
                let ghost geb = eb;
                let c = Expr::lte(eb, ea);
                let ghost gcond = c;
                push_jmp(code, f, &mut scopes, i, *offset, c);
                proof {
                    assert(pre.regs.reads_as(*a, gea) && pre.regs.reads_as(*b, geb));
                    assert(cond_shape(f.ops@[i as int], pre.regs, gcond));
                }
            },
            Opcode::JULt { a, b, offset } => {
                let ea = regs.get(*a);
                let eb = regs.get(*b);
                let ghost gea = ea;
                let ghost geb = eb;
                let c = Expr::lte(eb, ea);
                let ghost gcond = c;
                push_jmp(code, f, &mut scopes, i, *offset, c);
                proof {
                    assert(pre.regs.reads_as(*a, gea) && pre.regs.reads_as(*b, geb));
                    assert(cond_shape(f.ops@[i as int], pre.regs, gcond));
                }
            },
            Opcode::JEq { a, b, offset } => {
                let ea = regs.get(*a);
                let eb = regs.get(*b);
                let ghost gea = ea;
                let ghost geb = eb;
                let c = Expr::noteq(ea, eb);
                let ghost gcond = c;
                push_jmp(code, f, &mut scopes, i, *offset, c);
                proof {
                    assert(pre.regs.reads_as(*a, gea) && pre.regs.reads_as(*b, geb));
                    assert(cond_shape(f.ops@[i as int], pre.regs, gcond));
                }
            },
            Opcode::JNotEq { a, b, offset } => {
                let ea = regs.get(*a);
                let eb = regs.get(*b);
                let ghost gea = ea;
                let ghost geb = eb;
                let c = Expr::eq(ea, eb);
                let ghost gcond = c;
                push_jmp(code, f, &mut scopes, i, *offset, c);
                proof {
                    assert(pre.regs.reads_as(*a, gea) && pre.regs.reads_as(*b, geb));
                    assert(cond_shape(f.ops@[i as int], pre.regs, gcond));
                }
            },
            Opcode::JAlways { offset } => {
                if *offset < 0 {
                    // Either a loop's back edge or a continue.
                    let loop_start = match scopes.last_loop_start() {
                        Some(s2) => s2,
                        None => {
                            // A backward jump outside any loop breaks the
                            // structured shape: give the function up.
                            return (None, Ghost(trace));
                        },
                    };
                    if scan_backjump(f, i, loop_start) {
                        // Not the last back edge of this loop.
                        scopes.push_stmt(Statement::Continue);
                    } else {
                        match scopes.end_last_loop() {
                            Some(st) => {
                                scopes.push_stmt(st);
                            },
                            None => {
                                // The innermost scope is not the loop.
                                return (None, Ghost(trace));
                            },
                        }
                    }
                } else {
                    if scopes.last_is_switch_ctx() {
                        match scopes.switch_offset_pos(i) {
                            Some(pos) => {
                                scopes.push_switch_case(pos);
                                proof {
                                    assert(switch_case_effect(pre.scopes, scopes, pos));
                                }
                            },
                            None => {
                                // No case entry recorded at this index.
                                return (None, Ghost(trace));
                            },
                        }
                    } else if match scopes.last_loop_start() {
                        Some(_) => true,
                        None => false,
                    } {
                        // Inside a loop, a forward jump to just before the
                        // back edge is a break; anything else is left alone.
                        let n = f.ops.len();
                        proof {
                            assert(i + *offset < n);
                        }
                        let t = i + (*offset as usize);
                        let is_back = match &f.ops[t] {
                            Opcode::JAlways { offset: o2 } => *o2 < 0,
                            _ => false,
                        };
                        if is_back {
                            scopes.push_stmt(Statement::Break);
                        }
                    } else if scopes.last_is_if() {
                        // The jump over an else clause.
                        proof {
                            assert(scopes.depth() >= 2);
                        }
                        scopes.push_else((*offset as usize) + 1);
                    }
                    // Otherwise: a stray forward jump; nothing is emitted.
                }
            },
            Opcode::Switch { reg, offsets, end } => {
                let mut abs: Vec<usize> = Vec::new();
                let mut k2: usize = 0;
                while k2 < offsets.len()
                    invariant
                        k2 <= offsets@.len(),
                        abs@.len() == k2,
                        forall|k3: int| 0 <= k3 < k2 ==> abs@[k3] == i + #[trigger] offsets@[k3],
                        f.ops@[i as int] == (Opcode::Switch {
                            reg: *reg,
                            offsets: *offsets,
                            end: *end,
                        }),
                    decreases offsets@.len() - k2,
                {
                    abs.push(i + offsets[k2]);
                    k2 = k2 + 1;
                }
                let e = regs.get(*reg);
                let ghost ga = e;
                scopes.push_switch(*end + 1, e, abs);
                proof {
                    assert(pre.regs.reads_as(*reg, ga));
                }
            },
            Opcode::Label => {
                scopes.push_loop(i);
            },
            Opcode::Ret { ret } => {
                // A void return is shown only as an early return from
                // inside control flow; at the top level it is suppressed.
                if scopes.has_scopes() {
                    let e = if f.regtype(*ret).is_void() {
                        None
                    } else {
                        Some(regs.get(*ret))
                    };
                    scopes.push_stmt(Statement::Return(e));
                } else {
                    if !f.regtype(*ret).is_void() {
                        scopes.push_stmt(Statement::Return(Some(regs.get(*ret))));
                    }
                }
            },
            // Exceptions.
            Opcode::Throw { exc } => {
                scopes.push_stmt(Statement::Throw(regs.get(*exc)));
            },
            Opcode::Rethrow { exc } => {
                scopes.push_stmt(Statement::Throw(regs.get(*exc)));
            },
            Opcode::Trap { exc: _, offset } => {
                scopes.push_try(*offset + 1);
            },
            Opcode::EndTrap { .. } => {
                // Catch clauses are not reconstructed.
            },
            // Constants.
            Opcode::Int { dst, ptr } => {
                let e = Expr::cst_int(code.ints[ptr.0]);
                push_expr(code, f, &mut scopes, &mut regs, &mut seen, i, *dst, e);
            },
            Opcode::Float { dst, ptr } => {
                let e = Expr::cst_float(*ptr);
                push_expr(code, f, &mut scopes, &mut regs, &mut seen, i, *dst, e);
            },
            Opcode::Bool { dst, value } => {
                let e = Expr::cst_bool(*value);
                push_expr(code, f, &mut scopes, &mut regs, &mut seen, i, *dst, e);
            },
            Opcode::Str { dst, ptr } => {
                let e = Expr::cst_refstring(*ptr, code);
                push_expr(code, f, &mut scopes, &mut regs, &mut seen, i, *dst, e);
            },
            Opcode::Null { dst } => {
                let e = Expr::cst_null();
                push_expr(code, f, &mut scopes, &mut regs, &mut seen, i, *dst, e);
            },
            // Operators.
            Opcode::Mov { dst, src } => {
                let e = regs.get(*src);
                let ghost ge = e;
                push_expr(code, f, &mut scopes, &mut regs, &mut seen, i, *dst, e);
                let ghost grmid = regs;
                // Deliberate workaround for instructions that later use the
                // source and destination interchangeably: the source now
                // refers to the destination's variable.
                let name: Option<String> = match f.var_name(i) {
                    Some(ns) => {
                        proof {
                            crate::types::lemma_lookup_assign_bound(
                                f.assigns@,
                                i as int,
                                code.strings@.len() as int,
                            );
                        }
                        Some(code.strings[ns.0].clone())
                    },
                    None => None,
                };
                regs.set(*src, Expr::Variable(*dst, name));
                proof {
                    assert(pre.regs.reads_as(*src, ge));
                    assert(assign_effect(
                        *code,
                        *f,
                        pre.scopes,
                        scopes,
                        pre.regs,
                        grmid,
                        pre.seen,
                        seen,
                        i as int,
                        *dst,
                        ge,
                    ));
                }
            },
            Opcode::Add { dst, a, b } => {
                let ea = regs.get(*a);
                let eb = regs.get(*b);
                let ghost gea = ea;
                let ghost geb = eb;
                let e = Expr::add(ea, eb);
                let ghost ge = e;
                push_expr(code, f, &mut scopes, &mut regs, &mut seen, i, *dst, e);
                proof {
                    assert(pre.regs.reads_as(*a, gea) && pre.regs.reads_as(*b, geb));
                    assert(assign_step(*code, *f, i as int, pre, scopes, regs, seen, ctxs, *dst, ge));
                }
            },
            Opcode::Sub { dst, a, b } => {
                let ea = regs.get(*a);
                let eb = regs.get(*b);
                let ghost gea = ea;
                let ghost geb = eb;
                let e = Expr::sub(ea, eb);
                let ghost ge = e;
                push_expr(code, f, &mut scopes, &mut regs, &mut seen, i, *dst, e);
                proof {
                    assert(pre.regs.reads_as(*a, gea) && pre.regs.reads_as(*b, geb));
                    assert(assign_step(*code, *f, i as int, pre, scopes, regs, seen, ctxs, *dst, ge));
                }
            },
            Opcode::Mul { dst, a, b } => {
                let ea = regs.get(*a);
                let eb = regs.get(*b);
                let ghost gea = ea;
                let ghost geb = eb;
                let e = Expr::mul(ea, eb);
                let ghost ge = e;
                push_expr(code, f, &mut scopes, &mut regs, &mut seen, i, *dst, e);
                proof {
                    assert(pre.regs.reads_as(*a, gea) && pre.regs.reads_as(*b, geb));
                    assert(assign_step(*code, *f, i as int, pre, scopes, regs, seen, ctxs, *dst, ge));
                }
            },
            Opcode::SDiv { dst, a, b } => {
                let ea = regs.get(*a);
                let eb = regs.get(*b);
                let ghost gea = ea;
                let ghost geb = eb;
                let e = Expr::div(ea, eb);
                let ghost ge = e;
                push_expr(code, f, &mut scopes, &mut regs, &mut seen, i, *dst, e);
                proof {
                    assert(pre.regs.reads_as(*a, gea) && pre.regs.reads_as(*b, geb));
                    assert(assign_step(*code, *f, i as int, pre, scopes, regs, seen, ctxs, *dst, ge));
                }
            },
            Opcode::UDiv { dst, a, b } => {
                let ea = regs.get(*a);
                let eb = regs.get(*b);
                let ghost gea = ea;
                let ghost geb = eb;
                let e = Expr::div(ea, eb);
                let ghost ge = e;
                push_expr(code, f, &mut scopes, &mut regs, &mut seen, i, *dst, e);
                proof {
                    assert(pre.regs.reads_as(*a, gea) && pre.regs.reads_as(*b, geb));
                    assert(assign_step(*code, *f, i as int, pre, scopes, regs, seen, ctxs, *dst, ge));
                }
            },
            Opcode::SMod { dst, a, b } => {
                let ea = regs.get(*a);
                let eb = regs.get(*b);
                let ghost gea = ea;
                let ghost geb = eb;
                let e = Expr::modulo(ea, eb);
                let ghost ge = e;
                push_expr(code, f, &mut scopes, &mut regs, &mut seen, i, *dst, e);
                proof {
                    assert(pre.regs.reads_as(*a, gea) && pre.regs.reads_as(*b, geb));
                    assert(assign_step(*code, *f, i as int, pre, scopes, regs, seen, ctxs, *dst, ge));
                }
            },
            Opcode::UMod { dst, a, b } => {
                let ea = regs.get(*a);
                let eb = regs.get(*b);
                let ghost gea = ea;
                let ghost geb = eb;
                let e = Expr::modulo(ea, eb);
                let ghost ge = e;
                push_expr(code, f, &mut scopes, &mut regs, &mut seen, i, *dst, e);
                proof {
                    assert(pre.regs.reads_as(*a, gea) && pre.regs.reads_as(*b, geb));
                    assert(assign_step(*code, *f, i as int, pre, scopes, regs, seen, ctxs, *dst, ge));
                }
            },
            Opcode::Shl { dst, a, b } => {
                let ea = regs.get(*a);
                let eb = regs.get(*b);
                let ghost gea = ea;
                let ghost geb = eb;
                let e = Expr::shl(ea, eb);
                let ghost ge = e;
                push_expr(code, f, &mut scopes, &mut regs, &mut seen, i, *dst, e);
                proof {
                    assert(pre.regs.reads_as(*a, gea) && pre.regs.reads_as(*b, geb));
                    assert(assign_step(*code, *f, i as int, pre, scopes, regs, seen, ctxs, *dst, ge));
                }
            },
            Opcode::SShr { dst, a, b } => {
                let ea = regs.get(*a);
                let eb = regs.get(*b);
                let ghost gea = ea;
                let ghost geb = eb;
                let e = Expr::shr(ea, eb);
                let ghost ge = e;
                push_expr(code, f, &mut scopes, &mut regs, &mut seen, i, *dst, e);
                proof {
                    assert(pre.regs.reads_as(*a, gea) && pre.regs.reads_as(*b, geb));
                    assert(assign_step(*code, *f, i as int, pre, scopes, regs, seen, ctxs, *dst, ge));
                }
            },
            Opcode::UShr { dst, a, b } => {
                let ea = regs.get(*a);
                let eb = regs.get(*b);
                let ghost gea = ea;
                let ghost geb = eb;
                let e = Expr::shr(ea, eb);
                let ghost ge = e;
                push_expr(code, f, &mut scopes, &mut regs, &mut seen, i, *dst, e);
                proof {
                    assert(pre.regs.reads_as(*a, gea) && pre.regs.reads_as(*b, geb));
                    assert(assign_step(*code, *f, i as int, pre, scopes, regs, seen, ctxs, *dst, ge));
                }
            },
            Opcode::And { dst, a, b } => {
                let ea = regs.get(*a);
                let eb = regs.get(*b);
                let ghost gea = ea;
                let ghost geb = eb;
                let e = Expr::and(ea, eb);
                let ghost ge = e;
                push_expr(code, f, &mut scopes, &mut regs, &mut seen, i, *dst, e);
                proof {
                    assert(pre.regs.reads_as(*a, gea) && pre.regs.reads_as(*b, geb));
                    assert(assign_step(*code, *f, i as int, pre, scopes, regs, seen, ctxs, *dst, ge));
                }
            },
            Opcode::Or { dst, a, b } => {
                let ea = regs.get(*a);
                let eb = regs.get(*b);
                let ghost gea = ea;
                let ghost geb = eb;
                let e = Expr::or(ea, eb);
                let ghost ge = e;
                push_expr(code, f, &mut scopes, &mut regs, &mut seen, i, *dst, e);
                proof {
                    assert(pre.regs.reads_as(*a, gea) && pre.regs.reads_as(*b, geb));
                    assert(assign_step(*code, *f, i as int, pre, scopes, regs, seen, ctxs, *dst, ge));
                }
            },
            Opcode::Xor { dst, a, b } => {
                let ea = regs.get(*a);
                let eb = regs.get(*b);
                let ghost gea = ea;
                let ghost geb = eb;
                let e = Expr::xor(ea, eb);
                let ghost ge = e;
                push_expr(code, f, &mut scopes, &mut regs, &mut seen, i, *dst, e);
                proof {
                    assert(pre.regs.reads_as(*a, gea) && pre.regs.reads_as(*b, geb));
                    assert(assign_step(*code, *f, i as int, pre, scopes, regs, seen, ctxs, *dst, ge));
                }
            },
            Opcode::Neg { dst, src } => {
                let ea = regs.get(*src);
                let ghost gea = ea;
                let e = Expr::neg(ea);
                let ghost ge = e;
                push_expr(code, f, &mut scopes, &mut regs, &mut seen, i, *dst, e);
                proof {
                    assert(pre.regs.reads_as(*src, gea));
                    assert(assign_step(*code, *f, i as int, pre, scopes, regs, seen, ctxs, *dst, ge));
                }
            },
            Opcode::Not { dst, src } => {
                let ea = regs.get(*src);
                let ghost gea = ea;
                let e = Expr::not(ea);
                let ghost ge = e;
                push_expr(code, f, &mut scopes, &mut regs, &mut seen, i, *dst, e);
                proof {
                    assert(pre.regs.reads_as(*src, gea));
                    assert(assign_step(*code, *f, i as int, pre, scopes, regs, seen, ctxs, *dst, ge));
                }
            },
            Opcode::Incr { dst } => {
                let ed = regs.get(*dst);
                let ghost ged = ed;
                let e = Expr::incr(ed);
                let ghost ge = e;
                scopes.push_stmt(Statement::stmt(e));
                proof {
                    assert(pre.regs.reads_as(*dst, ged));
                    assert(stmt_step(pre, scopes, regs, seen, ctxs, Statement::ExprStmt(ge)));
                }
            },
            Opcode::Decr { dst } => {
                let ed = regs.get(*dst);
                let ghost ged = ed;
                let e = Expr::decr(ed);
                let ghost ge = e;
                scopes.push_stmt(Statement::stmt(e));
                proof {
                    assert(pre.regs.reads_as(*dst, ged));
                    assert(stmt_step(pre, scopes, regs, seen, ctxs, Statement::ExprStmt(ge)));
                }
            },
            // Calls.
            Opcode::Call0 { dst, fun } => {
                let call = Expr::call_fun(*fun, Vec::new());
                let ghost gc = call;
                if fun_ret_is_void(code, *fun) {
                    scopes.push_stmt(Statement::stmt(call));
                } else {
                    push_expr(code, f, &mut scopes, &mut regs, &mut seen, i, *dst, call);
                }
                proof {
                    assert(crate::ast::is_fun_call(gc, *fun, Seq::<Expr>::empty()));
                }
            },
            Opcode::Call1 { dst, fun, arg0 } => {
                let rest: Vec<Reg> = Vec::new();
                let ghost grest = rest@;
                push_call(
                    code, f, &mut scopes, &mut regs, &mut seen, &mut ctxs, i, *dst, *fun, *arg0,
                    rest,
                );
                proof {
                    assert(grest =~= Seq::<Reg>::empty());
                }
            },
            Opcode::Call2 { dst, fun, arg0, arg1 } => {
                let rest: Vec<Reg> = vec![*arg1];
                let ghost grest = rest@;
                push_call(
                    code, f, &mut scopes, &mut regs, &mut seen, &mut ctxs, i, *dst, *fun, *arg0,
                    rest,
                );
                proof {
                    assert(grest =~= seq![*arg1]);
                }
            },
            Opcode::Call3 { dst, fun, arg0, arg1, arg2 } => {
                let rest: Vec<Reg> = vec![*arg1, *arg2];
                let ghost grest = rest@;
                push_call(
                    code, f, &mut scopes, &mut regs, &mut seen, &mut ctxs, i, *dst, *fun, *arg0,
                    rest,
                );
                proof {
                    assert(grest =~= seq![*arg1, *arg2]);
                }
            },
            Opcode::Call4 { dst, fun, arg0, arg1, arg2, arg3 } => {
                let rest: Vec<Reg> = vec![*arg1, *arg2, *arg3];
                let ghost grest = rest@;
                push_call(
                    code, f, &mut scopes, &mut regs, &mut seen, &mut ctxs, i, *dst, *fun, *arg0,
                    rest,
                );
                proof {
                    assert(grest =~= seq![*arg1, *arg2, *arg3]);
                }
            },
            Opcode::CallN { dst, fun, args } => {
                let a0 = args[0];
                let rest = reg_tail(args);
                push_call(
                    code, f, &mut scopes, &mut regs, &mut seen, &mut ctxs, i, *dst, *fun, a0, rest,
                );
            },
            Opcode::CallMethod { dst, field, args } => {
                let a0 = args[0];
                let rt = f.regtype(a0);
                let recv = regs.get(a0);
                let ghost grecv = recv;
                let callee = Expr::field_of(recv, rt, *field, code);
                let cargs = exprs_of_regs(&regs, args, 1);
                let ghost ges = cargs@;
                let call = Expr::call(callee, cargs);
                let ghost gc = call;
                if method_ret_is_void(code, rt, *field) {
                    scopes.push_stmt(Statement::stmt(call));
                } else {
                    push_expr(code, f, &mut scopes, &mut regs, &mut seen, i, *dst, call);
                }
                proof {
                    assert(pre.regs.reads_as(args@[0], grecv));
                    assert(args_read(pre.regs, args@.skip(1), ges));
                    assert(crate::ast::is_method_call(
                        gc,
                        grecv,
                        crate::ast::spec_field_name(*code, f.spec_regtype(args@[0]), *field),
                        ges,
                    ));
                }
            },
            Opcode::CallThis { dst, field, args } => {
                let rt0 = f.regtype(Reg(0));
                let pname = match crate::types::method_of(code, rt0, field.0) {
                    Some(p) => p.name,
                    None => unreached(),
                };
                proof {
                    assert(crate::types::type_wf(code.types@[rt0.0 as int], *code));
                }
                let callee = Expr::Field(
                    Box::new(Expr::cst_this()),
                    code.strings[pname.0].clone(),
                );
                let cargs = exprs_of_regs(&regs, args, 0);
                let ghost ges = cargs@;
                let call = Expr::call(callee, cargs);
                let ghost gc = call;
                if method_ret_is_void(code, rt0, *field) {
                    scopes.push_stmt(Statement::stmt(call));
                } else {
                    push_expr(code, f, &mut scopes, &mut regs, &mut seen, i, *dst, call);
                }
                proof {
                    assert(args@.skip(0) =~= args@);
                    assert(args_read(pre.regs, args@, ges));
                    assert(crate::types::spec_method_of(*code, f.regs@[0], (*field).0 as int)
                        matches Some(p) && p.name == pname);
                    assert(crate::ast::is_method_call(
                        gc,
                        Expr::Constant(crate::ast::Constant::This),
                        code.strings@[pname.0 as int]@,
                        ges,
                    ));
                    if spec_method_ret_void(*code, f.regs@[0], *field) {
                        assert(stmt_step(pre, scopes, regs, seen, ctxs, Statement::ExprStmt(gc)));
                    } else {
                        assert(assign_step(
                            *code,
                            *f,
                            i as int,
                            pre,
                            scopes,
                            regs,
                            seen,
                            ctxs,
                            *dst,
                            gc,
                        ));
                    }
                }
            },
            Opcode::CallClosure { dst, fun, args } => {
                let ce = regs.get(*fun);
                let ghost gce = ce;
                let cargs = exprs_of_regs(&regs, args, 0);
                let ghost ges = cargs@;
                let call = Expr::call(ce, cargs);
                let ghost gc = call;
                if closure_ret_is_void(code, f.regtype(*fun)) {
                    scopes.push_stmt(Statement::stmt(call));
                } else {
                    push_expr(code, f, &mut scopes, &mut regs, &mut seen, i, *dst, call);
                }
                proof {
                    assert(args@.skip(0) =~= args@);
                    assert(pre.regs.reads_as(*fun, gce));
                    assert(args_read(pre.regs, args@, ges));
                    assert(crate::ast::is_expr_call(gc, gce, ges));
                }
            },
            // Closures.
            Opcode::StaticClosure { dst, fun } => {
                if depth == 0 {
                    return (None, Ghost(trace));
                }
                let g = match &code.functions[fun.0] {
                    FunPtr::Fun(g) => g,
                    FunPtr::Native(_) => unreached(),
                };
                let (inner, inner_trace) = decompile_depth(code, g, depth - 1);
                match inner {
                    Some(body) => {
                        let ghost gbody = body@;
                        let e = Expr::closure(*fun, body);
                        let ghost ge = e;
                        push_expr(code, f, &mut scopes, &mut regs, &mut seen, i, *dst, e);
                        proof {
                            assert(crate::ast::is_closure(ge, *fun, gbody));
                            assert(assign_step(
                                *code,
                                *f,
                                i as int,
                                pre,
                                scopes,
                                regs,
                                seen,
                                ctxs,
                                *dst,
                                ge,
                            ));
                        }
                    },
                    None => {
                        proof {
                            assert(abort_basic(
                                *code,
                                *g,
                                inner_trace@.len() - 1,
                                inner_trace@.last(),
                            ));
                            assert(nested_abort(*code, *g));
                        }
                        return (None, Ghost(trace));
                    },
                }
            },
            Opcode::InstanceClosure { dst, fun, obj } => {
                let g = match &code.functions[fun.0] {
                    FunPtr::Fun(g) => g,
                    FunPtr::Native(_) => unreached(),
                };
                let nm: String = match g.name {
                    Some(ns) => code.strings[ns.0].clone(),
                    None => String::from_str("_"),
                };
                let eo = regs.get(*obj);
                let ghost geo = eo;
                let e = Expr::Field(Box::new(eo), nm);
                let ghost ge = e;
                push_expr(code, f, &mut scopes, &mut regs, &mut seen, i, *dst, e);
                proof {
                    assert(pre.regs.reads_as(*obj, geo));
                    assert(assign_step(*code, *f, i as int, pre, scopes, regs, seen, ctxs, *dst, ge));
                }
            },
            // Accesses.
            Opcode::GetGlobal { dst, global } => {
                let rt = f.regtype(*dst);
                if rt.0 == crate::types::STRING_TYPE_INDEX {
                    // The global holds an interned string constant.
                    let x = match code.lookup_global(*global) {
                        Some(x) => x,
                        None => unreached(),
                    };
                    match &code.constants {
                        Some(cs) => {
                            let sidx = cs[x].fields[0];
                            let e = Expr::cst_string(code.strings[sidx].clone());
                            push_expr(code, f, &mut scopes, &mut regs, &mut seen, i, *dst, e);
                            proof {
                                assert(assign_step(
                                    *code,
                                    *f,
                                    i as int,
                                    pre,
                                    scopes,
                                    regs,
                                    seen,
                                    ctxs,
                                    *dst,
                                    Expr::Constant(
                                        crate::ast::Constant::Str(
                                            code.strings@[cs@[x as int].fields@[0] as int],
                                        ),
                                    ),
                                ));
                            }
                        },
                        None => unreached(),
                    }
                } else {
                    match &code.types[rt.0] {
                        Type::Obj(o) => {
                            proof {
                                assert(crate::types::type_wf(code.types@[rt.0 as int], *code));
                            }
                            let e = Expr::Variable(*dst, Some(code.strings[o.name.0].clone()));
                            push_expr(code, f, &mut scopes, &mut regs, &mut seen, i, *dst, e);
                            proof {
                                assert(assign_step(
                                    *code,
                                    *f,
                                    i as int,
                                    pre,
                                    scopes,
                                    regs,
                                    seen,
                                    ctxs,
                                    *dst,
                                    Expr::Variable(*dst, Some(code.strings@[o.name.0 as int])),
                                ));
                            }
                        },
                        Type::Struct(o) => {
                            proof {
                                assert(crate::types::type_wf(code.types@[rt.0 as int], *code));
                            }
                            let e = Expr::Variable(*dst, Some(code.strings[o.name.0].clone()));
                            push_expr(code, f, &mut scopes, &mut regs, &mut seen, i, *dst, e);
                            proof {
                                assert(assign_step(
                                    *code,
                                    *f,
                                    i as int,
                                    pre,
                                    scopes,
                                    regs,
                                    seen,
                                    ctxs,
                                    *dst,
                                    Expr::Variable(*dst, Some(code.strings@[o.name.0 as int])),
                                ));
                            }
                        },
                        Type::Enum { .. } => {
                            let e = Expr::Unknown(String::from_str("unknown enum variant"));
                            let ghost ge = e;
                            push_expr(code, f, &mut scopes, &mut regs, &mut seen, i, *dst, e);
                            proof {
                                assert(crate::ast::is_unknown(ge, "unknown enum variant"@));
                                assert(assign_step(
                                    *code,
                                    *f,
                                    i as int,
                                    pre,
                                    scopes,
                                    regs,
                                    seen,
                                    ctxs,
                                    *dst,
                                    ge,
                                ));
                            }
                        },
                        _ => {},
                    }
                }
            },
            Opcode::Field { dst, obj, field } => {
                let eo = regs.get(*obj);
                let ghost geo = eo;
                let e = Expr::field_of(eo, f.regtype(*obj), *field, code);
                let ghost ge = e;
                push_expr(code, f, &mut scopes, &mut regs, &mut seen, i, *dst, e);
                proof {
                    assert(pre.regs.reads_as(*obj, geo));
                    assert(crate::ast::is_field(
                        ge,
                        geo,
                        crate::ast::spec_field_name(*code, f.spec_regtype(*obj), *field),
                    ));
                    assert(assign_step(*code, *f, i as int, pre, scopes, regs, seen, ctxs, *dst, ge));
                }
            },
            Opcode::SetField { obj, field, src } => {
                let ghost pre_ctxs = ctxs@;
                let ctx = ctxs.pop();
                match ctx {
                    Some(ExprCtx::Anonymous { pos, mut fields, remaining, total }) => {
                        // A field write on a pending anonymous structure
                        // fills one more entry.
                        proof {
                            assert(ctx_wf(pre_ctxs.last(), nregs));
                        }
                        let ghost gfields0 = fields@;
                        let ev = regs.get(*src);
                        let ghost gev = ev;
                        fields.push((*field, ev));
                        let remaining2 = remaining - 1;
                        if remaining2 == 0 {
                            let e = Expr::anonymous(f.regtype(*obj), fields);
                            let ghost ge = e;
                            push_expr(code, f, &mut scopes, &mut regs, &mut seen, pos, *obj, e);
                            proof {
                                assert(pre.regs.reads_as(*src, gev));
                                assert(crate::ast::is_anonymous(
                                    ge,
                                    f.spec_regtype(*obj),
                                    gfields0.push((*field, gev)),
                                ));
                            }
                        } else {
                            ctxs.push(
                                ExprCtx::Anonymous {
                                    pos,
                                    fields,
                                    remaining: remaining2,
                                    total,
                                },
                            );
                            proof {
                                assert(pre.regs.reads_as(*src, gev));
                                assert(ctxs@.drop_last() =~= pre_ctxs.drop_last());
                            }
                        }
                    },
                    Some(other) => {
                        // An unrelated pending idiom is kept; the write is
                        // part of a construction and emits nothing.
                        ctxs.push(other);
                        proof {
                            assert(ctxs@ =~= pre_ctxs);
                        }
                    },
                    None => {
                        let eo = regs.get(*obj);
                        let ghost geo = eo;
                        let variable = Expr::field_of(eo, f.regtype(*obj), *field, code);
                        let ghost gvar = variable;
                        let value = regs.get(*src);
                        let ghost gval = value;
                        scopes.push_stmt(
                            Statement::Assign { declaration: false, variable, value },
                        );
                        proof {
                            assert(pre.regs.reads_as(*obj, geo) && pre.regs.reads_as(*src, gval));
                            assert(crate::ast::is_field(
                                gvar,
                                geo,
                                crate::ast::spec_field_name(*code, f.spec_regtype(*obj), *field),
                            ));
                        }
                    },
                }
            },
            Opcode::GetThis { dst, field } => {
                let e = Expr::field_of(Expr::cst_this(), f.regtype(Reg(0)), *field, code);
                let ghost ge = e;
                push_expr(code, f, &mut scopes, &mut regs, &mut seen, i, *dst, e);
                proof {
                    assert(crate::ast::is_field(
                        ge,
                        Expr::Constant(crate::ast::Constant::This),
                        crate::ast::spec_field_name(*code, f.regs@[0], *field),
                    ));
                    assert(assign_step(*code, *f, i as int, pre, scopes, regs, seen, ctxs, *dst, ge));
                }
            },
            Opcode::SetThis { field, src } => {
                let variable = Expr::field_of(Expr::cst_this(), f.regtype(Reg(0)), *field, code);
                let ghost gvar = variable;
                let value = regs.get(*src);
                let ghost gval = value;
                scopes.push_stmt(Statement::Assign { declaration: false, variable, value });
                proof {
                    assert(pre.regs.reads_as(*src, gval));
                    assert(crate::ast::is_field(
                        gvar,
                        Expr::Constant(crate::ast::Constant::This),
                        crate::ast::spec_field_name(*code, f.regs@[0], *field),
                    ));
                }
            },
            Opcode::DynGet { dst, obj, field } => {
                let eo = regs.get(*obj);
                let ghost geo = eo;
                let e = Expr::array(eo, Expr::cst_refstring(*field, code));
                let ghost ge = e;
                push_expr(code, f, &mut scopes, &mut regs, &mut seen, i, *dst, e);
                proof {
                    assert(pre.regs.reads_as(*obj, geo));
                    assert(crate::ast::is_array(
                        ge,
                        geo,
                        Expr::Constant(crate::ast::Constant::Str(code.strings@[field.0 as int])),
                    ));
                    assert(assign_step(*code, *f, i as int, pre, scopes, regs, seen, ctxs, *dst, ge));
                }
            },
            Opcode::DynSet { obj, field, src } => {
                let eo = regs.get(*obj);
                let ghost geo = eo;
                let variable = Expr::array(eo, Expr::cst_refstring(*field, code));
                let ghost gvar = variable;
                let value = regs.get(*src);
                let ghost gval = value;
                scopes.push_stmt(Statement::Assign { declaration: false, variable, value });
                proof {
                    assert(pre.regs.reads_as(*obj, geo) && pre.regs.reads_as(*src, gval));
                    assert(crate::ast::is_array(
                        gvar,
                        geo,
                        Expr::Constant(crate::ast::Constant::Str(code.strings@[field.0 as int])),
                    ));
                }
            },
            // Casts keep the value; cast syntax is not reconstructed.
            Opcode::ToDyn { dst, src } => {
                let e = regs.get(*src);
                let ghost ge = e;
                push_expr(code, f, &mut scopes, &mut regs, &mut seen, i, *dst, e);
                proof {
                    assert(pre.regs.reads_as(*src, ge));
                }
            },
            Opcode::ToSFloat { dst, src } => {
                let e = regs.get(*src);
                let ghost ge = e;
                push_expr(code, f, &mut scopes, &mut regs, &mut seen, i, *dst, e);
                proof {
                    assert(pre.regs.reads_as(*src, ge));
                }
            },
            Opcode::ToUFloat { dst, src } => {
                let e = regs.get(*src);
                let ghost ge = e;
                push_expr(code, f, &mut scopes, &mut regs, &mut seen, i, *dst, e);
                proof {
                    assert(pre.regs.reads_as(*src, ge));
                }
            },
            Opcode::ToInt { dst, src } => {
                let e = regs.get(*src);
                let ghost ge = e;
                push_expr(code, f, &mut scopes, &mut regs, &mut seen, i, *dst, e);
                proof {
                    assert(pre.regs.reads_as(*src, ge));
                }
            },
            Opcode::SafeCast { dst, src } => {
                let e = regs.get(*src);
                let ghost ge = e;
                push_expr(code, f, &mut scopes, &mut regs, &mut seen, i, *dst, e);
                proof {
                    assert(pre.regs.reads_as(*src, ge));
                }
            },
            Opcode::UnsafeCast { dst, src } => {
                let e = regs.get(*src);
                let ghost ge = e;
                push_expr(code, f, &mut scopes, &mut regs, &mut seen, i, *dst, e);
                proof {
                    assert(pre.regs.reads_as(*src, ge));
                }
            },
            Opcode::ToVirtual { dst, src } => {
                let e = regs.get(*src);
                let ghost ge = e;
                push_expr(code, f, &mut scopes, &mut regs, &mut seen, i, *dst, e);
                proof {
                    assert(pre.regs.reads_as(*src, ge));
                }
            },
            // Construction.
            Opcode::New { dst } => {
                let rt = f.regtype(*dst);
                match &code.types[rt.0] {
                    Type::Obj(_) => {
                        ctxs.push(ExprCtx::Constructor { reg: *dst, pos: i });
                        proof {
                            assert(ctxs@ =~= pre.ctxs@.push(
                                ExprCtx::Constructor { reg: *dst, pos: i },
                            ));
                        }
                    },
                    Type::Struct(_) => {
                        ctxs.push(ExprCtx::Constructor { reg: *dst, pos: i });
                        proof {
                            assert(ctxs@ =~= pre.ctxs@.push(
                                ExprCtx::Constructor { reg: *dst, pos: i },
                            ));
                        }
                    },
                    Type::Virtual { fields } => {
                        let nf = fields.len();
                        if nf == 0 {
                            // A structural type with no fields has nothing
                            // left to await.  Pushing an idiom with zero
                            // entries remaining would make the next field
                            // write anywhere drive the counter below zero,
                            // so the finished empty literal is emitted at
                            // the allocation itself instead.
                            let e = Expr::anonymous(rt, Vec::new());
                            let ghost ge = e;
                            push_expr(code, f, &mut scopes, &mut regs, &mut seen, i, *dst, e);
                            proof {
                                assert(crate::ast::is_anonymous(
                                    ge,
                                    f.spec_regtype(*dst),
                                    Seq::empty(),
                                ));
                        assert(assign_step(*code, *f, i as int, pre, scopes, regs, seen, ctxs, *dst, ge));
                            }
                        } else {
                            ctxs.push(
                                ExprCtx::Anonymous {
                                    pos: i,
                                    fields: Vec::new(),
                                    remaining: nf,
                                    total: Ghost(nf as int),
                                },
                            );
                            proof {
                                assert(ctxs@.drop_last() =~= pre.ctxs@);
                            }
                        }
                    },
                    _ => {
                        let e = Expr::constructor(rt, Vec::new());
                        let ghost ge = e;
                        push_expr(code, f, &mut scopes, &mut regs, &mut seen, i, *dst, e);
                        proof {
                            assert(crate::ast::is_constructor(
                                ge,
                                f.spec_regtype(*dst),
                                Seq::empty(),
                            ));
                      assert(assign_step(*code, *f, i as int, pre, scopes, regs, seen, ctxs, *dst, ge));
                        }
                    },
                }
            },
            // Enums.
            Opcode::EnumAlloc { dst, construct } => {
                let e = Expr::enum_constr(f.regtype(*dst), *construct, Vec::new());
                let ghost ge = e;
                push_expr(code, f, &mut scopes, &mut regs, &mut seen, i, *dst, e);
                proof {
                    assert(crate::ast::is_enum_constr(
                        ge,
                        f.spec_regtype(*dst),
                        *construct,
                        Seq::empty(),
                    ));
                    assert(assign_step(*code, *f, i as int, pre, scopes, regs, seen, ctxs, *dst, ge));
                }
            },
            Opcode::MakeEnum { dst, construct, args } => {
                let cargs = exprs_of_regs(&regs, args, 0);
                let ghost ges = cargs@;
                let e = Expr::enum_constr(f.regtype(*dst), *construct, cargs);
                let ghost ge = e;
                push_expr(code, f, &mut scopes, &mut regs, &mut seen, i, *dst, e);
                proof {
                    assert(args@.skip(0) =~= args@);
                    assert(args_read(pre.regs, args@, ges));
                    assert(crate::ast::is_enum_constr(ge, f.spec_regtype(*dst), *construct, ges));
                    assert(assign_step(*code, *f, i as int, pre, scopes, regs, seen, ctxs, *dst, ge));
                }
            },
            Opcode::GetMem { dst, bytes, index } => {
                let eb = regs.get(*bytes);
                let ghost geb = eb;
                let ei = regs.get(*index);
                let ghost gei = ei;
                let e = Expr::array(eb, ei);
                let ghost ge = e;
                push_expr(code, f, &mut scopes, &mut regs, &mut seen, i, *dst, e);
                proof {
                    assert(pre.regs.reads_as(*bytes, geb) && pre.regs.reads_as(*index, gei));
                    assert(crate::ast::is_array(ge, geb, gei));
                    assert(assign_step(*code, *f, i as int, pre, scopes, regs, seen, ctxs, *dst, ge));
                }
            },
            _ => {},
        }
        let ghost mid_sc = scopes;
        proof {
            assert(op_rel(*code, *f, i as int, pre, mid_sc, regs, seen, ctxs));
        }
        scopes.advance();
        proof {
            let now = PassState { scopes: scopes, regs: regs, seen: seen, ctxs: ctxs };
            assert(op_rel(*code, *f, i as int, pre, mid_sc, now.regs, now.seen, now.ctxs));
            assert(advance_effect(mid_sc, now.scopes));
            assert(step_rel(*code, *f, i as int, pre, now));
            trace = trace.push(now);
        }
        i = i + 1;
    }
    proof {
        if f.ops@.len() == 0 {
            assert(i == 0);
        }
    }
    let ghost gtrace = trace;
    let out = scopes.statements();
    proof {
        assert(out == gtrace.last().scopes.stack@[0].stmts);
        if f.ops@.len() == 0 {
            assert(out@.len() == 0);
        }
    }
    (Some(out), Ghost(gtrace))
}

/// Law: the function body scope persists through the whole pass.  Every
/// state of a valid trace carries a well-formed scope stack, so the body
/// scope sits at its bottom and nowhere else: no step of the pass can
/// pop it, and the statements a full run returns are always that body
/// scope's.
pub proof fn lemma_trace_keeps_body_scope(
    code: Bytecode,
    f: Function,
    trace: Seq<PassState>,
    i: int,
)
    requires
        valid_trace(code, f, trace),
        0 <= i < trace.len(),
    ensures
        trace[i].scopes.wf(),
        trace[i].scopes.depth() >= 1,
        trace[i].scopes.stack@[0].kind matches ScopeKind::Root,
    decreases i,
{
    if i == 0 {
        assert(init_state(code, f, trace[0]));
    } else {
        assert(step_rel(code, f, i - 1, trace[i - 1], trace[(i - 1) + 1]));
        assert(step_rel(code, f, i - 1, trace[i - 1], trace[i]));
        let mid = choose|mid: Scopes|
            op_rel(code, f, i - 1, trace[i - 1], mid, trace[i].regs, trace[i].seen, trace[i].ctxs)
                && advance_effect(mid, trace[i].scopes);
        assert(advance_effect(mid, trace[i].scopes));
    }
}

/// Law: a name is declared at most once in a function.  The dual
/// assignment rule marks an assignment as a declaration exactly when the
/// name is not yet recorded, so once a name has been recorded -- by a
/// named formal argument or by an earlier declaration -- every later
/// assignment to it carries `declaration == false` and leaves the
/// recorded names unchanged.
pub proof fn lemma_declared_at_most_once(
    code: Bytecode,
    f: Function,
    s0: Scopes,
    s1: Scopes,
    r0: RegState,
    r1: RegState,
    n0: SeenNames,
    n1: SeenNames,
    i: int,
    dst: Reg,
    e: Expr,
    ns: crate::types::RefString,
)
    requires
        assign_effect(code, f, s0, s1, r0, r1, n0, n1, i, dst, e),
        f.spec_var_name(i) == Some(ns),
        seen_contains(n0.names@, code.strings@[ns.0 as int]@),
    ensures
        s1.top().stmts@ == s0.top().stmts@.push(
            Statement::Assign {
                declaration: false,
                variable: Expr::Variable(dst, Some(code.strings@[ns.0 as int])),
                value: e,
            },
        ),
        n1.names@ == n0.names@,
{
}

/// Law: the first assignment to a name is its declaration.  When the
/// dual assignment rule emits an assignment for a name that is not yet
/// recorded, the assignment carries `declaration == true` and the name
/// becomes recorded, so the declaration precedes every later assignment
/// to the same name.
pub proof fn lemma_first_assignment_declares(
    code: Bytecode,
    f: Function,
    s0: Scopes,
    s1: Scopes,
    r0: RegState,
    r1: RegState,
    n0: SeenNames,
    n1: SeenNames,
    i: int,
    dst: Reg,
    e: Expr,
    ns: crate::types::RefString,
)
    requires
        assign_effect(code, f, s0, s1, r0, r1, n0, n1, i, dst, e),
        f.spec_var_name(i) == Some(ns),
        !seen_contains(n0.names@, code.strings@[ns.0 as int]@),
    ensures
        s1.top().stmts@ == s0.top().stmts@.push(
            Statement::Assign {
                declaration: true,
                variable: Expr::Variable(dst, Some(code.strings@[ns.0 as int])),
                value: e,
            },
        ),
        n1.names@ == n0.names@.push(code.strings@[ns.0 as int]),
        seen_contains(n1.names@, code.strings@[ns.0 as int]@),
{
    assert(n1.names@[n1.names@.len() - 1]@ == code.strings@[ns.0 as int]@);
}

/// Law: an anonymous structure literal completes with exactly as many
/// entries as its virtual type had fields.  The idiom starts with no
/// entries and the type's field count awaited, and every field write
/// moves one awaited entry into the filled list, so the sum of both is
/// conserved; when none remain, the filled list holds the type's full
/// field count.
pub proof fn lemma_anonymous_entry_count(
    fields: Seq<(RefField, Expr)>,
    remaining: int,
    total: int,
)
    requires
        fields.len() + remaining == total,
        remaining == 0,
    ensures
        fields.len() == total,
{
}

/// A field of a reconstructed class.
#[derive(PartialEq, Debug)]
pub struct ClassField {
    pub name: String,
    pub static_: bool,
    pub ty: RefType,
}

/// A method of a reconstructed class.  `statements` is `None` when the
/// method's bytecode could not be decompiled.
#[derive(PartialEq, Debug)]
pub struct Method {
    pub fun: RefFun,
    pub static_: bool,
    pub dynamic: bool,
    pub statements: Option<Vec<Statement>>,
}

/// A reconstructed class: its fields and methods, instance and static
/// sides together.
#[derive(PartialEq, Debug)]
pub struct Class {
    pub name: String,
    pub parent: Option<String>,
    pub fields: Vec<ClassField>,
    pub methods: Vec<Method>,
}

/// First function bound to `fld`, if any.
pub open spec fn spec_binding_for(s: Seq<Binding>, fld: RefField) -> Option<RefFun>
    decreases s.len(),
{
    if s.len() == 0 {
        None
    } else if s[0].field == fld {
        Some(s[0].findex)
    } else {
        spec_binding_for(s.skip(1), fld)
    }
}

fn binding_for(bindings: &Vec<Binding>, fld: RefField) -> (r: Option<RefFun>)
    ensures
        r == spec_binding_for(bindings@, fld),
{
    let mut j: usize = 0;
    proof {
        assert(bindings@.skip(0) =~= bindings@);
    }
    while j < bindings.len()
        invariant
            j <= bindings@.len(),
            spec_binding_for(bindings@, fld) == spec_binding_for(bindings@.skip(j as int), fld),
        decreases bindings@.len() - j,
    {
        proof {
            assert(bindings@.skip(j as int)[0] == bindings@[j as int]);
            assert(bindings@.skip(j as int).skip(1) =~= bindings@.skip(j + 1));
        }
        if bindings[j].field == fld {
            return Some(bindings[j].findex);
        }
        j = j + 1;
    }
    proof {
        assert(bindings@.skip(j as int).len() == 0);
    }
    None
}

/// The class fields one side of a type contributes, from own field `k`
/// on: every own field that is not shadowed by a bound method.
pub open spec fn spec_side_fields(code: Bytecode, o: TypeObj, static_: bool, k: int) -> Seq<
    ClassField,
>
    decreases o.own_fields@.len() - k,
{
    if k < 0 || k >= o.own_fields@.len() {
        Seq::empty()
    } else {
        let rest = spec_side_fields(code, o, static_, k + 1);
        let idx = RefField((k + o.fields@.len() - o.own_fields@.len()) as usize);
        if spec_binding_for(o.bindings@, idx) is Some {
            rest
        } else {
            seq![
                ClassField {
                    name: code.strings@[o.own_fields@[k].name.0 as int],
                    static_,
                    ty: o.own_fields@[k].t,
                },
            ] + rest
        }
    }
}

/// The static companion of a class-like type, if it has one that
/// resolves to an object or structure type.
pub open spec fn spec_static_side(code: Bytecode, obj: TypeObj) -> Option<TypeObj> {
    match obj.static_ty {
        Some(rt) => if rt.0 < code.types@.len() {
            match code.types@[rt.0 as int] {
                Type::Obj(s) => Some(s),
                Type::Struct(s) => Some(s),
                _ => None,
            }
        } else {
            None
        },
        None => None,
    }
}

/// Every field the class shows: the instance side's, then the static
/// companion's.
pub open spec fn spec_class_fields(code: Bytecode, obj: TypeObj) -> Seq<ClassField> {
    spec_side_fields(code, obj, false, 0) + (match spec_static_side(code, obj) {
        Some(s) => spec_side_fields(code, s, true, 0),
        None => Seq::empty(),
    })
}

/// Every method the class shows, as (function, static, dynamic):
/// instance bindings are dynamic, the static companion's bindings are
/// static, and prototype methods are neither.
pub open spec fn spec_method_plan(code: Bytecode, obj: TypeObj) -> Seq<(RefFun, bool, bool)> {
    obj.bindings@.map_values(|b: Binding| (b.findex, false, true)) + (match spec_static_side(
        code,
        obj,
    ) {
        Some(s) => s.bindings@.map_values(|b: Binding| (b.findex, true, false)),
        None => Seq::empty(),
    }) + obj.protos@.map_values(|p: crate::types::ObjProto| (p.findex, false, false))
}

/// Collect one side's class fields.
#[verifier::loop_isolation(false)]
fn side_fields(code: &Bytecode, o: &TypeObj, static_: bool, out: &mut Vec<ClassField>)
    requires
        crate::types::obj_wf(*o, *code),
    ensures
        final(out)@ == old(out)@ + spec_side_fields(*code, *o, static_, 0),
{
    let ghost pre = out@;
    let mut k: usize = 0;
    while k < o.own_fields.len()
        invariant
            k <= o.own_fields@.len(),
            pre + spec_side_fields(*code, *o, static_, 0) == out@ + spec_side_fields(
                *code,
                *o,
                static_,
                k as int,
            ),
        decreases o.own_fields@.len() - k,
    {
        let idx = RefField((o.fields.len() - o.own_fields.len()) + k);
        proof {
            assert(idx.0 == k + o.fields@.len() - o.own_fields@.len());
        }
        if binding_for(&o.bindings, idx).is_none() {
            out.push(
                ClassField {
                    name: code.strings[o.own_fields[k].name.0].clone(),
                    static_,
                    ty: o.own_fields[k].t,
                },
            );
        }
        k = k + 1;
    }
}

/// Decompile each function of one side's bindings into methods.
#[verifier::loop_isolation(false)]
fn side_binding_methods(
    code: &Bytecode,
    o: &TypeObj,
    static_: bool,
    dynamic: bool,
    out: &mut Vec<Method>,
)
    requires
        code.wf(),
        crate::types::class_side_wf(*o, *code),
    ensures
        final(out)@.len() == old(out)@.len() + o.bindings@.len(),
        forall|k: int| 0 <= k < old(out)@.len() ==> final(out)@[k] == old(out)@[k],
        forall|k: int|
            0 <= k < o.bindings@.len() ==> {
                let m = #[trigger] final(out)@[old(out)@.len() + k];
                &&& m.fun == o.bindings@[k].findex
                &&& m.static_ == static_
                &&& m.dynamic == dynamic
                &&& (code.functions@[o.bindings@[k].findex.0 as int] matches FunPtr::Fun(g)
                    ==> decompiled_body_ok(*code, g, m.statements))
            },
{
    let mut k: usize = 0;
    while k < o.bindings.len()
        invariant
            k <= o.bindings@.len(),
            out@.len() == old(out)@.len() + k,
            forall|j: int| 0 <= j < old(out)@.len() ==> out@[j] == old(out)@[j],
            forall|j: int|
                0 <= j < k ==> {
                    let m = #[trigger] out@[old(out)@.len() + j];
                    &&& m.fun == o.bindings@[j].findex
                    &&& m.static_ == static_
                    &&& m.dynamic == dynamic
                    &&& (code.functions@[o.bindings@[j].findex.0 as int] matches FunPtr::Fun(g)
                        ==> decompiled_body_ok(*code, g, m.statements))
                },
        decreases o.bindings@.len() - k,
    {
        let fun = o.bindings[k].findex;
        proof {
            assert(o.bindings@[k as int].findex.0 < code.functions@.len()
                && code.functions@[o.bindings@[k as int].findex.0 as int]
                matches FunPtr::Fun(_));
        }
        let g = match &code.functions[fun.0] {
            FunPtr::Fun(g) => g,
            FunPtr::Native(_) => unreached(),
        };
        let statements = decompile_function(code, g);
        out.push(Method { fun, static_, dynamic, statements });
        k = k + 1;
    }
}

/// Decompile a class-like object type: its own fields and its static
/// companion's, and all three method sources (dynamic bindings, static
/// bindings, prototypes).
#[verifier::loop_isolation(false)]
pub fn decompile_class(code: &Bytecode, obj: &TypeObj) -> (c: Class)
    requires
        code.wf(),
        crate::types::class_wf(*obj, *code),
    ensures
        c.name == code.strings@[obj.name.0 as int],
        c.fields@ == spec_class_fields(*code, *obj),
        c.methods@.len() == spec_method_plan(*code, *obj).len(),
        forall|k: int|
            0 <= k < c.methods@.len() ==> {
                let m = #[trigger] c.methods@[k];
                &&& (m.fun, m.static_, m.dynamic) == spec_method_plan(*code, *obj)[k]
                &&& (code.functions@[spec_method_plan(*code, *obj)[k].0.0 as int]
                    matches FunPtr::Fun(g) ==> decompiled_body_ok(*code, g, m.statements))
            },
        match obj.super_ {
            Some(rt) => if rt.0 < code.types@.len() {
                match code.types@[rt.0 as int] {
                    Type::Obj(s) => c.parent matches Some(p) && p == code.strings@[s.name.0 as int],
                    Type::Struct(s) => c.parent matches Some(p) && p == code.strings@[s.name.0
                        as int],
                    _ => c.parent is None,
                }
            } else {
                c.parent is None
            },
            None => c.parent is None,
        },
{
    let mut fields: Vec<ClassField> = Vec::new();
    side_fields(code, obj, false, &mut fields);
    let static_side: Option<&TypeObj> = match obj.static_ty {
        Some(rt) => if rt.0 < code.types.len() {
            match &code.types[rt.0] {
                Type::Obj(s) => Some(s),
                Type::Struct(s) => Some(s),
                _ => None,
            }
        } else {
            None
        },
        None => None,
    };
    match static_side {
        Some(s) => {
            side_fields(code, s, true, &mut fields);
        },
        None => {},
    }

    let mut methods: Vec<Method> = Vec::new();
    side_binding_methods(code, obj, false, true, &mut methods);
    let ghost m1 = methods@;
    match static_side {
        Some(s) => {
            side_binding_methods(code, s, true, false, &mut methods);
        },
        None => {},
    }
    let ghost m2 = methods@;
    let ghost before_protos = methods@.len() as int;
    let ghost pre_methods = methods@;
    let mut k: usize = 0;
    while k < obj.protos.len()
        invariant
            k <= obj.protos@.len(),
            methods@.len() == before_protos + k,
            forall|j: int| 0 <= j < before_protos ==> methods@[j] == pre_methods[j],
            forall|j: int|
                0 <= j < k ==> {
                    let m = #[trigger] methods@[before_protos + j];
                    &&& m.fun == obj.protos@[j].findex
                    &&& m.static_ == false
                    &&& m.dynamic == false
                    &&& (code.functions@[obj.protos@[j].findex.0 as int] matches FunPtr::Fun(g)
                        ==> decompiled_body_ok(*code, g, m.statements))
                },
        decreases obj.protos@.len() - k,
    {
        let fun = obj.protos[k].findex;
        proof {
            assert(obj.protos@[k as int].findex.0 < code.functions@.len()
                && code.functions@[obj.protos@[k as int].findex.0 as int]
                matches FunPtr::Fun(_));
        }
        let g = match &code.functions[fun.0] {
            FunPtr::Fun(g) => g,
            FunPtr::Native(_) => unreached(),
        };
        let statements = decompile_function(code, g);
        methods.push(Method { fun, static_: false, dynamic: false, statements });
        k = k + 1;
    }

    let parent: Option<String> = match obj.super_ {
        Some(rt) => if rt.0 < code.types.len() {
            match &code.types[rt.0] {
                Type::Obj(s) => Some(code.strings[s.name.0].clone()),
                Type::Struct(s) => Some(code.strings[s.name.0].clone()),
                _ => None,
            }
        } else {
            None
        },
        None => None,
    };

    proof {
        let plan = spec_method_plan(*code, *obj);
        let b1 = obj.bindings@.len() as int;
        let b2 = (match spec_static_side(*code, *obj) {
            Some(s) => s.bindings@.len() as int,
            None => 0,
        });
        assert(fields@ =~= spec_class_fields(*code, *obj));
        assert(methods@.len() == plan.len());
        assert forall|k2: int| 0 <= k2 < methods@.len() implies {
            let m = #[trigger] methods@[k2];
            &&& (m.fun, m.static_, m.dynamic) == plan[k2]
            &&& (code.functions@[plan[k2].0.0 as int] matches FunPtr::Fun(g)
                ==> decompiled_body_ok(*code, g, m.statements))
        } by {
            assert(m1.len() == b1 && m2.len() == b1 + b2 && before_protos == b1 + b2);
            if k2 < b1 {
                assert(plan[k2] == (obj.bindings@[k2].findex, false, true));
                assert(m1[0 + k2].fun == obj.bindings@[k2].findex && m1[0 + k2].static_ == false
                    && m1[0 + k2].dynamic == true);
                assert(code.functions@[obj.bindings@[k2].findex.0 as int] matches FunPtr::Fun(g)
                    ==> decompiled_body_ok(*code, g, m1[0 + k2].statements));
                assert(m2[k2] == m1[k2]);
                assert(methods@[k2] == pre_methods[k2]);
            } else if k2 < b1 + b2 {
                let s = spec_static_side(*code, *obj).unwrap();
                assert(plan[k2] == (s.bindings@[k2 - b1].findex, true, false));
                assert(m2[m1.len() + (k2 - b1)].fun == s.bindings@[k2 - b1].findex
                    && m2[m1.len() + (k2 - b1)].static_ == true
                    && m2[m1.len() + (k2 - b1)].dynamic == false);
                assert(code.functions@[s.bindings@[k2 - b1].findex.0 as int]
                    matches FunPtr::Fun(g) ==> decompiled_body_ok(
                    *code,
                    g,
                    m2[m1.len() + (k2 - b1)].statements,
                ));
                assert(methods@[k2] == pre_methods[k2]);
            } else {
                assert(plan[k2] == (obj.protos@[k2 - b1 - b2].findex, false, false));
                assert(methods@[before_protos + (k2 - b1 - b2)].fun == obj.protos@[k2 - b1
                    - b2].findex && methods@[before_protos + (k2 - b1 - b2)].static_ == false
                    && methods@[before_protos + (k2 - b1 - b2)].dynamic == false);
                assert(code.functions@[obj.protos@[k2 - b1 - b2].findex.0 as int]
                    matches FunPtr::Fun(g) ==> decompiled_body_ok(
                    *code,
                    g,
                    methods@[before_protos + (k2 - b1 - b2)].statements,
                ));
            }
        }
    }
    Class { name: code.strings[obj.name.0].clone(), parent, fields, methods }
}

} // verus!
