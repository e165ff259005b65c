//! Read-only model of a parsed HashLink bytecode module: functions with
//! their opcode streams and register types, the type table, and the
//! interned string / integer tables.  The decompiler only ever reads
//! these structures.

use vstd::prelude::*;

verus! {

/// A register of the stack machine, local to one function.
#[derive(Clone, Copy, PartialEq, Eq, Structural, Debug)]
pub struct Reg(pub usize);

/// Reference into the module's string table.
#[derive(Clone, Copy, PartialEq, Eq, Structural, Debug)]
pub struct RefString(pub usize);

/// Reference into the module's integer table.
#[derive(Clone, Copy, PartialEq, Eq, Structural, Debug)]
pub struct RefInt(pub usize);

/// Reference into the module's float table.  The decompiler never reads
/// the float value itself; the renderer resolves it.
#[derive(Clone, Copy, PartialEq, Eq, Structural, Debug)]
pub struct RefFloat(pub usize);

/// Reference into the module's type table.
#[derive(Clone, Copy, PartialEq, Eq, Structural, Debug)]
pub struct RefType(pub usize);

/// Reference to a field of an object, structure or virtual type.
#[derive(Clone, Copy, PartialEq, Eq, Structural, Debug)]
pub struct RefField(pub usize);

/// Reference into the module's callable table (functions and natives).
#[derive(Clone, Copy, PartialEq, Eq, Structural, Debug)]
pub struct RefFun(pub usize);

/// Reference to a global slot of the module.
#[derive(Clone, Copy, PartialEq, Eq, Structural, Debug)]
pub struct RefGlobal(pub usize);

/// Reference to a construct of an enum type.
#[derive(Clone, Copy, PartialEq, Eq, Structural, Debug)]
pub struct RefEnumConstruct(pub usize);

/// In a HashLink module the void type always sits at index 0 of the type
/// table, so voidness of a register or return type is a check on the index.
impl RefType {
    pub open spec fn spec_is_void(self) -> bool {
        self.0 == 0
    }

    #[verifier::when_used_as_spec(spec_is_void)]
    pub fn is_void(self) -> (r: bool)
        ensures
            r == self.spec_is_void(),
    {
        self.0 == 0
    }
}

/// A named, typed field of an object, structure or virtual type.
pub struct ObjField {
    pub name: RefString,
    pub t: RefType,
}

/// A method slot of an object type.
pub struct ObjProto {
    pub name: RefString,
    pub findex: RefFun,
}

/// A field of an object type that is bound to a function value.
pub struct Binding {
    pub field: RefField,
    pub findex: RefFun,
}

/// An object or structure type definition.
pub struct TypeObj {
    pub name: RefString,
    pub super_: Option<RefType>,
    /// Every field, inherited ones first; `own_fields` is the tail of this list.
    pub fields: Vec<ObjField>,
    /// The fields declared by this type itself.
    pub own_fields: Vec<ObjField>,
    pub protos: Vec<ObjProto>,
    pub bindings: Vec<Binding>,
    /// The companion type carrying the static side of a class, if any.
    pub static_ty: Option<RefType>,
}

/// Signature of a callable value.
pub struct TypeFun {
    pub args: Vec<RefType>,
    pub ret: RefType,
}

/// A type of the module.  Kinds the decompiler does not inspect are
/// folded into `Other`.
pub enum Type {
    Void,
    Obj(TypeObj),
    Struct(TypeObj),
    Virtual { fields: Vec<ObjField> },
    Enum { name: RefString },
    Fun(TypeFun),
    Other,
}

/// One instruction of a function.  Instructions the decompiler ignores are
/// folded into `Other`; they produce no statement.
pub enum Opcode {
    Mov { dst: Reg, src: Reg },
    Int { dst: Reg, ptr: RefInt },
    Float { dst: Reg, ptr: RefFloat },
    Bool { dst: Reg, value: bool },
    Str { dst: Reg, ptr: RefString },
    Null { dst: Reg },
    Add { dst: Reg, a: Reg, b: Reg },
    Sub { dst: Reg, a: Reg, b: Reg },
    Mul { dst: Reg, a: Reg, b: Reg },
    SDiv { dst: Reg, a: Reg, b: Reg },
    UDiv { dst: Reg, a: Reg, b: Reg },
    SMod { dst: Reg, a: Reg, b: Reg },
    UMod { dst: Reg, a: Reg, b: Reg },
    Shl { dst: Reg, a: Reg, b: Reg },
    SShr { dst: Reg, a: Reg, b: Reg },
    UShr { dst: Reg, a: Reg, b: Reg },
    And { dst: Reg, a: Reg, b: Reg },
    Or { dst: Reg, a: Reg, b: Reg },
    Xor { dst: Reg, a: Reg, b: Reg },
    Neg { dst: Reg, src: Reg },
    Not { dst: Reg, src: Reg },
    Incr { dst: Reg },
    Decr { dst: Reg },
    Call0 { dst: Reg, fun: RefFun },
    Call1 { dst: Reg, fun: RefFun, arg0: Reg },
    Call2 { dst: Reg, fun: RefFun, arg0: Reg, arg1: Reg },
    Call3 { dst: Reg, fun: RefFun, arg0: Reg, arg1: Reg, arg2: Reg },
    Call4 { dst: Reg, fun: RefFun, arg0: Reg, arg1: Reg, arg2: Reg, arg3: Reg },
    CallN { dst: Reg, fun: RefFun, args: Vec<Reg> },
    CallMethod { dst: Reg, field: RefField, args: Vec<Reg> },
    CallThis { dst: Reg, field: RefField, args: Vec<Reg> },
    CallClosure { dst: Reg, fun: Reg, args: Vec<Reg> },
    StaticClosure { dst: Reg, fun: RefFun },
    InstanceClosure { dst: Reg, fun: RefFun, obj: Reg },
    GetGlobal { dst: Reg, global: RefGlobal },
    Field { dst: Reg, obj: Reg, field: RefField },
    SetField { obj: Reg, field: RefField, src: Reg },
    GetThis { dst: Reg, field: RefField },
    SetThis { field: RefField, src: Reg },
    DynGet { dst: Reg, obj: Reg, field: RefString },
    DynSet { obj: Reg, field: RefString, src: Reg },
    JTrue { cond: Reg, offset: i32 },
    JFalse { cond: Reg, offset: i32 },
    JNull { reg: Reg, offset: i32 },
    JNotNull { reg: Reg, offset: i32 },
    JSLt { a: Reg, b: Reg, offset: i32 },
    JSGte { a: Reg, b: Reg, offset: i32 },
    JSGt { a: Reg, b: Reg, offset: i32 },
    JSLte { a: Reg, b: Reg, offset: i32 },
    JULt { a: Reg, b: Reg, offset: i32 },
    JUGte { a: Reg, b: Reg, offset: i32 },
    JNotEq { a: Reg, b: Reg, offset: i32 },
    JEq { a: Reg, b: Reg, offset: i32 },
    JAlways { offset: i32 },
    ToDyn { dst: Reg, src: Reg },
    ToSFloat { dst: Reg, src: Reg },
    ToUFloat { dst: Reg, src: Reg },
    ToInt { dst: Reg, src: Reg },
    SafeCast { dst: Reg, src: Reg },
    UnsafeCast { dst: Reg, src: Reg },
    ToVirtual { dst: Reg, src: Reg },
    Label,
    Ret { ret: Reg },
    Throw { exc: Reg },
    Rethrow { exc: Reg },
    Switch { reg: Reg, offsets: Vec<usize>, end: usize },
    Trap { exc: Reg, offset: usize },
    EndTrap { exc: Reg },
    GetMem { dst: Reg, bytes: Reg, index: Reg },
    New { dst: Reg },
    EnumAlloc { dst: Reg, construct: RefEnumConstruct },
    MakeEnum { dst: Reg, construct: RefEnumConstruct, args: Vec<Reg> },
    EnumIndex { dst: Reg, value: Reg },
    EnumField { dst: Reg, value: Reg, construct: RefEnumConstruct, field: RefField },
    SetEnumField { value: Reg, field: RefField, src: Reg },
    Other,
}

/// A function of the module, fully parsed.
pub struct Function {
    pub name: Option<RefString>,
    /// Index of the function's own `Type::Fun` in the type table.
    pub t: RefType,
    /// Type of each register; the formal arguments occupy the first slots.
    pub regs: Vec<RefType>,
    pub ops: Vec<Opcode>,
    /// Debug names of the formal arguments, by argument position.
    pub arg_names: Vec<Option<RefString>>,
    /// Debug table: at which opcode index which local variable is assigned.
    pub assigns: Vec<(usize, RefString)>,
    pub is_method: bool,
}

/// A native (foreign) callable of the module.
pub struct Native {
    pub name: RefString,
    pub t: RefType,
}

/// Resolution of a `RefFun`: either a bytecode function or a native.
pub enum FunPtr {
    Fun(Function),
    Native(Native),
}

/// A constant of the module; its fields index further tables.
pub struct ConstantDef {
    pub global: RefGlobal,
    pub fields: Vec<usize>,
}

/// A parsed bytecode module.
pub struct Bytecode {
    pub types: Vec<Type>,
    pub strings: Vec<String>,
    pub ints: Vec<i32>,
    pub functions: Vec<FunPtr>,
    /// Which constant initialises which global slot.
    pub globals_initializers: Vec<(RefGlobal, usize)>,
    pub constants: Option<Vec<ConstantDef>>,
}

/// Type table index of the interned string type in a HashLink module.
pub const STRING_TYPE_INDEX: usize = 13;

impl Function {
    /// First debug name recorded for opcode index `i`, if any.
    pub open spec fn spec_var_name(self, i: int) -> Option<RefString> {
        spec_lookup_assign(self.assigns@, i)
    }

    /// Type of register `r`.
    pub open spec fn spec_regtype(self, r: Reg) -> RefType
        recommends
            r.0 < self.regs@.len(),
    {
        self.regs@[r.0 as int]
    }

    pub fn regtype(&self, r: Reg) -> (t: RefType)
        requires
            r.0 < self.regs@.len(),
        ensures
            t == self.spec_regtype(r),
    {
        self.regs[r.0]
    }

    pub fn var_name(&self, i: usize) -> (r: Option<RefString>)
        ensures
            r == self.spec_var_name(i as int),
    {
        let mut j: usize = 0;
        proof {
            assert(self.assigns@.skip(0) =~= self.assigns@);
        }
        while j < self.assigns.len()
            invariant
                j <= self.assigns@.len(),
                spec_lookup_assign(self.assigns@, i as int) == spec_lookup_assign(
                    self.assigns@.skip(j as int),
                    i as int,
                ),
            decreases self.assigns@.len() - j,
        {
            let (at, name) = self.assigns[j];
            proof {
                assert(self.assigns@.skip(j as int)[0] == self.assigns@[j as int]);
                assert(self.assigns@.skip(j as int).skip(1) =~= self.assigns@.skip(j + 1));
            }
            if at == i {
                return Some(name);
            }
            j = j + 1;
        }
        proof {
            assert(self.assigns@.skip(j as int).len() == 0);
        }
        None
    }

    /// Debug name of formal argument `i`, if the debug tables record one.
    pub open spec fn spec_arg_name(self, i: int) -> Option<RefString> {
        if 0 <= i < self.arg_names@.len() {
            self.arg_names@[i]
        } else {
            None
        }
    }

    pub fn arg_name(&self, i: usize) -> (r: Option<RefString>)
        ensures
            r == self.spec_arg_name(i as int),
    {
        if i < self.arg_names.len() {
            self.arg_names[i]
        } else {
            None
        }
    }

    /// The function's own signature, resolved in the type table.
    pub open spec fn spec_ty(self, code: Bytecode) -> TypeFun
        recommends
            self.fun_type_resolves(code),
    {
        match code.types@[self.t.0 as int] {
            Type::Fun(tf) => tf,
            _ => arbitrary(),
        }
    }

    pub open spec fn fun_type_resolves(self, code: Bytecode) -> bool {
        &&& self.t.0 < code.types@.len()
        &&& code.types@[self.t.0 as int] matches Type::Fun(_)
    }

    pub fn ty<'a>(&self, code: &'a Bytecode) -> (r: &'a TypeFun)
        requires
            self.fun_type_resolves(*code),
        ensures
            *r == self.spec_ty(*code),
    {
        match &code.types[self.t.0] {
            Type::Fun(tf) => tf,
            _ => unreached(),
        }
    }

    /// Whether the function is named `__constructor__` in the string table.
    pub open spec fn spec_is_constructor(self, code: Bytecode) -> bool {
        self.name matches Some(ns) && ns.0 < code.strings@.len()
            && code.strings@[ns.0 as int]@ == "__constructor__"@
    }
}

/// First debug name recorded for opcode index `i` in an assign table.
pub open spec fn spec_lookup_assign(s: Seq<(usize, RefString)>, i: int) -> Option<RefString>
    decreases s.len(),
{
    if s.len() == 0 {
        None
    } else if s[0].0 == i {
        Some(s[0].1)
    } else {
        spec_lookup_assign(s.skip(1), i)
    }
}

/// A name found in an assign table stays inside the string table the
/// table was checked against.
pub proof fn lemma_lookup_assign_bound(s: Seq<(usize, RefString)>, i: int, bound: int)
    requires
        forall|j: int| 0 <= j < s.len() ==> ((#[trigger] s[j]).1.0 as int) < bound,
    ensures
        spec_lookup_assign(s, i) matches Some(ns) ==> (ns.0 as int) < bound,
    decreases s.len(),
{
    if s.len() > 0 && s[0].0 != i {
        assert(forall|j: int|
            0 <= j < s.skip(1).len() ==> ((#[trigger] s.skip(1)[j]).1.0 as int) < bound) by {
            assert(forall|j: int| 0 <= j < s.skip(1).len() ==> s.skip(1)[j] == s[j + 1]);
        }
        lemma_lookup_assign_bound(s.skip(1), i, bound);
    }
}

/// First constant index recorded for global `g` in the initializer table.
pub open spec fn spec_lookup_global(s: Seq<(RefGlobal, usize)>, g: RefGlobal) -> Option<usize>
    decreases s.len(),
{
    if s.len() == 0 {
        None
    } else if s[0].0 == g {
        Some(s[0].1)
    } else {
        spec_lookup_global(s.skip(1), g)
    }
}

impl Bytecode {
    pub fn lookup_global(&self, g: RefGlobal) -> (r: Option<usize>)
        ensures
            r == spec_lookup_global(self.globals_initializers@, g),
    {
        let mut j: usize = 0;
        proof {
            assert(self.globals_initializers@.skip(0) =~= self.globals_initializers@);
        }
        while j < self.globals_initializers.len()
            invariant
                j <= self.globals_initializers@.len(),
                spec_lookup_global(self.globals_initializers@, g) == spec_lookup_global(
                    self.globals_initializers@.skip(j as int),
                    g,
                ),
            decreases self.globals_initializers@.len() - j,
        {
            let (slot, cst) = self.globals_initializers[j];
            proof {
                assert(self.globals_initializers@.skip(j as int)[0]
                    == self.globals_initializers@[j as int]);
                assert(self.globals_initializers@.skip(j as int).skip(1)
                    =~= self.globals_initializers@.skip(j + 1));
            }
            if slot == g {
                return Some(cst);
            }
            j = j + 1;
        }
        proof {
            assert(self.globals_initializers@.skip(j as int).len() == 0);
        }
        None
    }
}

/// The receiver type `t` names a field table in which `fld` exists, so the
/// field's source name can be resolved.
pub open spec fn field_wf(code: Bytecode, t: RefType, fld: RefField) -> bool {
    &&& t.0 < code.types@.len()
    &&& match code.types@[t.0 as int] {
        Type::Obj(o) => fld.0 < o.fields@.len(),
        Type::Struct(o) => fld.0 < o.fields@.len(),
        Type::Virtual { fields } => fld.0 < fields@.len(),
        _ => false,
    }
}

/// The method slot `j` of the receiver type `t`, if the type has one.
pub open spec fn spec_method_of(code: Bytecode, t: RefType, j: int) -> Option<ObjProto> {
    if t.0 < code.types@.len() {
        match code.types@[t.0 as int] {
            Type::Obj(o) => if 0 <= j < o.protos@.len() {
                Some(o.protos@[j])
            } else {
                None
            },
            Type::Struct(o) => if 0 <= j < o.protos@.len() {
                Some(o.protos@[j])
            } else {
                None
            },
            _ => None,
        }
    } else {
        None
    }
}

pub fn method_of<'a>(code: &'a Bytecode, t: RefType, j: usize) -> (r: Option<&'a ObjProto>)
    ensures
        match r {
            Some(p) => spec_method_of(*code, t, j as int) == Some(*p),
            None => spec_method_of(*code, t, j as int) is None,
        },
{
    if t.0 < code.types.len() {
        match &code.types[t.0] {
            Type::Obj(o) => if j < o.protos.len() {
                Some(&o.protos[j])
            } else {
                None
            },
            Type::Struct(o) => if j < o.protos.len() {
                Some(&o.protos[j])
            } else {
                None
            },
            _ => None,
        }
    } else {
        None
    }
}

/// A callable reference that a call opcode may name: it resolves, and a
/// method target carries the name the call surface needs.
pub open spec fn call_target_wf(code: Bytecode, fun: RefFun) -> bool {
    &&& fun.0 < code.functions@.len()
    &&& (code.functions@[fun.0 as int] matches FunPtr::Fun(g) ==> (g.is_method ==> g.name is Some))
}

impl Opcode {
    /// Per-instruction well-formedness: every index the decompiler follows
    /// for this instruction at position `i` stays inside its table.
    pub open spec fn wf(self, i: int, f: Function, code: Bytecode) -> bool {
        let nregs = f.regs@.len();
        let nops = f.ops@.len();
        let nstrings = code.strings@.len();
        let nints = code.ints@.len();
        let nfuns = code.functions@.len();
        match self {
            Opcode::Mov { dst, src } => dst.0 < nregs && src.0 < nregs,
            Opcode::Int { dst, ptr } => dst.0 < nregs && ptr.0 < nints,
            Opcode::Float { dst, .. } => dst.0 < nregs,
            Opcode::Bool { dst, .. } => dst.0 < nregs,
            Opcode::Str { dst, ptr } => dst.0 < nregs && ptr.0 < nstrings,
            Opcode::Null { dst } => dst.0 < nregs,
            Opcode::Add { dst, .. } => dst.0 < nregs,
            Opcode::Sub { dst, .. } => dst.0 < nregs,
            Opcode::Mul { dst, .. } => dst.0 < nregs,
            Opcode::SDiv { dst, .. } => dst.0 < nregs,
            Opcode::UDiv { dst, .. } => dst.0 < nregs,
            Opcode::SMod { dst, .. } => dst.0 < nregs,
            Opcode::UMod { dst, .. } => dst.0 < nregs,
            Opcode::Shl { dst, .. } => dst.0 < nregs,
            Opcode::SShr { dst, .. } => dst.0 < nregs,
            Opcode::UShr { dst, .. } => dst.0 < nregs,
            Opcode::And { dst, .. } => dst.0 < nregs,
            Opcode::Or { dst, .. } => dst.0 < nregs,
            Opcode::Xor { dst, .. } => dst.0 < nregs,
            Opcode::Neg { dst, .. } => dst.0 < nregs,
            Opcode::Not { dst, .. } => dst.0 < nregs,
            Opcode::Incr { .. } => true,
            Opcode::Decr { .. } => true,
            Opcode::Call0 { dst, fun } => dst.0 < nregs && call_target_wf(code, fun),
            Opcode::Call1 { dst, fun, .. } => dst.0 < nregs && call_target_wf(code, fun),
            Opcode::Call2 { dst, fun, .. } => dst.0 < nregs && call_target_wf(code, fun),
            Opcode::Call3 { dst, fun, .. } => dst.0 < nregs && call_target_wf(code, fun),
            Opcode::Call4 { dst, fun, .. } => dst.0 < nregs && call_target_wf(code, fun),
            Opcode::CallN { dst, fun, args } => dst.0 < nregs && call_target_wf(code, fun)
                && args@.len() >= 1,
            Opcode::CallMethod { dst, field, args } => dst.0 < nregs && args@.len() >= 1
                && args@[0].0 < nregs && field_wf(code, f.regs@[args@[0].0 as int], field),
            Opcode::CallThis { dst, field, .. } => dst.0 < nregs && nregs >= 1
                && spec_method_of(code, f.regs@[0], field.0 as int) is Some,
            Opcode::CallClosure { dst, fun, .. } => dst.0 < nregs && fun.0 < nregs,
            Opcode::StaticClosure { dst, fun } => dst.0 < nregs && fun.0 < nfuns
                && code.functions@[fun.0 as int] matches FunPtr::Fun(_),
            Opcode::InstanceClosure { dst, fun, .. } => dst.0 < nregs && fun.0 < nfuns
                && code.functions@[fun.0 as int] matches FunPtr::Fun(_),
            Opcode::GetGlobal { dst, global } => dst.0 < nregs && (f.regs@[dst.0 as int].0
                == STRING_TYPE_INDEX ==> (match spec_lookup_global(
                code.globals_initializers@,
                global,
            ) {
                Some(x) => code.constants matches Some(cs) && x < cs@.len() && cs@[x
                    as int].fields@.len() >= 1 && cs@[x as int].fields@[0] < nstrings,
                None => false,
            })),
            Opcode::Field { dst, obj, field } => dst.0 < nregs && obj.0 < nregs && field_wf(
                code,
                f.regs@[obj.0 as int],
                field,
            ),
            Opcode::SetField { obj, field, .. } => obj.0 < nregs && field_wf(
                code,
                f.regs@[obj.0 as int],
                field,
            ),
            Opcode::GetThis { dst, field } => dst.0 < nregs && nregs >= 1 && field_wf(
                code,
                f.regs@[0],
                field,
            ),
            Opcode::SetThis { field, .. } => nregs >= 1 && field_wf(code, f.regs@[0], field),
            Opcode::DynGet { dst, field, .. } => dst.0 < nregs && field.0 < nstrings,
            Opcode::DynSet { field, .. } => field.0 < nstrings,
            Opcode::JTrue { offset, .. } => offset > 0 ==> i + offset < nops,
            Opcode::JFalse { offset, .. } => offset > 0 ==> i + offset < nops,
            Opcode::JNull { offset, .. } => offset > 0 ==> i + offset < nops,
            Opcode::JNotNull { offset, .. } => offset > 0 ==> i + offset < nops,
            Opcode::JSLt { offset, .. } => offset > 0 ==> i + offset < nops,
            Opcode::JSGte { offset, .. } => offset > 0 ==> i + offset < nops,
            Opcode::JSGt { offset, .. } => offset > 0 ==> i + offset < nops,
            Opcode::JSLte { offset, .. } => offset > 0 ==> i + offset < nops,
            Opcode::JULt { offset, .. } => offset > 0 ==> i + offset < nops,
            Opcode::JUGte { offset, .. } => offset > 0 ==> i + offset < nops,
            Opcode::JNotEq { offset, .. } => offset > 0 ==> i + offset < nops,
            Opcode::JEq { offset, .. } => offset > 0 ==> i + offset < nops,
            Opcode::JAlways { offset } => offset >= 0 ==> i + offset < nops,
            Opcode::ToDyn { dst, .. } => dst.0 < nregs,
            Opcode::ToSFloat { dst, .. } => dst.0 < nregs,
            Opcode::ToUFloat { dst, .. } => dst.0 < nregs,
            Opcode::ToInt { dst, .. } => dst.0 < nregs,
            Opcode::SafeCast { dst, .. } => dst.0 < nregs,
            Opcode::UnsafeCast { dst, .. } => dst.0 < nregs,
            Opcode::ToVirtual { dst, .. } => dst.0 < nregs,
            Opcode::Label => true,
            Opcode::Ret { ret } => ret.0 < nregs,
            Opcode::Throw { .. } => true,
            Opcode::Rethrow { .. } => true,
            Opcode::Switch { offsets, end, .. } => i + end + 1 <= nops && (forall|k: int|
                0 <= k < offsets@.len() ==> i + #[trigger] offsets@[k] < nops),
            Opcode::Trap { offset, .. } => i + offset + 1 <= nops,
            Opcode::EndTrap { .. } => true,
            Opcode::GetMem { dst, .. } => dst.0 < nregs,
            Opcode::New { dst } => dst.0 < nregs,
            Opcode::EnumAlloc { dst, .. } => dst.0 < nregs,
            Opcode::MakeEnum { dst, .. } => dst.0 < nregs,
            Opcode::EnumIndex { .. } => true,
            Opcode::EnumField { .. } => true,
            Opcode::SetEnumField { .. } => true,
            Opcode::Other => true,
        }
    }
}

impl Function {
    /// Well-formedness of a function against the module's tables.
    pub open spec fn wf(self, code: Bytecode) -> bool {
        &&& self.fun_type_resolves(code)
        &&& (self.name matches Some(ns) ==> ns.0 < code.strings@.len())
        &&& (forall|j: int| 0 <= j < self.regs@.len() ==> (#[trigger] self.regs@[j]).0
            < code.types@.len())
        &&& (forall|j: int| 0 <= j < self.arg_names@.len() ==> (#[trigger] self.arg_names@[j]
            matches Some(ns) ==> ns.0 < code.strings@.len()))
        &&& (forall|j: int| 0 <= j < self.assigns@.len() ==> (#[trigger] self.assigns@[j]).1.0
            < code.strings@.len())
        &&& self.spec_ty(code).args@.len() <= self.regs@.len()
        &&& (self.is_method ==> self.regs@.len() >= 1)
        &&& (self.spec_is_constructor(code) ==> self.regs@.len() >= 1)
        &&& (forall|i: int| 0 <= i < self.ops@.len() ==> (#[trigger] self.ops@[i]).wf(i, self, code))
    }
}

/// Shallow well-formedness of an object type definition: every name it
/// holds resolves in the string table.
pub open spec fn obj_wf(o: TypeObj, code: Bytecode) -> bool {
    &&& o.name.0 < code.strings@.len()
    &&& (forall|j: int| 0 <= j < o.fields@.len() ==> (#[trigger] o.fields@[j]).name.0
        < code.strings@.len())
    &&& (forall|j: int| 0 <= j < o.own_fields@.len() ==> (#[trigger] o.own_fields@[j]).name.0
        < code.strings@.len())
    &&& o.own_fields@.len() <= o.fields@.len()
    &&& (forall|j: int| 0 <= j < o.protos@.len() ==> (#[trigger] o.protos@[j]).name.0
        < code.strings@.len())
}

/// Shallow well-formedness of a type table entry.
pub open spec fn type_wf(t: Type, code: Bytecode) -> bool {
    match t {
        Type::Obj(o) => obj_wf(o, code),
        Type::Struct(o) => obj_wf(o, code),
        Type::Virtual { fields } => forall|j: int|
            0 <= j < fields@.len() ==> (#[trigger] fields@[j]).name.0 < code.strings@.len(),
        Type::Enum { name } => name.0 < code.strings@.len(),
        _ => true,
    }
}

/// Every entry of the type table only names strings the string table has.
pub open spec fn type_strings_wf(code: Bytecode) -> bool {
    forall|j: int| 0 <= j < code.types@.len() ==> type_wf(#[trigger] code.types@[j], code)
}

impl Bytecode {
    /// Well-formedness of the whole module: every table entry's references
    /// stay inside the tables they index, and the void type sits at index
    /// zero of the type table and nowhere else, as HashLink lays it out --
    /// the convention `RefType::is_void` relies on.
    pub open spec fn wf(self) -> bool {
        &&& type_strings_wf(self)
        &&& (self.types@.len() >= 1 ==> self.types@[0] matches Type::Void)
        &&& (forall|j: int|
            1 <= j < self.types@.len() ==> !((#[trigger] self.types@[j]) matches Type::Void))
        &&& (forall|j: int|
            0 <= j < self.functions@.len() ==> match #[trigger] self.functions@[j] {
                FunPtr::Fun(g) => g.wf(self),
                FunPtr::Native(n) => n.name.0 < self.strings@.len() && n.t.0 < self.types@.len()
                    && self.types@[n.t.0 as int] matches Type::Fun(_),
            })
    }
}

/// One side (instance or static) of a class-like object type, as the class
/// assembler needs it: every bound or prototyped method resolves to a
/// bytecode function.
pub open spec fn class_side_wf(o: TypeObj, code: Bytecode) -> bool {
    &&& obj_wf(o, code)
    &&& (forall|j: int| 0 <= j < o.bindings@.len() ==> {
        &&& (#[trigger] o.bindings@[j]).findex.0 < code.functions@.len()
        &&& code.functions@[o.bindings@[j].findex.0 as int] matches FunPtr::Fun(_)
    })
    &&& (forall|j: int| 0 <= j < o.protos@.len() ==> {
        &&& (#[trigger] o.protos@[j]).findex.0 < code.functions@.len()
        &&& code.functions@[o.protos@[j].findex.0 as int] matches FunPtr::Fun(_)
    })
}

/// Well-formedness of an object type handed to the class assembler,
/// including its static companion.
pub open spec fn class_wf(o: TypeObj, code: Bytecode) -> bool {
    &&& class_side_wf(o, code)
    &&& (o.static_ty matches Some(rt) ==> {
        &&& rt.0 < code.types@.len()
        &&& match code.types@[rt.0 as int] {
            Type::Obj(s) => class_side_wf(s, code),
            Type::Struct(s) => class_side_wf(s, code),
            _ => false,
        }
    })
}

} // verus!
