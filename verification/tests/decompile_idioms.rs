use std::rc::Rc;

use hlbc_decompiler::ast::{Callee, Constant, Expr, Statement};
use hlbc_decompiler::decompiler::decompile_function;
use hlbc_decompiler::types::{Bytecode, FunPtr, Function, ObjField, ObjProto, Opcode,
    RefEnumConstruct, RefField, RefFun, RefInt, RefString, RefType, Reg, Type, TypeFun, TypeObj};

fn module(types: Vec<Type>, strings: Vec<&str>, ints: Vec<i32>, functions: Vec<FunPtr>) -> Bytecode {
    Bytecode {
        types,
        strings: strings.into_iter().map(|s| s.to_string()).collect(),
        ints,
        functions,
        globals_initializers: Vec::new(),
        constants: None,
    }
}

fn fun_of(t: usize, regs: Vec<usize>, ops: Vec<Opcode>) -> Function {
    Function {
        name: None,
        t: RefType(t),
        regs: regs.into_iter().map(RefType).collect(),
        ops,
        arg_names: Vec::new(),
        assigns: Vec::new(),
        is_method: false,
    }
}

fn empty_obj(name: usize) -> TypeObj {
    TypeObj {
        name: RefString(name),
        super_: None,
        fields: Vec::new(),
        own_fields: Vec::new(),
        protos: Vec::new(),
        bindings: Vec::new(),
        static_ty: None,
    }
}

fn void_fun(t: usize) -> FunPtr {
    FunPtr::Fun(fun_of(t, vec![], vec![]))
}

fn unknown() -> Expr {
    Expr::Unknown("missing expr".to_string())
}

#[test]
fn constructor_idiom_is_completed_by_the_call() {
    // New allocates, the next call on the allocation is the constructor:
    // the register ends up holding `new T(42)`.
    let types = vec![
        Type::Void,
        Type::Other,
        Type::Fun(TypeFun { args: vec![], ret: RefType(0) }),
        Type::Obj(empty_obj(0)),
    ];
    let code = module(types, vec!["T"], vec![42], vec![void_fun(2)]);
    let f = fun_of(
        2,
        vec![3, 1, 0],
        vec![
            Opcode::Int { dst: Reg(1), ptr: RefInt(0) },
            Opcode::New { dst: Reg(0) },
            Opcode::Call2 { dst: Reg(2), fun: RefFun(0), arg0: Reg(0), arg1: Reg(1) },
            Opcode::Ret { ret: Reg(0) },
        ],
    );
    let out = decompile_function(&code, &f).unwrap();
    assert_eq!(
        out,
        vec![Statement::Return(Some(Expr::Constructor(
            RefType(3),
            Rc::new(vec![Expr::Constant(Constant::Int(42))]),
        )))]
    );
}

#[test]
fn anonymous_structure_has_exactly_its_field_count() {
    // A virtual with two fields is filled by two field writes; the
    // resulting literal holds exactly those two entries.
    let types = vec![
        Type::Void,
        Type::Other,
        Type::Fun(TypeFun { args: vec![], ret: RefType(0) }),
        Type::Virtual {
            fields: vec![
                ObjField { name: RefString(0), t: RefType(1) },
                ObjField { name: RefString(1), t: RefType(1) },
            ],
        },
    ];
    let code = module(types, vec!["a", "b"], vec![7, 8], vec![]);
    let f = fun_of(
        2,
        vec![3, 1, 1],
        vec![
            Opcode::New { dst: Reg(0) },
            Opcode::Int { dst: Reg(1), ptr: RefInt(0) },
            Opcode::SetField { obj: Reg(0), field: RefField(0), src: Reg(1) },
            Opcode::Int { dst: Reg(2), ptr: RefInt(1) },
            Opcode::SetField { obj: Reg(0), field: RefField(1), src: Reg(2) },
            Opcode::Ret { ret: Reg(0) },
        ],
    );
    let out = decompile_function(&code, &f).unwrap();
    assert_eq!(
        out,
        vec![Statement::Return(Some(Expr::Anonymous(
            RefType(3),
            Rc::new(vec![
                (RefField(0), Expr::Constant(Constant::Int(7))),
                (RefField(1), Expr::Constant(Constant::Int(8))),
            ]),
        )))]
    );
}

#[test]
fn new_of_a_plain_type_is_an_immediate_constructor() {
    let types = vec![
        Type::Void,
        Type::Other,
        Type::Fun(TypeFun { args: vec![], ret: RefType(0) }),
    ];
    let code = module(types, vec![], vec![], vec![]);
    let f = fun_of(
        2,
        vec![1],
        vec![Opcode::New { dst: Reg(0) }, Opcode::Ret { ret: Reg(0) }],
    );
    let out = decompile_function(&code, &f).unwrap();
    assert_eq!(
        out,
        vec![Statement::Return(Some(Expr::Constructor(RefType(1), Rc::new(vec![]))))]
    );
}

#[test]
fn plain_field_write_is_an_assignment() {
    let obj = TypeObj {
        name: RefString(0),
        super_: None,
        fields: vec![ObjField { name: RefString(1), t: RefType(1) }],
        own_fields: vec![ObjField { name: RefString(1), t: RefType(1) }],
        protos: Vec::new(),
        bindings: Vec::new(),
        static_ty: None,
    };
    let types = vec![
        Type::Void,
        Type::Other,
        Type::Fun(TypeFun { args: vec![], ret: RefType(0) }),
        Type::Obj(obj),
    ];
    let code = module(types, vec!["T", "x"], vec![], vec![]);
    let f = fun_of(
        2,
        vec![3, 1],
        vec![Opcode::SetField { obj: Reg(0), field: RefField(0), src: Reg(1) }],
    );
    let out = decompile_function(&code, &f).unwrap();
    assert_eq!(
        out,
        vec![Statement::Assign {
            declaration: false,
            variable: Expr::Field(Box::new(unknown()), "x".to_string()),
            value: unknown(),
        }]
    );
}

#[test]
fn void_direct_call_becomes_a_statement() {
    let types = vec![
        Type::Void,
        Type::Other,
        Type::Fun(TypeFun { args: vec![], ret: RefType(0) }),
    ];
    let code = module(types, vec![], vec![5], vec![void_fun(2)]);
    let f = fun_of(
        2,
        vec![1, 0],
        vec![
            Opcode::Int { dst: Reg(0), ptr: RefInt(0) },
            Opcode::Call1 { dst: Reg(1), fun: RefFun(0), arg0: Reg(0) },
        ],
    );
    let out = decompile_function(&code, &f).unwrap();
    assert_eq!(
        out,
        vec![Statement::ExprStmt(Expr::Call(
            Callee::Fun(RefFun(0)),
            Rc::new(vec![Expr::Constant(Constant::Int(5))]),
        ))]
    );
}

#[test]
fn non_void_call_is_stored_and_method_calls_use_the_receiver() {
    // functions[0] is a method named "meth" returning a value: the call
    // surface is receiver.meth() and the result is propagated.
    let types = vec![
        Type::Void,
        Type::Other,
        Type::Fun(TypeFun { args: vec![RefType(1)], ret: RefType(1) }),
    ];
    let method = Function {
        name: Some(RefString(0)),
        t: RefType(2),
        regs: vec![RefType(1)],
        ops: Vec::new(),
        arg_names: Vec::new(),
        assigns: Vec::new(),
        is_method: true,
    };
    let code = module(types, vec!["meth"], vec![5], vec![FunPtr::Fun(method)]);
    let f = fun_of(
        2,
        vec![1, 1],
        vec![
            Opcode::Int { dst: Reg(0), ptr: RefInt(0) },
            Opcode::Call1 { dst: Reg(1), fun: RefFun(0), arg0: Reg(0) },
            Opcode::Ret { ret: Reg(1) },
        ],
    );
    let out = decompile_function(&code, &f).unwrap();
    assert_eq!(
        out,
        vec![Statement::Return(Some(Expr::Call(
            Callee::Expr(Box::new(Expr::Field(
                Box::new(Expr::Constant(Constant::Int(5))),
                "meth".to_string(),
            ))),
            Rc::new(vec![]),
        )))]
    );
}

#[test]
fn call_this_goes_through_the_method_table() {
    let obj = TypeObj {
        name: RefString(0),
        super_: None,
        fields: Vec::new(),
        own_fields: Vec::new(),
        protos: vec![ObjProto { name: RefString(1), findex: RefFun(0) }],
        bindings: Vec::new(),
        static_ty: None,
    };
    let types = vec![
        Type::Void,
        Type::Other,
        Type::Fun(TypeFun { args: vec![], ret: RefType(0) }),
        Type::Obj(obj),
    ];
    let code = module(types, vec!["T", "m"], vec![], vec![void_fun(2)]);
    let mut f = fun_of(
        2,
        vec![3, 0],
        vec![Opcode::CallThis { dst: Reg(1), field: RefField(0), args: vec![] }],
    );
    f.is_method = true;
    let out = decompile_function(&code, &f).unwrap();
    assert_eq!(
        out,
        vec![Statement::ExprStmt(Expr::Call(
            Callee::Expr(Box::new(Expr::Field(
                Box::new(Expr::Constant(Constant::This)),
                "m".to_string(),
            ))),
            Rc::new(vec![]),
        ))]
    );
}

#[test]
fn call_closure_applies_the_register_value() {
    let types = vec![
        Type::Void,
        Type::Other,
        Type::Fun(TypeFun { args: vec![], ret: RefType(0) }),
    ];
    let code = module(types, vec![], vec![], vec![]);
    let f = fun_of(
        2,
        vec![1, 2],
        vec![Opcode::CallClosure { dst: Reg(0), fun: Reg(1), args: vec![] }],
    );
    let out = decompile_function(&code, &f).unwrap();
    assert_eq!(
        out,
        vec![Statement::ExprStmt(Expr::Call(
            Callee::Expr(Box::new(unknown())),
            Rc::new(vec![]),
        ))]
    );
}

#[test]
fn static_closure_recursively_decompiles_the_target() {
    let types = vec![
        Type::Void,
        Type::Other,
        Type::Fun(TypeFun { args: vec![], ret: RefType(0) }),
    ];
    let code = module(types, vec![], vec![], vec![void_fun(2)]);
    let f = fun_of(
        2,
        vec![1],
        vec![Opcode::StaticClosure { dst: Reg(0), fun: RefFun(0) }, Opcode::Ret { ret: Reg(0) }],
    );
    let out = decompile_function(&code, &f).unwrap();
    assert_eq!(
        out,
        vec![Statement::Return(Some(Expr::Closure(RefFun(0), Rc::new(vec![]))))]
    );
}

fn self_closure_fun() -> Function {
    fun_of(2, vec![1], vec![Opcode::StaticClosure { dst: Reg(0), fun: RefFun(0) }])
}

#[test]
fn self_referential_closure_exhausts_the_depth_limit() {
    let types = vec![
        Type::Void,
        Type::Other,
        Type::Fun(TypeFun { args: vec![], ret: RefType(0) }),
    ];
    let code = module(types, vec![], vec![], vec![FunPtr::Fun(self_closure_fun())]);
    let f = self_closure_fun();
    assert_eq!(decompile_function(&code, &f), None);
}

#[test]
fn instance_closure_is_a_field_on_the_object() {
    let types = vec![
        Type::Void,
        Type::Other,
        Type::Fun(TypeFun { args: vec![], ret: RefType(0) }),
    ];
    let named = Function {
        name: Some(RefString(0)),
        t: RefType(2),
        regs: Vec::new(),
        ops: Vec::new(),
        arg_names: Vec::new(),
        assigns: Vec::new(),
        is_method: false,
    };
    let code = module(types, vec!["m"], vec![], vec![FunPtr::Fun(named)]);
    let f = fun_of(
        2,
        vec![1, 1],
        vec![
            Opcode::InstanceClosure { dst: Reg(0), fun: RefFun(0), obj: Reg(1) },
            Opcode::Ret { ret: Reg(0) },
        ],
    );
    let out = decompile_function(&code, &f).unwrap();
    assert_eq!(
        out,
        vec![Statement::Return(Some(Expr::Field(Box::new(unknown()), "m".to_string())))]
    );
}

#[test]
fn enum_construction_carries_its_arguments() {
    let types = vec![
        Type::Void,
        Type::Other,
        Type::Fun(TypeFun { args: vec![], ret: RefType(0) }),
    ];
    let code = module(types, vec![], vec![3], vec![]);
    let f = fun_of(
        2,
        vec![1, 1],
        vec![
            Opcode::Int { dst: Reg(1), ptr: RefInt(0) },
            Opcode::MakeEnum { dst: Reg(0), construct: RefEnumConstruct(2), args: vec![Reg(1)] },
            Opcode::Ret { ret: Reg(0) },
        ],
    );
    let out = decompile_function(&code, &f).unwrap();
    assert_eq!(
        out,
        vec![Statement::Return(Some(Expr::EnumConstr(
            RefType(1),
            RefEnumConstruct(2),
            Rc::new(vec![Expr::Constant(Constant::Int(3))]),
        )))]
    );
}

#[test]
fn dynamic_get_reads_like_an_index_with_the_name() {
    let types = vec![
        Type::Void,
        Type::Other,
        Type::Fun(TypeFun { args: vec![], ret: RefType(0) }),
    ];
    let code = module(types, vec!["name"], vec![], vec![]);
    let f = fun_of(
        2,
        vec![1, 1],
        vec![
            Opcode::DynGet { dst: Reg(0), obj: Reg(1), field: RefString(0) },
            Opcode::Ret { ret: Reg(0) },
        ],
    );
    let out = decompile_function(&code, &f).unwrap();
    assert_eq!(
        out,
        vec![Statement::Return(Some(Expr::Array(
            Box::new(unknown()),
            Box::new(Expr::Constant(Constant::Str("name".to_string()))),
        )))]
    );
}

#[test]
fn memory_read_is_an_indexed_access() {
    let types = vec![
        Type::Void,
        Type::Other,
        Type::Fun(TypeFun { args: vec![], ret: RefType(0) }),
    ];
    let code = module(types, vec![], vec![], vec![]);
    let f = fun_of(
        2,
        vec![1, 1, 1],
        vec![
            Opcode::GetMem { dst: Reg(0), bytes: Reg(1), index: Reg(2) },
            Opcode::Ret { ret: Reg(0) },
        ],
    );
    let out = decompile_function(&code, &f).unwrap();
    assert_eq!(
        out,
        vec![Statement::Return(Some(Expr::Array(Box::new(unknown()), Box::new(unknown()))))]
    );
}

#[test]
fn string_global_resolves_through_the_constant_table() {
    let mut types = vec![Type::Void, Type::Other, Type::Fun(TypeFun {
        args: vec![],
        ret: RefType(0),
    })];
    while types.len() < 14 {
        types.push(Type::Other);
    }
    let mut code = module(types, vec!["cls", "hello"], vec![], vec![]);
    code.globals_initializers = vec![(hlbc_decompiler::types::RefGlobal(5), 0)];
    code.constants = Some(vec![hlbc_decompiler::types::ConstantDef {
        global: hlbc_decompiler::types::RefGlobal(5),
        fields: vec![1],
    }]);
    let f = fun_of(
        2,
        vec![13],
        vec![
            Opcode::GetGlobal { dst: Reg(0), global: hlbc_decompiler::types::RefGlobal(5) },
            Opcode::Ret { ret: Reg(0) },
        ],
    );
    let out = decompile_function(&code, &f).unwrap();
    assert_eq!(
        out,
        vec![Statement::Return(Some(Expr::Constant(Constant::Str("hello".to_string()))))]
    );
}

#[test]
fn object_global_becomes_a_type_name_variable() {
    let types = vec![
        Type::Void,
        Type::Other,
        Type::Fun(TypeFun { args: vec![], ret: RefType(0) }),
        Type::Obj(empty_obj(0)),
    ];
    let code = module(types, vec!["Cls"], vec![], vec![]);
    let f = fun_of(
        2,
        vec![3],
        vec![
            Opcode::GetGlobal { dst: Reg(0), global: hlbc_decompiler::types::RefGlobal(0) },
            Opcode::Ret { ret: Reg(0) },
        ],
    );
    let out = decompile_function(&code, &f).unwrap();
    assert_eq!(
        out,
        vec![Statement::Return(Some(Expr::Variable(Reg(0), Some("Cls".to_string()))))]
    );
}

#[test]
fn enum_global_is_an_unknown_placeholder() {
    let types = vec![
        Type::Void,
        Type::Other,
        Type::Fun(TypeFun { args: vec![], ret: RefType(0) }),
        Type::Enum { name: RefString(0) },
    ];
    let code = module(types, vec!["E"], vec![], vec![]);
    let f = fun_of(
        2,
        vec![3],
        vec![
            Opcode::GetGlobal { dst: Reg(0), global: hlbc_decompiler::types::RefGlobal(0) },
            Opcode::Ret { ret: Reg(0) },
        ],
    );
    let out = decompile_function(&code, &f).unwrap();
    assert_eq!(
        out,
        vec![Statement::Return(Some(Expr::Unknown("unknown enum variant".to_string())))]
    );
}

#[test]
fn call_with_dynamic_arity_reads_every_argument() {
    let types = vec![
        Type::Void,
        Type::Other,
        Type::Fun(TypeFun { args: vec![], ret: RefType(1) }),
    ];
    let code = module(types, vec![], vec![3, 4], vec![FunPtr::Fun(fun_of(2, vec![], vec![]))]);
    let f = fun_of(
        2,
        vec![1, 1, 1],
        vec![
            Opcode::Int { dst: Reg(0), ptr: RefInt(0) },
            Opcode::Int { dst: Reg(1), ptr: RefInt(1) },
            Opcode::CallN { dst: Reg(2), fun: RefFun(0), args: vec![Reg(0), Reg(1)] },
            Opcode::Ret { ret: Reg(2) },
        ],
    );
    let out = decompile_function(&code, &f).unwrap();
    assert_eq!(
        out,
        vec![Statement::Return(Some(Expr::Call(
            Callee::Fun(RefFun(0)),
            Rc::new(vec![
                Expr::Constant(Constant::Int(3)),
                Expr::Constant(Constant::Int(4)),
            ]),
        )))]
    );
}

#[test]
fn method_table_call_names_the_field_and_skips_the_receiver() {
    let obj = TypeObj {
        name: RefString(0),
        super_: None,
        fields: vec![ObjField { name: RefString(1), t: RefType(1) }],
        own_fields: vec![ObjField { name: RefString(1), t: RefType(1) }],
        protos: vec![ObjProto { name: RefString(1), findex: RefFun(0) }],
        bindings: Vec::new(),
        static_ty: None,
    };
    let types = vec![
        Type::Void,
        Type::Other,
        Type::Fun(TypeFun { args: vec![], ret: RefType(0) }),
        Type::Obj(obj),
    ];
    let code = module(types, vec!["T", "go"], vec![7], vec![void_fun(2)]);
    let f = fun_of(
        2,
        vec![3, 1, 0],
        vec![
            Opcode::Int { dst: Reg(1), ptr: RefInt(0) },
            Opcode::CallMethod { dst: Reg(2), field: RefField(0), args: vec![Reg(0), Reg(1)] },
        ],
    );
    let out = decompile_function(&code, &f).unwrap();
    assert_eq!(
        out,
        vec![Statement::ExprStmt(Expr::Call(
            Callee::Expr(Box::new(Expr::Field(Box::new(unknown()), "go".to_string()))),
            Rc::new(vec![Expr::Constant(Constant::Int(7))]),
        ))]
    );
}

#[test]
fn zero_field_virtual_completes_at_once() {
    let types = vec![
        Type::Void,
        Type::Other,
        Type::Fun(TypeFun { args: vec![], ret: RefType(0) }),
        Type::Virtual { fields: vec![] },
    ];
    let code = module(types, vec![], vec![], vec![]);
    let f = fun_of(
        2,
        vec![3],
        vec![Opcode::New { dst: Reg(0) }, Opcode::Ret { ret: Reg(0) }],
    );
    let out = decompile_function(&code, &f).unwrap();
    assert_eq!(
        out,
        vec![Statement::Return(Some(Expr::Anonymous(RefType(3), Rc::new(vec![]))))]
    );
}

#[test]
fn call_on_another_register_is_a_normal_call_while_a_constructor_pends() {
    // While a constructor for register 0 is pending, a direct call whose
    // receiver is a different register is an ordinary call; the idiom
    // stays pending and is discarded at function end.
    let types = vec![
        Type::Void,
        Type::Other,
        Type::Fun(TypeFun { args: vec![], ret: RefType(0) }),
        Type::Obj(empty_obj(0)),
    ];
    let code = module(types, vec!["T"], vec![], vec![void_fun(2)]);
    let f = fun_of(
        2,
        vec![3, 1, 1],
        vec![
            Opcode::New { dst: Reg(0) },
            Opcode::Call1 { dst: Reg(2), fun: RefFun(0), arg0: Reg(1) },
        ],
    );
    let out = decompile_function(&code, &f).unwrap();
    assert_eq!(
        out,
        vec![Statement::ExprStmt(Expr::Call(Callee::Fun(RefFun(0)), Rc::new(vec![unknown()])))]
    );
}

#[test]
fn this_field_read_and_write_resolve_the_source_name() {
    let obj = TypeObj {
        name: RefString(0),
        super_: None,
        fields: vec![ObjField { name: RefString(1), t: RefType(1) }],
        own_fields: vec![ObjField { name: RefString(1), t: RefType(1) }],
        protos: Vec::new(),
        bindings: Vec::new(),
        static_ty: None,
    };
    let types = vec![
        Type::Void,
        Type::Other,
        Type::Fun(TypeFun { args: vec![], ret: RefType(0) }),
        Type::Obj(obj),
    ];
    let code = module(types, vec!["T", "x"], vec![], vec![]);
    let mut f = fun_of(
        2,
        vec![3, 1],
        vec![
            Opcode::GetThis { dst: Reg(1), field: RefField(0) },
            Opcode::SetThis { field: RefField(0), src: Reg(1) },
        ],
    );
    f.is_method = true;
    let out = decompile_function(&code, &f).unwrap();
    assert_eq!(
        out,
        vec![Statement::Assign {
            declaration: false,
            variable: Expr::Field(Box::new(Expr::Constant(Constant::This)), "x".to_string()),
            value: Expr::Field(Box::new(Expr::Constant(Constant::This)), "x".to_string()),
        }]
    );
}

#[test]
fn dynamic_set_assigns_through_an_index() {
    let types = vec![
        Type::Void,
        Type::Other,
        Type::Fun(TypeFun { args: vec![], ret: RefType(0) }),
    ];
    let code = module(types, vec!["k"], vec![2], vec![]);
    let f = fun_of(
        2,
        vec![1, 1],
        vec![
            Opcode::Int { dst: Reg(1), ptr: RefInt(0) },
            Opcode::DynSet { obj: Reg(0), field: RefString(0), src: Reg(1) },
        ],
    );
    let out = decompile_function(&code, &f).unwrap();
    assert_eq!(
        out,
        vec![Statement::Assign {
            declaration: false,
            variable: Expr::Array(
                Box::new(unknown()),
                Box::new(Expr::Constant(Constant::Str("k".to_string()))),
            ),
            value: Expr::Constant(Constant::Int(2)),
        }]
    );
}
