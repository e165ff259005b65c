use std::rc::Rc;

use hlbc_decompiler::ast::{Constant, Expr, OpKind, Statement};
use hlbc_decompiler::decompiler::decompile_function;
use hlbc_decompiler::types::{Bytecode, FunPtr, Function, Opcode, RefFloat, RefInt, RefString,
    RefType, Reg, Type, TypeFun};

fn module(types: Vec<Type>, strings: Vec<&str>, ints: Vec<i32>, functions: Vec<FunPtr>) -> Bytecode {
    Bytecode {
        types,
        strings: strings.into_iter().map(|s| s.to_string()).collect(),
        ints,
        functions,
        globals_initializers: Vec::new(),
        constants: None,
    }
}

fn base_types() -> Vec<Type> {
    vec![
        Type::Void,
        Type::Other,
        Type::Fun(TypeFun { args: vec![], ret: RefType(0) }),
    ]
}

fn fun_of(t: usize, regs: Vec<usize>, ops: Vec<Opcode>, assigns: Vec<(usize, usize)>) -> Function {
    Function {
        name: None,
        t: RefType(t),
        regs: regs.into_iter().map(RefType).collect(),
        ops,
        arg_names: Vec::new(),
        assigns: assigns.into_iter().map(|(i, s)| (i, RefString(s))).collect(),
        is_method: false,
    }
}

fn unknown() -> Expr {
    Expr::Unknown("missing expr".to_string())
}

#[test]
fn empty_function_decompiles_to_empty_body() {
    let code = module(base_types(), vec![], vec![], vec![]);
    let f = fun_of(2, vec![], vec![], vec![]);
    assert_eq!(decompile_function(&code, &f), Some(vec![]));
}

#[test]
fn bool_then_return() {
    let code = module(base_types(), vec![], vec![], vec![]);
    let f = fun_of(
        2,
        vec![1],
        vec![Opcode::Bool { dst: Reg(0), value: true }, Opcode::Ret { ret: Reg(0) }],
        vec![],
    );
    let out = decompile_function(&code, &f).unwrap();
    assert_eq!(out, vec![Statement::Return(Some(Expr::Constant(Constant::Bool(true))))]);
}

#[test]
fn top_level_void_return_is_suppressed() {
    let code = module(base_types(), vec![], vec![], vec![]);
    let f = fun_of(2, vec![0], vec![Opcode::Ret { ret: Reg(0) }], vec![]);
    assert_eq!(decompile_function(&code, &f), Some(vec![]));
}

#[test]
fn simple_if_with_named_local() {
    let code = module(base_types(), vec!["v1"], vec![1], vec![]);
    let f = fun_of(
        2,
        vec![1, 1],
        vec![
            Opcode::Bool { dst: Reg(0), value: true },
            Opcode::JFalse { cond: Reg(0), offset: 1 },
            Opcode::Int { dst: Reg(1), ptr: RefInt(0) },
            Opcode::Ret { ret: Reg(1) },
        ],
        vec![(2, 0)],
    );
    let out = decompile_function(&code, &f).unwrap();
    let v1 = || Expr::Variable(Reg(1), Some("v1".to_string()));
    assert_eq!(
        out,
        vec![
            Statement::If {
                end: 3,
                cond: Expr::Constant(Constant::Bool(true)),
                stmts: vec![Statement::Assign {
                    declaration: true,
                    variable: v1(),
                    value: Expr::Constant(Constant::Int(1)),
                }],
            },
            Statement::Return(Some(v1())),
        ]
    );
}

#[test]
fn while_loop_condition_is_back_patched() {
    let code = module(base_types(), vec![], vec![], vec![]);
    let f = fun_of(
        2,
        vec![0],
        vec![
            Opcode::Label,
            Opcode::Bool { dst: Reg(0), value: false },
            Opcode::JFalse { cond: Reg(0), offset: 1 },
            Opcode::JAlways { offset: -3 },
            Opcode::Ret { ret: Reg(0) },
        ],
        vec![],
    );
    let out = decompile_function(&code, &f).unwrap();
    assert_eq!(
        out,
        vec![Statement::While { cond: Expr::Constant(Constant::Bool(false)), stmts: vec![] }]
    );
}

#[test]
fn early_void_return_inside_if_is_kept() {
    let code = module(base_types(), vec![], vec![], vec![]);
    let f = fun_of(
        2,
        vec![1],
        vec![
            Opcode::Bool { dst: Reg(0), value: true },
            Opcode::JFalse { cond: Reg(0), offset: 1 },
            Opcode::Ret { ret: Reg(0) },
        ],
        vec![],
    );
    // Register 0 is given a non-void type but we return register 0 itself,
    // so the early return carries the condition's value.
    let out = decompile_function(&code, &f).unwrap();
    assert_eq!(
        out,
        vec![Statement::If {
            end: 3,
            cond: Expr::Constant(Constant::Bool(true)),
            stmts: vec![Statement::Return(Some(Expr::Constant(Constant::Bool(true))))],
        }]
    );
}

#[test]
fn operators_combine_register_values() {
    let code = module(base_types(), vec![], vec![3, 4], vec![]);
    let f = fun_of(
        2,
        vec![1, 1, 1],
        vec![
            Opcode::Int { dst: Reg(0), ptr: RefInt(0) },
            Opcode::Int { dst: Reg(1), ptr: RefInt(1) },
            Opcode::Add { dst: Reg(2), a: Reg(0), b: Reg(1) },
            Opcode::Ret { ret: Reg(2) },
        ],
        vec![],
    );
    let out = decompile_function(&code, &f).unwrap();
    assert_eq!(
        out,
        vec![Statement::Return(Some(Expr::Op(
            OpKind::Add,
            Rc::new(vec![
                Expr::Constant(Constant::Int(3)),
                Expr::Constant(Constant::Int(4)),
            ]),
        )))]
    );
}

#[test]
fn float_constants_carry_their_table_reference() {
    let code = module(base_types(), vec![], vec![], vec![]);
    let f = fun_of(
        2,
        vec![1],
        vec![Opcode::Float { dst: Reg(0), ptr: RefFloat(7) }, Opcode::Ret { ret: Reg(0) }],
        vec![],
    );
    let out = decompile_function(&code, &f).unwrap();
    assert_eq!(out, vec![Statement::Return(Some(Expr::Constant(Constant::Float(RefFloat(7)))))]);
}

#[test]
fn string_constant_is_resolved_from_the_table() {
    let code = module(base_types(), vec!["lit"], vec![], vec![]);
    let f = fun_of(
        2,
        vec![1],
        vec![Opcode::Str { dst: Reg(0), ptr: RefString(0) }, Opcode::Ret { ret: Reg(0) }],
        vec![],
    );
    let out = decompile_function(&code, &f).unwrap();
    assert_eq!(
        out,
        vec![Statement::Return(Some(Expr::Constant(Constant::Str("lit".to_string()))))]
    );
}

#[test]
fn increment_is_a_statement() {
    let code = module(base_types(), vec![], vec![], vec![]);
    let f = fun_of(2, vec![1], vec![Opcode::Incr { dst: Reg(0) }], vec![]);
    let out = decompile_function(&code, &f).unwrap();
    assert_eq!(
        out,
        vec![Statement::ExprStmt(Expr::Op(OpKind::Incr, Rc::new(vec![unknown()])))]
    );
}

#[test]
fn casts_keep_the_value() {
    let code = module(base_types(), vec![], vec![9], vec![]);
    let f = fun_of(
        2,
        vec![1, 1],
        vec![
            Opcode::Int { dst: Reg(0), ptr: RefInt(0) },
            Opcode::ToDyn { dst: Reg(1), src: Reg(0) },
            Opcode::Ret { ret: Reg(1) },
        ],
        vec![],
    );
    let out = decompile_function(&code, &f).unwrap();
    assert_eq!(out, vec![Statement::Return(Some(Expr::Constant(Constant::Int(9))))]);
}

#[test]
fn mov_aliases_source_register_to_destination_variable() {
    let code = module(base_types(), vec!["x"], vec![42], vec![]);
    let f = fun_of(
        2,
        vec![1, 1],
        vec![
            Opcode::Int { dst: Reg(0), ptr: RefInt(0) },
            Opcode::Mov { dst: Reg(1), src: Reg(0) },
            Opcode::Incr { dst: Reg(0) },
            Opcode::Ret { ret: Reg(1) },
        ],
        vec![(1, 0)],
    );
    let out = decompile_function(&code, &f).unwrap();
    let x = || Expr::Variable(Reg(1), Some("x".to_string()));
    assert_eq!(
        out,
        vec![
            Statement::Assign {
                declaration: true,
                variable: x(),
                value: Expr::Constant(Constant::Int(42)),
            },
            // The increment of the source register shows the destination's
            // variable: the deliberate aliasing workaround.
            Statement::ExprStmt(Expr::Op(OpKind::Incr, Rc::new(vec![x()]))),
            Statement::Return(Some(x())),
        ]
    );
}

#[test]
fn second_assignment_to_a_name_is_not_a_declaration() {
    let code = module(base_types(), vec!["x"], vec![1, 2], vec![]);
    let f = fun_of(
        2,
        vec![1],
        vec![
            Opcode::Int { dst: Reg(0), ptr: RefInt(0) },
            Opcode::Int { dst: Reg(0), ptr: RefInt(1) },
        ],
        vec![(0, 0), (1, 0)],
    );
    let out = decompile_function(&code, &f).unwrap();
    let x = || Expr::Variable(Reg(0), Some("x".to_string()));
    assert_eq!(
        out,
        vec![
            Statement::Assign {
                declaration: true,
                variable: x(),
                value: Expr::Constant(Constant::Int(1)),
            },
            Statement::Assign {
                declaration: false,
                variable: x(),
                value: Expr::Constant(Constant::Int(2)),
            },
        ]
    );
}

#[test]
fn named_argument_counts_as_declared() {
    // A formal argument named "x" is already declared, so a later
    // assignment to "x" is a rebinding.
    let types = vec![
        Type::Void,
        Type::Other,
        Type::Fun(TypeFun { args: vec![RefType(1)], ret: RefType(0) }),
    ];
    let code = module(types, vec!["x"], vec![5], vec![]);
    let mut f = fun_of(
        2,
        vec![1],
        vec![Opcode::Int { dst: Reg(0), ptr: RefInt(0) }],
        vec![(0, 0)],
    );
    f.arg_names = vec![Some(RefString(0))];
    let out = decompile_function(&code, &f).unwrap();
    assert_eq!(
        out,
        vec![Statement::Assign {
            declaration: false,
            variable: Expr::Variable(Reg(0), Some("x".to_string())),
            value: Expr::Constant(Constant::Int(5)),
        }]
    );
}

#[test]
fn unnamed_destination_propagates_silently() {
    // Without a debug name the if body stays empty and the return
    // references the constant itself.
    let code = module(base_types(), vec![], vec![1], vec![]);
    let f = fun_of(
        2,
        vec![1, 1],
        vec![
            Opcode::Bool { dst: Reg(0), value: true },
            Opcode::JFalse { cond: Reg(0), offset: 1 },
            Opcode::Int { dst: Reg(1), ptr: RefInt(0) },
            Opcode::Ret { ret: Reg(1) },
        ],
        vec![],
    );
    let out = decompile_function(&code, &f).unwrap();
    assert_eq!(
        out,
        vec![
            Statement::If {
                end: 3,
                cond: Expr::Constant(Constant::Bool(true)),
                stmts: vec![],
            },
            Statement::Return(Some(Expr::Constant(Constant::Int(1)))),
        ]
    );
}
