use std::rc::Rc;

use hlbc_decompiler::ast::{Constant, Expr, OpKind, Statement};
use hlbc_decompiler::decompiler::decompile_function;
use hlbc_decompiler::types::{Bytecode, FunPtr, Function, Opcode, RefType, Reg, Type, TypeFun};

fn module(types: Vec<Type>, strings: Vec<&str>, ints: Vec<i32>, functions: Vec<FunPtr>) -> Bytecode {
    Bytecode {
        types,
        strings: strings.into_iter().map(|s| s.to_string()).collect(),
        ints,
        functions,
        globals_initializers: Vec::new(),
        constants: None,
    }
}

fn base_types() -> Vec<Type> {
    vec![
        Type::Void,
        Type::Other,
        Type::Fun(TypeFun { args: vec![], ret: RefType(0) }),
    ]
}

fn fun_of(t: usize, regs: Vec<usize>, ops: Vec<Opcode>) -> Function {
    Function {
        name: None,
        t: RefType(t),
        regs: regs.into_iter().map(RefType).collect(),
        ops,
        arg_names: Vec::new(),
        assigns: Vec::new(),
        is_method: false,
    }
}

fn unknown() -> Expr {
    Expr::Unknown("missing expr".to_string())
}

fn bool_true() -> Expr {
    Expr::Constant(Constant::Bool(true))
}

fn int_of(i: i32) -> Expr {
    Expr::Constant(Constant::Int(i))
}

fn incr_stmt(e: Expr) -> Statement {
    Statement::ExprStmt(Expr::Op(OpKind::Incr, Rc::new(vec![e])))
}

fn decr_stmt(e: Expr) -> Statement {
    Statement::ExprStmt(Expr::Op(OpKind::Decr, Rc::new(vec![e])))
}

#[test]
fn first_of_two_back_edges_is_a_continue() {
    let code = module(base_types(), vec![], vec![], vec![]);
    let f = fun_of(
        2,
        vec![0],
        vec![
            Opcode::Label,
            Opcode::JAlways { offset: -2 },
            Opcode::JAlways { offset: -3 },
            Opcode::Ret { ret: Reg(0) },
        ],
    );
    let out = decompile_function(&code, &f).unwrap();
    assert_eq!(
        out,
        vec![Statement::While {
            cond: Expr::Unknown(String::new()),
            stmts: vec![Statement::Continue],
        }]
    );
}

#[test]
fn forward_jump_to_the_back_edge_is_a_break() {
    let code = module(base_types(), vec![], vec![], vec![]);
    let f = fun_of(
        2,
        vec![0],
        vec![
            Opcode::Label,
            Opcode::Bool { dst: Reg(0), value: false },
            Opcode::JFalse { cond: Reg(0), offset: 2 },
            Opcode::JAlways { offset: 1 },
            Opcode::JAlways { offset: -5 },
            Opcode::Ret { ret: Reg(0) },
        ],
    );
    let out = decompile_function(&code, &f).unwrap();
    assert_eq!(
        out,
        vec![Statement::While {
            cond: Expr::Constant(Constant::Bool(false)),
            stmts: vec![Statement::Break],
        }]
    );
}

#[test]
fn switch_collects_default_and_case_bodies() {
    let code = module(base_types(), vec![], vec![], vec![]);
    let f = fun_of(
        2,
        vec![0],
        vec![
            Opcode::Switch { reg: Reg(0), offsets: vec![2], end: 3 },
            Opcode::Incr { dst: Reg(0) },
            Opcode::JAlways { offset: 1 },
            Opcode::Decr { dst: Reg(0) },
            Opcode::Ret { ret: Reg(0) },
        ],
    );
    let out = decompile_function(&code, &f).unwrap();
    assert_eq!(
        out,
        vec![Statement::Switch {
            end: 4,
            arg: unknown(),
            offsets: vec![2],
            cases: vec![vec![decr_stmt(unknown())]],
            default: vec![incr_stmt(unknown())],
        }]
    );
}

#[test]
fn forward_jump_over_an_if_opens_an_else() {
    let code = module(base_types(), vec![], vec![], vec![]);
    let f = fun_of(
        2,
        vec![0],
        vec![
            Opcode::Bool { dst: Reg(0), value: true },
            Opcode::JFalse { cond: Reg(0), offset: 2 },
            Opcode::Incr { dst: Reg(0) },
            Opcode::JAlways { offset: 1 },
            Opcode::Decr { dst: Reg(0) },
            Opcode::Ret { ret: Reg(0) },
        ],
    );
    let out = decompile_function(&code, &f).unwrap();
    assert_eq!(
        out,
        vec![
            Statement::If { end: 4, cond: bool_true(), stmts: vec![incr_stmt(bool_true())] },
            Statement::Else { end: 5, stmts: vec![decr_stmt(bool_true())] },
        ]
    );
}

#[test]
fn try_scope_wraps_the_protected_region() {
    let code = module(base_types(), vec![], vec![], vec![]);
    let f = fun_of(
        2,
        vec![0],
        vec![
            Opcode::Trap { exc: Reg(0), offset: 2 },
            Opcode::Throw { exc: Reg(0) },
            Opcode::EndTrap { exc: Reg(0) },
            Opcode::Ret { ret: Reg(0) },
        ],
    );
    let out = decompile_function(&code, &f).unwrap();
    assert_eq!(
        out,
        vec![Statement::Try { end: 3, stmts: vec![Statement::Throw(unknown())] }]
    );
}

#[test]
fn backward_jump_outside_a_loop_gives_the_function_up() {
    let code = module(base_types(), vec![], vec![], vec![]);
    let f = fun_of(2, vec![0], vec![Opcode::Label, Opcode::Ret { ret: Reg(0) }, Opcode::Other]);
    // Sanity: a loop alone is fine...
    assert!(decompile_function(&code, &f).is_some());
    // ...but a backward jump with no loop open is a structural bug.
    let g = fun_of(2, vec![0], vec![Opcode::Ret { ret: Reg(0) }, Opcode::JAlways { offset: -2 }]);
    assert_eq!(decompile_function(&code, &g), None);
}

#[test]
fn jump_into_a_switch_without_matching_case_gives_the_function_up() {
    let code = module(base_types(), vec![], vec![], vec![]);
    let f = fun_of(
        2,
        vec![0],
        vec![
            Opcode::Switch { reg: Reg(0), offsets: vec![1], end: 2 },
            Opcode::Incr { dst: Reg(0) },
            Opcode::JAlways { offset: 0 },
        ],
    );
    assert_eq!(decompile_function(&code, &f), None);
}

#[test]
fn back_edge_arriving_under_an_open_if_gives_the_function_up() {
    let code = module(base_types(), vec![], vec![], vec![]);
    let f = fun_of(
        2,
        vec![1],
        vec![
            Opcode::Label,
            Opcode::Bool { dst: Reg(0), value: true },
            Opcode::JFalse { cond: Reg(0), offset: 2 },
            Opcode::JAlways { offset: -4 },
            Opcode::Ret { ret: Reg(0) },
        ],
    );
    assert_eq!(decompile_function(&code, &f), None);
}

#[test]
fn conditional_jump_conditions_are_negated() {
    // JTrue skips the body when the condition holds, so the reconstructed
    // if tests the negation.
    let code = module(base_types(), vec![], vec![], vec![]);
    let f = fun_of(
        2,
        vec![0],
        vec![
            Opcode::Bool { dst: Reg(0), value: true },
            Opcode::JTrue { cond: Reg(0), offset: 1 },
            Opcode::Incr { dst: Reg(0) },
            Opcode::Ret { ret: Reg(0) },
        ],
    );
    let out = decompile_function(&code, &f).unwrap();
    assert_eq!(
        out,
        vec![Statement::If {
            end: 3,
            cond: Expr::Op(OpKind::Not, Rc::new(vec![bool_true()])),
            stmts: vec![incr_stmt(bool_true())],
        }]
    );
}

#[test]
fn comparison_jumps_swap_and_invert_their_operands() {
    // JSLt a b jumps (skipping the body) when a < b, so the body runs
    // under b <= a... the reconstruction shows lte(b, a).
    let code = module(base_types(), vec![], vec![3, 4], vec![]);
    let f = fun_of(
        2,
        vec![1, 1],
        vec![
            Opcode::Int { dst: Reg(0), ptr: hlbc_decompiler::types::RefInt(0) },
            Opcode::Int { dst: Reg(1), ptr: hlbc_decompiler::types::RefInt(1) },
            Opcode::JSLt { a: Reg(0), b: Reg(1), offset: 1 },
            Opcode::Incr { dst: Reg(0) },
            Opcode::Ret { ret: Reg(0) },
        ],
    );
    let out = decompile_function(&code, &f).unwrap();
    assert_eq!(
        out,
        vec![
            Statement::If {
                end: 4,
                cond: Expr::Op(OpKind::Lte, Rc::new(vec![int_of(4), int_of(3)])),
                stmts: vec![incr_stmt(int_of(3))],
            },
            Statement::Return(Some(int_of(3))),
        ]
    );
}

#[test]
fn null_check_jump_reconstructs_the_opposite_test() {
    // JNull skips the body when the register is null, so the body runs
    // under `reg != null`.
    let code = module(base_types(), vec![], vec![], vec![]);
    let f = fun_of(
        2,
        vec![1],
        vec![
            Opcode::Bool { dst: Reg(0), value: true },
            Opcode::JNull { reg: Reg(0), offset: 1 },
            Opcode::Incr { dst: Reg(0) },
            Opcode::Ret { ret: Reg(0) },
        ],
    );
    let out = decompile_function(&code, &f).unwrap();
    assert_eq!(
        out,
        vec![
            Statement::If {
                end: 3,
                cond: Expr::Op(
                    OpKind::NotEq,
                    Rc::new(vec![bool_true(), Expr::Constant(Constant::Null)]),
                ),
                stmts: vec![incr_stmt(bool_true())],
            },
            Statement::Return(Some(bool_true())),
        ]
    );
}
