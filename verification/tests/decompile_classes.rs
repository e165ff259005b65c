use hlbc_decompiler::decompiler::{decompile_class, Class, ClassField, Method};
use hlbc_decompiler::types::{Binding, Bytecode, FunPtr, Function, ObjField, ObjProto, Opcode,
    RefField, RefFun, RefString, RefType, Reg, Type, TypeFun, TypeObj};

fn void_fun() -> FunPtr {
    FunPtr::Fun(Function {
        name: None,
        t: RefType(2),
        regs: Vec::new(),
        ops: Vec::new(),
        arg_names: Vec::new(),
        assigns: Vec::new(),
        is_method: false,
    })
}

fn module(types: Vec<Type>, strings: Vec<&str>, functions: Vec<FunPtr>) -> Bytecode {
    Bytecode {
        types,
        strings: strings.into_iter().map(|s| s.to_string()).collect(),
        ints: Vec::new(),
        functions,
        globals_initializers: Vec::new(),
        constants: None,
    }
}

#[test]
fn class_with_field_and_prototype_method() {
    let obj = TypeObj {
        name: RefString(0),
        super_: None,
        fields: vec![ObjField { name: RefString(1), t: RefType(1) }],
        own_fields: vec![ObjField { name: RefString(1), t: RefType(1) }],
        protos: vec![ObjProto { name: RefString(2), findex: RefFun(0) }],
        bindings: Vec::new(),
        static_ty: None,
    };
    let types = vec![
        Type::Void,
        Type::Other,
        Type::Fun(TypeFun { args: vec![], ret: RefType(0) }),
        Type::Obj(obj),
    ];
    let code = module(types, vec!["Cls", "a", "m"], vec![void_fun()]);
    let obj2 = match &code.types[3] {
        Type::Obj(o) => o,
        _ => unreachable!(),
    };
    let out = decompile_class(&code, obj2);
    assert_eq!(
        out,
        Class {
            name: "Cls".to_string(),
            parent: None,
            fields: vec![ClassField { name: "a".to_string(), static_: false, ty: RefType(1) }],
            methods: vec![Method {
                fun: RefFun(0),
                static_: false,
                dynamic: false,
                statements: Some(vec![]),
            }],
        }
    );
}

#[test]
fn bound_fields_are_dynamic_methods_not_fields() {
    // The object's only own field is bound to a function: it must appear
    // as a dynamic method and not as a field.
    let obj = TypeObj {
        name: RefString(0),
        super_: None,
        fields: vec![ObjField { name: RefString(1), t: RefType(1) }],
        own_fields: vec![ObjField { name: RefString(1), t: RefType(1) }],
        protos: Vec::new(),
        bindings: vec![Binding { field: RefField(0), findex: RefFun(0) }],
        static_ty: None,
    };
    let types = vec![
        Type::Void,
        Type::Other,
        Type::Fun(TypeFun { args: vec![], ret: RefType(0) }),
        Type::Obj(obj),
    ];
    let code = module(types, vec!["Cls", "cb"], vec![void_fun()]);
    let obj2 = match &code.types[3] {
        Type::Obj(o) => o,
        _ => unreachable!(),
    };
    let out = decompile_class(&code, obj2);
    assert_eq!(out.fields, vec![]);
    assert_eq!(
        out.methods,
        vec![Method { fun: RefFun(0), static_: false, dynamic: true, statements: Some(vec![]) }]
    );
}

#[test]
fn static_companion_contributes_static_fields_and_methods() {
    let statics = TypeObj {
        name: RefString(3),
        super_: None,
        fields: vec![ObjField { name: RefString(4), t: RefType(1) }],
        own_fields: vec![ObjField { name: RefString(4), t: RefType(1) }],
        protos: Vec::new(),
        bindings: vec![Binding { field: RefField(0), findex: RefFun(0) }],
        static_ty: None,
    };
    let obj = TypeObj {
        name: RefString(0),
        super_: None,
        fields: vec![ObjField { name: RefString(1), t: RefType(1) }],
        own_fields: vec![ObjField { name: RefString(1), t: RefType(1) }],
        protos: Vec::new(),
        bindings: Vec::new(),
        static_ty: Some(RefType(4)),
    };
    let types = vec![
        Type::Void,
        Type::Other,
        Type::Fun(TypeFun { args: vec![], ret: RefType(0) }),
        Type::Obj(obj),
        Type::Obj(statics),
    ];
    let code = module(types, vec!["Cls", "a", "m", "ClsStatics", "b"], vec![void_fun()]);
    let obj2 = match &code.types[3] {
        Type::Obj(o) => o,
        _ => unreachable!(),
    };
    let out = decompile_class(&code, obj2);
    // The static side's bound field is shadowed by the binding, so only
    // the instance field and the instance-less static method remain.
    assert_eq!(
        out.fields,
        vec![ClassField { name: "a".to_string(), static_: false, ty: RefType(1) }]
    );
    assert_eq!(
        out.methods,
        vec![Method { fun: RefFun(0), static_: true, dynamic: false, statements: Some(vec![]) }]
    );
}

#[test]
fn parent_class_name_is_resolved() {
    let parent = TypeObj {
        name: RefString(1),
        super_: None,
        fields: Vec::new(),
        own_fields: Vec::new(),
        protos: Vec::new(),
        bindings: Vec::new(),
        static_ty: None,
    };
    let obj = TypeObj {
        name: RefString(0),
        super_: Some(RefType(4)),
        fields: Vec::new(),
        own_fields: Vec::new(),
        protos: Vec::new(),
        bindings: Vec::new(),
        static_ty: None,
    };
    let types = vec![
        Type::Void,
        Type::Other,
        Type::Fun(TypeFun { args: vec![], ret: RefType(0) }),
        Type::Obj(obj),
        Type::Obj(parent),
    ];
    let code = module(types, vec!["Child", "Base"], vec![]);
    let obj2 = match &code.types[3] {
        Type::Obj(o) => o,
        _ => unreachable!(),
    };
    let out = decompile_class(&code, obj2);
    assert_eq!(out.name, "Child".to_string());
    assert_eq!(out.parent, Some("Base".to_string()));
    assert_eq!(out.fields, vec![]);
    assert_eq!(out.methods, vec![]);
}

#[test]
fn method_bodies_come_from_the_decompiler() {
    // The prototype method's body returns true; the class carries the
    // decompiled statements.
    let method = Function {
        name: None,
        t: RefType(2),
        regs: vec![RefType(1)],
        ops: vec![Opcode::Bool { dst: Reg(0), value: true }, Opcode::Ret { ret: Reg(0) }],
        arg_names: Vec::new(),
        assigns: Vec::new(),
        is_method: false,
    };
    let obj = TypeObj {
        name: RefString(0),
        super_: None,
        fields: Vec::new(),
        own_fields: Vec::new(),
        protos: vec![ObjProto { name: RefString(1), findex: RefFun(0) }],
        bindings: Vec::new(),
        static_ty: None,
    };
    let types = vec![
        Type::Void,
        Type::Other,
        Type::Fun(TypeFun { args: vec![], ret: RefType(1) }),
        Type::Obj(obj),
    ];
    let code = module(types, vec!["Cls", "flag"], vec![FunPtr::Fun(method)]);
    let obj2 = match &code.types[3] {
        Type::Obj(o) => o,
        _ => unreachable!(),
    };
    let out = decompile_class(&code, obj2);
    assert_eq!(out.methods.len(), 1);
    let body = out.methods[0].statements.as_ref().unwrap();
    assert_eq!(
        body,
        &vec![hlbc_decompiler::ast::Statement::Return(Some(
            hlbc_decompiler::ast::Expr::Constant(hlbc_decompiler::ast::Constant::Bool(true)),
        ))]
    );
}
