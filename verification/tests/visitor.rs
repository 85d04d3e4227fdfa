use tsnc::ast::{AssignExpr, AssignTarget, BinaryOp, Callee, Expr, FnDecl, Keyword, Module, ModuleItem, Param, Part, Stmt, TypeAnn, VarDeclarator};
use tsnc::error::CompileError;
use tsnc::ir::{ArithOp, ModuleOp, Op, Predicate, Ty};
use tsnc::visit_spec::ControlContext;
use tsnc::visitor::{build_block_and_vars, module_is_typed, parse_type, visit_module, CodegenVisitor, FunctionsVisitor};

fn ident(name: &str) -> Expr {
    Expr::Ident(name.to_string())
}

fn number() -> Option<TypeAnn> {
    Some(TypeAnn::Keyword(Keyword::Number))
}

fn add_fn() -> FnDecl {
    FnDecl {
        name: "add".to_string(),
        params: vec![
            Param { name: Some("a".to_string()), type_ann: number() },
            Param { name: Some("b".to_string()), type_ann: number() },
        ],
        body: Some(vec![Stmt::Return(Some(Expr::Bin {
            op: BinaryOp::Add,
            left: Box::new(ident("a")),
            right: Box::new(ident("b")),
        }))]),
        return_type: number(),
    }
}

#[test]
fn visitor_emits_function_main_and_log() {
    let (m, errors) = visit_module(&Module { body: vec![ModuleItem::Stmt(Stmt::FnDecl(add_fn()))] });
    assert_eq!(m.ops.len(), 3);
    match &m.ops[0] {
        ModuleOp::Func(f) => {
            assert_eq!(f.name, "add");
            assert_eq!(f.params, vec![Ty::I64, Ty::I64]);
            assert_eq!(f.results, vec![Ty::I64]);
            let b = &f.blocks[0];
            assert_eq!(b.id, 1);
            assert_eq!(b.args, vec![(2, Ty::I64), (3, Ty::I64)]);
            assert!(matches!(b.ops[0], Op::Arith { result: 4, kind: ArithOp::AddI, lhs: 2, rhs: 3 }));
            assert!(matches!(&b.ops[1], Op::Return { operands } if operands == &vec![4]));
        },
        _ => panic!("expected add"),
    }
    match &m.ops[1] {
        ModuleOp::Func(f) => {
            assert_eq!(f.name, "main");
            assert_eq!(f.results, vec![Ty::I32]);
            assert_eq!(f.blocks[0].id, 0);
            assert!(matches!(f.blocks[0].ops[0], Op::Constant { result: 5, value: 0, ty: Ty::I32 }));
        },
        _ => panic!("expected main"),
    }
    match &m.ops[2] {
        ModuleOp::Func(f) => {
            assert_eq!(f.name, "log");
            assert!(f.private);
            assert_eq!(f.params, vec![Ty::Ptr]);
            assert!(f.blocks.is_empty());
        },
        _ => panic!("expected log"),
    }
    // The body's visitor visits the function's own name as an identifier.
    assert_eq!(errors.len(), 1);
    assert!(matches!(&errors[0], CompileError::UnknownIdentifier(n) if n == "add"));
}

#[test]
fn visitor_comparison_stays_i1() {
    let (m, errors) = visit_module(&Module {
        body: vec![ModuleItem::Stmt(Stmt::Var(vec![VarDeclarator {
            name: Some("x".to_string()),
            init: Some(Expr::Bin { op: BinaryOp::Gt, left: Box::new(Expr::Num(2)), right: Box::new(Expr::Num(1)) }),
        }]))],
    });
    assert!(errors.is_empty());
    match &m.ops[0] {
        ModuleOp::Func(main) => {
            let ops = &main.blocks[0].ops;
            assert!(matches!(ops[0], Op::Constant { result: 1, value: 2, ty: Ty::I64 }));
            assert!(matches!(ops[2], Op::Compare { result: 3, predicate: Predicate::Sgt, lhs: 1, rhs: 2 }));
            assert!(matches!(ops[3], Op::Constant { result: 4, value: 0, ty: Ty::I32 }));
        },
        _ => panic!("expected main"),
    }
}

#[test]
fn visitor_logs_through_runtime() {
    let (m, errors) = visit_module(&Module {
        body: vec![ModuleItem::Stmt(Stmt::Expr(Expr::Call { text: String::new(),
            callee: Callee::Member { obj: Some("console".to_string()), prop: Some("log".to_string()) },
            args: vec![Expr::Num(7)],
        }))],
    });
    assert!(errors.is_empty());
    match &m.ops[0] {
        ModuleOp::Func(main) => {
            let ops = &main.blocks[0].ops;
            assert!(matches!(&ops[1], Op::Call { callee, args, result: None } if callee == "log" && args == &vec![1]));
        },
        _ => panic!("expected main"),
    }
}

#[test]
fn visitor_records_errors_and_goes_on() {
    let (m, errors) = visit_module(&Module {
        body: vec![
            ModuleItem::Stmt(Stmt::Var(vec![VarDeclarator { name: Some("x".to_string()), init: Some(ident("nope")) }])),
            ModuleItem::Stmt(Stmt::Var(vec![VarDeclarator { name: None, init: Some(Expr::Num(1)) }])),
            ModuleItem::Stmt(Stmt::Expr(Expr::Call { text: String::new(),
                callee: Callee::Member { obj: Some("Math".to_string()), prop: Some("max".to_string()) },
                args: vec![],
            })),
            ModuleItem::Stmt(Stmt::Expr(Expr::Call { text: String::new(), callee: Callee::Ident("g".to_string()), args: vec![] })),
            ModuleItem::Stmt(Stmt::Expr(Expr::Num(3))),
        ],
    });
    assert_eq!(errors.len(), 5);
    assert!(matches!(&errors[0], CompileError::UnknownIdentifier(n) if n == "nope"));
    assert!(matches!(&errors[1], CompileError::UnknownIdentifier(n) if n == "nope"));
    assert!(matches!(errors[2], CompileError::UnsupportedAssignmentTarget));
    assert!(matches!(&errors[3], CompileError::UnresolvedNativeCall(o, p) if o == "Math" && p == "max"));
    assert!(matches!(&errors[4], CompileError::UnknownFunction(n) if n == "g"));
    match &m.ops[0] {
        ModuleOp::Func(main) => assert!(matches!(main.blocks[0].ops[0], Op::Constant { result: 1, value: 3, ty: Ty::I64 })),
        _ => panic!("expected main"),
    }
}

#[test]
fn visitor_call_of_void_function_has_no_result() {
    let f = FnDecl { name: "f".to_string(), params: vec![], body: Some(vec![]), return_type: None };
    let (_, errors) = visit_module(&Module {
        body: vec![
            ModuleItem::Stmt(Stmt::FnDecl(f)),
            ModuleItem::Stmt(Stmt::Var(vec![VarDeclarator {
                name: Some("x".to_string()),
                init: Some(Expr::Call { text: String::new(), callee: Callee::Ident("f".to_string()), args: vec![] }),
            }])),
        ],
    });
    assert!(matches!(&errors[0], CompileError::UnknownIdentifier(n) if n == "f"));
    assert!(matches!(errors[1], CompileError::MissingResult));
    assert!(matches!(errors[2], CompileError::MissingResult));
    assert_eq!(errors.len(), 3);
}

#[test]
fn visitor_if_builds_conditional_branch() {
    let (m, errors) = visit_module(&Module {
        body: vec![ModuleItem::Stmt(Stmt::If {
            test: Expr::Bin { op: BinaryOp::Lt, left: Box::new(Expr::Num(1)), right: Box::new(Expr::Num(2)) },
            cons: Box::new(Stmt::Block(vec![Stmt::Expr(Expr::Num(5))])),
            alt: None,
        })],
    });
    assert!(errors.is_empty());
    match &m.ops[0] {
        ModuleOp::Func(main) => {
            let ops = &main.blocks[0].ops;
            assert!(matches!(ops[3], Op::CondBr { cond: 3, then_dest: 4, else_dest: 6 }));
        },
        _ => panic!("expected main"),
    }
}

#[test]
fn types_map_to_mlir() {
    assert_eq!(parse_type(&Some(TypeAnn::Keyword(Keyword::Number))), Some(Ty::I64));
    assert_eq!(parse_type(&Some(TypeAnn::Keyword(Keyword::BigInt))), Some(Ty::I64));
    assert_eq!(parse_type(&Some(TypeAnn::Keyword(Keyword::Boolean))), Some(Ty::I1));
    assert_eq!(parse_type(&Some(TypeAnn::Keyword(Keyword::String))), Some(Ty::Ptr));
    assert_eq!(parse_type(&Some(TypeAnn::Keyword(Keyword::Void))), None);
    assert_eq!(parse_type(&Some(TypeAnn::Other)), None);
    assert_eq!(parse_type(&None), None);
}

#[test]
fn block_arguments_and_bindings() {
    let (args, vars) = build_block_and_vars(&vec![("a".to_string(), Ty::I64), ("b".to_string(), Ty::I1)], 10);
    assert_eq!(args, vec![(10, Ty::I64), (11, Ty::I1)]);
    assert_eq!(vars, vec![("a".to_string(), 10), ("b".to_string(), 11)]);
}

#[test]
fn functions_are_collected_outside_bodies() {
    let inner = FnDecl { name: "inner".to_string(), params: vec![], body: None, return_type: None };
    let outer = FnDecl {
        name: "outer".to_string(),
        params: vec![],
        body: Some(vec![Stmt::FnDecl(inner)]),
        return_type: number(),
    };
    let nested = FnDecl { name: "nested".to_string(), params: vec![], body: None, return_type: None };
    let mut c = FunctionsVisitor::new();
    c.visit_items(&vec![
        ModuleItem::Stmt(Stmt::FnDecl(outer)),
        ModuleItem::Stmt(Stmt::Block(vec![Stmt::FnDecl(nested)])),
    ]);
    assert_eq!(c.functions.len(), 2);
    assert_eq!(c.functions[0].0, "outer");
    assert_eq!(c.functions[0].1, number());
    assert_eq!(c.functions[1].0, "nested");
}

#[test]
fn assignment_binds_the_name() {
    let mut v = CodegenVisitor::new(vec![], ControlContext::Function);
    let r = v.visit_assign_expr(&AssignExpr { target: AssignTarget::Ident("x".to_string()), value: Box::new(Expr::Num(5)) });
    assert!(r.is_ok());
    assert_eq!(v.bindings(), &vec![("x".to_string(), 0u64)]);
    assert!(v.errors().is_empty());
    let r = v.visit_assign_expr(&AssignExpr { target: AssignTarget::Other, value: Box::new(ident("x")) });
    assert!(matches!(r, Err(CompileError::UnsupportedAssignmentTarget)));
    assert!(v.errors().is_empty());
    let r = v.visit_assign_expr(&AssignExpr { target: AssignTarget::Ident("y".to_string()), value: Box::new(ident("z")) });
    assert!(matches!(r, Err(CompileError::UnknownIdentifier(ref n)) if n == "z"));
    assert_eq!(v.errors().len(), 1);
    assert_eq!(v.bindings().len(), 1);
}

#[test]
fn unhandled_expression_reads_the_last_result() {
    let mut v = CodegenVisitor::new(vec![], ControlContext::Function);
    let r = v.visit_assign_expr(&AssignExpr { target: AssignTarget::Ident("x".to_string()), value: Box::new(Expr::Num(5)) });
    assert!(r.is_ok());
    assert!(matches!(v.last_result(), Ok(Some(0))));
    let r = v.visit_assign_expr(&AssignExpr {
        target: AssignTarget::Ident("y".to_string()),
        value: Box::new(Expr::Other { text: "Str".to_string(), parts: vec![] }),
    });
    assert!(r.is_ok());
    assert_eq!(v.bindings(), &vec![("x".to_string(), 0u64), ("y".to_string(), 0u64)]);
    assert!(v.errors().is_empty());
}

#[test]
fn unhandled_initializer_without_last_value_is_refused() {
    let m = Module {
        body: vec![ModuleItem::Stmt(Stmt::Var(vec![VarDeclarator {
            name: Some("s".to_string()),
            init: Some(Expr::Other { text: "Str".to_string(), parts: vec![] }),
        }]))],
    };
    let (_, errors) = visit_module(&m);
    assert_eq!(errors.len(), 1);
    assert!(matches!(errors[0], CompileError::LastValueEmpty));
}

#[test]
fn nested_function_goes_into_the_enclosing_block() {
    let inner = FnDecl { name: "inner".to_string(), params: vec![], body: Some(vec![]), return_type: None };
    let outer = FnDecl {
        name: "outer".to_string(),
        params: vec![],
        body: Some(vec![Stmt::FnDecl(inner)]),
        return_type: None,
    };
    let (m, errors) = visit_module(&Module { body: vec![ModuleItem::Stmt(Stmt::FnDecl(outer))] });
    assert_eq!(errors.len(), 2);
    assert!(matches!(&errors[0], CompileError::UnknownIdentifier(n) if n == "outer"));
    assert!(matches!(&errors[1], CompileError::UnknownIdentifier(n) if n == "inner"));
    let names: Vec<&str> = m
        .ops
        .iter()
        .filter_map(|o| match o {
            ModuleOp::Func(f) => Some(f.name.as_str()),
            _ => None,
        })
        .collect();
    assert_eq!(names, vec!["outer", "main", "log"]);
    let outer = match &m.ops[0] {
        ModuleOp::Func(f) => f,
        _ => panic!("outer expected first"),
    };
    let entry = &outer.blocks[0];
    assert_eq!(entry.ops.len(), 2);
    assert!(matches!(entry.ops[0], Op::Return { .. }));
    match &entry.ops[1] {
        Op::Func(f) => {
            assert_eq!(f.name, "inner");
            assert!(f.results.is_empty());
            assert!(matches!(f.blocks[0].ops[0], Op::Return { .. }));
        },
        _ => panic!("inner expected in the block"),
    }
}

#[test]
fn untyped_parameters_are_found() {
    let f = FnDecl {
        name: "f".to_string(),
        params: vec![Param { name: Some("a".to_string()), type_ann: None }],
        body: None,
        return_type: None,
    };
    assert!(!module_is_typed(&Module { body: vec![ModuleItem::Stmt(Stmt::Block(vec![Stmt::FnDecl(f)]))] }));
    assert!(module_is_typed(&Module { body: vec![ModuleItem::Stmt(Stmt::FnDecl(add_fn()))] }));
}

#[test]
fn member_calls_need_plain_names() {
    let call = |obj: Option<&str>, prop: Option<&str>| {
        ModuleItem::Stmt(Stmt::Expr(Expr::Call { text: String::new(),
            callee: Callee::Member { obj: obj.map(|s| s.to_string()), prop: prop.map(|s| s.to_string()) },
            args: vec![],
        }))
    };
    let (_, errors) = visit_module(&Module { body: vec![call(None, Some("log")), call(Some("console"), None)] });
    assert_eq!(errors.len(), 2);
    assert!(matches!(errors[0], CompileError::UnsupportedMemberObject));
    assert!(matches!(errors[1], CompileError::UnsupportedMemberProperty));
}

#[test]
fn logging_has_no_value() {
    let (_, errors) = visit_module(&Module {
        body: vec![ModuleItem::Stmt(Stmt::Var(vec![VarDeclarator {
            name: Some("x".to_string()),
            init: Some(Expr::Call { text: String::new(),
                callee: Callee::Member { obj: Some("console".to_string()), prop: Some("log".to_string()) },
                args: vec![Expr::Num(1)],
            }),
        }]))],
    });
    assert_eq!(errors.len(), 1);
    assert!(matches!(errors[0], CompileError::LastValueEmpty));
}

#[test]
fn console_log_arity_is_checked_by_the_visitor() {
    let (_, errors) = visit_module(&Module {
        body: vec![ModuleItem::Stmt(Stmt::Expr(Expr::Call { text: String::new(),
            callee: Callee::Member { obj: Some("console".to_string()), prop: Some("log".to_string()) },
            args: vec![],
        }))],
    });
    assert!(matches!(errors[0], CompileError::ConsoleLogArity));
}

fn main_block_ops(m: &tsnc::ir::Module) -> &Vec<Op> {
    m.ops
        .iter()
        .find_map(|o| match o {
            ModuleOp::Func(f) if f.name == "main" => Some(&f.blocks[0].ops),
            _ => None,
        })
        .expect("main")
}

#[test]
fn pieces_of_an_unhandled_statement_are_visited() {
    let log_x = Expr::Call { text: String::new(),
        callee: Callee::Member { obj: Some("console".to_string()), prop: Some("log".to_string()) },
        args: vec![ident("x")],
    };
    let m = Module {
        body: vec![
            ModuleItem::Stmt(Stmt::Var(vec![VarDeclarator { name: Some("x".to_string()), init: Some(Expr::Num(7)) }])),
            ModuleItem::Stmt(Stmt::Other(vec![Part::Expr(ident("x")), Part::Expr(log_x)])),
        ],
    };
    let (m, errors) = visit_module(&m);
    assert!(errors.is_empty());
    let ops = main_block_ops(&m);
    assert_eq!(ops.len(), 4);
    assert!(matches!(ops[0], Op::Constant { result: 1, value: 7, ty: Ty::I64 }));
    assert!(matches!(&ops[1], Op::Call { callee, args, result: None } if callee == "log" && args == &vec![1]));
}

#[test]
fn value_of_an_unhandled_expression_is_its_last_piece() {
    let sum = Expr::Bin { op: BinaryOp::Add, left: Box::new(Expr::Num(2)), right: Box::new(Expr::Num(3)) };
    let m = Module {
        body: vec![
            ModuleItem::Stmt(Stmt::Var(vec![VarDeclarator {
                name: Some("y".to_string()),
                init: Some(Expr::Other { text: "Unary".to_string(), parts: vec![sum] }),
            }])),
            ModuleItem::Stmt(Stmt::Return(Some(ident("y")))),
        ],
    };
    let (m, errors) = visit_module(&m);
    assert!(errors.is_empty());
    let ops = main_block_ops(&m);
    assert!(matches!(ops[0], Op::Constant { result: 1, value: 2, ty: Ty::I64 }));
    assert!(matches!(ops[1], Op::Constant { result: 2, value: 3, ty: Ty::I64 }));
    assert!(matches!(ops[2], Op::Arith { result: 3, kind: ArithOp::AddI, lhs: 1, rhs: 2 }));
    assert!(matches!(&ops[3], Op::Yield { operands } if operands == &vec![3]));
}

#[test]
fn functions_inside_unhandled_statements_are_collected() {
    let f = FnDecl { name: "inner".to_string(), params: vec![], body: None, return_type: number() };
    let mut c = FunctionsVisitor::new();
    c.visit_items(&vec![ModuleItem::Stmt(Stmt::Other(vec![Part::Expr(Expr::Num(1)), Part::Stmt(Stmt::FnDecl(f))]))]);
    assert_eq!(c.functions.len(), 1);
    assert_eq!(c.functions[0].0, "inner");
}
