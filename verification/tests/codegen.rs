use tsnc::ast::{BinaryOp, Callee, Expr, FnDecl, Keyword, Module, ModuleItem, Param, Stmt, TypeAnn, VarDeclarator};
use tsnc::budget::module_budget;
use tsnc::codegen::{compile, emit, is_void_function};
use tsnc::error::CompileError;
use tsnc::ir::{ArithOp, ModuleOp, Op, Predicate, Ty};
use tsnc::scope::{lookup_flag, lookup_id};

fn ident(name: &str) -> Expr {
    Expr::Ident(name.to_string())
}

fn bin(op: BinaryOp, l: Expr, r: Expr) -> Expr {
    Expr::Bin { op, left: Box::new(l), right: Box::new(r) }
}

fn number_param(name: &str) -> Param {
    Param { name: Some(name.to_string()), type_ann: Some(TypeAnn::Keyword(Keyword::Number)) }
}

fn function(name: &str, params: Vec<Param>, body: Vec<Stmt>, ret: Option<TypeAnn>) -> ModuleItem {
    ModuleItem::Stmt(Stmt::FnDecl(FnDecl { name: name.to_string(), params, body: Some(body), return_type: ret }))
}

fn console_log(arg: Expr) -> Stmt {
    Stmt::Expr(Expr::Call { text: String::new(),
        callee: Callee::Member { obj: Some("console".to_string()), prop: Some("log".to_string()) },
        args: vec![arg],
    })
}

fn add_module() -> Module {
    Module {
        body: vec![function(
            "add",
            vec![number_param("a"), number_param("b")],
            vec![Stmt::Return(Some(bin(BinaryOp::Add, ident("a"), ident("b"))))],
            Some(TypeAnn::Keyword(Keyword::Number)),
        )],
    }
}

#[test]
fn function_becomes_func_over_i64() {
    let m = compile(&add_module()).unwrap();
    assert_eq!(m.ops.len(), 2);
    match &m.ops[0] {
        ModuleOp::Func(f) => {
            assert_eq!(f.name, "add");
            assert_eq!(f.params, vec![Ty::I64, Ty::I64]);
            assert_eq!(f.results, vec![Ty::I64]);
            assert!(!f.private);
            assert_eq!(f.blocks.len(), 1);
            let b = &f.blocks[0];
            assert_eq!(b.id, 0);
            assert_eq!(b.args, vec![(1, Ty::I64), (2, Ty::I64)]);
            assert_eq!(b.ops.len(), 2);
            assert!(matches!(b.ops[0], Op::Arith { result: 3, kind: ArithOp::AddI, lhs: 1, rhs: 2 }));
            assert!(matches!(&b.ops[1], Op::Return { operands } if operands == &vec![3]));
        },
        _ => panic!("expected a function"),
    }
    match &m.ops[1] {
        ModuleOp::Func(f) => {
            assert_eq!(f.name, "main");
            assert_eq!(f.results, vec![Ty::I32]);
            let b = &f.blocks[0];
            assert_eq!(b.id, 4);
            assert!(matches!(b.ops[0], Op::Constant { result: 5, value: 0, ty: Ty::I32 }));
            assert!(matches!(&b.ops[1], Op::Return { operands } if operands == &vec![5]));
        },
        _ => panic!("expected main"),
    }
}

#[test]
fn console_log_prints_through_printf() {
    let m = compile(&Module { body: vec![ModuleItem::Stmt(console_log(Expr::Num(1)))] }).unwrap();
    assert_eq!(m.ops.len(), 3);
    assert!(matches!(&m.ops[0], ModuleOp::ExternVarargFunc { name, fixed } if name == "printf" && fixed == &vec![Ty::Ptr]));
    assert!(matches!(&m.ops[1], ModuleOp::ConstString { name, value } if name == "fmt" && value == "%lld\n\0"));
    match &m.ops[2] {
        ModuleOp::Func(f) => {
            let ops = &f.blocks[0].ops;
            assert_eq!(ops.len(), 6);
            assert!(matches!(ops[0], Op::Constant { result: 1, value: 1, ty: Ty::I64 }));
            assert!(matches!(&ops[1], Op::AddressOf { result: 2, global } if global == "fmt"));
            assert!(matches!(&ops[2], Op::VarargCall { result: 3, callee, args } if callee == "printf" && args == &vec![2, 1]));
            assert!(matches!(ops[3], Op::Constant { result: 4, value: 0, ty: Ty::I64 }));
        },
        _ => panic!("expected main"),
    }
}

#[test]
fn printf_is_declared_once() {
    let m = compile(&Module {
        body: vec![ModuleItem::Stmt(console_log(Expr::Num(1))), ModuleItem::Stmt(console_log(Expr::Num(2)))],
    })
    .unwrap();
    let decls = m.ops.iter().filter(|o| matches!(o, ModuleOp::ExternVarargFunc { .. })).count();
    let globals = m.ops.iter().filter(|o| matches!(o, ModuleOp::ConstString { .. })).count();
    assert_eq!(decls, 1);
    assert_eq!(globals, 1);
}

#[test]
fn comparison_is_widened_to_i64() {
    let m = compile(&Module {
        body: vec![ModuleItem::Stmt(Stmt::Var(vec![VarDeclarator {
            name: Some("x".to_string()),
            init: Some(bin(BinaryOp::Lt, Expr::Num(1), Expr::Num(2))),
        }]))],
    })
    .unwrap();
    match &m.ops[0] {
        ModuleOp::Func(f) => {
            let ops = &f.blocks[0].ops;
            assert!(matches!(ops[2], Op::Compare { result: 3, predicate: Predicate::Slt, lhs: 1, rhs: 2 }));
            assert!(matches!(ops[3], Op::ExtUI { result: 4, operand: 3 }));
        },
        _ => panic!("expected main"),
    }
}

fn if_module() -> Module {
    Module {
        body: vec![ModuleItem::Stmt(Stmt::If {
            test: Expr::Num(1),
            cons: Box::new(Stmt::Block(vec![console_log(Expr::Num(2))])),
            alt: Some(Box::new(console_log(Expr::Num(3)))),
        })],
    }
}

#[test]
fn emit_compiles_if_to_branches() {
    let m = emit(&if_module()).unwrap();
    let main = m.ops.iter().find_map(|o| match o {
        ModuleOp::Func(f) if f.name == "main" => Some(f),
        _ => None,
    }).unwrap();
    assert_eq!(main.blocks.len(), 4);
    let entry = &main.blocks[0].ops;
    assert!(matches!(entry[1], Op::TruncI { .. }));
    assert!(matches!(entry[2], Op::CondBr { .. }));
    assert!(main.blocks[1..].iter().any(|b| matches!(b.ops.last(), Some(Op::Br { .. }))));
}

#[test]
fn compile_skips_if() {
    let m = compile(&if_module()).unwrap();
    let main = match &m.ops[0] {
        ModuleOp::Func(f) => f,
        _ => panic!("expected main"),
    };
    assert_eq!(main.blocks.len(), 1);
    assert_eq!(main.blocks[0].ops.len(), 2);
}

#[test]
fn compile_and_emit_agree_without_if() {
    let a = compile(&add_module()).unwrap();
    let b = emit(&add_module()).unwrap();
    assert_eq!(format!("{:?}", a), format!("{:?}", b));
}

fn main_with(stmt: Stmt) -> Module {
    Module { body: vec![ModuleItem::Stmt(stmt)] }
}

#[test]
fn unknown_identifier_is_refused() {
    let r = compile(&main_with(Stmt::Expr(ident("y"))));
    assert!(matches!(r, Err(CompileError::UnknownIdentifier(n)) if n == "y"));
}

#[test]
fn unsupported_expression_is_refused() {
    let r = compile(&main_with(Stmt::Expr(Expr::Other { text: "Str".to_string(), parts: vec![] })));
    assert!(matches!(r, Err(CompileError::UnsupportedExpression(t)) if t == "Str"));
}

#[test]
fn other_method_call_is_refused() {
    let r = compile(&main_with(Stmt::Expr(Expr::Call { text: String::new(),
        callee: Callee::Member { obj: Some("Math".to_string()), prop: Some("max".to_string()) },
        args: vec![],
    })));
    assert!(matches!(r, Err(CompileError::UnsupportedMethodCall)));
}

#[test]
fn other_callee_expression_is_refused() {
    let r = compile(&main_with(Stmt::Expr(Expr::Call { text: String::new(), callee: Callee::OtherExpr, args: vec![] })));
    assert!(matches!(r, Err(CompileError::UnsupportedCalleeExpression)));
}

#[test]
fn super_callee_is_refused() {
    let r = compile(&main_with(Stmt::Expr(Expr::Call { text: String::new(), callee: Callee::Other, args: vec![] })));
    assert!(matches!(r, Err(CompileError::UnsupportedCallee)));
}

#[test]
fn undefined_function_is_refused() {
    let r = compile(&main_with(Stmt::Expr(Expr::Call { text: String::new(), callee: Callee::Ident("g".to_string()), args: vec![] })));
    assert!(matches!(r, Err(CompileError::UndefinedFunction(n)) if n == "g"));
}

#[test]
fn unsupported_operator_is_refused() {
    let r = compile(&main_with(Stmt::Expr(bin(BinaryOp::Other("BitAnd".to_string()), Expr::Num(1), Expr::Num(2)))));
    assert!(matches!(r, Err(CompileError::UnsupportedBinaryOperator(n)) if n == "BitAnd"));
}

#[test]
fn console_log_needs_one_argument() {
    let r = compile(&main_with(Stmt::Expr(Expr::Call { text: String::new(),
        callee: Callee::Member { obj: Some("console".to_string()), prop: Some("log".to_string()) },
        args: vec![Expr::Num(1), Expr::Num(2)],
    })));
    assert!(matches!(r, Err(CompileError::ConsoleLogArity)));
}

#[test]
fn function_with_result_must_return() {
    let r = compile(&Module {
        body: vec![function("f", vec![], vec![], Some(TypeAnn::Keyword(Keyword::Number)))],
    });
    assert!(matches!(r, Err(CompileError::MissingReturn(n)) if n == "f"));
}

#[test]
fn void_function_call_is_valued_zero() {
    let m = compile(&Module {
        body: vec![
            function("f", vec![], vec![], None),
            ModuleItem::Stmt(Stmt::Expr(Expr::Call { text: String::new(), callee: Callee::Ident("f".to_string()), args: vec![] })),
        ],
    })
    .unwrap();
    match &m.ops[0] {
        ModuleOp::Func(f) => {
            assert!(f.results.is_empty());
            assert!(matches!(&f.blocks[0].ops[0], Op::Return { operands } if operands.is_empty()));
        },
        _ => panic!("expected f"),
    }
    match &m.ops[1] {
        ModuleOp::Func(main) => {
            assert!(matches!(&main.blocks[0].ops[0], Op::Call { callee, result: None, .. } if callee == "f"));
            assert!(matches!(main.blocks[0].ops[1], Op::Constant { value: 0, ty: Ty::I64, .. }));
        },
        _ => panic!("expected main"),
    }
}

#[test]
fn void_functions_are_recognised() {
    let f = FnDecl { name: "f".to_string(), params: vec![], body: None, return_type: None };
    assert!(is_void_function(&f));
    let g = FnDecl { name: "g".to_string(), params: vec![], body: None, return_type: Some(TypeAnn::Keyword(Keyword::Void)) };
    assert!(is_void_function(&g));
    let h = FnDecl { name: "h".to_string(), params: vec![], body: None, return_type: Some(TypeAnn::Keyword(Keyword::Number)) };
    assert!(!is_void_function(&h));
}

#[test]
fn budget_counts_ids() {
    assert_eq!(module_budget(&add_module()), 7);
    assert_eq!(module_budget(&Module { body: vec![] }), 2);
}

#[test]
fn later_binding_hides_earlier() {
    let b = vec![("x".to_string(), 1u64), ("y".to_string(), 2), ("x".to_string(), 3)];
    assert_eq!(lookup_id(&b, &"x".to_string()), Some(3));
    assert_eq!(lookup_id(&b, &"z".to_string()), None);
    let f = vec![("f".to_string(), true), ("f".to_string(), false)];
    assert_eq!(lookup_flag(&f, &"f".to_string()), Some(false));
}

fn main_ops(m: &tsnc::ir::Module) -> &Vec<Op> {
    match m.ops.last() {
        Some(ModuleOp::Func(f)) if f.name == "main" => &f.blocks[0].ops,
        _ => panic!("expected main last"),
    }
}

#[test]
fn main_ends_in_return_zero_after_a_top_level_return() {
    let module = Module { body: vec![ModuleItem::Stmt(Stmt::Return(None))] };
    let m = compile(&module).unwrap();
    let ops = main_ops(&m);
    assert_eq!(ops.len(), 3);
    assert!(matches!(&ops[0], Op::Return { operands } if operands.is_empty()));
    assert!(matches!(ops[1], Op::Constant { result: 1, value: 0, ty: Ty::I32 }));
    assert!(matches!(&ops[2], Op::Return { operands } if operands == &vec![1]));
    let m = emit(&module).unwrap();
    let ops = main_ops(&m);
    assert_eq!(ops.len(), 1);
    assert!(matches!(&ops[0], Op::Return { operands } if operands.is_empty()));
}
