use tsnc::ast::{BinaryOp, Callee, Expr, FnDecl, Keyword, Module, ModuleItem, Param, Stmt, TypeAnn};
use tsnc::basic::{compile, compile_expr, compile_function};
use tsnc::error::CompileError;
use tsnc::ir::{ArithOp, ModuleOp, Op, Ty};

fn ident(name: &str) -> Expr {
    Expr::Ident(name.to_string())
}

fn param(name: &str) -> Param {
    Param { name: Some(name.to_string()), type_ann: Some(TypeAnn::Keyword(Keyword::Number)) }
}

fn fn_returning(name: &str, params: Vec<Param>, e: Expr) -> FnDecl {
    FnDecl { name: name.to_string(), params, body: Some(vec![Stmt::Return(Some(e))]), return_type: None }
}

#[test]
fn first_generation_compiles_returns() {
    let f = fn_returning(
        "sub",
        vec![param("a"), param("b")],
        Expr::Bin { op: BinaryOp::Sub, left: Box::new(ident("a")), right: Box::new(ident("b")) },
    );
    let m = compile(&Module {
        body: vec![
            ModuleItem::Stmt(Stmt::FnDecl(f)),
            ModuleItem::Stmt(Stmt::Expr(Expr::Num(1))),
        ],
    })
    .unwrap();
    assert_eq!(m.ops.len(), 1);
    match &m.ops[0] {
        ModuleOp::Func(f) => {
            assert_eq!(f.name, "sub");
            assert_eq!(f.params, vec![Ty::I64, Ty::I64]);
            assert_eq!(f.results, vec![Ty::I64]);
            let b = &f.blocks[0];
            assert_eq!(b.args, vec![(1, Ty::I64), (2, Ty::I64)]);
            assert!(matches!(b.ops[0], Op::Arith { result: 3, kind: ArithOp::SubI, lhs: 1, rhs: 2 }));
            assert!(matches!(&b.ops[1], Op::Return { operands } if operands == &vec![3]));
        },
        _ => panic!("expected a function"),
    }
}

#[test]
fn first_generation_ignores_other_statements() {
    let f = FnDecl {
        name: "f".to_string(),
        params: vec![],
        body: Some(vec![Stmt::Expr(ident("unknown")), Stmt::Return(None), Stmt::Return(Some(Expr::Num(4)))]),
        return_type: None,
    };
    let mut next = 0u64;
    let func = compile_function(&f, &mut next).unwrap();
    let ops = &func.blocks[0].ops;
    assert_eq!(ops.len(), 3);
    assert!(matches!(&ops[0], Op::Return { operands } if operands.is_empty()));
    assert!(matches!(ops[1], Op::Constant { result: 1, value: 4, ty: Ty::I64 }));
    assert!(matches!(&ops[2], Op::Return { operands } if operands == &vec![1]));
    assert_eq!(next, 2);
}

#[test]
fn first_generation_takes_first_binding() {
    let params = vec![("x".to_string(), 0usize), ("x".to_string(), 1usize)];
    let mut block = Vec::new();
    let mut next = 5u64;
    let v = compile_expr(&mut block, &ident("x"), &params, 10, &mut next).unwrap();
    assert_eq!(v, 10);
    assert!(block.is_empty());
    assert_eq!(next, 5);
}

#[test]
fn first_generation_refuses_division() {
    let f = fn_returning("d", vec![param("a")], Expr::Bin { op: BinaryOp::Div, left: Box::new(ident("a")), right: Box::new(Expr::Num(2)) });
    let r = compile(&Module { body: vec![ModuleItem::Stmt(Stmt::FnDecl(f))] });
    assert!(matches!(r, Err(CompileError::UnsupportedOperator(BinaryOp::Div))));
}

#[test]
fn first_generation_refuses_calls() {
    let f = fn_returning("c", vec![], Expr::Call { text: "Call(g())".to_string(), callee: Callee::Ident("g".to_string()), args: vec![] });
    let r = compile(&Module { body: vec![ModuleItem::Stmt(Stmt::FnDecl(f))] });
    assert!(matches!(r, Err(CompileError::UnsupportedExpression(t)) if t == "Call(g())"));
}

#[test]
fn first_generation_refuses_parentheses_with_their_text() {
    let inner = Box::new(ident("a"));
    let f = fn_returning("p", vec![param("a")], Expr::Paren { inner, text: "Paren(a)".to_string() });
    let r = compile(&Module { body: vec![ModuleItem::Stmt(Stmt::FnDecl(f))] });
    assert!(matches!(r, Err(CompileError::UnsupportedExpression(t)) if t == "Paren(a)"));
}

#[test]
fn first_generation_refuses_unknown_names() {
    let f = fn_returning("u", vec![param("a")], ident("b"));
    let r = compile(&Module { body: vec![ModuleItem::Stmt(Stmt::FnDecl(f))] });
    assert!(matches!(r, Err(CompileError::UnknownIdentifier(n)) if n == "b"));
}

#[test]
fn errors_and_operators_copy() {
    let e = CompileError::UnresolvedNativeCall("a".to_string(), "b".to_string());
    assert!(matches!(e.duplicate(), CompileError::UnresolvedNativeCall(x, y) if x == "a" && y == "b"));
    assert!(matches!(BinaryOp::Other("In".to_string()).duplicate(), BinaryOp::Other(n) if n == "In"));
}
