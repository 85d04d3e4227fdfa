use std::collections::HashMap;
use tsnc::ast::{BinaryOp, Callee, Expr, FnDecl, Keyword, Module, ModuleItem, Param, Stmt, TypeAnn};
use tsnc::codegen::{compile, emit};
use tsnc::ir::{ArithOp, FuncOp, ModuleOp, Op, Predicate};

/// Runs a function of the emitted MLIR on argument values; returns its
/// results and what it printed.
fn run(f: &FuncOp, args: &[i64]) -> (Vec<i64>, Vec<i64>) {
    let mut vals: HashMap<u64, i64> = HashMap::new();
    for (i, (id, _)) in f.blocks[0].args.iter().enumerate() {
        vals.insert(*id, args[i]);
    }
    let mut out = Vec::new();
    let mut block = &f.blocks[0];
    loop {
        let mut next = None;
        for op in &block.ops {
            match op {
                Op::Constant { result, value, .. } => {
                    vals.insert(*result, *value);
                },
                Op::Arith { result, kind, lhs, rhs } => {
                    let (a, b) = (vals[lhs], vals[rhs]);
                    let v = match kind {
                        ArithOp::AddI => a.wrapping_add(b),
                        ArithOp::SubI => a.wrapping_sub(b),
                        ArithOp::MulI => a.wrapping_mul(b),
                        ArithOp::DivSI => a / b,
                        ArithOp::RemSI => a % b,
                    };
                    vals.insert(*result, v);
                },
                Op::Compare { result, predicate, lhs, rhs } => {
                    let (a, b) = (vals[lhs], vals[rhs]);
                    let v = match predicate {
                        Predicate::Slt => a < b,
                        Predicate::Sle => a <= b,
                        Predicate::Sgt => a > b,
                        Predicate::Sge => a >= b,
                        Predicate::Eq => a == b,
                        Predicate::Ne => a != b,
                    };
                    vals.insert(*result, v as i64);
                },
                Op::ExtUI { result, operand } | Op::TruncI { result, operand } => {
                    vals.insert(*result, vals[operand] & 1);
                },
                Op::AddressOf { result, .. } => {
                    vals.insert(*result, 0);
                },
                Op::VarargCall { result, args, .. } => {
                    out.push(vals[&args[1]]);
                    vals.insert(*result, 0);
                },
                Op::Return { operands } => return (operands.iter().map(|v| vals[v]).collect(), out),
                Op::Br { dest } => {
                    next = Some(*dest);
                    break;
                },
                Op::CondBr { cond, then_dest, else_dest } => {
                    next = Some(if vals[cond] != 0 { *then_dest } else { *else_dest });
                    break;
                },
                Op::Call { .. } | Op::Yield { .. } | Op::Func(_) => panic!("not run here"),
            }
        }
        let id = next.expect("block without end");
        block = f.blocks.iter().find(|b| b.id == id).expect("missing block");
    }
}

fn func<'a>(ops: &'a [ModuleOp], name: &str) -> &'a FuncOp {
    ops.iter()
        .find_map(|o| match o {
            ModuleOp::Func(f) if f.name == name => Some(f),
            _ => None,
        })
        .unwrap()
}

fn ident(name: &str) -> Expr {
    Expr::Ident(name.to_string())
}

fn bin(op: BinaryOp, l: Expr, r: Expr) -> Expr {
    Expr::Bin { op, left: Box::new(l), right: Box::new(r) }
}

fn distance_module() -> Module {
    let number = Some(TypeAnn::Keyword(Keyword::Number));
    Module {
        body: vec![ModuleItem::Stmt(Stmt::FnDecl(FnDecl {
            name: "distance".to_string(),
            params: vec![
                Param { name: Some("a".to_string()), type_ann: number },
                Param { name: Some("b".to_string()), type_ann: number },
            ],
            body: Some(vec![
                Stmt::If {
                    test: bin(BinaryOp::Lt, ident("a"), ident("b")),
                    cons: Box::new(Stmt::Block(vec![Stmt::Return(Some(bin(BinaryOp::Sub, ident("b"), ident("a"))))])),
                    alt: None,
                },
                Stmt::Return(Some(bin(BinaryOp::Sub, ident("a"), ident("b")))),
            ]),
            return_type: number,
        }))],
    }
}

#[test]
fn emitted_function_returns_what_the_body_returns() {
    let m = emit(&distance_module()).unwrap();
    let f = func(&m.ops, "distance");
    assert_eq!(run(f, &[3, 10]), (vec![7], vec![]));
    assert_eq!(run(f, &[10, 3]), (vec![7], vec![]));
    assert_eq!(run(f, &[4, 4]), (vec![0], vec![]));
}

#[test]
fn emitted_main_prints_and_returns_zero() {
    let log = |e: Expr| {
        ModuleItem::Stmt(Stmt::Expr(Expr::Call { text: String::new(),
            callee: Callee::Member { obj: Some("console".to_string()), prop: Some("log".to_string()) },
            args: vec![e],
        }))
    };
    let m = compile(&Module {
        body: vec![log(bin(BinaryOp::Add, Expr::Num(2), Expr::Num(3))), log(Expr::Num(4))],
    })
    .unwrap();
    assert_eq!(run(func(&m.ops, "main"), &[]), (vec![0], vec![5, 4]));
}

#[test]
fn emitted_main_branches_on_the_low_bit() {
    let log = |v: i64| Stmt::Expr(Expr::Call { text: String::new(),
        callee: Callee::Member { obj: Some("console".to_string()), prop: Some("log".to_string()) },
        args: vec![Expr::Num(v)],
    });
    let branch = |c: i64| Module {
        body: vec![ModuleItem::Stmt(Stmt::If {
            test: Expr::Num(c),
            cons: Box::new(log(1)),
            alt: Some(Box::new(log(0))),
        })],
    };
    assert_eq!(run(func(&emit(&branch(3)).unwrap().ops, "main"), &[]), (vec![0], vec![1]));
    // An even condition takes the second branch: the condition is truncated to one bit.
    assert_eq!(run(func(&emit(&branch(2)).unwrap().ops, "main"), &[]), (vec![0], vec![0]));
}

#[test]
fn emitted_arithmetic_wraps() {
    let m = compile(&Module {
        body: vec![ModuleItem::Stmt(Stmt::Expr(Expr::Call { text: String::new(),
            callee: Callee::Member { obj: Some("console".to_string()), prop: Some("log".to_string()) },
            args: vec![bin(BinaryOp::Add, Expr::Num(i64::MAX), Expr::Num(1))],
        }))],
    })
    .unwrap();
    assert_eq!(run(func(&m.ops, "main"), &[]), (vec![0], vec![i64::MIN]));
}

#[test]
fn branch_bindings_do_not_escape() {
    let log = |e: Expr| Stmt::Expr(Expr::Call { text: String::new(),
        callee: Callee::Member { obj: Some("console".to_string()), prop: Some("log".to_string()) },
        args: vec![e],
    });
    let m = emit(&Module {
        body: vec![
            ModuleItem::Stmt(Stmt::Var(vec![tsnc::ast::VarDeclarator { name: Some("x".to_string()), init: Some(Expr::Num(1)) }])),
            ModuleItem::Stmt(Stmt::If {
                test: Expr::Num(1),
                cons: Box::new(Stmt::Block(vec![
                    Stmt::Var(vec![tsnc::ast::VarDeclarator { name: Some("x".to_string()), init: Some(Expr::Num(2)) }]),
                    log(ident("x")),
                ])),
                alt: None,
            }),
            ModuleItem::Stmt(log(ident("x"))),
        ],
    })
    .unwrap();
    assert_eq!(run(func(&m.ops, "main"), &[]), (vec![0], vec![2, 1]));
}

#[test]
fn first_generation_returns_first_return() {
    let number = Some(TypeAnn::Keyword(Keyword::Number));
    let m = tsnc::basic::compile(&Module {
        body: vec![ModuleItem::Stmt(Stmt::FnDecl(FnDecl {
            name: "f".to_string(),
            params: vec![
                Param { name: Some("a".to_string()), type_ann: number },
                Param { name: Some("b".to_string()), type_ann: number },
            ],
            body: Some(vec![
                Stmt::Expr(ident("a")),
                Stmt::Return(Some(bin(BinaryOp::Mul, ident("a"), bin(BinaryOp::Add, ident("b"), Expr::Num(1))))),
                Stmt::Return(Some(Expr::Num(0))),
            ]),
            return_type: number,
        }))],
    })
    .unwrap();
    assert_eq!(run(func(&m.ops, "f"), &[6, 4]), (vec![30], vec![]));
}

#[test]
fn visitor_function_computes_its_value() {
    let number = Some(TypeAnn::Keyword(Keyword::Number));
    let (m, _) = tsnc::visitor::visit_module(&Module {
        body: vec![ModuleItem::Stmt(Stmt::FnDecl(FnDecl {
            name: "f".to_string(),
            params: vec![
                Param { name: Some("a".to_string()), type_ann: number },
                Param { name: Some("b".to_string()), type_ann: number },
            ],
            body: Some(vec![Stmt::Return(Some(bin(
                BinaryOp::Add,
                bin(BinaryOp::Mul, ident("a"), ident("b")),
                bin(BinaryOp::Gt, ident("a"), ident("b")),
            )))]),
            return_type: number,
        }))],
    });
    assert_eq!(run(func(&m.ops, "f"), &[3, 4]), (vec![12], vec![]));
    assert_eq!(run(func(&m.ops, "f"), &[5, 4]), (vec![21], vec![]));
}
