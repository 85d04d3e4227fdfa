//! The first code generator: each top-level function becomes a
//! `func.func` from `i64` parameters to one `i64`, whose single block holds
//! the code of the function's `return` statements; other statements are
//! passed over, and nothing else of the module is compiled.
use vstd::prelude::*;
use crate::ast::{BinaryOp, Expr, FnDecl, Module, ModuleItem, Param, Stmt};
use crate::error::CompileError;
use crate::ir::{
    ArithOp, Block, FuncOp, Module as IrModule, ModuleOp, Op, SBlock, SFunc, SModuleOp, SOp, Ty,
    ids_view, module_ops_view, ops_view, typed_ids_view, blocks_view,
};

verus! {

/// The index bound to `name`: the first binding of it.
pub open spec fn find_first(params: Seq<(Seq<char>, int)>, name: Seq<char>) -> Option<int>
    decreases params.len(),
{
    if params.len() == 0 {
        None
    } else if params[0].0 == name {
        Some(params[0].1)
    } else {
        find_first(params.skip(1), name)
    }
}

/// An expression, with the parameters' names bound to their indexes and
/// the block's arguments numbered from `first`; ids are taken from `next`.
/// The result is the next free id, the operations, and the value's id.
pub open spec fn bx_expr(params: Seq<(Seq<char>, int)>, first: int, next: int, e: Expr) -> Result<
    (int, Seq<SOp>, int),
    CompileError,
>
    decreases e,
{
    match e {
        Expr::Num(v) => if next >= u64::MAX {
            Err(CompileError::ProgramTooLarge)
        } else {
            Ok((next + 1, seq![SOp::Constant { result: next, value: v as int, ty: Ty::I64 }], next))
        },
        Expr::Ident(name) => match find_first(params, name@) {
            Some(i) => Ok((next, seq![], first + i)),
            None => Err(CompileError::UnknownIdentifier(name)),
        },
        Expr::Bin { op, left, right } => match bx_expr(params, first, next, *left) {
            Ok((n1, o1, l)) => match bx_expr(params, first, n1, *right) {
                Ok((n2, o2, r)) => {
                    let kind = match op {
                        BinaryOp::Add => Some(ArithOp::AddI),
                        BinaryOp::Sub => Some(ArithOp::SubI),
                        BinaryOp::Mul => Some(ArithOp::MulI),
                        _ => None,
                    };
                    match kind {
                        None => Err(match op {
                            BinaryOp::Other(name) => CompileError::UnsupportedBinaryOperator(name),
                            _ => CompileError::UnsupportedOperator(op),
                        }),
                        Some(k) => if n2 >= u64::MAX {
                            Err(CompileError::ProgramTooLarge)
                        } else {
                            Ok((n2 + 1, o1 + o2 + seq![SOp::Arith { result: n2, kind: k, lhs: l, rhs: r }], n2))
                        },
                    }
                },
                Err(err) => Err(err),
            },
            Err(err) => Err(err),
        },
        Expr::Paren { text, .. } => Err(CompileError::UnsupportedExpression(text)),
        Expr::Call { text, .. } => Err(CompileError::UnsupportedExpression(text)),
        Expr::Other { text, .. } => Err(CompileError::UnsupportedExpression(text)),
    }
}

/// What an expression that fails to compile leaves behind: the next free
/// id and the operations appended before the error. An unsupported
/// operator fails after both operands were compiled.
pub open spec fn bx_fail(params: Seq<(Seq<char>, int)>, first: int, next: int, e: Expr) -> (int, Seq<SOp>)
    decreases e,
{
    match e {
        Expr::Bin { op, left, right } => match bx_expr(params, first, next, *left) {
            Ok((n1, o1, l)) => match bx_expr(params, first, n1, *right) {
                Ok((n2, o2, r)) => (n2, o1 + o2),
                Err(_) => {
                    let f = bx_fail(params, first, n1, *right);
                    (f.0, o1 + f.1)
                },
            },
            Err(_) => bx_fail(params, first, next, *left),
        },
        _ => (next, seq![]),
    }
}

/// The `return` statements of a body, in order: each value's operations
/// and a `func.return`.
pub open spec fn bx_returns(params: Seq<(Seq<char>, int)>, first: int, next: int, ss: Seq<Stmt>) -> Result<
    (int, Seq<SOp>),
    CompileError,
>
    decreases ss.len(),
{
    if ss.len() == 0 {
        Ok((next, seq![]))
    } else {
        let head: Result<(int, Seq<SOp>), CompileError> = match ss[0] {
            Stmt::Return(arg) => match arg {
                Some(e) => match bx_expr(params, first, next, e) {
                    Ok((n1, ops, v)) => Ok((n1, ops.push(SOp::Return { operands: seq![v] }))),
                    Err(err) => Err(err),
                },
                None => Ok((next, seq![SOp::Return { operands: seq![] }])),
            },
            _ => Ok((next, seq![])),
        };
        match head {
            Ok((n1, o1)) => match bx_returns(params, first, n1, ss.skip(1)) {
                Ok((n2, o2)) => Ok((n2, o1 + o2)),
                Err(err) => Err(err),
            },
            Err(err) => Err(err),
        }
    }
}

/// The parameters with a plain name, bound to their indexes, in order.
pub open spec fn param_names(params: Seq<Param>) -> Seq<(Seq<char>, int)>
    decreases params.len(),
{
    if params.len() == 0 {
        seq![]
    } else {
        let rest = param_names(params.drop_last());
        match params.last().name {
            Some(name) => rest.push((name@, params.len() - 1)),
            None => rest,
        }
    }
}

/// A function: one `i64` block argument per parameter, the code of its
/// `return` statements, and an `i64` result.
pub open spec fn bx_function(next: int, f: FnDecl) -> Result<(int, SFunc), CompileError> {
    let n = f.params@.len();
    if next + n + 1 > u64::MAX {
        Err(CompileError::ProgramTooLarge)
    } else {
        let body = match f.body {
            Some(b) => b@,
            None => seq![],
        };
        match bx_returns(param_names(f.params@), next + 1, next + n + 1, body) {
            Ok((n1, ops)) => Ok((
                n1,
                SFunc {
                    name: f.name@,
                    params: Seq::new(n, |i: int| Ty::I64),
                    results: seq![Ty::I64],
                    blocks: seq![SBlock { id: next, args: Seq::new(n, |i: int| (next + 1 + i, Ty::I64)), ops }],
                    private: false,
                },
            )),
            Err(err) => Err(err),
        }
    }
}

/// The top-level functions of a module, in order, from the id `next`.
pub open spec fn bx_items(next: int, items: Seq<ModuleItem>) -> Result<Seq<SModuleOp>, CompileError>
    decreases items.len(),
{
    if items.len() == 0 {
        Ok(seq![])
    } else {
        match items[0] {
            ModuleItem::Stmt(Stmt::FnDecl(f)) => match bx_function(next, f) {
                Ok((n1, func)) => match bx_items(n1, items.skip(1)) {
                    Ok(rest) => Ok(seq![SModuleOp::Func(func)] + rest),
                    Err(err) => Err(err),
                },
                Err(err) => Err(err),
            },
            _ => bx_items(next, items.skip(1)),
        }
    }
}

/// Looks a name up among the parameters: the first binding.
fn find_param(params: &Vec<(String, usize)>, name: &String) -> (r: Option<usize>)
    ensures
        match r {
            Some(i) => find_first(names_view(params@), name@) == Some(i as int),
            None => find_first(names_view(params@), name@) is None,
        },
{
    let n = params.len();
    let mut i: usize = 0;
    assert(names_view(params@).skip(0) =~= names_view(params@));
    while i < n
        invariant
            n == params.len(),
            i <= n,
            find_first(names_view(params@), name@) == find_first(names_view(params@).skip(i as int), name@),
        decreases n - i,
    {
        let ghost s = names_view(params@).skip(i as int);
        assert(s.skip(1) =~= names_view(params@).skip(i + 1));
        if params[i].0 == *name {
            return Some(params[i].1);
        }
        i = i + 1;
    }
    None
}

/// The view of parameter names bound to indexes.
pub open spec fn names_view(v: Seq<(String, usize)>) -> Seq<(Seq<char>, int)> {
    v.map_values(|p: (String, usize)| (p.0@, p.1 as int))
}

/// An expression: appends its operations to `block` and returns its id;
/// `next` is the next free id.
pub fn compile_expr(block: &mut Vec<Op>, expr: &Expr, params: &Vec<(String, usize)>, first: u64, next: &mut u64) -> (r: Result<u64, CompileError>)
    requires
        forall|i: int| 0 <= i < params@.len() ==> first + (#[trigger] params@[i]).1 <= u64::MAX,
    ensures
        match bx_expr(names_view(params@), first as int, *old(next) as int, *expr) {
            Ok((n1, ops, v)) => r matches Ok(x) && x as int == v && *final(next) == n1
                && ops_view(final(block)@) == ops_view(old(block)@) + ops,
            Err(e) => r == Err::<u64, CompileError>(e)
                && *final(next) == bx_fail(names_view(params@), first as int, *old(next) as int, *expr).0
                && ops_view(final(block)@) == ops_view(old(block)@)
                    + bx_fail(names_view(params@), first as int, *old(next) as int, *expr).1,
        },
    decreases expr,
{
    proof {
        assert(ops_view(block@) + Seq::<SOp>::empty() =~= ops_view(block@));
    }
    match expr {
        Expr::Num(v) => {
            if *next == u64::MAX {
                return Err(CompileError::ProgramTooLarge);
            }
            let id = *next;
            *next = *next + 1;
            block.push(Op::Constant { result: id, value: *v, ty: Ty::I64 });
            assert(ops_view(block@) =~= ops_view(old(block)@) + seq![SOp::Constant { result: id as int, value: *v as int, ty: Ty::I64 }]);
            assert(bx_expr(names_view(params@), first as int, *old(next) as int, *expr) == Ok::<(int, Seq<SOp>, int), CompileError>((*next as int, seq![SOp::Constant { result: id as int, value: *v as int, ty: Ty::I64 }], id as int)));
            Ok(id)
        },
        Expr::Ident(name) => match find_param(params, name) {
            Some(i) => {
                assert(ops_view(block@) =~= ops_view(old(block)@) + seq![]);
                proof {
                    lemma_find_first_member(names_view(params@), name@);
                    let j = choose|j: int| 0 <= j < names_view(params@).len() && names_view(params@)[j].1 == i as int;
                    assert(names_view(params@)[j].1 == params@[j].1 as int);
                    assert(first + params@[j].1 <= u64::MAX);
                }
                Ok(first + i as u64)
            },
            None => Err(CompileError::UnknownIdentifier(name.clone())),
        },
        Expr::Bin { op, left, right } => {
            let l = match compile_expr(block, left, params, first, next) {
                Ok(l) => l,
                Err(e) => return Err(e),
            };
            let ghost mid = ops_view(block@);
            let r = match compile_expr(block, right, params, first, next) {
                Ok(r) => r,
                Err(e) => {
                    proof {
                        let e1 = bx_expr(names_view(params@), first as int, *old(next) as int, **left);
                        let f = bx_fail(names_view(params@), first as int, e1->Ok_0.0, **right);
                        assert(ops_view(block@) =~= ops_view(old(block)@) + (e1->Ok_0.1 + f.1));
                    }
                    return Err(e);
                },
            };
            let ghost mid2 = ops_view(block@);
            proof {
                let b0 = ops_view(old(block)@);
                let e1 = bx_expr(names_view(params@), first as int, *old(next) as int, **left);
                let e2 = bx_expr(names_view(params@), first as int, e1->Ok_0.0, **right);
                assert(mid2 =~= b0 + (e1->Ok_0.1 + e2->Ok_0.1));
            }
            let kind = match op {
                BinaryOp::Add => ArithOp::AddI,
                BinaryOp::Sub => ArithOp::SubI,
                BinaryOp::Mul => ArithOp::MulI,
                BinaryOp::Other(name) => return Err(CompileError::UnsupportedBinaryOperator(name.clone())),
                _ => return Err(CompileError::UnsupportedOperator(op.duplicate())),
            };
            if *next == u64::MAX {
                return Err(CompileError::ProgramTooLarge);
            }
            let id = *next;
            *next = *next + 1;
            block.push(Op::Arith { result: id, kind, lhs: l, rhs: r });
            proof {
                let b0 = ops_view(old(block)@);
                let e1 = bx_expr(names_view(params@), first as int, *old(next) as int, **left);
                let e2 = bx_expr(names_view(params@), first as int, e1->Ok_0.0, **right);
                assert(mid == b0 + e1->Ok_0.1);
                assert(mid2 == mid + e2->Ok_0.1);
                assert(ops_view(block@) == mid2.push(SOp::Arith { result: id as int, kind, lhs: l as int, rhs: r as int }));
                let total = e1->Ok_0.1 + e2->Ok_0.1 + seq![SOp::Arith { result: id as int, kind, lhs: l as int, rhs: r as int }];
                assert(ops_view(block@) =~= b0 + total);
                assert(bx_expr(names_view(params@), first as int, *old(next) as int, *expr) == Ok::<(int, Seq<SOp>, int), CompileError>((*next as int, total, id as int)));
            }
            Ok(id)
        },
        Expr::Paren { text, .. } => Err(CompileError::UnsupportedExpression(text.clone())),
        Expr::Call { text, .. } => Err(CompileError::UnsupportedExpression(text.clone())),
        Expr::Other { text, .. } => Err(CompileError::UnsupportedExpression(text.clone())),
    }
}

/// What `find_first` finds is one of the bindings' values.
proof fn lemma_find_first_member(params: Seq<(Seq<char>, int)>, name: Seq<char>)
    ensures
        find_first(params, name) matches Some(i) ==> exists|j: int| 0 <= j < params.len() && params[j].1 == i,
    decreases params.len(),
{
    if params.len() > 0 && params[0].0 != name {
        lemma_find_first_member(params.skip(1), name);
        if find_first(params, name) is Some {
            let j = choose|j: int| 0 <= j < params.skip(1).len() && params.skip(1)[j].1 == find_first(params, name)->Some_0;
            assert(params[j + 1] == params.skip(1)[j]);
        }
    }
}

/// Operations already emitted, put before the result of a run.
pub open spec fn ops_prefix(p: Result<(int, Seq<SOp>), CompileError>, pre: Seq<SOp>) -> Result<(int, Seq<SOp>), CompileError> {
    match p {
        Ok((n, ops)) => Ok((n, pre + ops)),
        Err(e) => Err(e),
    }
}

/// A function: a `func.func` from one `i64` per parameter to an `i64`,
/// whose block holds the code of the `return` statements of the body.
pub fn compile_function(function: &FnDecl, next: &mut u64) -> (r: Result<FuncOp, CompileError>)
    ensures
        match bx_function(*old(next) as int, *function) {
            Ok((n1, func)) => r matches Ok(x) && x@ == func && *final(next) == n1,
            Err(e) => r == Err::<FuncOp, CompileError>(e),
        },
{
    let n = function.params.len();
    if n as u64 >= u64::MAX - *next {
        return Err(CompileError::ProgramTooLarge);
    }
    let entry = *next;
    let first = entry + 1;
    let mut names: Vec<(String, usize)> = Vec::new();
    let mut args: Vec<(u64, Ty)> = Vec::new();
    let mut params: Vec<Ty> = Vec::new();
    let mut i: usize = 0;
    assert(function.params@.take(0) =~= Seq::<Param>::empty());
    while i < n
        invariant
            n == function.params.len(),
            i <= n,
            first + n <= u64::MAX,
            names_view(names@) == param_names(function.params@.take(i as int)),
            forall|j: int| 0 <= j < names@.len() ==> (#[trigger] names@[j]).1 < i,
            typed_ids_view(args@) =~= Seq::new(i as nat, |j: int| (first + j, Ty::I64)),
            params@ =~= Seq::new(i as nat, |j: int| Ty::I64),
        decreases n - i,
    {
        let ghost t = function.params@.take(i + 1);
        assert(t.drop_last() =~= function.params@.take(i as int));
        assert(t.last() == function.params@[i as int]);
        match &function.params[i].name {
            Some(name) => {
                names.push((name.clone(), i));
                assert(names_view(names@) =~= param_names(function.params@.take(i as int)).push((name@, i as int)));
            },
            None => {},
        }
        let ghost a0 = args@;
        let id = first + i as u64;
        args.push((id, Ty::I64));
        proof {
            assert(args@ == a0.push((id, Ty::I64)));
            assert(typed_ids_view(args@) =~= typed_ids_view(a0).push(((first + i) as int, Ty::I64)));
        }
        params.push(Ty::I64);
        i = i + 1;
    }
    assert(function.params@.take(n as int) =~= function.params@);
    assert(forall|j: int| 0 <= j < names@.len() ==> first + (#[trigger] names@[j]).1 <= u64::MAX);
    *next = entry + n as u64 + 1;
    let ghost pn = names_view(names@);
    let mut ops: Vec<Op> = Vec::new();
    match &function.body {
        Some(body) => {
            let m = body.len();
            let mut k: usize = 0;
            assert(body@.skip(0) =~= body@);
            assert(ops_view(ops@) + Seq::<SOp>::empty() =~= Seq::<SOp>::empty());
            while k < m
                invariant
                    m == body.len(),
                    k <= m,
                    pn == names_view(names@),
                    pn == param_names(function.params@),
                    entry == *old(next),
                    first == entry + 1,
                    n == function.params.len(),
                    entry + n + 1 <= u64::MAX,
                    function.body == Some(*body),
                    forall|j: int| 0 <= j < names@.len() ==> first + (#[trigger] names@[j]).1 <= u64::MAX,
                    bx_returns(pn, first as int, entry + n + 1, body@) == ops_prefix(bx_returns(pn, first as int, *next as int, body@.skip(k as int)), ops_view(ops@)),
                decreases m - k,
            {
                let ghost s = body@.skip(k as int);
                assert(s[0] == body@[k as int]);
                assert(s.skip(1) =~= body@.skip(k + 1));
                let ghost o0 = ops_view(ops@);
                let ghost n0 = *next as int;
                match &body[k] {
                    Stmt::Return(arg) => match arg {
                        Some(e) => {
                            let v = match compile_expr(&mut ops, e, &names, first, next) {
                                Ok(v) => v,
                                Err(err) => {
                                    assert(bx_returns(pn, first as int, n0, s) == Err::<(int, Seq<SOp>), CompileError>(err));
                                    assert(bx_returns(pn, first as int, entry + n + 1, body@) == Err::<(int, Seq<SOp>), CompileError>(err));
                                    return Err(err);
                                },
                            };
                            let ghost mid = ops_view(ops@);
                            let operands = vec![v];
                            assert(ids_view(operands@) =~= seq![v as int]);
                            ops.push(Op::Return { operands });
                            assert(ops_view(ops@) == mid.push(SOp::Return { operands: seq![v as int] }));
                            proof {
                                let o1 = bx_expr(pn, first as int, n0, *e)->Ok_0.1;
                                let tail = bx_returns(pn, first as int, *next as int, body@.skip(k + 1));
                                if tail is Ok {
                                    assert(ops_view(ops@) =~= o0 + o1.push(SOp::Return { operands: seq![v as int] }));
                                    assert(o0 + (o1.push(SOp::Return { operands: seq![v as int] }) + tail->Ok_0.1) =~= ops_view(ops@) + tail->Ok_0.1);
                                }
                            }
                        },
                        None => {
                            let operands: Vec<u64> = Vec::new();
                            assert(ids_view(operands@) =~= Seq::<int>::empty());
                            ops.push(Op::Return { operands });
                            proof {
                                let tail = bx_returns(pn, first as int, *next as int, body@.skip(k + 1));
                                if tail is Ok {
                                    assert(ops_view(ops@) =~= o0 + seq![SOp::Return { operands: seq![] }]);
                                    assert(o0 + (seq![SOp::Return { operands: seq![] }] + tail->Ok_0.1) =~= ops_view(ops@) + tail->Ok_0.1);
                                }
                            }
                        },
                    },
                    _ => {
                        proof {
                            let tail = bx_returns(pn, first as int, *next as int, body@.skip(k + 1));
                            if tail is Ok {
                                assert(o0 + (Seq::<SOp>::empty() + tail->Ok_0.1) =~= o0 + tail->Ok_0.1);
                            }
                        }
                    },
                }
                k = k + 1;
            }
            assert(body@.skip(m as int) =~= Seq::<Stmt>::empty());
            assert(ops_view(ops@) + Seq::<SOp>::empty() =~= ops_view(ops@));
        },
        None => {
            assert(ops_view(ops@) =~= Seq::<SOp>::empty());
        },
    }
    let block = Block { id: entry, args, ops };
    let blocks = vec![block];
    let results = vec![Ty::I64];
    let func = FuncOp { name: function.name.clone(), params, results, blocks, private: false };
    proof {
        assert(blocks_view(blocks@) =~= seq![block@]);
        assert(results@ =~= seq![Ty::I64]);
    }
    Ok(func)
}

/// Compiles the top-level functions of `module`, in order; nothing else of
/// the module is compiled.
pub fn compile(module: &Module) -> (r: Result<IrModule, CompileError>)
    ensures
        match bx_items(0, module.body@) {
            Ok(ops) => r matches Ok(m) && m@ == ops,
            Err(e) => r == Err::<IrModule, CompileError>(e),
        },
{
    let items = &module.body;
    let n = items.len();
    let mut next: u64 = 0;
    let mut out: Vec<ModuleOp> = Vec::new();
    let mut i: usize = 0;
    assert(items@.skip(0) =~= items@);
    assert(module_ops_view(out@) + Seq::<SModuleOp>::empty() =~= Seq::<SModuleOp>::empty());
    while i < n
        invariant
            n == items.len(),
            items == &module.body,
            i <= n,
            bx_items(0, items@) == match bx_items(next as int, items@.skip(i as int)) {
                Ok(rest) => Ok(module_ops_view(out@) + rest),
                Err(e) => Err::<Seq<SModuleOp>, CompileError>(e),
            },
        decreases n - i,
    {
        let ghost s = items@.skip(i as int);
        assert(s[0] == items@[i as int]);
        assert(s.skip(1) =~= items@.skip(i + 1));
        let ghost o0 = module_ops_view(out@);
        match &items[i] {
            ModuleItem::Stmt(Stmt::FnDecl(f)) => {
                let func = match compile_function(f, &mut next) {
                    Ok(func) => func,
                    Err(e) => return Err(e),
                };
                let ghost fv = func@;
                out.push(ModuleOp::Func(func));
                proof {
                    assert(module_ops_view(out@) =~= o0.push(SModuleOp::Func(fv)));
                    match bx_items(next as int, items@.skip(i + 1)) {
                        Ok(rest) => {
                            assert(o0 + (seq![SModuleOp::Func(fv)] + rest) =~= module_ops_view(out@) + rest);
                        },
                        Err(_) => {},
                    }
                }
            },
            _ => {},
        }
        i = i + 1;
    }
    assert(items@.skip(n as int) =~= Seq::<ModuleItem>::empty());
    assert(module_ops_view(out@) + Seq::<SModuleOp>::empty() =~= module_ops_view(out@));
    Ok(IrModule { ops: out })
}

} // verus!
