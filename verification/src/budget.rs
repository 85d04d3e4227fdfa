//! How many SSA ids a module may need, counted up to the largest 64-bit
//! integer.
use vstd::prelude::*;
use crate::ast::{Expr, FnDecl, Module, ModuleItem, Stmt, VarDeclarator};
use crate::codegen_spec::{
    args_cost, body_cost, decls_cost, expr_cost, fn_cost, fns_cost, main_stmts, module_cost,
    module_functions, stmt_cost, stmts_cost,
};

verus! {

/// `x`, or the largest 64-bit integer if `x` is larger.
pub open spec fn capped(x: int) -> int {
    if x > u64::MAX { u64::MAX as int } else { x }
}

/// Addition that stops at the largest 64-bit integer.
fn add_capped(a: u64, b: u64) -> (c: u64)
    ensures
        c == capped(a + b),
{
    if a > u64::MAX - b {
        u64::MAX
    } else {
        a + b
    }
}

/// The cost of an expression, capped.
fn expr_budget(e: &Expr) -> (c: u64)
    ensures
        c == capped(expr_cost(*e) as int),
    decreases e,
{
    match e {
        Expr::Num(_) => 1,
        Expr::Ident(_) => 0,
        Expr::Paren { inner, .. } => expr_budget(inner),
        Expr::Call { callee: _, args, .. } => add_capped(args_budget(args), 3),
        Expr::Bin { op: _, left, right } => add_capped(add_capped(expr_budget(left), expr_budget(right)), 2),
        Expr::Other { .. } => 0,
    }
}

/// The cost of arguments, capped.
fn args_budget(args: &Vec<Expr>) -> (c: u64)
    ensures
        c == capped(args_cost(args@) as int),
    decreases args@,
{
    let mut acc: u64 = 0;
    let mut i: usize = 0;
    assert(args@.skip(0) =~= args@);
    while i < args.len()
        invariant
            i <= args.len(),
            capped(acc + args_cost(args@.skip(i as int))) == capped(args_cost(args@) as int),
        decreases args.len() - i,
    {
        let ghost s = args@.skip(i as int);
        assert(s[0] == args@[i as int]);
        assert(s.skip(1) =~= args@.skip(i + 1));
        acc = add_capped(acc, expr_budget(&args[i]));
        i = i + 1;
    }
    assert(args@.skip(i as int) =~= Seq::<Expr>::empty());
    acc
}

/// The cost of declarations, capped.
fn decls_budget(decls: &Vec<VarDeclarator>) -> (c: u64)
    ensures
        c == capped(decls_cost(decls@) as int),
{
    let mut acc: u64 = 0;
    let mut i: usize = 0;
    assert(decls@.skip(0) =~= decls@);
    while i < decls.len()
        invariant
            i <= decls.len(),
            capped(acc + decls_cost(decls@.skip(i as int))) == capped(decls_cost(decls@) as int),
        decreases decls.len() - i,
    {
        let ghost s = decls@.skip(i as int);
        assert(s[0] == decls@[i as int]);
        assert(s.skip(1) =~= decls@.skip(i + 1));
        let c = match &decls[i].init {
            Some(e) => expr_budget(e),
            None => 0,
        };
        acc = add_capped(acc, c);
        i = i + 1;
    }
    assert(decls@.skip(i as int) =~= Seq::<VarDeclarator>::empty());
    acc
}

/// The cost of a statement, capped.
fn stmt_budget(s: &Stmt) -> (c: u64)
    ensures
        c == capped(stmt_cost(*s) as int),
    decreases s, 0nat,
{
    match s {
        Stmt::Var(decls) => decls_budget(decls),
        Stmt::Return(arg) => match arg {
            Some(e) => expr_budget(e),
            None => 0,
        },
        Stmt::Expr(e) => expr_budget(e),
        Stmt::If { test, cons, alt } => {
            let a = match alt {
                Some(a) => body_budget(a),
                None => 0,
            };
            add_capped(add_capped(add_capped(expr_budget(test), 4), body_budget(cons)), a)
        },
        _ => 0,
    }
}

/// The cost of the body of a branch, capped.
fn body_budget(body: &Stmt) -> (c: u64)
    ensures
        c == capped(body_cost(*body) as int),
    decreases body, 1nat,
{
    match body {
        Stmt::Block(ss) => stmts_budget(ss),
        _ => stmt_budget(body),
    }
}

/// The cost of statements, capped.
fn stmts_budget(ss: &Vec<Stmt>) -> (c: u64)
    ensures
        c == capped(stmts_cost(ss@) as int),
    decreases ss@, 0nat,
{
    let mut acc: u64 = 0;
    let mut i: usize = 0;
    assert(ss@.skip(0) =~= ss@);
    while i < ss.len()
        invariant
            i <= ss.len(),
            capped(acc + stmts_cost(ss@.skip(i as int))) == capped(stmts_cost(ss@) as int),
        decreases ss.len() - i,
    {
        let ghost s = ss@.skip(i as int);
        assert(s[0] == ss@[i as int]);
        assert(s.skip(1) =~= ss@.skip(i + 1));
        acc = add_capped(acc, stmt_budget(&ss[i]));
        i = i + 1;
    }
    assert(ss@.skip(i as int) =~= Seq::<Stmt>::empty());
    acc
}

/// The cost of a function, capped.
fn fn_budget(f: &FnDecl) -> (c: u64)
    ensures
        c == capped(fn_cost(*f) as int),
{
    let b = match &f.body {
        Some(body) => stmts_budget(body),
        None => 0,
    };
    add_capped(add_capped(f.params.len() as u64, 1), b)
}

/// The cost of compiling `module`, capped at the largest 64-bit integer.
pub fn module_budget(module: &Module) -> (c: u64)
    ensures
        c == capped(module_cost(module.body@) as int),
{
    let ghost items = module.body@;
    let mut fns: u64 = 0;
    let mut top: u64 = 0;
    let mut i: usize = 0;
    assert(items.skip(0) =~= items);
    while i < module.body.len()
        invariant
            i <= module.body.len(),
            items == module.body@,
            capped(fns + fns_cost(module_functions(items.skip(i as int))))
                == capped(fns_cost(module_functions(items)) as int),
            capped(top + stmts_cost(main_stmts(items.skip(i as int))))
                == capped(stmts_cost(main_stmts(items)) as int),
        decreases module.body.len() - i,
    {
        let ghost sk = items.skip(i as int);
        assert(sk[0] == items[i as int]);
        assert(sk.skip(1) =~= items.skip(i + 1));
        match &module.body[i] {
            ModuleItem::Stmt(Stmt::FnDecl(f)) => {
                let ghost mf = module_functions(sk);
                assert(mf[0] == *f);
                assert(mf.skip(1) =~= module_functions(items.skip(i + 1)));
                fns = add_capped(fns, fn_budget(f));
            },
            ModuleItem::Stmt(s) => {
                let ghost ms = main_stmts(sk);
                assert(ms[0] == *s);
                assert(ms.skip(1) =~= main_stmts(items.skip(i + 1)));
                top = add_capped(top, stmt_budget(s));
            },
            ModuleItem::ModuleDecl => {},
        }
        i = i + 1;
    }
    assert(items.skip(i as int) =~= Seq::<ModuleItem>::empty());
    add_capped(add_capped(fns, top), 2)
}

} // verus!
