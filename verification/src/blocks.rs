//! How code generation lays out blocks: the blocks of a chain only grow at
//! their end, finished blocks are only added, and every new block takes a
//! fresh id.
use vstd::prelude::*;
use crate::ast::{Expr, Stmt, VarDeclarator};
use crate::ir::{SBlock, SFunc, SModuleOp, SOp, Ty};
use crate::codegen_spec::{
    Control, GenEnv, GenState, Vars, append_ops, bump, empty_block, ensure_printf, fmt_name,
    fmt_text, printf_name, tr_args,
    tr_binary, tr_call, tr_console_log, tr_decls, tr_expr, tr_into_block, tr_step, tr_stmt,
    tr_stmts, tr_arith, tr_compare,
};

verus! {

/// The ids of blocks.
pub open spec fn block_ids(bs: Seq<SBlock>) -> Seq<int> {
    bs.map_values(|b: SBlock| b.id)
}

/// No id occurs twice, and each is in `[lo, hi)`.
pub open spec fn fresh(s: Seq<int>, lo: int, hi: int) -> bool {
    &&& s.no_duplicates()
    &&& forall|i: int| 0 <= i < s.len() ==> lo <= #[trigger] s[i] < hi
}

/// Whether a module operation declares `printf`.
pub open spec fn is_printf_decl(op: SModuleOp) -> bool {
    op matches SModuleOp::ExternVarargFunc { name, .. } && name == printf_name()
}

/// Whether a module operation defines the format string.
pub open spec fn is_fmt_global(op: SModuleOp) -> bool {
    op matches SModuleOp::ConstString { name, .. } && name == fmt_name()
}

/// How many declarations of `printf` a module holds.
pub open spec fn printf_decls(m: Seq<SModuleOp>) -> nat
    decreases m.len(),
{
    if m.len() == 0 {
        0
    } else {
        printf_decls(m.drop_last()) + if is_printf_decl(m.last()) { 1nat } else { 0nat }
    }
}

/// How many definitions of the format string a module holds.
pub open spec fn fmt_globals(m: Seq<SModuleOp>) -> nat
    decreases m.len(),
{
    if m.len() == 0 {
        0
    } else {
        fmt_globals(m.drop_last()) + if is_fmt_global(m.last()) { 1nat } else { 0nat }
    }
}

/// The module declares `printf` and its format string once each where the
/// state says they are declared, and not at all elsewhere.
pub open spec fn declared_once(g: GenState) -> bool {
    &&& printf_decls(g.module) == if g.printf_declared { 1nat } else { 0nat }
    &&& fmt_globals(g.module) == if g.format_declared { 1nat } else { 0nat }
}

/// The module operations of `g1` start with those of `g`, and where `g`
/// declares `printf` and its format string as its flags say, so does `g1`.
pub open spec fn module_grows(g: GenState, g1: GenState) -> bool {
    &&& g.module.len() <= g1.module.len()
    &&& g1.module.take(g.module.len() as int) == g.module
    &&& declared_once(g) ==> declared_once(g1)
}

/// Growing the module is transitive.
pub proof fn lemma_module_grows_trans(a: GenState, b: GenState, c: GenState)
    requires
        module_grows(a, b),
        module_grows(b, c),
    ensures
        module_grows(a, c),
{
    assert(c.module.take(a.module.len() as int) =~= b.module.take(a.module.len() as int)) by {
        assert forall|i: int| 0 <= i < a.module.len() implies c.module.take(a.module.len() as int)[i] == b.module.take(a.module.len() as int)[i] by {
            assert(c.module[i] == c.module.take(b.module.len() as int)[i]);
        }
    }
}

/// A state's module grows into itself.
pub proof fn lemma_module_grows_refl(a: GenState)
    ensures
        module_grows(a, a),
{
    assert(a.module.take(a.module.len() as int) =~= a.module);
}

/// Declaring `printf` only adds to the module, and at most once.
pub proof fn lemma_ensure_printf_grows(g: GenState)
    ensures
        module_grows(g, ensure_printf(g)),
        ensure_printf(g).pending == g.pending,
        ensure_printf(g).next == g.next,
{
    let g1 = ensure_printf(g);
    assert(g1.module.take(g.module.len() as int) =~= g.module);
    let pf = SModuleOp::ExternVarargFunc { name: printf_name(), fixed: seq![Ty::Ptr] };
    let fm = SModuleOp::ConstString { name: fmt_name(), value: fmt_text() };
    let m1 = if g.printf_declared { g.module } else { g.module.push(pf) };
    let m2 = if g.format_declared { m1 } else { m1.push(fm) };
    assert(g1.module == m2);
    if !g.printf_declared {
        assert(m1.drop_last() =~= g.module);
        assert(is_printf_decl(pf) && !is_fmt_global(pf));
        assert(printf_decls(m1) == printf_decls(g.module) + 1);
        assert(fmt_globals(m1) == fmt_globals(g.module));
    }
    if !g.format_declared {
        assert(m1.push(fm).drop_last() =~= m1);
        assert(is_fmt_global(fm) && !is_printf_decl(fm));
        assert(printf_decls(m2) == printf_decls(m1));
        assert(fmt_globals(m2) == fmt_globals(m1) + 1);
    }
    assert(m2.take(g.module.len() as int) =~= g.module);
}

/// A call only adds to the module, declaring `printf` at most once.
pub proof fn lemma_call_state(env: GenEnv, g: GenState, callee: crate::ast::Callee, vals: Seq<int>)
    ensures
        tr_call(env, g, callee, vals) matches Ok((g1, _, _)) ==> g1.pending == g.pending && g.next <= g1.next
            && module_grows(g, g1),
{
    lemma_ensure_printf_grows(g);
    lemma_module_grows_refl(g);
    match tr_call(env, g, callee, vals) {
        Ok((g1, _, _)) => {
            let gp = ensure_printf(g);
            assert(g1.module == g.module || g1.module == gp.module);
            assert(module_grows(g, g1)) by {
                if g1.module == g.module {
                    assert(g1.printf_declared == g.printf_declared && g1.format_declared == g.format_declared);
                } else {
                    assert(g1.printf_declared == gp.printf_declared && g1.format_declared == gp.format_declared);
                }
            }
        },
        Err(_) => {},
    }
}

/// A function appended to the module declares nothing else.
pub proof fn lemma_push_func_grows(g: GenState, g1: GenState, f: SFunc)
    requires
        g1.module == g.module.push(SModuleOp::Func(f)),
        g1.printf_declared == g.printf_declared,
        g1.format_declared == g.format_declared,
    ensures
        module_grows(g, g1),
{
    assert(g1.module.take(g.module.len() as int) =~= g.module);
    assert(g1.module.drop_last() =~= g.module);
}

/// `b1` is `b` with more operations at its end.
pub open spec fn extends_block(b1: SBlock, b: SBlock) -> bool {
    &&& b1.id == b.id
    &&& b1.args == b.args
    &&& b.ops.len() <= b1.ops.len()
    &&& b1.ops.take(b.ops.len() as int) == b.ops
}

/// What compiling statements does to the blocks: the chain (with the
/// current block at its end) only grows, its old last block only gets more
/// operations, finished blocks are only added, and the blocks added to
/// either have fresh ids, none shared.
pub open spec fn grown(g: GenState, chain: Seq<SBlock>, cur: SBlock, g1: GenState, chain1: Seq<SBlock>, cur1: SBlock) -> bool {
    let l = chain.push(cur);
    let l1 = chain1.push(cur1);
    let added = block_ids(l1.skip(l.len() as int));
    let finished = block_ids(g1.pending.skip(g.pending.len() as int));
    &&& g.next <= g1.next
    &&& module_grows(g, g1)
    &&& chain.len() <= chain1.len()
    &&& chain1.take(chain.len() as int) == chain
    &&& extends_block(l1[chain.len() as int], cur)
    &&& g.pending.len() <= g1.pending.len()
    &&& g1.pending.take(g.pending.len() as int) == g.pending
    &&& fresh(added, g.next, g1.next)
    &&& fresh(finished, g.next, g1.next)
    &&& added.disjoint(finished)
}

/// What compiling a branch does: finished blocks are only added; their ids
/// are distinct, each `start` or fresh.
pub open spec fn into_grown(g: GenState, start: int, g1: GenState) -> bool {
    let finished = block_ids(g1.pending.skip(g.pending.len() as int));
    &&& g.next <= g1.next
    &&& module_grows(g, g1)
    &&& g.pending.len() <= g1.pending.len()
    &&& g1.pending.take(g.pending.len() as int) == g.pending
    &&& finished.no_duplicates()
    &&& forall|i: int| 0 <= i < finished.len() ==> #[trigger] finished[i] == start || g.next <= finished[i] < g1.next
}

/// Two runs of fresh ids, one above the other, are fresh together.
pub proof fn lemma_fresh_concat(a: Seq<int>, b: Seq<int>, lo: int, mid: int, hi: int)
    requires
        fresh(a, lo, mid),
        fresh(b, mid, hi),
        lo <= mid <= hi,
    ensures
        fresh(a + b, lo, hi),
        a.disjoint(b),
{
    assert forall|i: int, j: int| 0 <= i < a.len() && 0 <= j < b.len() implies a[i] != b[j] by {
        assert(a[i] < mid);
        assert(mid <= b[j]);
    }
    vstd::seq_lib::lemma_no_dup_in_concat(a, b);
    assert forall|i: int| 0 <= i < (a + b).len() implies lo <= #[trigger] (a + b)[i] < hi by {
        if i < a.len() {
            assert((a + b)[i] == a[i]);
            assert(lo <= a[i] < mid);
        } else {
            assert((a + b)[i] == b[i - a.len()]);
            assert(mid <= b[i - a.len()] < hi);
        }
    }
}

/// Expressions add no block and take ids only forward.
pub proof fn lemma_expr_state(env: GenEnv, g: GenState, e: Expr, vars: Vars)
    ensures
        tr_expr(env, g, e, vars) matches Ok((g1, _, _)) ==> g1.pending == g.pending && g.next <= g1.next
            && module_grows(g, g1),
    decreases e,
{
    lemma_module_grows_refl(g);
    match e {
        Expr::Paren { inner, .. } => lemma_expr_state(env, g, *inner, vars),
        Expr::Call { callee, args, .. } => {
            lemma_args_state(env, g, args@, vars);
            match tr_args(env, g, args@, vars) {
                Ok((g1, _, vals)) => {
                    lemma_call_state(env, g1, callee, vals);
                    match tr_call(env, g1, callee, vals) {
                        Ok((g2, _, _)) => lemma_module_grows_trans(g, g1, g2),
                        Err(_) => {},
                    }
                },
                Err(_) => {},
            }
        },
        Expr::Bin { op, left, right } => {
            lemma_expr_state(env, g, *left, vars);
            match tr_expr(env, g, *left, vars) {
                Ok((g1, _, _)) => {
                    lemma_expr_state(env, g1, *right, vars);
                    match tr_expr(env, g1, *right, vars) {
                        Ok((g2, _, _)) => {
                            lemma_module_grows_refl(g2);
                            lemma_module_grows_trans(g, g1, g2);
                        },
                        Err(_) => {},
                    }
                },
                Err(_) => {},
            }
        },
        _ => {},
    }
}

/// Arguments add no block and take ids only forward.
pub proof fn lemma_args_state(env: GenEnv, g: GenState, args: Seq<Expr>, vars: Vars)
    ensures
        tr_args(env, g, args, vars) matches Ok((g1, _, _)) ==> g1.pending == g.pending && g.next <= g1.next
            && module_grows(g, g1),
    decreases args,
{
    lemma_module_grows_refl(g);
    if args.len() > 0 {
        lemma_expr_state(env, g, args[0], vars);
        match tr_expr(env, g, args[0], vars) {
            Ok((g1, _, _)) => {
                lemma_args_state(env, g1, args.skip(1), vars);
                match tr_args(env, g1, args.skip(1), vars) {
                    Ok((g2, _, _)) => lemma_module_grows_trans(g, g1, g2),
                    Err(_) => {},
                }
            },
            Err(_) => {},
        }
    }
}

/// Declarations add no block, keep the current block's id and arguments,
/// and only append operations to it.
pub proof fn lemma_decls_state(env: GenEnv, g: GenState, cur: SBlock, decls: Seq<VarDeclarator>, vars: Vars)
    ensures
        tr_decls(env, g, cur, decls, vars) matches Ok((g1, cur1, _)) ==> g1.pending == g.pending
            && g.next <= g1.next && extends_block(cur1, cur) && module_grows(g, g1),
    decreases decls.len(),
{
    lemma_module_grows_refl(g);
    if decls.len() == 0 {
        assert(cur.ops.take(cur.ops.len() as int) =~= cur.ops);
    } else {
        let d = decls[0];
        match (d.name, d.init) {
            (Some(name), Some(init)) => {
                lemma_expr_state(env, g, init, vars);
                match tr_expr(env, g, init, vars) {
                    Ok((g1, ops, v)) => {
                        let c1 = append_ops(cur, ops);
                        lemma_decls_state(env, g1, c1, decls.skip(1), vars.push((name@, v)));
                        match tr_decls(env, g1, c1, decls.skip(1), vars.push((name@, v))) {
                            Ok((g2, c2, _)) => {
                                lemma_module_grows_trans(g, g1, g2);
                                assert(c2.ops.take(c1.ops.len() as int) == c1.ops);
                                assert(c2.ops.take(cur.ops.len() as int) =~= c1.ops.take(cur.ops.len() as int));
                                assert(c1.ops.take(cur.ops.len() as int) =~= cur.ops);
                            },
                            Err(_) => {},
                        }
                    },
                    Err(_) => {},
                }
            },
            _ => lemma_decls_state(env, g, cur, decls.skip(1), vars),
        }
    }
}

/// What compiling one statement into `cur` does to the blocks: `cur` only
/// gets more operations, finished blocks are only added with fresh ids, and
/// a merge block to continue in has a fresh id of its own.
pub open spec fn stmt_grown(g: GenState, cur: SBlock, g1: GenState, cur1: SBlock, ctl: Control) -> bool {
    let finished = block_ids(g1.pending.skip(g.pending.len() as int));
    &&& extends_block(cur1, cur)
    &&& g.next <= g1.next
    &&& module_grows(g, g1)
    &&& g.pending.len() <= g1.pending.len()
    &&& g1.pending.take(g.pending.len() as int) == g.pending
    &&& fresh(finished, g.next, g1.next)
    &&& (ctl matches Control::Branch(m) ==> g.next <= m < g1.next && !finished.contains(m))
}

/// Extending is transitive.
pub proof fn lemma_extends_trans(a: SBlock, b: SBlock, c: SBlock)
    requires
        extends_block(a, b),
        extends_block(b, c),
    ensures
        extends_block(a, c),
{
    assert(a.ops.take(c.ops.len() as int) =~= b.ops.take(c.ops.len() as int));
}

/// A block extends itself.
pub proof fn lemma_extends_refl(a: SBlock)
    ensures
        extends_block(a, a),
{
    assert(a.ops.take(a.ops.len() as int) =~= a.ops);
}

/// A block with operations appended extends it.
pub proof fn lemma_extends_append(a: SBlock, ops: Seq<SOp>)
    ensures
        extends_block(append_ops(a, ops), a),
{
    assert((a.ops + ops).take(a.ops.len() as int) =~= a.ops);
}

/// The ids of joined lists are the joined ids.
pub proof fn lemma_block_ids_concat(a: Seq<SBlock>, b: Seq<SBlock>)
    ensures
        block_ids(a + b) == block_ids(a) + block_ids(b),
{
    assert(block_ids(a + b) =~= block_ids(a) + block_ids(b));
}

/// A list that starts with `a` is `a` and the rest.
pub proof fn lemma_take_skip<T>(s: Seq<T>, a: Seq<T>)
    requires
        a.len() <= s.len(),
        s.take(a.len() as int) == a,
    ensures
        s == a + s.skip(a.len() as int),
{
    assert(s =~= a + s.skip(a.len() as int));
}

/// Statements that add nothing leave the blocks as they were.
pub proof fn lemma_grown_refl(g: GenState, chain: Seq<SBlock>, cur: SBlock)
    ensures
        grown(g, chain, cur, g, chain, cur),
{
    let l = chain.push(cur);
    assert(l.skip(l.len() as int) =~= Seq::<SBlock>::empty());
    assert(g.pending.skip(g.pending.len() as int) =~= Seq::<SBlock>::empty());
    assert(block_ids(Seq::<SBlock>::empty()) =~= Seq::<int>::empty());
    assert(chain.take(chain.len() as int) =~= chain);
    assert(g.pending.take(g.pending.len() as int) =~= g.pending);
    assert(l[chain.len() as int] == cur);
    lemma_extends_refl(cur);
    lemma_module_grows_refl(g);
}

/// Ranges of fresh ids one above the other are disjoint.
pub proof fn lemma_fresh_disjoint(a: Seq<int>, b: Seq<int>, lo: int, mid: int, hi: int, lo2: int)
    requires
        fresh(a, lo, mid),
        fresh(b, lo2, hi),
        mid <= lo2,
    ensures
        a.disjoint(b),
        b.disjoint(a),
{
    assert forall|i: int, j: int| 0 <= i < a.len() && 0 <= j < b.len() implies a[i] != b[j] by {
        assert(a[i] < mid);
        assert(lo2 <= b[j]);
    }
}

/// Disjointness of joined lists.
pub proof fn lemma_disjoint_concat(a1: Seq<int>, a2: Seq<int>, b1: Seq<int>, b2: Seq<int>)
    requires
        a1.disjoint(b1),
        a1.disjoint(b2),
        a2.disjoint(b1),
        a2.disjoint(b2),
    ensures
        (a1 + a2).disjoint(b1 + b2),
{
    let a = a1 + a2;
    let b = b1 + b2;
    assert forall|i: int, j: int| 0 <= i < a.len() && 0 <= j < b.len() implies a[i] != b[j] by {
        if i < a1.len() {
            assert(a[i] == a1[i]);
            if j < b1.len() {
                assert(b[j] == b1[j]);
            } else {
                assert(b[j] == b2[j - b1.len()]);
            }
        } else {
            assert(a[i] == a2[i - a1.len()]);
            if j < b1.len() {
                assert(b[j] == b1[j]);
            } else {
                assert(b[j] == b2[j - b1.len()]);
            }
        }
    }
}

/// Two stretches of compilation make one.
pub proof fn lemma_grown_trans(
    g: GenState,
    chain: Seq<SBlock>,
    cur: SBlock,
    ga: GenState,
    chain_a: Seq<SBlock>,
    cur_a: SBlock,
    g1: GenState,
    chain1: Seq<SBlock>,
    cur1: SBlock,
)
    requires
        grown(g, chain, cur, ga, chain_a, cur_a),
        grown(ga, chain_a, cur_a, g1, chain1, cur1),
    ensures
        grown(g, chain, cur, g1, chain1, cur1),
{
    let l = chain.push(cur);
    let la = chain_a.push(cur_a);
    let l1 = chain1.push(cur1);
    let n = chain.len() as int;
    let na = chain_a.len() as int;
    assert(chain1.take(n) =~= chain_a.take(n)) by {
        assert forall|i: int| 0 <= i < n implies chain1.take(n)[i] == chain_a.take(n)[i] by {
            assert(chain1[i] == chain1.take(na)[i]);
        }
    }
    if na > n {
        assert(l1[n] == chain1[n]);
        assert(chain1[n] == chain1.take(na)[n]);
        assert(la[n] == chain_a[n]);
    } else {
        assert(la[n] == cur_a);
        lemma_extends_trans(l1[n], cur_a, cur);
    }
    // the ids of the chain agree up to the end of the middle chain
    assert forall|i: int| 0 <= i < la.len() implies #[trigger] block_ids(l1)[i] == block_ids(la)[i] by {
        if i < na {
            assert(l1[i] == chain1[i]);
            assert(chain1[i] == chain1.take(na)[i]);
            assert(la[i] == chain_a[i]);
        } else {
            assert(l1[na].id == cur_a.id);
        }
    }
    let added_a = block_ids(la.skip(l.len() as int));
    let added_b = block_ids(l1.skip(la.len() as int));
    assert(block_ids(l1.skip(l.len() as int)) =~= added_a + added_b) by {
        let lhs = block_ids(l1.skip(l.len() as int));
        assert forall|i: int| 0 <= i < lhs.len() implies lhs[i] == (added_a + added_b)[i] by {
            if i < added_a.len() {
                assert(lhs[i] == block_ids(l1)[l.len() + i]);
                assert(added_a[i] == block_ids(la)[l.len() + i]);
            } else {
                assert(added_b[i - added_a.len()] == block_ids(l1)[la.len() + i - added_a.len()]);
            }
        }
    }
    let pa = ga.pending.skip(g.pending.len() as int);
    let pb = g1.pending.skip(ga.pending.len() as int);
    assert(g1.pending.take(g.pending.len() as int) =~= ga.pending.take(g.pending.len() as int)) by {
        assert forall|i: int| 0 <= i < g.pending.len() implies g1.pending.take(g.pending.len() as int)[i] == ga.pending.take(g.pending.len() as int)[i] by {
            assert(g1.pending[i] == g1.pending.take(ga.pending.len() as int)[i]);
        }
    }
    assert(g1.pending.skip(g.pending.len() as int) =~= pa + pb) by {
        lemma_take_skip(ga.pending, g.pending);
        lemma_take_skip(g1.pending, ga.pending);
    }
    lemma_block_ids_concat(pa, pb);
    lemma_fresh_concat(added_a, added_b, g.next, ga.next, g1.next);
    lemma_fresh_concat(block_ids(pa), block_ids(pb), g.next, ga.next, g1.next);
    lemma_fresh_disjoint(added_a, block_ids(pb), g.next, ga.next, g1.next, ga.next);
    lemma_fresh_disjoint(block_ids(pa), added_b, g.next, ga.next, g1.next, ga.next);
    lemma_disjoint_concat(added_a, added_b, block_ids(pa), block_ids(pb));
    lemma_module_grows_trans(g, ga, g1);
}

/// Law: compiling a statement only appends to the current block and adds
/// finished blocks with fresh, distinct ids; a merge block's id is fresh and
/// distinct from them.
pub proof fn lemma_grow_stmt(env: GenEnv, g: GenState, cur: SBlock, s: Stmt, vars: Vars)
    ensures
        tr_stmt(env, g, cur, s, vars) matches Ok((g1, cur1, _, ctl)) ==> stmt_grown(g, cur, g1, cur1, ctl),
    decreases s, 0nat,
{
    assert(g.pending.skip(g.pending.len() as int) =~= Seq::<SBlock>::empty());
    assert(block_ids(Seq::<SBlock>::empty()) =~= Seq::<int>::empty());
    assert(g.pending.take(g.pending.len() as int) =~= g.pending);
    lemma_module_grows_refl(g);
    match s {
        Stmt::Var(decls) => {
            lemma_decls_state(env, g, cur, decls@, vars);
        },
        Stmt::Return(arg) => match arg {
            None => lemma_extends_append(cur, seq![SOp::Return { operands: seq![] }]),
            Some(e) => {
                lemma_expr_state(env, g, e, vars);
                match tr_expr(env, g, e, vars) {
                    Ok((g1, ops, v)) => lemma_extends_append(cur, ops.push(SOp::Return { operands: seq![v] })),
                    Err(_) => {},
                }
            },
        },
        Stmt::Expr(e) => {
            lemma_expr_state(env, g, e, vars);
            match tr_expr(env, g, e, vars) {
                Ok((g1, ops, v)) => lemma_extends_append(cur, ops),
                Err(_) => {},
            }
        },
        Stmt::If { test, cons, alt } => {
            if env.branches {
                lemma_expr_state(env, g, test, vars);
                match tr_expr(env, g, test, vars) {
                    Ok((g1, ops, c)) => {
                        let t = g1.next;
                        lemma_extends_append(cur, ops + seq![
                            SOp::TruncI { result: t, operand: c },
                            SOp::CondBr { cond: t, then_dest: t + 1, else_dest: t + 2 },
                        ]);
                        let gb = bump(g1, 4);
                        lemma_grow_into(env, gb, t + 1, *cons, vars, t + 3);
                        match tr_into_block(env, gb, t + 1, *cons, vars, t + 3) {
                            Ok((g2, then_term)) => {
                                assert(module_grows(g, gb));
                                lemma_module_grows_trans(g, gb, g2);
                                let p1 = block_ids(g2.pending.skip(g.pending.len() as int));
                                match alt {
                                    Some(a) => {
                                        lemma_grow_into(env, g2, t + 2, *a, vars, t + 3);
                                        match tr_into_block(env, g2, t + 2, *a, vars, t + 3) {
                                            Ok((g3, else_term)) => {
                                                lemma_module_grows_trans(g, g2, g3);
                                                let p2 = block_ids(g3.pending.skip(g2.pending.len() as int));
                                                lemma_take_skip(g2.pending, g.pending);
                                                lemma_take_skip(g3.pending, g2.pending);
                                                assert(g3.pending.skip(g.pending.len() as int) =~= g2.pending.skip(g.pending.len() as int) + g3.pending.skip(g2.pending.len() as int));
                                                lemma_block_ids_concat(g2.pending.skip(g.pending.len() as int), g3.pending.skip(g2.pending.len() as int));
                                                assert forall|i: int, j: int| 0 <= i < p1.len() && 0 <= j < p2.len() implies p1[i] != p2[j] by {
                                                    assert(p1[i] == t + 1 || t + 4 <= p1[i] < g2.next);
                                                    assert(p2[j] == t + 2 || g2.next <= p2[j] < g3.next);
                                                }
                                                vstd::seq_lib::lemma_no_dup_in_concat(p1, p2);
                                                let f = p1 + p2;
                                                assert forall|i: int| 0 <= i < f.len() implies g.next <= #[trigger] f[i] < g3.next && f[i] != t + 3 by {
                                                    if i < p1.len() {
                                                        assert(f[i] == p1[i]);
                                                        assert(p1[i] == t + 1 || t + 4 <= p1[i] < g2.next);
                                                    } else {
                                                        assert(f[i] == p2[i - p1.len()]);
                                                        assert(p2[i - p1.len()] == t + 2 || g2.next <= p2[i - p1.len()] < g3.next);
                                                    }
                                                }
                                                assert(g3.pending.take(g.pending.len() as int) =~= g.pending);
                                            },
                                            Err(_) => {},
                                        }
                                    },
                                    None => {
                                        let eb = SBlock { id: t + 2, args: seq![], ops: seq![SOp::Br { dest: t + 3 }] };
                                        let p3 = g2.pending.push(eb);
                                        lemma_take_skip(g2.pending, g.pending);
                                        assert(p3.skip(g.pending.len() as int) =~= g2.pending.skip(g.pending.len() as int).push(eb));
                                        assert(block_ids(p3.skip(g.pending.len() as int)) =~= p1.push(t + 2));
                                        let f = p1.push(t + 2);
                                        assert forall|i: int, j: int| 0 <= i < f.len() && 0 <= j < f.len() && i != j implies f[i] != f[j] by {
                                            if i < p1.len() && j < p1.len() {
                                            } else if i < p1.len() {
                                                assert(p1[i] == t + 1 || t + 4 <= p1[i] < g2.next);
                                            } else if j < p1.len() {
                                                assert(p1[j] == t + 1 || t + 4 <= p1[j] < g2.next);
                                            }
                                        }
                                        assert forall|i: int| 0 <= i < f.len() implies g.next <= #[trigger] f[i] < g2.next && f[i] != t + 3 by {
                                            if i < p1.len() {
                                                assert(p1[i] == t + 1 || t + 4 <= p1[i] < g2.next);
                                            }
                                        }
                                        assert(p3.take(g.pending.len() as int) =~= g.pending);
                                    },
                                }
                            },
                            Err(_) => {},
                        }
                    },
                    Err(_) => {},
                }
            } else {
                lemma_extends_refl(cur);
            }
        },
        _ => lemma_extends_refl(cur),
    }
}

/// One statement of a sequence, as `grown` states it.
pub proof fn lemma_grow_step(env: GenEnv, g: GenState, chain: Seq<SBlock>, cur: SBlock, s: Stmt, vars: Vars)
    ensures
        tr_step(env, g, chain, cur, s, vars) matches Ok((g1, chain1, cur1, _, _)) ==> grown(g, chain, cur, g1, chain1, cur1),
    decreases s, 1nat,
{
    lemma_grow_stmt(env, g, cur, s, vars);
    match tr_stmt(env, g, cur, s, vars) {
        Ok((g1, c1, v1, ctl)) => {
            let l = chain.push(cur);
            assert(chain.take(chain.len() as int) =~= chain);
            match ctl {
                Control::Branch(m) => {
                    let l1 = chain.push(c1).push(empty_block(m));
                    assert(l1.skip(l.len() as int) =~= seq![empty_block(m)]);
                    assert(block_ids(seq![empty_block(m)]) =~= seq![m]);
                    assert(chain.push(c1).take(chain.len() as int) =~= chain);
                    assert(l1[chain.len() as int] == c1);
                    let finished = block_ids(g1.pending.skip(g.pending.len() as int));
                    assert(seq![m].disjoint(finished));
                },
                _ => {
                    let l1 = chain.push(c1);
                    assert(l1.skip(l.len() as int) =~= Seq::<SBlock>::empty());
                    assert(block_ids(Seq::<SBlock>::empty()) =~= Seq::<int>::empty());
                },
            }
        },
        Err(_) => {},
    }
}

/// Statements, as `grown` states it.
pub proof fn lemma_grow_stmts(env: GenEnv, g: GenState, chain: Seq<SBlock>, cur: SBlock, ss: Seq<Stmt>, vars: Vars)
    ensures
        tr_stmts(env, g, chain, cur, ss, vars) matches Ok((g1, chain1, cur1, _, _)) ==> grown(g, chain, cur, g1, chain1, cur1),
    decreases ss, 0nat,
{
    if ss.len() == 0 {
        lemma_grown_refl(g, chain, cur);
    } else {
        lemma_grow_step(env, g, chain, cur, ss[0], vars);
        match tr_step(env, g, chain, cur, ss[0], vars) {
            Ok((ga, chain_a, cur_a, vars_a, term)) => {
                if !term {
                    lemma_grow_stmts(env, ga, chain_a, cur_a, ss.skip(1), vars_a);
                    match tr_stmts(env, ga, chain_a, cur_a, ss.skip(1), vars_a) {
                        Ok((g1, chain1, cur1, _, _)) => lemma_grown_trans(g, chain, cur, ga, chain_a, cur_a, g1, chain1, cur1),
                        Err(_) => {},
                    }
                }
            },
            Err(_) => {},
        }
    }
}

/// A branch, as `into_grown` states it.
pub proof fn lemma_grow_into(env: GenEnv, g: GenState, start: int, body: Stmt, vars: Vars, merge: int)
    requires
        start < g.next,
    ensures
        tr_into_block(env, g, start, body, vars, merge) matches Ok((g1, _)) ==> into_grown(g, start, g1),
    decreases body, 2nat,
{
    let r = match body {
        Stmt::Block(ss) => tr_stmts(env, g, seq![], empty_block(start), ss@, vars),
        _ => tr_step(env, g, seq![], empty_block(start), body, vars),
    };
    match body {
        Stmt::Block(ss) => lemma_grow_stmts(env, g, seq![], empty_block(start), ss@, vars),
        _ => lemma_grow_step(env, g, seq![], empty_block(start), body, vars),
    }
    match r {
        Ok((g1, chain, cur, vars1, term)) => {
            let last = if term { cur } else { append_ops(cur, seq![SOp::Br { dest: merge }]) };
            let l1 = chain.push(cur);
            let p = g1.pending.skip(g.pending.len() as int);
            let pend = g1.pending + chain.push(last);
            lemma_take_skip(g1.pending, g.pending);
            assert(pend.skip(g.pending.len() as int) =~= p + chain.push(last));
            lemma_block_ids_concat(p, chain.push(last));
            assert(block_ids(chain.push(last)) =~= block_ids(l1));
            let added = block_ids(l1.skip(1));
            assert(l1[0].id == start);
            assert(block_ids(l1) =~= seq![start] + added);
            let f = block_ids(p) + (seq![start] + added);
            assert forall|i: int| 0 <= i < f.len() implies #[trigger] f[i] == start || g.next <= f[i] < g1.next by {
                if i < block_ids(p).len() {
                    assert(f[i] == block_ids(p)[i]);
                } else if i > block_ids(p).len() {
                    assert(f[i] == added[i - block_ids(p).len() - 1]);
                }
            }
            assert forall|i: int, j: int| 0 <= i < f.len() && 0 <= j < f.len() && i != j implies f[i] != f[j] by {
                let np = block_ids(p).len() as int;
                if i < np && j < np {
                } else if i > np && j > np {
                    assert(f[i] == added[i - np - 1]);
                    assert(f[j] == added[j - np - 1]);
                } else if i < np && j > np {
                    assert(f[i] == block_ids(p)[i]);
                    assert(f[j] == added[j - np - 1]);
                } else if j < np && i > np {
                    assert(f[j] == block_ids(p)[j]);
                    assert(f[i] == added[i - np - 1]);
                } else if i == np {
                    assert(f[i] == start);
                    if j < np {
                        assert(g.next <= block_ids(p)[j]);
                    } else {
                        assert(g.next <= added[j - np - 1]);
                    }
                } else {
                    assert(f[j] == start);
                    if i < np {
                        assert(g.next <= block_ids(p)[i]);
                    } else {
                        assert(g.next <= added[i - np - 1]);
                    }
                }
            }
            assert(pend.take(g.pending.len() as int) =~= g.pending);
            assert(module_grows(g, g1));
        },
        Err(_) => {},
    }
}

} // verus!
