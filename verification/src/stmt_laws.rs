//! The emitted functions compute what the source statements mean.
use vstd::prelude::*;
use crate::ast::{Expr, FnDecl, Stmt, VarDeclarator};
use crate::blocks::{
    block_ids, declared_once, extends_block, fmt_globals, grown, into_grown, lemma_decls_state,
    lemma_expr_state, lemma_module_grows_trans, module_grows, printf_decls,
    lemma_extends_refl, lemma_extends_trans, lemma_grow_into, lemma_grow_stmts, lemma_grow_step,
    lemma_grow_stmt, stmt_grown,
};
use crate::ir::{SBlock, SFunc, SModuleOp, SOp, Ty};
use crate::laws::{
    expr_code_correct, fresh_run, ids_below, keys_below, law_expr_correct, lemma_insert_fresh,
    lemma_related_extend, lemma_submap_trans, related,
};
use crate::semantics::{
    Oracle, Outcome, Run, Store, Vals, arg_vals, eval_expr, exec_body, exec_decls, exec_stmt,
    exec_stmts, find_block, param_store, run_block, run_function, run_ops, run_straight, step_op,
    values_of,
};
use crate::codegen_spec::{
    Control, GenEnv, GenState, Vars, append_ops, bump, empty_block, finish_blocks, fn_returns_of,
    i64_args, initial_state, main_stmts, module_functions, param_vars, returns_void, tr_decls,
    tr_expr, tr_function, tr_functions, tr_into_block, tr_main, tr_module, tr_step, tr_stmt,
    tr_stmts,
};
use crate::ast::ModuleItem;

verus! {

/// Running a block of `blocks` from its operation `k`; stuck where no block
/// has the id, or where the operations run out without ending the block.
pub open spec fn resume(blocks: Seq<SBlock>, id: int, k: int, vals: Vals, out: Seq<int>, o: Oracle, fuel: nat) -> Run {
    match find_block(blocks, id) {
        Some(b) => match run_ops(b.ops.skip(k), blocks, vals, out, o, fuel) {
            Run::Fall(_, _) => Run::Stuck,
            r => r,
        },
        None => Run::Stuck,
    }
}

/// Each block of `bs` is the block that `blocks` has under its id.
pub open spec fn placed(blocks: Seq<SBlock>, bs: Seq<SBlock>) -> bool {
    forall|i: int| 0 <= i < bs.len() ==> find_block(blocks, (#[trigger] bs[i]).id) == Some(bs[i])
}

/// The block that `blocks` has under `cur`'s id extends `cur`.
pub open spec fn open_at(blocks: Seq<SBlock>, cur: SBlock) -> bool {
    find_block(blocks, cur.id) matches Some(b) && extends_block(b, cur)
}

/// Straight-line operations run first, then the rest.
pub proof fn lemma_run_ops_straight(
    ops: Seq<SOp>,
    rest: Seq<SOp>,
    blocks: Seq<SBlock>,
    vals: Vals,
    out: Seq<int>,
    o: Oracle,
    fuel: nat,
)
    requires
        run_straight(ops, vals, out, o) is Some,
    ensures
        ({
            let (v1, o1) = run_straight(ops, vals, out, o)->Some_0;
            run_ops(ops + rest, blocks, vals, out, o, fuel) == run_ops(rest, blocks, v1, o1, o, fuel)
        }),
    decreases ops.len(),
{
    if ops.len() == 0 {
        assert(ops + rest =~= rest);
    } else {
        let all = ops + rest;
        assert(all[0] == ops[0]);
        assert(all.skip(1) =~= ops.skip(1) + rest);
        let (v1, o1) = step_op(ops[0], vals, out, o)->Some_0;
        lemma_run_ops_straight(ops.skip(1), rest, blocks, v1, o1, o, fuel);
    }
}

/// A block placed in `blocks` under a list that holds it.
pub proof fn lemma_placed_prefix(blocks: Seq<SBlock>, big: Seq<SBlock>, small: Seq<SBlock>)
    requires
        placed(blocks, big),
        small.len() <= big.len(),
        big.take(small.len() as int) == small,
    ensures
        placed(blocks, small),
{
    assert forall|i: int| 0 <= i < small.len() implies find_block(blocks, (#[trigger] small[i]).id) == Some(small[i]) by {
        assert(small[i] == big.take(small.len() as int)[i]);
        assert(big[i] == big.take(small.len() as int)[i]);
    }
}

/// Where blocks have distinct ids, each is found under its id.
pub proof fn lemma_placed_distinct(blocks: Seq<SBlock>)
    requires
        block_ids(blocks).no_duplicates(),
    ensures
        placed(blocks, blocks),
    decreases blocks.len(),
{
    if blocks.len() > 0 {
        let rest = blocks.skip(1);
        assert(block_ids(rest) =~= block_ids(blocks).skip(1));
        lemma_placed_distinct(rest);
        assert forall|i: int| 0 <= i < blocks.len() implies find_block(blocks, (#[trigger] blocks[i]).id) == Some(blocks[i]) by {
            if i > 0 {
                assert(rest[i - 1] == blocks[i]);
                assert(block_ids(blocks)[i] != block_ids(blocks)[0]);
            }
        }
    }
}

/// A placed block extends itself.
pub proof fn lemma_open_placed(blocks: Seq<SBlock>, bs: Seq<SBlock>, i: int)
    requires
        placed(blocks, bs),
        0 <= i < bs.len(),
    ensures
        open_at(blocks, bs[i]),
{
    assert(find_block(blocks, bs[i].id) == Some(bs[i]));
    lemma_extends_refl(bs[i]);
}

/// Running from a block's operation `k`, where the block holds `ops` there
/// and they run straight, is running from after them.
pub proof fn lemma_resume_straight(
    blocks: Seq<SBlock>,
    cur: SBlock,
    ops: Seq<SOp>,
    vals: Vals,
    out: Seq<int>,
    o: Oracle,
    fuel: nat,
)
    requires
        open_at(blocks, append_ops(cur, ops)),
        run_straight(ops, vals, out, o) is Some,
    ensures
        ({
            let (v1, o1) = run_straight(ops, vals, out, o)->Some_0;
            resume(blocks, cur.id, cur.ops.len() as int, vals, out, o, fuel)
                == resume(blocks, cur.id, (cur.ops.len() + ops.len()) as int, v1, o1, o, fuel)
        }),
{
    let c1 = append_ops(cur, ops);
    let b = find_block(blocks, cur.id)->Some_0;
    let k = cur.ops.len() as int;
    let rest = b.ops.skip(k + ops.len());
    assert(b.ops.take(c1.ops.len() as int) == c1.ops);
    assert(b.ops.skip(k) =~= ops + rest) by {
        assert forall|i: int| 0 <= i < ops.len() implies b.ops.skip(k)[i] == ops[i] by {
            assert(b.ops[k + i] == b.ops.take(c1.ops.len() as int)[k + i]);
            assert(c1.ops[k + i] == ops[i]);
        }
    }
    lemma_run_ops_straight(ops, rest, blocks, vals, out, o, fuel);
}

/// `resume` with `extra` more fuel.
pub open spec fn resume_after(blocks: Seq<SBlock>, id: int, k: int, vals: Vals, out: Seq<int>, o: Oracle, fuel: nat, extra: nat) -> Run {
    resume(blocks, id, k, vals, out, o, fuel + extra)
}

/// Related bindings stay related when a name is bound on both sides to the
/// same value.
pub proof fn lemma_related_push(vars: Vars, st: Store, vals: Vals, name: Seq<char>, v: int, x: int)
    requires
        related(vars, st, vals),
        vals.contains_key(v),
        vals[v] == x,
    ensures
        related(vars.push((name, v)), st.push((name, x)), vals),
{
    let vs = vars.push((name, v));
    let ss = st.push((name, x));
    assert forall|i: int| 0 <= i < vs.len() implies {
        &&& #[trigger] vs[i].0 == ss[i].0
        &&& vals.contains_key(vs[i].1)
        &&& vals[vs[i].1] == ss[i].1
    } by {
        if i < vars.len() {
            assert(vs[i] == vars[i]);
            assert(ss[i] == st[i]);
            assert(vars[i].0 == st[i].0);
        }
    }
}

/// What running the code of declarations leaves: the values bound, the
/// output, and nothing changed below the ids they took.
pub open spec fn decls_code_correct(
    ops: Seq<SOp>,
    vals: Vals,
    out: Seq<int>,
    o: Oracle,
    vars1: Vars,
    st1: Store,
    out1: Seq<int>,
    n: int,
    n1: int,
) -> bool {
    match run_straight(ops, vals, out, o) {
        Some((vals1, out2)) => out2 == out1 && related(vars1, st1, vals1) && ids_below(vars1, n1)
            && fresh_run(vals, vals1, n, n1),
        None => false,
    }
}

/// Declarations compute what they bind.
pub proof fn lemma_decls_correct(
    env: GenEnv,
    g: GenState,
    cur: SBlock,
    decls: Seq<VarDeclarator>,
    vars: Vars,
    st: Store,
    vals: Vals,
    out: Seq<int>,
    o: Oracle,
)
    requires
        tr_decls(env, g, cur, decls, vars) is Ok,
        exec_decls(env.fn_returns, o, decls, st, out) is Some,
        related(vars, st, vals),
        ids_below(vars, g.next),
        keys_below(vals, g.next),
    ensures
        ({
            let (g1, cur1, vars1) = tr_decls(env, g, cur, decls, vars)->Ok_0;
            let (st1, out1) = exec_decls(env.fn_returns, o, decls, st, out)->Some_0;
            &&& cur1 == append_ops(cur, cur1.ops.skip(cur.ops.len() as int))
            &&& decls_code_correct(cur1.ops.skip(cur.ops.len() as int), vals, out, o, vars1, st1, out1, g.next, g1.next)
        }),
    decreases decls.len(),
{
    lemma_decls_state(env, g, cur, decls, vars);
    let (g1, cur1, vars1) = tr_decls(env, g, cur, decls, vars)->Ok_0;
    assert(cur1 =~= append_ops(cur, cur1.ops.skip(cur.ops.len() as int))) by {
        assert(cur1.ops.take(cur.ops.len() as int) == cur.ops);
        assert(cur1.ops =~= cur.ops + cur1.ops.skip(cur.ops.len() as int));
    }
    if decls.len() == 0 {
        assert(cur1.ops.skip(cur.ops.len() as int) =~= Seq::<SOp>::empty());
        assert(vals.submap_of(vals));
    } else {
        let d = decls[0];
        match (d.name, d.init) {
            (Some(name), Some(init)) => {
                law_expr_correct(env, g, init, vars, st, vals, out, o);
                let (ga, ops, v) = tr_expr(env, g, init, vars)->Ok_0;
                let (x, outa) = eval_expr(env.fn_returns, o, init, st, out)->Some_0;
                let (valsa, _) = run_straight(ops, vals, out, o)->Some_0;
                let ca = append_ops(cur, ops);
                let varsa = vars.push((name@, v));
                let sta = st.push((name@, x));
                lemma_related_extend(vars, st, vals, valsa, g.next, ga.next);
                lemma_related_push(vars, st, valsa, name@, v, x);
                assert(ids_below(varsa, ga.next)) by {
                    assert forall|i: int| 0 <= i < varsa.len() implies #[trigger] varsa[i].1 < ga.next by {
                        if i < vars.len() {
                            assert(varsa[i] == vars[i]);
                        }
                    }
                }
                lemma_decls_correct(env, ga, ca, decls.skip(1), varsa, sta, valsa, outa, o);
                let rest = cur1.ops.skip(ca.ops.len() as int);
                assert(cur1.ops.skip(cur.ops.len() as int) =~= ops + rest);
                crate::laws::lemma_run_straight_append(ops, rest, vals, out, o);
                let (vals1, _) = run_straight(rest, valsa, outa, o)->Some_0;
                lemma_submap_trans(vals, valsa, vals1);
            },
            _ => {
                lemma_decls_correct(env, g, cur, decls.skip(1), vars, st, vals, out, o);
            },
        }
    }
}

/// A block's operations from `cur`'s end, where the block extends `cur`
/// with `ops`: `ops`, then the rest.
pub proof fn lemma_block_after(blocks: Seq<SBlock>, cur: SBlock, ops: Seq<SOp>)
    requires
        open_at(blocks, append_ops(cur, ops)),
    ensures
        find_block(blocks, cur.id) is Some,
        ({
            let b = find_block(blocks, cur.id)->Some_0;
            b.ops.skip(cur.ops.len() as int) == ops + b.ops.skip((cur.ops.len() + ops.len()) as int)
        }),
{
    let c1 = append_ops(cur, ops);
    let b = find_block(blocks, cur.id)->Some_0;
    let k = cur.ops.len() as int;
    assert(b.ops.take(c1.ops.len() as int) == c1.ops);
    assert(b.ops.skip(k) =~= ops + b.ops.skip(k + ops.len())) by {
        assert forall|i: int| 0 <= i < ops.len() implies b.ops.skip(k)[i] == ops[i] by {
            assert(b.ops[k + i] == b.ops.take(c1.ops.len() as int)[k + i]);
            assert(c1.ops[k + i] == ops[i]);
        }
    }
}

/// Jumping to a block is resuming it from its start.
pub proof fn lemma_run_block_resume(blocks: Seq<SBlock>, id: int, vals: Vals, out: Seq<int>, o: Oracle, fuel: nat)
    ensures
        run_block(id, blocks, vals, out, o, fuel) == resume(blocks, id, 0, vals, out, o, fuel),
{
    match find_block(blocks, id) {
        Some(b) => {
            assert(b.ops.skip(0) =~= b.ops);
        },
        None => {},
    }
}

/// Resuming at a block whose next operation is a return.
pub proof fn lemma_resume_return(blocks: Seq<SBlock>, cur: SBlock, operands: Seq<int>, vals: Vals, out: Seq<int>, o: Oracle, fuel: nat)
    requires
        open_at(blocks, append_ops(cur, seq![SOp::Return { operands }])),
        values_of(operands, vals) is Some,
    ensures
        resume(blocks, cur.id, cur.ops.len() as int, vals, out, o, fuel) == Run::Ret(values_of(operands, vals)->Some_0, out),
{
    lemma_block_after(blocks, cur, seq![SOp::Return { operands }]);
    let b = find_block(blocks, cur.id)->Some_0;
    assert(b.ops.skip(cur.ops.len() as int)[0] == SOp::Return { operands });
}

/// Resuming at a block whose next operation jumps to `dest`.
pub proof fn lemma_resume_br(blocks: Seq<SBlock>, cur: SBlock, dest: int, vals: Vals, out: Seq<int>, o: Oracle, fuel: nat)
    requires
        open_at(blocks, append_ops(cur, seq![SOp::Br { dest }])),
    ensures
        resume(blocks, cur.id, cur.ops.len() as int, vals, out, o, fuel + 1) == resume(blocks, dest, 0, vals, out, o, fuel),
{
    lemma_block_after(blocks, cur, seq![SOp::Br { dest }]);
    let b = find_block(blocks, cur.id)->Some_0;
    assert(b.ops.skip(cur.ops.len() as int)[0] == SOp::Br { dest });
    lemma_run_block_resume(blocks, dest, vals, out, o, fuel);
}

/// The value of one id.
pub proof fn lemma_values_of_one(v: int, vals: Vals)
    requires
        vals.contains_key(v),
    ensures
        values_of(seq![v], vals) == Some(seq![vals[v]]),
{
    let s = seq![v];
    assert(s.drop_last() =~= Seq::<int>::empty());
    assert(values_of(s.drop_last(), vals) == Some(Seq::<int>::empty()));
    assert(s.last() == v);
    assert(Seq::<int>::empty().push(vals[v]) =~= seq![vals[v]]);
}

/// Ids below `n` are below any larger bound.
pub proof fn lemma_keys_below_mono(vals: Vals, n: int, n1: int)
    requires
        keys_below(vals, n),
        n <= n1,
    ensures
        keys_below(vals, n1),
{
}

/// What running from `cur`'s end does, where the source statements end
/// with `outcome`: a return gives the same values and output; a normal end
/// continues at operation `next_k` of block `next_id` with values that hold
/// the bindings after them, the same output, and nothing changed below.
pub open spec fn simulates(
    blocks: Seq<SBlock>,
    cur_id: int,
    k: int,
    vals: Vals,
    out: Seq<int>,
    o: Oracle,
    j: nat,
    outcome: Outcome,
    next_id: int,
    next_k: int,
    vars1: Vars,
    vals1: Vals,
    n1: int,
) -> bool {
    match outcome {
        Outcome::Returned(vs, out1) => forall|fuel: nat| #[trigger] resume_after(blocks, cur_id, k, vals, out, o, fuel, j) == Run::Ret(vs, out1),
        Outcome::Normal(st1, out1) => {
            &&& related(vars1, st1, vals1)
            &&& ids_below(vars1, n1)
            &&& keys_below(vals1, n1)
            &&& vals.submap_of(vals1)
            &&& forall|fuel: nat| #[trigger] resume_after(blocks, cur_id, k, vals, out, o, fuel, j) == resume(blocks, next_id, next_k, vals1, out1, o, fuel)
        },
    }
}

/// Where a statement compiles and its source meaning is defined, the code
/// emitted for it does what the statement does.
pub proof fn lemma_stmt_sim(
    env: GenEnv,
    g: GenState,
    cur: SBlock,
    s: Stmt,
    vars: Vars,
    st: Store,
    vals: Vals,
    out: Seq<int>,
    o: Oracle,
    blocks: Seq<SBlock>,
) -> (r: (nat, Vals))
    requires
        tr_stmt(env, g, cur, s, vars) is Ok,
        exec_stmt(env.fn_returns, env.branches, o, s, st, out) is Some,
        related(vars, st, vals),
        ids_below(vars, g.next),
        keys_below(vals, g.next),
        placed(blocks, tr_stmt(env, g, cur, s, vars)->Ok_0.0.pending),
        open_at(blocks, tr_stmt(env, g, cur, s, vars)->Ok_0.1),
    ensures
        ({
            let (g1, cur1, vars1, ctl) = tr_stmt(env, g, cur, s, vars)->Ok_0;
            let outcome = exec_stmt(env.fn_returns, env.branches, o, s, st, out)->Some_0;
            let next_id = match ctl {
                Control::Branch(m) => m,
                _ => cur1.id,
            };
            let next_k = match ctl {
                Control::Branch(_) => 0,
                _ => cur1.ops.len() as int,
            };
            &&& (outcome is Normal ==> !(ctl is Terminated))
            &&& simulates(blocks, cur.id, cur.ops.len() as int, vals, out, o, r.0, outcome, next_id, next_k, vars1, r.1, g1.next)
        }),
    decreases s, 1nat,
{
    let (g1, cur1, vars1, ctl) = tr_stmt(env, g, cur, s, vars)->Ok_0;
    let outcome = exec_stmt(env.fn_returns, env.branches, o, s, st, out)->Some_0;
    let k = cur.ops.len() as int;
    match s {
        Stmt::Var(decls) => {
            lemma_decls_correct(env, g, cur, decls@, vars, st, vals, out, o);
            let ops = cur1.ops.skip(k);
            let (vals1, out1) = run_straight(ops, vals, out, o)->Some_0;
            assert forall|fuel: nat| #[trigger] resume_after(blocks, cur.id, k, vals, out, o, fuel, 0) == resume(blocks, cur1.id, cur1.ops.len() as int, vals1, out1, o, fuel) by {
                lemma_resume_straight(blocks, cur, ops, vals, out, o, fuel);
            }
            (0, vals1)
        },
        Stmt::Return(arg) => match arg {
            None => {
                assert(values_of(Seq::<int>::empty(), vals) == Some(Seq::<int>::empty()));
                assert forall|fuel: nat| #[trigger] resume_after(blocks, cur.id, k, vals, out, o, fuel, 0) == Run::Ret(seq![], out) by {
                    lemma_resume_return(blocks, cur, seq![], vals, out, o, fuel);
                }
                (0, vals)
            },
            Some(e) => {
                law_expr_correct(env, g, e, vars, st, vals, out, o);
                let (ga, ops, v) = tr_expr(env, g, e, vars)->Ok_0;
                let (x, out1) = eval_expr(env.fn_returns, o, e, st, out)->Some_0;
                let (vals1, _) = run_straight(ops, vals, out, o)->Some_0;
                lemma_values_of_one(v, vals1);
                let ret = SOp::Return { operands: seq![v] };
                assert(cur1 == append_ops(append_ops(cur, ops), seq![ret])) by {
                    assert(cur.ops + ops.push(ret) =~= (cur.ops + ops) + seq![ret]);
                }
                assert forall|fuel: nat| #[trigger] resume_after(blocks, cur.id, k, vals, out, o, fuel, 0) == Run::Ret(seq![x], out1) by {
                    lemma_block_after(blocks, cur, ops.push(ret));
                    assert(open_at(blocks, append_ops(cur, ops))) by {
                        assert((cur.ops + ops.push(ret)).take((cur.ops + ops).len() as int) =~= cur.ops + ops);
                        assert(extends_block(cur1, append_ops(cur, ops)));
                        lemma_extends_trans(find_block(blocks, cur.id)->Some_0, cur1, append_ops(cur, ops));
                    }
                    lemma_resume_straight(blocks, cur, ops, vals, out, o, fuel);
                    lemma_resume_return(blocks, append_ops(cur, ops), seq![v], vals1, out1, o, fuel);
                }
                (0, vals1)
            },
        },
        Stmt::Expr(e) => {
            law_expr_correct(env, g, e, vars, st, vals, out, o);
            lemma_expr_state(env, g, e, vars);
            let (ga, ops, v) = tr_expr(env, g, e, vars)->Ok_0;
            let (x, out1) = eval_expr(env.fn_returns, o, e, st, out)->Some_0;
            let (vals1, _) = run_straight(ops, vals, out, o)->Some_0;
            lemma_related_extend(vars, st, vals, vals1, g.next, ga.next);
            assert forall|fuel: nat| #[trigger] resume_after(blocks, cur.id, k, vals, out, o, fuel, 0) == resume(blocks, cur1.id, cur1.ops.len() as int, vals1, out1, o, fuel) by {
                lemma_resume_straight(blocks, cur, ops, vals, out, o, fuel);
            }
            (0, vals1)
        },
        Stmt::If { test, cons, alt } => {
            if !env.branches {
                assert(vals.submap_of(vals));
                (0, vals)
            } else {
                lemma_if_sim(env, g, cur, s, vars, st, vals, out, o, blocks)
            }
        },
        _ => {
            assert(vals.submap_of(vals));
            (0, vals)
        },
    }
}

/// Running the code of a condition, its truncation to a bit, and the
/// conditional branch on it: the run goes on in the first block where the
/// bit is set, else in the second.
pub proof fn lemma_resume_cond(
    blocks: Seq<SBlock>,
    cur: SBlock,
    ops: Seq<SOp>,
    t: int,
    c: int,
    vals: Vals,
    out: Seq<int>,
    o: Oracle,
    fuel: nat,
)
    requires
        open_at(blocks, append_ops(cur, ops + seq![
            SOp::TruncI { result: t, operand: c },
            SOp::CondBr { cond: t, then_dest: t + 1, else_dest: t + 2 },
        ])),
        run_straight(ops, vals, out, o) is Some,
        run_straight(ops, vals, out, o)->Some_0.0.contains_key(c),
    ensures
        ({
            let (vals1, out1) = run_straight(ops, vals, out, o)->Some_0;
            let bit = vals1[c] % 2;
            resume(blocks, cur.id, cur.ops.len() as int, vals, out, o, fuel + 1)
                == resume(blocks, if bit != 0 { t + 1 } else { t + 2 }, 0, vals1.insert(t, bit), out1, o, fuel)
        }),
{
    let (vals1, out1) = run_straight(ops, vals, out, o)->Some_0;
    let bit = vals1[c] % 2;
    let vals2 = vals1.insert(t, bit);
    let tail = seq![
        SOp::TruncI { result: t, operand: c },
        SOp::CondBr { cond: t, then_dest: t + 1, else_dest: t + 2 },
    ];
    lemma_block_after(blocks, cur, ops + tail);
    let b = find_block(blocks, cur.id)->Some_0;
    let k = cur.ops.len() as int;
    let rest = b.ops.skip((cur.ops.len() + (ops + tail).len()) as int);
    assert(b.ops.skip(k) =~= ops + (tail + rest));
    lemma_run_ops_straight(ops, tail + rest, blocks, vals, out, o, fuel + 1);
    let tr = tail + rest;
    assert(tr[0] == tail[0]);
    assert(step_op(tail[0], vals1, out1, o) == Some((vals2, out1)));
    assert(tr.skip(1) =~= seq![tail[1]] + rest);
    assert(run_ops(tr, blocks, vals1, out1, o, fuel + 1) == run_ops(tr.skip(1), blocks, vals2, out1, o, fuel + 1));
    let tr2 = seq![tail[1]] + rest;
    assert(tr2[0] == tail[1]);
    assert(vals2.contains_key(t) && vals2[t] == bit);
    let dest = if bit != 0 { t + 1 } else { t + 2 };
    assert(run_ops(tr2, blocks, vals2, out1, o, fuel + 1) == run_block(dest, blocks, vals2, out1, o, fuel));
    lemma_run_block_resume(blocks, dest, vals2, out1, o, fuel);
}

/// The `if` case of `lemma_stmt_sim`.
#[verifier::rlimit(100)]
#[verifier::spinoff_prover]
pub proof fn lemma_if_sim(
    env: GenEnv,
    g: GenState,
    cur: SBlock,
    s: Stmt,
    vars: Vars,
    st: Store,
    vals: Vals,
    out: Seq<int>,
    o: Oracle,
    blocks: Seq<SBlock>,
) -> (r: (nat, Vals))
    requires
        s is If,
        env.branches,
        tr_stmt(env, g, cur, s, vars) is Ok,
        exec_stmt(env.fn_returns, env.branches, o, s, st, out) is Some,
        related(vars, st, vals),
        ids_below(vars, g.next),
        keys_below(vals, g.next),
        placed(blocks, tr_stmt(env, g, cur, s, vars)->Ok_0.0.pending),
        open_at(blocks, tr_stmt(env, g, cur, s, vars)->Ok_0.1),
    ensures
        ({
            let (g1, cur1, vars1, ctl) = tr_stmt(env, g, cur, s, vars)->Ok_0;
            let outcome = exec_stmt(env.fn_returns, env.branches, o, s, st, out)->Some_0;
            let next_id = match ctl {
                Control::Branch(m) => m,
                _ => cur1.id,
            };
            let next_k = match ctl {
                Control::Branch(_) => 0,
                _ => cur1.ops.len() as int,
            };
            &&& (outcome is Normal ==> !(ctl is Terminated))
            &&& simulates(blocks, cur.id, cur.ops.len() as int, vals, out, o, r.0, outcome, next_id, next_k, vars1, r.1, g1.next)
        }),
    decreases s, 0nat,
{
    let (gf, cur1, vars1, ctl) = tr_stmt(env, g, cur, s, vars)->Ok_0;
    let outcome = exec_stmt(env.fn_returns, env.branches, o, s, st, out)->Some_0;
    let k = cur.ops.len() as int;
    match s {
        Stmt::If { test, cons, alt } => {
            law_expr_correct(env, g, test, vars, st, vals, out, o);
            lemma_expr_state(env, g, test, vars);
            let (g1, ops, c) = tr_expr(env, g, test, vars)->Ok_0;
            let (cv, out1) = eval_expr(env.fn_returns, o, test, st, out)->Some_0;
            let (vals1, _) = run_straight(ops, vals, out, o)->Some_0;
            let t = g1.next;
            let bit = cv % 2;
            let vals2 = vals1.insert(t, bit);
            lemma_insert_fresh(vals1, t, bit, t, t + 4);
            lemma_submap_trans(vals, vals1, vals2);
            lemma_related_extend(vars, st, vals, vals2, g.next, t + 4);
            let tail = seq![
                SOp::TruncI { result: t, operand: c },
                SOp::CondBr { cond: t, then_dest: t + 1, else_dest: t + 2 },
            ];
            assert(cur1 == append_ops(cur, ops + tail));
            let gb = bump(g1, 4);
            lemma_grow_into(env, gb, t + 1, *cons, vars, t + 3);
            let (g2, then_term) = tr_into_block(env, gb, t + 1, *cons, vars, t + 3)->Ok_0;
            // the final pending blocks start with those after the `then` branch
            let else_info: (GenState, bool) = match alt {
                Some(a) => {
                    lemma_grow_into(env, g2, t + 2, *a, vars, t + 3);
                    tr_into_block(env, g2, t + 2, *a, vars, t + 3)->Ok_0
                },
                None => (g2, false),
            };
            assert(gf.pending.len() >= g2.pending.len() && gf.pending.take(g2.pending.len() as int) == g2.pending) by {
                match alt {
                    Some(a) => {},
                    None => {
                        let eb = SBlock { id: t + 2, args: seq![], ops: seq![SOp::Br { dest: t + 3 }] };
                        assert(gf.pending == g2.pending.push(eb));
                        assert(g2.pending.push(eb).take(g2.pending.len() as int) =~= g2.pending);
                    },
                }
            }
            lemma_placed_prefix(blocks, gf.pending, g2.pending);
            // running the condition and the conditional branch
            assert forall|fuel: nat| #[trigger] resume(blocks, cur.id, k, vals, out, o, fuel + 1)
                == resume(blocks, if bit != 0 { t + 1 } else { t + 2 }, 0, vals2, out1, o, fuel) by {
                lemma_resume_cond(blocks, cur, ops, t, c, vals, out, o, fuel);
            }
            if bit != 0 {
                let rb = lemma_into_sim(env, gb, t + 1, *cons, vars, t + 3, st, vals2, out1, o, blocks);
                let ob = exec_body(env.fn_returns, env.branches, o, *cons, st, out1)->Some_0;
                match ob {
                    Outcome::Returned(vs, out3) => {
                        assert forall|fuel: nat| #[trigger] resume_after(blocks, cur.id, k, vals, out, o, fuel, rb.0 + 1) == Run::Ret(vs, out3) by {
                            assert(resume_after(blocks, t + 1, 0, vals2, out1, o, fuel, rb.0) == Run::Ret(vs, out3));
                            assert(resume(blocks, cur.id, k, vals, out, o, (fuel + rb.0) as nat + 1) == resume(blocks, t + 1, 0, vals2, out1, o, (fuel + rb.0) as nat));
                            assert(fuel + (rb.0 + 1) == (fuel + rb.0) as nat + 1);
                        }
                        ((rb.0 + 1) as nat, vals2)
                    },
                    Outcome::Normal(_, out3) => {
                        let vt = rb.1;
                        lemma_submap_trans(vals, vals2, vt);
                        lemma_related_extend(vars, st, vals, vt, g.next, gf.next);
                        lemma_keys_below_mono(vt, g2.next, gf.next);
                        assert forall|fuel: nat| #[trigger] resume_after(blocks, cur.id, k, vals, out, o, fuel, rb.0 + 1) == resume(blocks, t + 3, 0, vt, out3, o, fuel) by {
                            assert(resume_after(blocks, t + 1, 0, vals2, out1, o, fuel, rb.0) == resume(blocks, t + 3, 0, vt, out3, o, fuel));
                            assert(resume(blocks, cur.id, k, vals, out, o, (fuel + rb.0) as nat + 1) == resume(blocks, t + 1, 0, vals2, out1, o, (fuel + rb.0) as nat));
                            assert(fuel + (rb.0 + 1) == (fuel + rb.0) as nat + 1);
                        }
                        ((rb.0 + 1) as nat, vt)
                    },
                }
            } else {
                match alt {
                    Some(a) => {
                        lemma_keys_below_mono(vals2, t + 4, g2.next);
                        let ra = lemma_into_sim(env, g2, t + 2, *a, vars, t + 3, st, vals2, out1, o, blocks);
                        let ob = exec_body(env.fn_returns, env.branches, o, *a, st, out1)->Some_0;
                        match ob {
                            Outcome::Returned(vs, out3) => {
                                assert forall|fuel: nat| #[trigger] resume_after(blocks, cur.id, k, vals, out, o, fuel, ra.0 + 1) == Run::Ret(vs, out3) by {
                                    assert(resume_after(blocks, t + 2, 0, vals2, out1, o, fuel, ra.0) == Run::Ret(vs, out3));
                                    assert(resume(blocks, cur.id, k, vals, out, o, (fuel + ra.0) as nat + 1) == resume(blocks, t + 2, 0, vals2, out1, o, (fuel + ra.0) as nat));
                                    assert(fuel + (ra.0 + 1) == (fuel + ra.0) as nat + 1);
                                }
                                ((ra.0 + 1) as nat, vals2)
                            },
                            Outcome::Normal(_, out3) => {
                                let vt = ra.1;
                                lemma_submap_trans(vals, vals2, vt);
                                lemma_related_extend(vars, st, vals, vt, g.next, gf.next);
                                assert forall|fuel: nat| #[trigger] resume_after(blocks, cur.id, k, vals, out, o, fuel, ra.0 + 1) == resume(blocks, t + 3, 0, vt, out3, o, fuel) by {
                                    assert(resume_after(blocks, t + 2, 0, vals2, out1, o, fuel, ra.0) == resume(blocks, t + 3, 0, vt, out3, o, fuel));
                                    assert(resume(blocks, cur.id, k, vals, out, o, (fuel + ra.0) as nat + 1) == resume(blocks, t + 2, 0, vals2, out1, o, (fuel + ra.0) as nat));
                                    assert(fuel + (ra.0 + 1) == (fuel + ra.0) as nat + 1);
                                }
                                ((ra.0 + 1) as nat, vt)
                            },
                        }
                    },
                    None => {
                        let eb = SBlock { id: t + 2, args: seq![], ops: seq![SOp::Br { dest: t + 3 }] };
                        assert(gf.pending.last() == eb);
                        assert(find_block(blocks, eb.id) == Some(eb)) by {
                            assert(gf.pending[gf.pending.len() - 1] == eb);
                        }
                        lemma_keys_below_mono(vals2, t + 4, gf.next);
                        lemma_related_extend(vars, st, vals, vals2, g.next, gf.next);
                        assert forall|fuel: nat| #[trigger] resume_after(blocks, cur.id, k, vals, out, o, fuel, 2) == resume(blocks, t + 3, 0, vals2, out1, o, fuel) by {
                            assert(resume(blocks, cur.id, k, vals, out, o, (fuel + 1) as nat + 1) == resume(blocks, t + 2, 0, vals2, out1, o, (fuel + 1) as nat));
                            assert(eb.ops.skip(0) =~= eb.ops);
                            lemma_run_block_resume(blocks, t + 3, vals2, out1, o, fuel);
                            assert(fuel + 2 == (fuel + 1) as nat + 1);
                        }
                        (2, vals2)
                    },
                }
            }
        },
        _ => (0, vals),
    }
}

/// Both parts of placed joined blocks are placed.
pub proof fn lemma_placed_split(blocks: Seq<SBlock>, a: Seq<SBlock>, b: Seq<SBlock>)
    requires
        placed(blocks, a + b),
    ensures
        placed(blocks, a),
        placed(blocks, b),
{
    assert forall|i: int| 0 <= i < a.len() implies find_block(blocks, (#[trigger] a[i]).id) == Some(a[i]) by {
        assert((a + b)[i] == a[i]);
    }
    assert forall|i: int| 0 <= i < b.len() implies find_block(blocks, (#[trigger] b[i]).id) == Some(b[i]) by {
        assert((a + b)[a.len() + i] == b[i]);
    }
}

/// One statement of a sequence, as `lemma_stmt_sim` states it.
pub proof fn lemma_step_sim(
    env: GenEnv,
    g: GenState,
    chain: Seq<SBlock>,
    cur: SBlock,
    s: Stmt,
    vars: Vars,
    st: Store,
    vals: Vals,
    out: Seq<int>,
    o: Oracle,
    blocks: Seq<SBlock>,
) -> (r: (nat, Vals))
    requires
        tr_step(env, g, chain, cur, s, vars) is Ok,
        exec_stmt(env.fn_returns, env.branches, o, s, st, out) is Some,
        related(vars, st, vals),
        ids_below(vars, g.next),
        keys_below(vals, g.next),
        placed(blocks, tr_step(env, g, chain, cur, s, vars)->Ok_0.1),
        placed(blocks, tr_step(env, g, chain, cur, s, vars)->Ok_0.0.pending),
        open_at(blocks, tr_step(env, g, chain, cur, s, vars)->Ok_0.2),
    ensures
        ({
            let (g1, chain1, cur1, vars1, term) = tr_step(env, g, chain, cur, s, vars)->Ok_0;
            let outcome = exec_stmt(env.fn_returns, env.branches, o, s, st, out)->Some_0;
            &&& (outcome is Normal ==> !term)
            &&& simulates(blocks, cur.id, cur.ops.len() as int, vals, out, o, r.0, outcome, cur1.id, cur1.ops.len() as int, vars1, r.1, g1.next)
        }),
    decreases s, 2nat,
{
    let (g1, c1, v1, ctl) = tr_stmt(env, g, cur, s, vars)->Ok_0;
    match ctl {
        Control::Branch(m) => {
            let chain1 = chain.push(c1);
            assert(chain1[chain.len() as int] == c1);
            lemma_open_placed(blocks, chain1, chain.len() as int);
        },
        _ => {},
    }
    lemma_stmt_sim(env, g, cur, s, vars, st, vals, out, o, blocks)
}

/// Statements, as `lemma_stmt_sim` states it for one.
pub proof fn lemma_stmts_sim(
    env: GenEnv,
    g: GenState,
    chain: Seq<SBlock>,
    cur: SBlock,
    ss: Seq<Stmt>,
    vars: Vars,
    st: Store,
    vals: Vals,
    out: Seq<int>,
    o: Oracle,
    blocks: Seq<SBlock>,
) -> (r: (nat, Vals))
    requires
        tr_stmts(env, g, chain, cur, ss, vars) is Ok,
        exec_stmts(env.fn_returns, env.branches, o, ss, st, out) is Some,
        related(vars, st, vals),
        ids_below(vars, g.next),
        keys_below(vals, g.next),
        placed(blocks, tr_stmts(env, g, chain, cur, ss, vars)->Ok_0.1),
        placed(blocks, tr_stmts(env, g, chain, cur, ss, vars)->Ok_0.0.pending),
        open_at(blocks, tr_stmts(env, g, chain, cur, ss, vars)->Ok_0.2),
    ensures
        ({
            let (g1, chain1, cur1, vars1, term) = tr_stmts(env, g, chain, cur, ss, vars)->Ok_0;
            let outcome = exec_stmts(env.fn_returns, env.branches, o, ss, st, out)->Some_0;
            &&& (outcome is Normal ==> !term)
            &&& simulates(blocks, cur.id, cur.ops.len() as int, vals, out, o, r.0, outcome, cur1.id, cur1.ops.len() as int, vars1, r.1, g1.next)
        }),
    decreases ss, 0nat,
{
    let k = cur.ops.len() as int;
    if ss.len() == 0 {
        assert(vals.submap_of(vals));
        assert forall|fuel: nat| #[trigger] resume_after(blocks, cur.id, k, vals, out, o, fuel, 0) == resume(blocks, cur.id, k, vals, out, o, fuel) by {}
        (0, vals)
    } else {
        let (ga, chain_a, cur_a, vars_a, term_a) = tr_step(env, g, chain, cur, ss[0], vars)->Ok_0;
        let (g1, chain1, cur1, vars1, term) = tr_stmts(env, g, chain, cur, ss, vars)->Ok_0;
        let oa = exec_stmt(env.fn_returns, env.branches, o, ss[0], st, out)->Some_0;
        if term_a {
            lemma_step_sim(env, g, chain, cur, ss[0], vars, st, vals, out, o, blocks)
        } else {
            let rest = ss.skip(1);
            lemma_grow_stmts(env, ga, chain_a, cur_a, rest, vars_a);
            // the blocks of the step's result are where the final ones put them
            lemma_placed_prefix(blocks, chain1, chain_a);
            lemma_placed_prefix(blocks, g1.pending, ga.pending);
            assert(open_at(blocks, cur_a)) by {
                let l1 = chain1.push(cur1);
                if chain_a.len() < chain1.len() {
                    assert(l1[chain_a.len() as int] == chain1[chain_a.len() as int]);
                    lemma_open_placed(blocks, chain1, chain_a.len() as int);
                    let b = find_block(blocks, cur_a.id)->Some_0;
                    assert(b == chain1[chain_a.len() as int]);
                } else {
                    assert(l1[chain_a.len() as int] == cur1);
                    let b = find_block(blocks, cur1.id)->Some_0;
                    lemma_extends_trans(b, cur1, cur_a);
                }
            }
            let r1 = lemma_step_sim(env, g, chain, cur, ss[0], vars, st, vals, out, o, blocks);
            match oa {
                Outcome::Returned(vs, out1) => r1,
                Outcome::Normal(sta, outa) => {
                    let va = r1.1;
                    let r2 = lemma_stmts_sim(env, ga, chain_a, cur_a, rest, vars_a, sta, va, outa, o, blocks);
                    let ka = cur_a.ops.len() as int;
                    let k1 = cur1.ops.len() as int;
                    let j = (r1.0 + r2.0) as nat;
                    let orest = exec_stmts(env.fn_returns, env.branches, o, rest, sta, outa)->Some_0;
                    match orest {
                        Outcome::Returned(vs, out2) => {
                            assert forall|fuel: nat| #[trigger] resume_after(blocks, cur.id, k, vals, out, o, fuel, j) == Run::Ret(vs, out2) by {
                                assert(resume_after(blocks, cur_a.id, ka, va, outa, o, fuel, r2.0) == Run::Ret(vs, out2));
                                assert(resume_after(blocks, cur.id, k, vals, out, o, (fuel + r2.0) as nat, r1.0) == resume(blocks, cur_a.id, ka, va, outa, o, (fuel + r2.0) as nat));
                            }
                        },
                        Outcome::Normal(st2, out2) => {
                            lemma_submap_trans(vals, va, r2.1);
                            assert forall|fuel: nat| #[trigger] resume_after(blocks, cur.id, k, vals, out, o, fuel, j) == resume(blocks, cur1.id, k1, r2.1, out2, o, fuel) by {
                                assert(resume_after(blocks, cur_a.id, ka, va, outa, o, fuel, r2.0) == resume(blocks, cur1.id, k1, r2.1, out2, o, fuel));
                                assert(resume_after(blocks, cur.id, k, vals, out, o, (fuel + r2.0) as nat, r1.0) == resume(blocks, cur_a.id, ka, va, outa, o, (fuel + r2.0) as nat));
                            }
                        },
                    }
                    (j, r2.1)
                },
            }
        }
    }
}

/// A branch of an `if`: the code from its first block does what the branch
/// does; where the branch ends normally, it jumps to `merge`.
pub proof fn lemma_into_sim(
    env: GenEnv,
    g: GenState,
    start: int,
    body: Stmt,
    vars: Vars,
    merge: int,
    st: Store,
    vals: Vals,
    out: Seq<int>,
    o: Oracle,
    blocks: Seq<SBlock>,
) -> (r: (nat, Vals))
    requires
        tr_into_block(env, g, start, body, vars, merge) is Ok,
        exec_body(env.fn_returns, env.branches, o, body, st, out) is Some,
        related(vars, st, vals),
        ids_below(vars, g.next),
        keys_below(vals, g.next),
        placed(blocks, tr_into_block(env, g, start, body, vars, merge)->Ok_0.0.pending),
    ensures
        ({
            let (g1, term) = tr_into_block(env, g, start, body, vars, merge)->Ok_0;
            let outcome = exec_body(env.fn_returns, env.branches, o, body, st, out)->Some_0;
            &&& (outcome is Normal ==> !term)
            &&& match outcome {
                Outcome::Returned(vs, out1) => forall|fuel: nat| #[trigger] resume_after(blocks, start, 0, vals, out, o, fuel, r.0) == Run::Ret(vs, out1),
                Outcome::Normal(_, out1) => {
                    &&& keys_below(r.1, g1.next)
                    &&& vals.submap_of(r.1)
                    &&& forall|fuel: nat| #[trigger] resume_after(blocks, start, 0, vals, out, o, fuel, r.0) == resume(blocks, merge, 0, r.1, out1, o, fuel)
                },
            }
        }),
    decreases body, 3nat,
{
    let e0 = empty_block(start);
    let rr = match body {
        Stmt::Block(ss) => tr_stmts(env, g, seq![], e0, ss@, vars),
        _ => tr_step(env, g, seq![], e0, body, vars),
    };
    let (g2, chain2, cur2, vars2, term2) = rr->Ok_0;
    let last = if term2 { cur2 } else { append_ops(cur2, seq![SOp::Br { dest: merge }]) };
    let (g1, term) = tr_into_block(env, g, start, body, vars, merge)->Ok_0;
    assert(g1.pending == g2.pending + chain2.push(last));
    lemma_placed_split(blocks, g2.pending, chain2.push(last));
    assert(chain2.push(last).take(chain2.len() as int) =~= chain2);
    lemma_placed_prefix(blocks, chain2.push(last), chain2);
    assert(find_block(blocks, last.id) == Some(last)) by {
        assert(chain2.push(last)[chain2.len() as int] == last);
    }
    assert(open_at(blocks, cur2)) by {
        if term2 {
            lemma_extends_refl(cur2);
        } else {
            assert((cur2.ops + seq![SOp::Br { dest: merge }]).take(cur2.ops.len() as int) =~= cur2.ops);
        }
    }
    let r1 = match body {
        Stmt::Block(ss) => lemma_stmts_sim(env, g, seq![], e0, ss@, vars, st, vals, out, o, blocks),
        _ => lemma_step_sim(env, g, seq![], e0, body, vars, st, vals, out, o, blocks),
    };
    let outcome = exec_body(env.fn_returns, env.branches, o, body, st, out)->Some_0;
    match outcome {
        Outcome::Returned(vs, out1) => r1,
        Outcome::Normal(_, out1) => {
            assert(!term2);
            assert(open_at(blocks, append_ops(cur2, seq![SOp::Br { dest: merge }]))) by {
                lemma_extends_refl(last);
            }
            let k2 = cur2.ops.len() as int;
            assert forall|fuel: nat| #[trigger] resume_after(blocks, start, 0, vals, out, o, fuel, r1.0 + 1) == resume(blocks, merge, 0, r1.1, out1, o, fuel) by {
                assert(resume_after(blocks, start, 0, vals, out, o, fuel + 1, r1.0) == resume(blocks, cur2.id, k2, r1.1, out1, o, fuel + 1));
                lemma_resume_br(blocks, cur2, merge, r1.1, out1, o, fuel);
                assert(fuel + (r1.0 + 1) == (fuel + 1) + r1.0);
            }
            ((r1.0 + 1) as nat, r1.1)
        },
    }
}

/// The statements of a function's body.
pub open spec fn body_of(f: FnDecl) -> Seq<Stmt> {
    match f.body {
        Some(b) => b@,
        None => seq![],
    }
}

/// What a call of a function gives back: the values returned and the
/// output, where the body returns; none and the output, where it ends.
pub open spec fn call_result(outcome: Outcome) -> (Seq<int>, Seq<int>) {
    match outcome {
        Outcome::Returned(vs, out) => (vs, out),
        Outcome::Normal(_, out) => (seq![], out),
    }
}

/// What `main` gives back: the values returned and the output, where the
/// top-level statements return; 0 and the output, where they end.
pub open spec fn main_result(outcome: Outcome) -> (Seq<int>, Seq<int>) {
    match outcome {
        Outcome::Returned(vs, out) => (vs, out),
        Outcome::Normal(_, out) => (seq![0], out),
    }
}

/// The arguments of a function's entry block hold the argument values.
pub proof fn lemma_arg_vals(n: nat, first: int, args: Seq<int>)
    requires
        args.len() == n,
    ensures
        keys_below(arg_vals(i64_args(n, first), args), first + n),
        forall|i: int| 0 <= i < n ==> arg_vals(i64_args(n, first), args).contains_key(#[trigger] (first + i))
            && arg_vals(i64_args(n, first), args)[first + i] == args[i],
{
    let ba = i64_args(n, first);
    let m = arg_vals(ba, args);
    assert forall|id: int| #[trigger] m.contains_key(id) implies id < first + n by {
        let i = choose|i: int| 0 <= i < args.len() && ba[i].0 == id;
        assert(ba[i].0 == first + i);
    }
    assert forall|i: int| 0 <= i < n implies m.contains_key(#[trigger] (first + i)) && m[first + i] == args[i] by {
        assert(ba[i].0 == first + i);
        let j = choose|j: int| 0 <= j < args.len() && ba[j].0 == first + i;
        assert(ba[j].0 == first + j);
    }
}

/// The parameters' bindings to block arguments and to argument values are
/// related.
pub proof fn lemma_params_related(params: Seq<crate::ast::Param>, args: Seq<int>, first: int, vals: Vals)
    requires
        args.len() >= params.len(),
        forall|i: int| 0 <= i < params.len() ==> vals.contains_key(#[trigger] (first + i)) && vals[first + i] == args[i],
    ensures
        related(param_vars(params, first), param_store(params, args), vals),
        ids_below(param_vars(params, first), first + params.len()),
    decreases params.len(),
{
    if params.len() > 0 {
        let p0 = params.drop_last();
        assert forall|i: int| 0 <= i < p0.len() implies vals.contains_key(#[trigger] (first + i)) && vals[first + i] == args[i] by {
            assert(vals.contains_key(first + i));
        }
        lemma_params_related(p0, args, first, vals);
        let i = params.len() - 1;
        assert(vals.contains_key(first + i));
        match params.last().name {
            Some(name) => {
                lemma_related_push(param_vars(p0, first), param_store(p0, args), vals, name@, first + params.len() - 1, args[params.len() - 1]);
                let pv = param_vars(params, first);
                assert forall|j: int| 0 <= j < pv.len() implies #[trigger] pv[j].1 < first + params.len() by {
                    if j < param_vars(p0, first).len() {
                        assert(pv[j] == param_vars(p0, first)[j]);
                    }
                }
            },
            None => {},
        }
    }
}

/// The blocks of a compiled body have distinct ids, so each is found under
/// its id; the chain's first block is the entry.
pub proof fn lemma_body_blocks(g: GenState, start: SBlock, g1: GenState, chain: Seq<SBlock>, cur: SBlock, last: SBlock)
    requires
        g.pending.len() == 0,
        start.id < g.next,
        grown(g, seq![], start, g1, chain, cur),
        last.id == cur.id,
        extends_block(last, cur),
    ensures
        placed(chain.push(last) + g1.pending, chain.push(last) + g1.pending),
        placed(chain.push(last) + g1.pending, chain),
        placed(chain.push(last) + g1.pending, g1.pending),
        find_block(chain.push(last) + g1.pending, cur.id) == Some(last),
        (chain.push(last) + g1.pending)[0].id == start.id,
        (chain.push(last) + g1.pending)[0].args == start.args,
{
    let blocks = chain.push(last) + g1.pending;
    let l1 = chain.push(cur);
    let added = block_ids(l1.skip(1));
    let fin = block_ids(g1.pending.skip(0));
    assert(g1.pending.skip(0) =~= g1.pending);
    assert(block_ids(chain.push(last)) =~= block_ids(l1));
    assert(block_ids(l1) =~= seq![start.id] + added) by {
        assert(l1[0].id == start.id);
    }
    crate::blocks::lemma_block_ids_concat(chain.push(last), g1.pending);
    let ids = block_ids(blocks);
    assert(ids =~= seq![start.id] + (added + fin));
    vstd::seq_lib::lemma_no_dup_in_concat(added, fin);
    assert forall|i: int, j: int| 0 <= i < ids.len() && 0 <= j < ids.len() && i != j implies ids[i] != ids[j] by {
        let af = added + fin;
        if i == 0 {
            assert(ids[j] == af[j - 1]);
            if j - 1 < added.len() {
                assert(af[j - 1] == added[j - 1]);
            } else {
                assert(af[j - 1] == fin[j - 1 - added.len()]);
            }
        } else if j == 0 {
            assert(ids[i] == af[i - 1]);
            if i - 1 < added.len() {
                assert(af[i - 1] == added[i - 1]);
            } else {
                assert(af[i - 1] == fin[i - 1 - added.len()]);
            }
        } else {
            assert(ids[i] == af[i - 1]);
            assert(ids[j] == af[j - 1]);
        }
    }
    lemma_placed_distinct(blocks);
    lemma_placed_split(blocks, chain.push(last), g1.pending);
    assert(chain.push(last).take(chain.len() as int) =~= chain);
    lemma_placed_prefix(blocks, chain.push(last), chain);
    assert(chain.push(last)[chain.len() as int] == last);
    if chain.len() > 0 {
        assert(blocks[0] == chain[0]);
        assert(l1[0] == chain[0]);
    } else {
        assert(blocks[0] == last);
        assert(l1[0] == cur);
    }
}

/// Law: where a function declaration compiles (from a state with no
/// finished block left over) and its body's meaning is defined on the
/// argument values, the function that the generator emits for it, run on
/// those values with the same answers to the calls it makes, returns what
/// the body returns (nothing where it ends without `return`) and prints
/// what it prints.
pub proof fn law_function_correct(env: GenEnv, g: GenState, f: FnDecl, args: Seq<int>, o: Oracle) -> (fuel0: nat)
    requires
        g.pending.len() == 0,
        tr_function(env, g, f) is Ok,
        args.len() == f.params@.len(),
        exec_stmts(env.fn_returns, env.branches, o, body_of(f), param_store(f.params@, args), seq![]) is Some,
    ensures
        tr_function(env, g, f)->Ok_0.module.last() is Func,
        forall|fuel: nat| fuel0 <= fuel ==> #[trigger] run_function(
            tr_function(env, g, f)->Ok_0.module.last()->Func_0,
            args,
            o,
            fuel,
        ) == Run::Ret(
            call_result(exec_stmts(env.fn_returns, env.branches, o, body_of(f), param_store(f.params@, args), seq![])->Some_0).0,
            call_result(exec_stmts(env.fn_returns, env.branches, o, body_of(f), param_store(f.params@, args), seq![])->Some_0).1,
        ),
{
    let n = f.params@.len();
    let entry = g.next;
    let gs = bump(g, n + 1 as int);
    let start = SBlock { id: entry, args: i64_args(n, entry + 1), ops: seq![] };
    let vars0 = param_vars(f.params@, entry + 1);
    let body = body_of(f);
    let store0 = param_store(f.params@, args);
    let (g1, chain, cur, vars1, term) = tr_stmts(env, gs, seq![], start, body, vars0)->Ok_0;
    let is_void = returns_void(f.return_type);
    let last = if term { cur } else { append_ops(cur, seq![SOp::Return { operands: seq![] }]) };
    let blocks = finish_blocks(g1, chain, cur, term, seq![SOp::Return { operands: seq![] }]);
    assert(blocks == chain.push(last) + g1.pending);
    lemma_grow_stmts(env, gs, seq![], start, body, vars0);
    assert(extends_block(last, cur)) by {
        if term {
            lemma_extends_refl(cur);
        } else {
            crate::blocks::lemma_extends_append(cur, seq![SOp::Return { operands: seq![] }]);
        }
    }
    lemma_body_blocks(gs, start, g1, chain, cur, last);
    let func = tr_function(env, g, f)->Ok_0.module.last()->Func_0;
    assert(func.blocks == blocks);
    let vals0 = arg_vals(i64_args(n, entry + 1), args);
    lemma_arg_vals(n, entry + 1, args);
    lemma_params_related(f.params@, args, entry + 1, vals0);
    assert(open_at(blocks, cur)) by {
        lemma_extends_refl(last);
    }
    let r = lemma_stmts_sim(env, gs, seq![], start, body, vars0, store0, vals0, seq![], o, blocks);
    let outcome = exec_stmts(env.fn_returns, env.branches, o, body, store0, seq![])->Some_0;
    let (vs, out) = call_result(outcome);
    assert(blocks[0].args.len() == args.len());
    assert forall|fuel: nat| r.0 <= fuel implies #[trigger] run_function(func, args, o, fuel) == Run::Ret(vs, out) by {
        let f0 = (fuel - r.0) as nat;
        assert(find_block(blocks, entry) == Some(blocks[0])) by {
            assert(find_block(blocks, blocks[0].id) == Some(blocks[0]));
        }
        assert(blocks[0].ops.skip(0) =~= blocks[0].ops);
        assert(run_function(func, args, o, fuel) == resume(blocks, entry, 0, vals0, seq![], o, fuel));
        assert(resume_after(blocks, entry, 0, vals0, seq![], o, f0, r.0) == resume(blocks, entry, 0, vals0, seq![], o, fuel));
        match outcome {
            Outcome::Returned(_, _) => {},
            Outcome::Normal(_, out1) => {
                assert(!term);
                lemma_extends_refl(last);
                assert(values_of(Seq::<int>::empty(), r.1) == Some(Seq::<int>::empty()));
                lemma_resume_return(blocks, cur, seq![], r.1, out1, o, f0);
            },
        }
    }
    r.0
}

/// Law: where the top-level statements compile into `main` (from a state
/// with no finished block left over) and their meaning is defined, running
/// `main`, with the same answers to the calls it makes, prints what they
/// print and returns what they return, or 0 where they end.
pub proof fn law_main_correct(env: GenEnv, g: GenState, ss: Seq<Stmt>, o: Oracle) -> (fuel0: nat)
    requires
        g.pending.len() == 0,
        tr_main(env, g, ss) is Ok,
        exec_stmts(env.fn_returns, env.branches, o, ss, seq![], seq![]) is Some,
    ensures
        tr_main(env, g, ss)->Ok_0.module.last() is Func,
        forall|fuel: nat| fuel0 <= fuel ==> #[trigger] run_function(
            tr_main(env, g, ss)->Ok_0.module.last()->Func_0,
            seq![],
            o,
            fuel,
        ) == Run::Ret(
            main_result(exec_stmts(env.fn_returns, env.branches, o, ss, seq![], seq![])->Some_0).0,
            main_result(exec_stmts(env.fn_returns, env.branches, o, ss, seq![], seq![])->Some_0).1,
        ),
{
    let entry = g.next;
    let gs = bump(g, 1);
    let start = empty_block(entry);
    let (g1, chain, cur, vars1, term) = tr_stmts(env, gs, seq![], start, ss, seq![])->Ok_0;
    let z = g1.next;
    let zero = crate::codegen_spec::main_returns_zero(env, term);
    let g2 = if zero { bump(g1, 1) } else { g1 };
    let tail = seq![SOp::Constant { result: z, value: 0, ty: Ty::I32 }, SOp::Return { operands: seq![z] }];
    let last = if zero { append_ops(cur, tail) } else { cur };
    let blocks = finish_blocks(g2, chain, cur, !zero, tail);
    assert(g2.pending == g1.pending);
    assert(blocks == chain.push(last) + g1.pending);
    lemma_grow_stmts(env, gs, seq![], start, ss, seq![]);
    assert(extends_block(last, cur)) by {
        if !zero {
            lemma_extends_refl(cur);
        } else {
            crate::blocks::lemma_extends_append(cur, tail);
        }
    }
    lemma_body_blocks(gs, start, g1, chain, cur, last);
    let func = tr_main(env, g, ss)->Ok_0.module.last()->Func_0;
    assert(func.blocks == blocks);
    let no_args: Seq<(int, Ty)> = seq![];
    let vals0 = arg_vals(no_args, seq![]);
    assert(keys_below(vals0, gs.next)) by {
        assert forall|id: int| #[trigger] vals0.contains_key(id) implies id < gs.next by {
            let i = choose|i: int| 0 <= i < 0 && no_args[i].0 == id;
        }
    }
    assert(related(seq![], seq![], vals0));
    assert(ids_below(seq![], gs.next));
    assert(open_at(blocks, cur)) by {
        lemma_extends_refl(last);
    }
    let r = lemma_stmts_sim(env, gs, seq![], start, ss, seq![], seq![], vals0, seq![], o, blocks);
    let outcome = exec_stmts(env.fn_returns, env.branches, o, ss, seq![], seq![])->Some_0;
    let (vs, out) = main_result(outcome);
    assert(blocks[0].args =~= no_args);
    assert forall|fuel: nat| r.0 <= fuel implies #[trigger] run_function(func, seq![], o, fuel) == Run::Ret(vs, out) by {
        let f0 = (fuel - r.0) as nat;
        assert(find_block(blocks, entry) == Some(blocks[0])) by {
            assert(find_block(blocks, blocks[0].id) == Some(blocks[0]));
        }
        assert(blocks[0].ops.skip(0) =~= blocks[0].ops);
        assert(run_function(func, seq![], o, fuel) == resume(blocks, entry, 0, vals0, seq![], o, fuel));
        assert(resume_after(blocks, entry, 0, vals0, seq![], o, f0, r.0) == resume(blocks, entry, 0, vals0, seq![], o, fuel));
        match outcome {
            Outcome::Returned(_, _) => {},
            Outcome::Normal(_, out1) => {
                assert(!term);
                let v1 = r.1;
                let v2 = v1.insert(z, 0);
                lemma_extends_refl(last);
                lemma_block_after(blocks, cur, tail);
                let b = find_block(blocks, cur.id)->Some_0;
                let rest = b.ops.skip((cur.ops.len() + 2) as int);
                assert(b.ops.skip(cur.ops.len() as int) =~= seq![tail[0]] + (seq![tail[1]] + rest));
                assert(step_op(tail[0], v1, out1, o) == Some((v2, out1)));
                assert(seq![tail[0]].skip(1) =~= Seq::<SOp>::empty());
                assert(seq![tail[0]][0] == tail[0]);
                assert(run_straight(seq![tail[0]], v1, out1, o) == Some((v2, out1))) by {
                    reveal_with_fuel(run_straight, 2);
                }
                lemma_run_ops_straight(seq![tail[0]], seq![tail[1]] + rest, blocks, v1, out1, o, f0);
                assert((seq![tail[1]] + rest)[0] == tail[1]);
                lemma_values_of_one(z, v2);
            },
        }
    }
    r.0
}

/// A function leaves no finished block over and only adds to the module.
pub proof fn lemma_function_state(env: GenEnv, g: GenState, f: FnDecl)
    ensures
        tr_function(env, g, f) matches Ok(g1) ==> g1.pending.len() == 0 && module_grows(g, g1),
{
    let n = f.params@.len();
    let gs = bump(g, n + 1 as int);
    let start = SBlock { id: g.next, args: i64_args(n, g.next + 1), ops: seq![] };
    lemma_grow_stmts(env, gs, seq![], start, body_of(f), param_vars(f.params@, g.next + 1));
    match tr_function(env, g, f) {
        Ok(g2) => {
            let g1 = tr_stmts(env, gs, seq![], start, body_of(f), param_vars(f.params@, g.next + 1))->Ok_0.0;
            crate::blocks::lemma_module_grows_refl(g);
            assert(gs.module == g.module);
            assert(module_grows(g, gs));
            assert(g2.module == g1.module.push(g2.module.last()));
            assert(module_grows(g1, g2)) by {
                assert(g2.module.take(g1.module.len() as int) =~= g1.module);
            }
            lemma_module_grows_trans(g, gs, g1);
            lemma_module_grows_trans(g, g1, g2);
        },
        Err(_) => {},
    }
}

/// `main` only adds to the module.
pub proof fn lemma_main_state(env: GenEnv, g: GenState, ss: Seq<Stmt>)
    ensures
        tr_main(env, g, ss) matches Ok(g1) ==> module_grows(g, g1),
{
    let gs = bump(g, 1);
    lemma_grow_stmts(env, gs, seq![], empty_block(g.next), ss, seq![]);
    match tr_main(env, g, ss) {
        Ok(g2) => {
            let g1 = tr_stmts(env, gs, seq![], empty_block(g.next), ss, seq![])->Ok_0.0;
            crate::blocks::lemma_module_grows_refl(g);
            assert(gs.module == g.module);
            assert(module_grows(g, gs));
            assert(g2.module.take(g1.module.len() as int) =~= g1.module);
            lemma_module_grows_trans(g, gs, g1);
            lemma_module_grows_trans(g, g1, g2);
        },
        Err(_) => {},
    }
}

/// The functions of a module: each is compiled from a state with no
/// finished block over, and what it emits stays in the module.
pub proof fn lemma_functions_each(env: GenEnv, g: GenState, fs: Seq<FnDecl>, i: int) -> (gi: GenState)
    requires
        tr_functions(env, g, fs) is Ok,
        g.pending.len() == 0,
        0 <= i < fs.len(),
    ensures
        gi.pending.len() == 0,
        tr_function(env, gi, fs[i]) is Ok,
        module_grows(tr_function(env, gi, fs[i])->Ok_0, tr_functions(env, g, fs)->Ok_0),
    decreases fs.len(),
{
    lemma_function_state(env, g, fs[0]);
    let g1 = tr_function(env, g, fs[0])->Ok_0;
    lemma_functions_state(env, g1, fs.skip(1));
    if i == 0 {
        g
    } else {
        assert(fs.skip(1)[i - 1] == fs[i]);
        lemma_functions_each(env, g1, fs.skip(1), i - 1)
    }
}

/// The functions of a module leave no finished block over and only add to
/// the module.
pub proof fn lemma_functions_state(env: GenEnv, g: GenState, fs: Seq<FnDecl>)
    requires
        g.pending.len() == 0,
    ensures
        tr_functions(env, g, fs) matches Ok(g1) ==> g1.pending.len() == 0 && module_grows(g, g1),
    decreases fs.len(),
{
    crate::blocks::lemma_module_grows_refl(g);
    if fs.len() > 0 {
        lemma_function_state(env, g, fs[0]);
        match tr_function(env, g, fs[0]) {
            Ok(g1) => {
                lemma_functions_state(env, g1, fs.skip(1));
                match tr_functions(env, g1, fs.skip(1)) {
                    Ok(g2) => lemma_module_grows_trans(g, g1, g2),
                    Err(_) => {},
                }
            },
            Err(_) => {},
        }
    }
}

/// Law: where a module compiles (with or without `if` support) and its
/// top-level statements' meaning is defined, its last operation is `main`,
/// and running `main` with the same answers to the calls it makes prints
/// what the top-level statements print, and returns what they return, or 0
/// where they end.
pub proof fn law_module_main(items: Seq<ModuleItem>, branches: bool, o: Oracle) -> (fuel0: nat)
    requires
        tr_module(items, branches) is Ok,
        exec_stmts(fn_returns_of(items), branches, o, main_stmts(items), seq![], seq![]) is Some,
    ensures
        tr_module(items, branches)->Ok_0.last() is Func,
        tr_module(items, branches)->Ok_0.last()->Func_0.name == "main"@,
        forall|fuel: nat| fuel0 <= fuel ==> #[trigger] run_function(tr_module(items, branches)->Ok_0.last()->Func_0, seq![], o, fuel)
            == Run::Ret(
            main_result(exec_stmts(fn_returns_of(items), branches, o, main_stmts(items), seq![], seq![])->Some_0).0,
            main_result(exec_stmts(fn_returns_of(items), branches, o, main_stmts(items), seq![], seq![])->Some_0).1,
        ),
{
    let env = GenEnv { fn_returns: fn_returns_of(items), branches };
    let g0 = initial_state();
    lemma_functions_state(env, g0, module_functions(items));
    let g1 = tr_functions(env, g0, module_functions(items))->Ok_0;
    law_main_correct(env, g1, main_stmts(items), o)
}

/// Law: where a module compiles (with or without `if` support), each of its
/// top-level functions has a `func.func` of its name in the module which,
/// run on argument values where the function's body has a defined meaning,
/// with the same answers to the calls it makes, returns what the body
/// returns (nothing where it ends) and prints what it prints.
pub proof fn law_module_function(items: Seq<ModuleItem>, branches: bool, i: int, args: Seq<int>, o: Oracle) -> (r: (int, nat))
    requires
        tr_module(items, branches) is Ok,
        0 <= i < module_functions(items).len(),
        args.len() == module_functions(items)[i].params@.len(),
        exec_stmts(
            fn_returns_of(items),
            branches,
            o,
            body_of(module_functions(items)[i]),
            param_store(module_functions(items)[i].params@, args),
            seq![],
        ) is Some,
    ensures
        0 <= r.0 < tr_module(items, branches)->Ok_0.len(),
        tr_module(items, branches)->Ok_0[r.0] is Func,
        tr_module(items, branches)->Ok_0[r.0]->Func_0.name == module_functions(items)[i].name@,
        forall|fuel: nat| r.1 <= fuel ==> #[trigger] run_function(tr_module(items, branches)->Ok_0[r.0]->Func_0, args, o, fuel)
            == Run::Ret(
            call_result(exec_stmts(
                fn_returns_of(items),
                branches,
                o,
                body_of(module_functions(items)[i]),
                param_store(module_functions(items)[i].params@, args),
                seq![],
            )->Some_0).0,
            call_result(exec_stmts(
                fn_returns_of(items),
                branches,
                o,
                body_of(module_functions(items)[i]),
                param_store(module_functions(items)[i].params@, args),
                seq![],
            )->Some_0).1,
        ),
{
    let env = GenEnv { fn_returns: fn_returns_of(items), branches };
    let g0 = initial_state();
    let fs = module_functions(items);
    let f = fs[i];
    let gi = lemma_functions_each(env, g0, fs, i);
    let fuel0 = law_function_correct(env, gi, f, args, o);
    let gf = tr_function(env, gi, f)->Ok_0;
    lemma_functions_state(env, g0, fs);
    let g1 = tr_functions(env, g0, fs)->Ok_0;
    lemma_main_state(env, g1, main_stmts(items));
    let g2 = tr_main(env, g1, main_stmts(items))->Ok_0;
    lemma_module_grows_trans(gf, g1, g2);
    let j = gf.module.len() - 1;
    assert(g2.module[j] == gf.module[j]) by {
        assert(g2.module.take(gf.module.len() as int)[j] == g2.module[j]);
    }
    (j, fuel0)
}

/// Law: a module that compiles declares `printf` at most once and defines
/// its format string at most once, however many `console.log` calls it
/// makes.
pub proof fn law_declared_once(items: Seq<ModuleItem>, branches: bool)
    requires
        tr_module(items, branches) is Ok,
    ensures
        printf_decls(tr_module(items, branches)->Ok_0) <= 1,
        fmt_globals(tr_module(items, branches)->Ok_0) <= 1,
{
    let env = GenEnv { fn_returns: fn_returns_of(items), branches };
    let g0 = initial_state();
    assert(declared_once(g0));
    lemma_functions_state(env, g0, module_functions(items));
    let g1 = tr_functions(env, g0, module_functions(items))->Ok_0;
    lemma_main_state(env, g1, main_stmts(items));
}

} // verus!
