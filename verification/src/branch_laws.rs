//! Laws on `if` statements: a statement that returns on every path ends
//! its block, and the visitor's conditional branch leads to the code of the
//! branch that the condition selects.
use vstd::prelude::*;
use crate::ast::{Expr, FnDecl, Stmt};
use crate::codegen_spec::{
    GenEnv, GenState, Vars, bump, empty_block, i64_args, param_vars, tr_expr, tr_function, tr_into_block,
    tr_step, tr_stmt, tr_stmts, Control,
};
use crate::ir::{SBlock, SOp};
use crate::stmt_laws::body_of;
use crate::visit_laws::active;
use crate::visit_spec::{ControlContext, VEnv, VState, ids_exhausted, vx_branch, vx_if, vx_stmt, vx_value};

verus! {

/// Whether a statement returns on every path through it: a `return`, or an
/// `if` with an `else` whose two branches do.
pub open spec fn stmt_returns(s: Stmt) -> bool
    decreases s, 0nat,
{
    match s {
        Stmt::Return(_) => true,
        Stmt::If { test, cons, alt } => match alt {
            Some(a) => body_returns(*cons) && body_returns(*a),
            None => false,
        },
        _ => false,
    }
}

/// Whether the body of a branch returns on every path: a block holding a
/// statement that does, or such a statement.
pub open spec fn body_returns(b: Stmt) -> bool
    decreases b, 1nat,
{
    match b {
        Stmt::Block(ss) => stmts_return(ss@),
        _ => stmt_returns(b),
    }
}

/// Whether one of the statements returns on every path.
pub open spec fn stmts_return(ss: Seq<Stmt>) -> bool
    decreases ss, 2nat,
{
    if ss.len() == 0 {
        false
    } else {
        stmt_returns(ss[0]) || stmts_return(ss.skip(1))
    }
}

/// A statement that returns on every path ends its block.
proof fn lemma_stmt_term(env: GenEnv, g: GenState, cur: SBlock, s: Stmt, vars: Vars)
    requires
        env.branches,
        stmt_returns(s),
    ensures
        tr_stmt(env, g, cur, s, vars) matches Ok(out) ==> out.3 is Terminated,
    decreases s, 0nat,
{
    match s {
        Stmt::If { test, cons, alt } => {
            match tr_expr(env, g, test, vars) {
                Ok((g1, ops, c)) => {
                    let t = g1.next;
                    lemma_body_term(env, bump(g1, 4), t + 1, *cons, vars, t + 3);
                    match tr_into_block(env, bump(g1, 4), t + 1, *cons, vars, t + 3) {
                        Ok((g2, then_term)) => match alt {
                            Some(a) => lemma_body_term(env, g2, t + 2, *a, vars, t + 3),
                            None => {},
                        },
                        Err(_) => {},
                    }
                },
                Err(_) => {},
            }
        },
        _ => {},
    }
}

/// The body of a branch that returns on every path ends in a return.
proof fn lemma_body_term(env: GenEnv, g: GenState, start: int, body: Stmt, vars: Vars, merge: int)
    requires
        env.branches,
        body_returns(body),
    ensures
        tr_into_block(env, g, start, body, vars, merge) matches Ok(out) ==> out.1,
    decreases body, 1nat,
{
    match body {
        Stmt::Block(ss) => lemma_stmts_term(env, g, seq![], empty_block(start), ss@, vars),
        _ => lemma_stmt_term(env, g, empty_block(start), body, vars),
    }
}

/// Statements one of which returns on every path end their block.
proof fn lemma_stmts_term(env: GenEnv, g: GenState, chain: Seq<SBlock>, cur: SBlock, ss: Seq<Stmt>, vars: Vars)
    requires
        env.branches,
        stmts_return(ss),
    ensures
        tr_stmts(env, g, chain, cur, ss, vars) matches Ok(out) ==> out.4,
    decreases ss, 2nat,
{
    match tr_step(env, g, chain, cur, ss[0], vars) {
        Ok((g1, chain1, cur1, vars1, term)) => {
            if stmt_returns(ss[0]) {
                lemma_stmt_term(env, g, cur, ss[0], vars);
            } else if !term {
                lemma_stmts_term(env, g1, chain1, cur1, ss.skip(1), vars1);
            }
        },
        Err(_) => {},
    }
}

/// Law: with `if` statements compiled, statements one of which returns on
/// every path (a `return`, or an `if` with an `else` whose branches both
/// do) end their block in a return wherever they compile.
pub proof fn law_returning_stmts_terminate(
    env: GenEnv,
    g: GenState,
    chain: Seq<SBlock>,
    cur: SBlock,
    ss: Seq<Stmt>,
    vars: Vars,
)
    requires
        env.branches,
        stmts_return(ss),
    ensures
        tr_stmts(env, g, chain, cur, ss, vars) matches Ok(out) ==> out.4,
{
    lemma_stmts_term(env, g, chain, cur, ss, vars);
}

/// The entry block of a function compiled from the state `g`.
pub open spec fn fn_entry(g: GenState, f: FnDecl) -> SBlock {
    SBlock { id: g.next, args: i64_args(f.params@.len(), g.next + 1), ops: seq![] }
}

/// Law: with `if` statements compiled, a function whose body returns on
/// every path is never refused for a missing return: it compiles wherever
/// its statements do.
pub proof fn law_returning_function_compiles(env: GenEnv, g: GenState, f: FnDecl)
    requires
        env.branches,
        stmts_return(body_of(f)),
    ensures
        tr_stmts(
            env,
            bump(g, f.params@.len() + 1 as int),
            seq![],
            fn_entry(g, f),
            body_of(f),
            param_vars(f.params@, g.next + 1),
        ) is Ok ==> tr_function(env, g, f) is Ok,
{
    lemma_stmts_term(
        env,
        bump(g, f.params@.len() + 1 as int),
        seq![],
        fn_entry(g, f),
        body_of(f),
        param_vars(f.params@, g.next + 1),
    );
}

/// What the visitor of a branch reads: `VEnv` in branch position.
pub open spec fn branch_env(env: VEnv) -> VEnv {
    VEnv { control: ControlContext::If, ..env }
}

/// The state that the visitor of a branch starts from: an empty block
/// whose id is the next free one, no return met, no result yet.
pub open spec fn branch_start(s: VState) -> VState {
    VState { next: s.next + 1, block: seq![], if_return: false, result: Ok(None), ..s }
}

/// Law: on an `if` with an `else` whose condition has a value and whose
/// branches get ids, the visitor ends with a conditional branch on that
/// value whose true target is the block holding the code of the first
/// branch, and whose false target is the block holding the code of the
/// second.
pub proof fn law_if_targets(env: VEnv, s: VState, test: Expr, cons: Stmt, alt: Stmt)
    requires
        vx_value(env, s, test).1 is Ok,
        !ids_exhausted(vx_value(env, s, test).0),
        !ids_exhausted(vx_branch(env, vx_value(env, s, test).0, cons).0),
    ensures
        ({
            let s1 = vx_value(env, s, test).0;
            let c = vx_value(env, s, test).1->Ok_0;
            let s2 = vx_branch(env, s1, cons).0;
            let sf = vx_if(env, s, Stmt::If { test, cons: Box::new(cons), alt: Some(Box::new(alt)) });
            &&& active(env, sf).len() > 0
            &&& active(env, sf).last() == (SOp::CondBr { cond: c, then_dest: s1.next, else_dest: s2.next })
            &&& s2.detached.last() == (SBlock {
                id: s1.next,
                args: seq![],
                ops: vx_stmt(branch_env(env), branch_start(s1), cons).block,
            })
            &&& sf.detached.last() == (SBlock {
                id: s2.next,
                args: seq![],
                ops: vx_stmt(branch_env(env), branch_start(s2), alt).block,
            })
        }),
{
    let s1 = vx_value(env, s, test).0;
    let s2 = vx_branch(env, s1, cons).0;
    assert(branch_start(s1) == (VState { next: s1.next + 1, block: seq![], if_return: false, result: Ok(None), ..s1 }));
    assert(branch_env(env) == (VEnv { control: ControlContext::If, ..env }));
}

} // verus!
