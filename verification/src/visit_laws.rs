//! The code that the visitor emits for an expression computes the
//! expression's value.
use vstd::prelude::*;
use crate::ast::{BinaryOp, Callee, Expr, TypeAnn};
use crate::error::CompileError;
use crate::ir::{ArithOp, Predicate, SOp, Ty};
use crate::laws::{
    expr_code_correct, fresh_run, ids_below, keys_below, lemma_insert_fresh, lemma_lookup_related,
    lemma_related_extend, lemma_run_straight_append, lemma_submap_get, lemma_submap_trans,
    lemma_values_of_len, lemma_values_of_prepend, related,
};
use crate::scope::lookup;
use crate::semantics::{Oracle, Store, Vals, arith, binary_value, bit, eval_args, eval_expr, holds, run_straight, step_op, values_of};
use crate::visit_spec::{ControlContext, VEnv, VState, push_op, handled, take_id, type_of, vx_args, vx_call, vx_fn_call, vx_handle, vx_operator, vx_value};

verus! {

/// The operations of the block that receives them.
pub open spec fn active(env: VEnv, s: VState) -> Seq<SOp> {
    if env.control == ControlContext::Module {
        s.main
    } else {
        s.block
    }
}

/// For each function of the module, whether a call of it has no value to
/// take: its return type is one that the visitor does not map.
pub open spec fn visitor_fn_returns(functions: Seq<(Seq<char>, Option<TypeAnn>)>) -> Seq<(Seq<char>, bool)> {
    functions.map_values(|p: (Seq<char>, Option<TypeAnn>)| (p.0, type_of(p.1) is None))
}

/// Looking a function up, with or without its return type.
pub proof fn lemma_lookup_fn_returns(functions: Seq<(Seq<char>, Option<TypeAnn>)>, name: Seq<char>)
    ensures
        lookup(visitor_fn_returns(functions), name) == match lookup(functions, name) {
            Some(ret) => Some(type_of(ret) is None),
            None => None,
        },
    decreases functions.len(),
{
    if functions.len() > 0 {
        assert(visitor_fn_returns(functions).drop_last() =~= visitor_fn_returns(functions.drop_last()));
        lemma_lookup_fn_returns(functions.drop_last(), name);
    }
}

/// What a value's code leaves of the visitor's state: the bindings as they
/// were, ids taken only forward, and operations only appended to the block
/// that receives them.
pub open spec fn vgrows(env: VEnv, s: VState, s1: VState) -> bool {
    &&& s1.vars == s.vars
    &&& s.next <= s1.next
    &&& active(env, s).len() <= active(env, s1).len()
    &&& active(env, s1).take(active(env, s).len() as int) == active(env, s)
}

/// The operations appended to the block that receives them.
pub open spec fn appended(env: VEnv, s: VState, s1: VState) -> Seq<SOp> {
    active(env, s1).skip(active(env, s).len() as int)
}

/// Appending an operation grows the block that receives it.
pub proof fn lemma_push_op(env: VEnv, s: VState, op: SOp)
    ensures
        vgrows(env, s, push_op(env, s, op)),
        appended(env, s, push_op(env, s, op)) == seq![op],
{
    let s1 = push_op(env, s, op);
    assert(active(env, s1) == active(env, s).push(op));
    assert(active(env, s1).take(active(env, s).len() as int) =~= active(env, s));
    assert(appended(env, s, s1) =~= seq![op]);
}

/// Growing is transitive, and what is appended adds up.
pub proof fn lemma_vgrows_trans(env: VEnv, a: VState, b: VState, c: VState)
    requires
        vgrows(env, a, b),
        vgrows(env, b, c),
    ensures
        vgrows(env, a, c),
        appended(env, a, c) == appended(env, a, b) + appended(env, b, c),
{
    let la = active(env, a).len() as int;
    let lb = active(env, b).len() as int;
    assert(active(env, c).take(la) =~= active(env, a)) by {
        assert forall|i: int| 0 <= i < la implies active(env, c).take(la)[i] == active(env, a)[i] by {
            assert(active(env, c)[i] == active(env, c).take(lb)[i]);
            assert(active(env, b)[i] == active(env, b).take(la)[i]);
        }
    }
    assert(appended(env, a, c) =~= appended(env, a, b) + appended(env, b, c)) by {
        assert forall|i: int| 0 <= i < appended(env, a, c).len() implies appended(env, a, c)[i] == (appended(env, a, b) + appended(env, b, c))[i] by {
            if la + i < lb {
                assert(active(env, c)[la + i] == active(env, c).take(lb)[la + i]);
            }
        }
    }
}

/// A state grows into itself, appending nothing.
pub proof fn lemma_vgrows_refl(env: VEnv, s: VState)
    ensures
        vgrows(env, s, s),
        appended(env, s, s) == Seq::<SOp>::empty(),
{
    assert(active(env, s).take(active(env, s).len() as int) =~= active(env, s));
    assert(appended(env, s, s) =~= Seq::<SOp>::empty());
}

/// Law (visitor): where the visitor yields a value for an expression and
/// the expression's value is defined (calls of module functions answered by
/// an oracle, a call of a function without a mapped return type having no
/// value), the operations that the visitor appended compute that value
/// under the id it yields, print what it prints, and change no value below
/// the ids they took.
pub proof fn law_visitor_value(env: VEnv, s: VState, e: Expr, st: Store, vals: Vals, out: Seq<int>, o: Oracle)
    requires
        vx_value(env, s, e).1 is Ok,
        eval_expr(visitor_fn_returns(env.functions), o, e, st, out) is Some,
        related(s.vars, st, vals),
        ids_below(s.vars, s.next),
        keys_below(vals, s.next),
    ensures
        ({
            let (s1, r) = vx_value(env, s, e);
            let (x, out1) = eval_expr(visitor_fn_returns(env.functions), o, e, st, out)->Some_0;
            &&& vgrows(env, s, s1)
            &&& expr_code_correct(appended(env, s, s1), r->Ok_0, s.next, s1.next, vals, out, o, x, out1)
        }),
    decreases e, 1nat,
{
    match e {
        Expr::Paren { inner, .. } => law_visitor_value(env, s, *inner, st, vals, out, o),
        Expr::Num(v) => lemma_vnum(env, s, e, st, vals, out, o),
        Expr::Ident(name) => {
            let h = vx_handle(env, s, e);
            assert(vx_value(env, s, e).0 == h.0);
            lemma_lookup_related(s.vars, st, vals, name@, s.next);
            lemma_vgrows_refl(env, s);
            assert(vals.submap_of(vals));
        },
        Expr::Bin { .. } => lemma_vbin(env, s, e, st, vals, out, o),
        Expr::Call { .. } => lemma_vcall(env, s, e, st, vals, out, o),
        Expr::Other { .. } => {},
    }
}

/// The law for a numeric literal.
pub proof fn lemma_vnum(env: VEnv, s: VState, e: Expr, st: Store, vals: Vals, out: Seq<int>, o: Oracle)
    requires
        e is Num,
        vx_value(env, s, e).1 is Ok,
        eval_expr(visitor_fn_returns(env.functions), o, e, st, out) is Some,
        related(s.vars, st, vals),
        ids_below(s.vars, s.next),
        keys_below(vals, s.next),
    ensures
        ({
            let (s1, r) = vx_value(env, s, e);
            let (x, out1) = eval_expr(visitor_fn_returns(env.functions), o, e, st, out)->Some_0;
            &&& vgrows(env, s, s1)
            &&& expr_code_correct(appended(env, s, s1), r->Ok_0, s.next, s1.next, vals, out, o, x, out1)
        }),
{
    let h = vx_handle(env, s, e);
    assert(vx_value(env, s, e).0 == h.0);
    let v = e->Num_0;
    let s1 = vx_value(env, s, e).0;
    let c = SOp::Constant { result: s.next, value: v as int, ty: Ty::I64 };
    let s1p = push_op(env, take_id(s), c);
    assert(s1 == VState { result: Ok(Some(s.next)), ..s1p });
    assert(active(env, s1) == active(env, s1p));
    lemma_push_op(env, take_id(s), c);
    assert(active(env, take_id(s)) == active(env, s));
    assert(appended(env, s, s1) == seq![c]);
    assert(run_straight(seq![c], vals, out, o) == Some((vals.insert(s.next, v as int), out))) by {
        reveal_with_fuel(run_straight, 2);
        assert(seq![c].skip(1) =~= Seq::<SOp>::empty());
    }
    lemma_insert_fresh(vals, s.next, v as int, s.next, s.next + 1);
}

/// The law for a binary expression.
#[verifier::rlimit(40)]
pub proof fn lemma_vbin(env: VEnv, s: VState, e: Expr, st: Store, vals: Vals, out: Seq<int>, o: Oracle)
    requires
        e is Bin,
        vx_value(env, s, e).1 is Ok,
        eval_expr(visitor_fn_returns(env.functions), o, e, st, out) is Some,
        related(s.vars, st, vals),
        ids_below(s.vars, s.next),
        keys_below(vals, s.next),
    ensures
        ({
            let (s1, r) = vx_value(env, s, e);
            let (x, out1) = eval_expr(visitor_fn_returns(env.functions), o, e, st, out)->Some_0;
            &&& vgrows(env, s, s1)
            &&& expr_code_correct(appended(env, s, s1), r->Ok_0, s.next, s1.next, vals, out, o, x, out1)
        }),
    decreases e, 0nat,
{
    let fr = visitor_fn_returns(env.functions);
    let h = vx_handle(env, s, e);
    assert(vx_value(env, s, e).0 == h.0);
    match e {
        Expr::Bin { op, left, right } => {
            let (s1, r1) = vx_value(env, s, *left);
            assert(r1 is Ok);
            let l = r1->Ok_0;
            let (s2, r2) = vx_value(env, s1, *right);
            assert(r2 is Ok);
            let r = r2->Ok_0;
            let (s3, r3) = vx_operator(env, s2, op, l, r);
            assert(r3 is Ok);
            assert(h.0 == VState { result: Ok(Some(r3->Ok_0)), ..s3 });
            assert(active(env, h.0) == active(env, s3));
            law_visitor_value(env, s, *left, st, vals, out, o);
            let (a, out1) = eval_expr(fr, o, *left, st, out)->Some_0;
            let (vals1, _) = run_straight(appended(env, s, s1), vals, out, o)->Some_0;
            lemma_related_extend(s.vars, st, vals, vals1, s.next, s1.next);
            law_visitor_value(env, s1, *right, st, vals1, out1, o);
            let (b, out2) = eval_expr(fr, o, *right, st, out1)->Some_0;
            let (vals2, _) = run_straight(appended(env, s1, s2), vals1, out1, o)->Some_0;
            let n = s2.next;
            let x = binary_value(op, a, b)->Some_0;
            let operation = match op {
                BinaryOp::Add => SOp::Arith { result: n, kind: ArithOp::AddI, lhs: l, rhs: r },
                BinaryOp::Sub => SOp::Arith { result: n, kind: ArithOp::SubI, lhs: l, rhs: r },
                BinaryOp::Mul => SOp::Arith { result: n, kind: ArithOp::MulI, lhs: l, rhs: r },
                BinaryOp::Div => SOp::Arith { result: n, kind: ArithOp::DivSI, lhs: l, rhs: r },
                BinaryOp::Mod => SOp::Arith { result: n, kind: ArithOp::RemSI, lhs: l, rhs: r },
                BinaryOp::Lt => SOp::Compare { result: n, predicate: Predicate::Slt, lhs: l, rhs: r },
                BinaryOp::LtEq => SOp::Compare { result: n, predicate: Predicate::Sle, lhs: l, rhs: r },
                BinaryOp::Gt => SOp::Compare { result: n, predicate: Predicate::Sgt, lhs: l, rhs: r },
                BinaryOp::GtEq => SOp::Compare { result: n, predicate: Predicate::Sge, lhs: l, rhs: r },
                BinaryOp::EqEqEq => SOp::Compare { result: n, predicate: Predicate::Eq, lhs: l, rhs: r },
                _ => SOp::Compare { result: n, predicate: Predicate::Ne, lhs: l, rhs: r },
            };
            assert(s3 == push_op(env, take_id(s2), operation));
            lemma_push_op(env, take_id(s2), operation);
            assert(active(env, take_id(s2)) == active(env, s2));
            assert(appended(env, s2, s3) == seq![operation]);
            lemma_submap_get(vals1, vals2, l);
            assert(step_op(operation, vals2, out2, o) == Some((vals2.insert(n, x), out2)));
            assert(run_straight(seq![operation], vals2, out2, o) == Some((vals2.insert(n, x), out2))) by {
                reveal_with_fuel(run_straight, 2);
                assert(seq![operation].skip(1) =~= Seq::<SOp>::empty());
            }
            lemma_vgrows_trans(env, s, s1, s2);
            lemma_vgrows_trans(env, s, s2, s3);
            lemma_run_straight_append(appended(env, s, s1), appended(env, s1, s2), vals, out, o);
            lemma_run_straight_append(appended(env, s, s2), seq![operation], vals, out, o);
            lemma_insert_fresh(vals2, n, x, n, n + 1);
            lemma_submap_trans(vals, vals1, vals2);
            lemma_submap_trans(vals, vals2, vals2.insert(n, x));
        },
        _ => {},
    }
}

/// The law for a call: only a call of a module function with a mapped
/// return type yields a value.
#[verifier::rlimit(40)]
pub proof fn lemma_vcall(env: VEnv, s: VState, e: Expr, st: Store, vals: Vals, out: Seq<int>, o: Oracle)
    requires
        e is Call,
        vx_value(env, s, e).1 is Ok,
        eval_expr(visitor_fn_returns(env.functions), o, e, st, out) is Some,
        related(s.vars, st, vals),
        ids_below(s.vars, s.next),
        keys_below(vals, s.next),
    ensures
        ({
            let (s1, r) = vx_value(env, s, e);
            let (x, out1) = eval_expr(visitor_fn_returns(env.functions), o, e, st, out)->Some_0;
            &&& vgrows(env, s, s1)
            &&& expr_code_correct(appended(env, s, s1), r->Ok_0, s.next, s1.next, vals, out, o, x, out1)
        }),
    decreases e, 0nat,
{
    let fr = visitor_fn_returns(env.functions);
    let h = vx_handle(env, s, e);
    assert(vx_value(env, s, e).0 == h.0);
    match e {
        Expr::Call { callee, args, .. } => {
            let p = vx_call(env, s, callee, args@);
            assert(h == (handled(p), p.1));
            assert(p.1 matches Ok(Some(_)));
            assert(handled(p) == VState { result: p.1, ..p.0 });
            assert(active(env, h.0) == active(env, p.0));
            match callee {
                Callee::Ident(name) => {
                    let (s1, ra) = vx_args(env, s, args@);
                    assert(ra is Ok);
                    lemma_vargs_correct(env, s, args@, st, vals, out, o);
                    let ids = ra->Ok_0;
                    let (xs, out1) = eval_args(fr, o, args@, st, out)->Some_0;
                    let (vals1, _) = run_straight(appended(env, s, s1), vals, out, o)->Some_0;
                    lemma_lookup_fn_returns(env.functions, name@);
                    let ret = lookup(env.functions, name@)->Some_0;
                    let t = type_of(ret)->Some_0;
                    let n = s1.next;
                    let (rv, printed) = o(name@, xs);
                    let operation = SOp::Call { callee: name@, args: ids, result: Some((n, t)) };
                    let s2 = push_op(env, take_id(s1), operation);
                    assert(p.0 == s2);
                    lemma_push_op(env, take_id(s1), operation);
                    assert(active(env, take_id(s1)) == active(env, s1));
                    assert(appended(env, s1, s2) == seq![operation]);
                    assert(step_op(operation, vals1, out1, o) == Some((vals1.insert(n, rv), out1 + printed)));
                    assert(run_straight(seq![operation], vals1, out1, o) == Some((vals1.insert(n, rv), out1 + printed))) by {
                        reveal_with_fuel(run_straight, 2);
                        assert(seq![operation].skip(1) =~= Seq::<SOp>::empty());
                    }
                    lemma_vgrows_trans(env, s, s1, s2);
                    lemma_run_straight_append(appended(env, s, s1), seq![operation], vals, out, o);
                    lemma_insert_fresh(vals1, n, rv, n, n + 1);
                    lemma_submap_trans(vals, vals1, vals1.insert(n, rv));
                },
                _ => {},
            }
        },
        _ => {},
    }
}

/// The arguments' part of the law: their values, in order, under the ids
/// yielded.
pub proof fn lemma_vargs_correct(env: VEnv, s: VState, args: Seq<Expr>, st: Store, vals: Vals, out: Seq<int>, o: Oracle)
    requires
        vx_args(env, s, args).1 is Ok,
        eval_args(visitor_fn_returns(env.functions), o, args, st, out) is Some,
        related(s.vars, st, vals),
        ids_below(s.vars, s.next),
        keys_below(vals, s.next),
    ensures
        ({
            let (s1, r) = vx_args(env, s, args);
            let (xs, out1) = eval_args(visitor_fn_returns(env.functions), o, args, st, out)->Some_0;
            &&& vgrows(env, s, s1)
            &&& match run_straight(appended(env, s, s1), vals, out, o) {
                Some((vals1, out2)) => out2 == out1 && values_of(r->Ok_0, vals1) == Some(xs)
                    && fresh_run(vals, vals1, s.next, s1.next),
                None => false,
            }
        }),
    decreases args, 1nat,
{
    let fr = visitor_fn_returns(env.functions);
    if args.len() == 0 {
        lemma_vgrows_refl(env, s);
        assert(vals.submap_of(vals));
    } else {
        law_visitor_value(env, s, args[0], st, vals, out, o);
        let (s1, r1) = vx_value(env, s, args[0]);
        let v = r1->Ok_0;
        let (x, out1) = eval_expr(fr, o, args[0], st, out)->Some_0;
        let (vals1, _) = run_straight(appended(env, s, s1), vals, out, o)->Some_0;
        lemma_related_extend(s.vars, st, vals, vals1, s.next, s1.next);
        lemma_vargs_correct(env, s1, args.skip(1), st, vals1, out1, o);
        let (s2, r2) = vx_args(env, s1, args.skip(1));
        let (xs2, out2) = eval_args(fr, o, args.skip(1), st, out1)->Some_0;
        let (vals2, _) = run_straight(appended(env, s1, s2), vals1, out1, o)->Some_0;
        lemma_vgrows_trans(env, s, s1, s2);
        lemma_run_straight_append(appended(env, s, s1), appended(env, s1, s2), vals, out, o);
        lemma_submap_get(vals1, vals2, v);
        lemma_values_of_prepend(v, r2->Ok_0, vals2, x, xs2);
        lemma_submap_trans(vals, vals1, vals2);
    }
}

} // verus!
