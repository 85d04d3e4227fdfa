//! The emitted code computes what the source means.
use vstd::prelude::*;
use crate::ast::{BinaryOp, Callee, Expr, FnDecl, ModuleItem, Stmt, VarDeclarator};
use crate::ir::{ArithOp, Predicate, SOp, Ty};
use crate::scope::lookup;
use crate::semantics::{
    Oracle, Store, Vals, arith, binary_value, bit, eval_args, eval_expr, holds, run_straight,
    step_op, values_of,
};
use crate::ir::SBlock;
use crate::codegen_spec::{
    GenEnv, GenState, Vars, ensure_printf, is_console_log, main_stmts, module_functions, tr_args,
    tr_arith, tr_binary, tr_call, tr_compare, tr_console_log, tr_decls, tr_expr, tr_function,
    tr_functions, tr_main, tr_module, tr_step, tr_stmt, tr_stmts, fn_returns_of, fx_expr,
};
use crate::blocks::{declared_once, fmt_globals, lemma_ensure_printf_grows, printf_decls};
use crate::visit_spec::{VEnv, VState, vx_value};

verus! {

/// The ids bound in `vars` hold the values bound in `st`, name by name.
pub open spec fn related(vars: Vars, st: Store, vals: Vals) -> bool {
    &&& vars.len() == st.len()
    &&& forall|i: int| 0 <= i < vars.len() ==> {
        &&& #[trigger] vars[i].0 == st[i].0
        &&& vals.contains_key(vars[i].1)
        &&& vals[vars[i].1] == st[i].1
    }
}

/// Every id bound in `vars` is below `n`.
pub open spec fn ids_below(vars: Vars, n: int) -> bool {
    forall|i: int| 0 <= i < vars.len() ==> #[trigger] vars[i].1 < n
}

/// Every id that has a value is below `n`.
pub open spec fn keys_below(vals: Vals, n: int) -> bool {
    forall|k: int| #[trigger] vals.contains_key(k) ==> k < n
}

/// Related bindings look a name up alike.
pub proof fn lemma_lookup_related(vars: Vars, st: Store, vals: Vals, name: Seq<char>, n: int)
    requires
        related(vars, st, vals),
        ids_below(vars, n),
    ensures
        lookup(vars, name) is Some <==> lookup(st, name) is Some,
        lookup(vars, name) matches Some(id) ==> vals.contains_key(id) && vals[id] == lookup(st, name)->Some_0
            && id < n,
    decreases vars.len(),
{
    if vars.len() > 0 {
        let k = vars.len() - 1;
        assert(vars[k].0 == st[k].0);
        let v2 = vars.drop_last();
        let s2 = st.drop_last();
        assert forall|i: int| 0 <= i < v2.len() implies {
            &&& #[trigger] v2[i].0 == s2[i].0
            &&& vals.contains_key(v2[i].1)
            &&& vals[v2[i].1] == s2[i].1
        } by {
            assert(v2[i] == vars[i]);
            assert(s2[i] == st[i]);
        }
        assert forall|i: int| 0 <= i < v2.len() implies #[trigger] v2[i].1 < n by {
            assert(v2[i] == vars[i]);
        }
        lemma_lookup_related(v2, s2, vals, name, n);
    }
}

/// Relatedness and bounds survive a run that only adds fresh values.
pub proof fn lemma_related_extend(vars: Vars, st: Store, vals: Vals, vals1: Vals, n: int, n1: int)
    requires
        related(vars, st, vals),
        ids_below(vars, n),
        vals.submap_of(vals1),
        n <= n1,
    ensures
        related(vars, st, vals1),
        ids_below(vars, n1),
{
    assert forall|i: int| 0 <= i < vars.len() implies {
        &&& #[trigger] vars[i].0 == st[i].0
        &&& vals1.contains_key(vars[i].1)
        &&& vals1[vars[i].1] == st[i].1
    } by {
        assert(vars[i].0 == st[i].0);
        assert(vals.contains_key(vars[i].1));
    }
    assert forall|i: int| 0 <= i < vars.len() implies #[trigger] vars[i].1 < n1 by {
        assert(vars[i].1 < n);
    }
}

/// A map extended twice extends the first.
pub proof fn lemma_submap_trans(a: Vals, b: Vals, c: Vals)
    requires
        a.submap_of(b),
        b.submap_of(c),
    ensures
        a.submap_of(c),
{
    assert forall|k: int| #[trigger] a.dom().contains(k) implies c.dom().contains(k) && a[k] == c[k] by {
        lemma_submap_get(a, b, k);
        lemma_submap_get(b, c, k);
    }
}

/// An extension keeps the value of each id.
pub proof fn lemma_submap_get(a: Vals, b: Vals, k: int)
    requires
        a.submap_of(b),
        a.contains_key(k),
    ensures
        b.contains_key(k),
        b[k] == a[k],
{
    assert(a.dom().contains(k) ==> b.dom().contains(k) && a[k] == b[k]);
}

/// A value under a fresh id extends the values.
pub proof fn lemma_insert_fresh(vals: Vals, k: int, v: int, n: int, n1: int)
    requires
        keys_below(vals, n),
        n <= k < n1,
    ensures
        vals.submap_of(vals.insert(k, v)),
        keys_below(vals.insert(k, v), n1),
{
    assert forall|j: int| #[trigger] vals.dom().contains(j) implies vals.insert(k, v).dom().contains(j)
        && vals[j] == vals.insert(k, v)[j] by {
        assert(j < n);
    }
}

/// Running two lists of operations is running one after the other.
pub proof fn lemma_run_straight_append(a: Seq<SOp>, b: Seq<SOp>, vals: Vals, out: Seq<int>, o: Oracle)
    ensures
        run_straight(a + b, vals, out, o) == match run_straight(a, vals, out, o) {
            Some((v1, out1)) => run_straight(b, v1, out1, o),
            None => None,
        },
    decreases a.len(),
{
    if a.len() == 0 {
        assert(a + b =~= b);
    } else {
        assert((a + b)[0] == a[0]);
        assert((a + b).skip(1) =~= a.skip(1) + b);
        match step_op(a[0], vals, out, o) {
            Some((v1, out1)) => lemma_run_straight_append(a.skip(1), b, v1, out1, o),
            None => {},
        }
    }
}

/// The facts about a list of ids run from `vals` with fresh ids at and
/// above `n` that a run from `vals1`, which extends it, keeps.
pub open spec fn fresh_run(vals: Vals, vals1: Vals, n: int, n1: int) -> bool {
    &&& vals.submap_of(vals1)
    &&& keys_below(vals1, n1)
    &&& n <= n1
}

/// What the generated code for an expression leaves: its value under its
/// id, the output, and no value changed below the ids it took.
pub open spec fn expr_code_correct(
    ops: Seq<SOp>,
    v: int,
    n: int,
    n1: int,
    vals: Vals,
    out: Seq<int>,
    o: Oracle,
    x: int,
    out1: Seq<int>,
) -> bool {
    match run_straight(ops, vals, out, o) {
        Some((vals1, out2)) => out2 == out1 && vals1.contains_key(v) && vals1[v] == x
            && fresh_run(vals, vals1, n, n1),
        None => false,
    }
}

/// Law: where the source value of an expression is defined and the
/// expression compiles, running the operations emitted for it yields that
/// value, under the id that the generator returns, and the same output.
#[verifier::rlimit(30)]
pub proof fn law_expr_correct(
    env: GenEnv,
    g: GenState,
    e: Expr,
    vars: Vars,
    st: Store,
    vals: Vals,
    out: Seq<int>,
    o: Oracle,
)
    requires
        related(vars, st, vals),
        ids_below(vars, g.next),
        keys_below(vals, g.next),
        tr_expr(env, g, e, vars) is Ok,
        eval_expr(env.fn_returns, o, e, st, out) is Some,
    ensures
        ({
            let (g1, ops, v) = tr_expr(env, g, e, vars)->Ok_0;
            let (x, out1) = eval_expr(env.fn_returns, o, e, st, out)->Some_0;
            expr_code_correct(ops, v, g.next, g1.next, vals, out, o, x, out1)
        }),
    decreases e,
{
    match e {
        Expr::Num(v) => {
            reveal_with_fuel(run_straight, 2);
            let ops = tr_expr(env, g, e, vars)->Ok_0.1;
            assert(ops.skip(1) =~= Seq::<SOp>::empty());
            lemma_insert_fresh(vals, g.next, v as int, g.next, g.next + 1);
        },
        Expr::Ident(name) => {
            lemma_lookup_related(vars, st, vals, name@, g.next);
            assert forall|j: int| #[trigger] vals.dom().contains(j) implies vals.dom().contains(j) && vals[j] == vals[j] by {}
        },
        Expr::Paren { inner, .. } => {
            law_expr_correct(env, g, *inner, vars, st, vals, out, o);
        },
        Expr::Call { callee, args, .. } => {
            lemma_args_correct(env, g, args@, vars, st, vals, out, o);
            let (g1, ops1, ids) = tr_args(env, g, args@, vars)->Ok_0;
            let (xs, out1) = eval_args(env.fn_returns, o, args@, st, out)->Some_0;
            assert(run_straight(ops1, vals, out, o) is Some);
            let (vals1, _) = run_straight(ops1, vals, out, o)->Some_0;
            let (g2, ops2, v) = tr_call(env, g1, callee, ids)->Ok_0;
            lemma_run_straight_append(ops1, ops2, vals, out, o);
            lemma_call_correct(env, g1, callee, ids, xs, vals1, out1, o);
            assert(run_straight(ops2, vals1, out1, o) is Some);
            let (vals2, _) = run_straight(ops2, vals1, out1, o)->Some_0;
            lemma_submap_trans(vals, vals1, vals2);
        },
        Expr::Bin { op, left, right } => {
            law_expr_correct(env, g, *left, vars, st, vals, out, o);
            let (g1, ops1, l) = tr_expr(env, g, *left, vars)->Ok_0;
            let (a, out1) = eval_expr(env.fn_returns, o, *left, st, out)->Some_0;
            assert(run_straight(ops1, vals, out, o) is Some);
            let (vals1, _) = run_straight(ops1, vals, out, o)->Some_0;
            lemma_related_extend(vars, st, vals, vals1, g.next, g1.next);
            law_expr_correct(env, g1, *right, vars, st, vals1, out1, o);
            let (g2, ops2, r) = tr_expr(env, g1, *right, vars)->Ok_0;
            let (b, out2) = eval_expr(env.fn_returns, o, *right, st, out1)->Some_0;
            assert(run_straight(ops2, vals1, out1, o) is Some);
            let (vals2, _) = run_straight(ops2, vals1, out1, o)->Some_0;
            assert(vals1.contains_key(l));
            let (g3, ops3, v) = tr_binary(g2, op, l, r)->Ok_0;
            lemma_run_straight_append(ops1, ops2, vals, out, o);
            lemma_run_straight_append(ops1 + ops2, ops3, vals, out, o);
            lemma_submap_get(vals1, vals2, l);
            lemma_binary_correct(g2, op, l, r, a, b, vals2, out2, o);
            assert(run_straight(ops3, vals2, out2, o) is Some);
            let (vals3, _) = run_straight(ops3, vals2, out2, o)->Some_0;
            lemma_submap_trans(vals, vals1, vals2);
            lemma_submap_trans(vals, vals2, vals3);
        },
        Expr::Other { .. } => {},
    }
}

/// The arguments' part of the law: their values, in order, under the ids
/// returned.
pub proof fn lemma_args_correct(
    env: GenEnv,
    g: GenState,
    args: Seq<Expr>,
    vars: Vars,
    st: Store,
    vals: Vals,
    out: Seq<int>,
    o: Oracle,
)
    requires
        related(vars, st, vals),
        ids_below(vars, g.next),
        keys_below(vals, g.next),
        tr_args(env, g, args, vars) is Ok,
        eval_args(env.fn_returns, o, args, st, out) is Some,
    ensures
        ({
            let (g1, ops, ids) = tr_args(env, g, args, vars)->Ok_0;
            let (xs, out1) = eval_args(env.fn_returns, o, args, st, out)->Some_0;
            match run_straight(ops, vals, out, o) {
                Some((vals1, out2)) => out2 == out1 && values_of(ids, vals1) == Some(xs)
                    && fresh_run(vals, vals1, g.next, g1.next),
                None => false,
            }
        }),
    decreases args,
{
    if args.len() == 0 {
        assert(vals.submap_of(vals));
    } else {
        law_expr_correct(env, g, args[0], vars, st, vals, out, o);
        let (g1, ops1, v) = tr_expr(env, g, args[0], vars)->Ok_0;
        let (x, out1) = eval_expr(env.fn_returns, o, args[0], st, out)->Some_0;
        assert(run_straight(ops1, vals, out, o) is Some);
        let (vals1, _) = run_straight(ops1, vals, out, o)->Some_0;
        lemma_related_extend(vars, st, vals, vals1, g.next, g1.next);
        lemma_args_correct(env, g1, args.skip(1), vars, st, vals1, out1, o);
        let (g2, ops2, ids2) = tr_args(env, g1, args.skip(1), vars)->Ok_0;
        let (xs2, out2) = eval_args(env.fn_returns, o, args.skip(1), st, out1)->Some_0;
        assert(run_straight(ops2, vals1, out1, o) is Some);
        let (vals2, _) = run_straight(ops2, vals1, out1, o)->Some_0;
        lemma_run_straight_append(ops1, ops2, vals, out, o);
        lemma_submap_get(vals1, vals2, v);
        lemma_values_of_prepend(v, ids2, vals2, x, xs2);
        lemma_submap_trans(vals, vals1, vals2);
    }
}

/// The values of `[v] + ids` are `[x] + xs`.
pub proof fn lemma_values_of_prepend(v: int, ids: Seq<int>, vals: Vals, x: int, xs: Seq<int>)
    requires
        values_of(ids, vals) == Some(xs),
        vals.contains_key(v),
        vals[v] == x,
    ensures
        values_of(seq![v] + ids, vals) == Some(seq![x] + xs),
    decreases ids.len(),
{
    let s = seq![v] + ids;
    if ids.len() == 0 {
        assert(s =~= seq![v]);
        assert(s.drop_last() =~= Seq::<int>::empty());
        assert(values_of(s.drop_last(), vals) == Some(Seq::<int>::empty()));
        assert(xs =~= Seq::<int>::empty());
        assert(seq![x] + xs =~= Seq::<int>::empty().push(x));
    } else {
        assert(values_of(ids.drop_last(), vals) is Some);
        let xs0 = values_of(ids.drop_last(), vals)->Some_0;
        assert(vals.contains_key(ids.last()));
        assert(xs == xs0.push(vals[ids.last()]));
        lemma_values_of_prepend(v, ids.drop_last(), vals, x, xs0);
        assert(s.drop_last() =~= seq![v] + ids.drop_last());
        assert(s.last() == ids.last());
        assert(seq![x] + xs =~= (seq![x] + xs0).push(vals[ids.last()]));
    }
}

/// The call's part of the law.
pub proof fn lemma_call_correct(
    env: GenEnv,
    g: GenState,
    callee: Callee,
    ids: Seq<int>,
    xs: Seq<int>,
    vals: Vals,
    out: Seq<int>,
    o: Oracle,
)
    requires
        values_of(ids, vals) == Some(xs),
        keys_below(vals, g.next),
        tr_call(env, g, callee, ids) is Ok,
        (match callee {
            Callee::Member { obj, prop } => is_console_log(obj, prop) && xs.len() == 1,
            Callee::Ident(name) => lookup(env.fn_returns, name@) is Some,
            _ => false,
        }),
    ensures
        ({
            let (g1, ops, v) = tr_call(env, g, callee, ids)->Ok_0;
            let (x, out1) = match callee {
                Callee::Ident(name) => {
                    let (r, printed) = o(name@, xs);
                    (if lookup(env.fn_returns, name@)->Some_0 { 0 } else { r }, out + printed)
                },
                _ => (0, out.push(xs[0])),
            };
            expr_code_correct(ops, v, g.next, g1.next, vals, out, o, x, out1)
        }),
{
    reveal_with_fuel(run_straight, 4);
    lemma_values_of_len(ids, vals);
    let (g1, ops, v) = tr_call(env, g, callee, ids)->Ok_0;
    match callee {
        Callee::Member { obj, prop } => {
            lemma_values_of_index(ids, vals, 0);
            let n = g.next;
            assert(ops.len() == 3);
            assert(ops.skip(1).skip(1).skip(1) =~= Seq::<SOp>::empty());
            let vals1 = vals.insert(n, 0);
            let vals2 = vals1.insert(n + 1, 0);
            let vals3 = vals2.insert(n + 2, 0);
            assert(step_op(ops[0], vals, out, o) == Some((vals1, out)));
            assert(ops.skip(1)[0] == ops[1]);
            assert(vals1[ids[0]] == xs[0]);
            assert(step_op(ops[1], vals1, out, o) == Some((vals2, out.push(xs[0]))));
            assert(ops.skip(1).skip(1)[0] == ops[2]);
            lemma_insert_fresh(vals, n, 0, n, n + 1);
            lemma_insert_fresh(vals1, n + 1, 0, n + 1, n + 2);
            lemma_insert_fresh(vals2, n + 2, 0, n + 2, n + 3);
            lemma_submap_trans(vals, vals1, vals2);
            lemma_submap_trans(vals, vals2, vals3);
        },
        Callee::Ident(name) => {
            let n = g.next;
            if ops.len() == 1 {
                assert(ops.skip(1) =~= Seq::<SOp>::empty());
            } else {
                assert(ops.skip(1).skip(1) =~= Seq::<SOp>::empty());
            }
            let r = o(name@, xs).0;
            lemma_insert_fresh(vals, n, r, n, n + 1);
            lemma_insert_fresh(vals, n, 0, n, n + 1);
        },
        _ => {},
    }
}

/// `values_of` gives one value per id.
pub proof fn lemma_values_of_len(ids: Seq<int>, vals: Vals)
    ensures
        values_of(ids, vals) matches Some(xs) ==> xs.len() == ids.len(),
    decreases ids.len(),
{
    if ids.len() > 0 {
        lemma_values_of_len(ids.drop_last(), vals);
    }
}

/// `values_of` gives the value of each id, in order.
pub proof fn lemma_values_of_index(ids: Seq<int>, vals: Vals, i: int)
    requires
        0 <= i < ids.len(),
        values_of(ids, vals) is Some,
    ensures
        vals.contains_key(ids[i]),
        values_of(ids, vals)->Some_0[i] == vals[ids[i]],
    decreases ids.len(),
{
    lemma_values_of_len(ids.drop_last(), vals);
    if i < ids.len() - 1 {
        lemma_values_of_index(ids.drop_last(), vals, i);
    }
}

/// The operator's part of the law.
pub proof fn lemma_binary_correct(
    g: GenState,
    op: BinaryOp,
    l: int,
    r: int,
    a: int,
    b: int,
    vals: Vals,
    out: Seq<int>,
    o: Oracle,
)
    requires
        vals.contains_key(l),
        vals.contains_key(r),
        vals[l] == a,
        vals[r] == b,
        keys_below(vals, g.next),
        tr_binary(g, op, l, r) is Ok,
        binary_value(op, a, b) is Some,
    ensures
        ({
            let (g1, ops, v) = tr_binary(g, op, l, r)->Ok_0;
            expr_code_correct(ops, v, g.next, g1.next, vals, out, o, binary_value(op, a, b)->Some_0, out)
        }),
{
    reveal_with_fuel(run_straight, 3);
    let (g1, ops, v) = tr_binary(g, op, l, r)->Ok_0;
    let n = g.next;
    let x = binary_value(op, a, b)->Some_0;
    match op {
        BinaryOp::Add | BinaryOp::Sub | BinaryOp::Mul | BinaryOp::Div | BinaryOp::Mod => {
            assert(ops.len() == 1);
            assert(ops.skip(1) =~= Seq::<SOp>::empty());
            assert(step_op(ops[0], vals, out, o) == Some((vals.insert(n, x), out)));
            lemma_insert_fresh(vals, n, x, n, n + 1);
        },
        BinaryOp::Other(_) => {},
        _ => {
            assert(ops.len() == 2);
            assert(ops.skip(1).skip(1) =~= Seq::<SOp>::empty());
            assert(x == 0 || x == 1);
            let vals1 = vals.insert(n, x);
            assert(step_op(ops[0], vals, out, o) == Some((vals1, out)));
            assert(ops.skip(1)[0] == ops[1]);
            assert(step_op(ops[1], vals1, out, o) == Some((vals1.insert(n + 1, x % 2), out)));
            assert(x % 2 == x);
            lemma_insert_fresh(vals, n, x, n, n + 1);
            lemma_insert_fresh(vals1, n + 1, x % 2, n + 1, n + 2);
            lemma_submap_trans(vals, vals1, vals1.insert(n + 1, x % 2));
        },
    }
}

/// Law: declaring `printf` support twice is declaring it once.
pub proof fn law_ensure_printf_idempotent(g: GenState)
    ensures
        ensure_printf(ensure_printf(g)) == ensure_printf(g),
{
    assert(ensure_printf(ensure_printf(g)) =~= ensure_printf(g));
}

/// Declaring `printf` support `n` times in a row.
pub open spec fn ensure_printf_times(g: GenState, n: nat) -> GenState
    decreases n,
{
    if n == 0 {
        g
    } else {
        ensure_printf(ensure_printf_times(g, (n - 1) as nat))
    }
}

/// Law: from a state whose module declares `printf` and the format string
/// exactly where its flags say, declaring `printf` support any positive
/// number of times is declaring it once: both flags are then set, and the
/// module declares `printf` exactly once and the format string exactly
/// once.
pub proof fn law_ensure_printf_once(g: GenState, n: nat)
    requires
        declared_once(g),
        n >= 1,
    ensures
        ensure_printf_times(g, n) == ensure_printf(g),
        ensure_printf(g).printf_declared,
        ensure_printf(g).format_declared,
        printf_decls(ensure_printf(g).module) == 1,
        fmt_globals(ensure_printf(g).module) == 1,
    decreases n,
{
    lemma_ensure_printf_grows(g);
    assert(ensure_printf_times(g, 0) == g);
    if n > 1 {
        law_ensure_printf_once(g, (n - 1) as nat);
        law_ensure_printf_idempotent(g);
    }
    assert(ensure_printf_times(g, n) == ensure_printf(ensure_printf_times(g, (n - 1) as nat)));
}

/// Law: parentheses are transparent. A parenthesized expression compiles
/// as the expression inside it: the same result, state and operations when
/// it compiles, and the same error, state and operations when it fails;
/// the visitor yields the same value and state for both.
pub proof fn law_paren_transparent(env: GenEnv, g: GenState, inner: Expr, text: String, vars: Vars)
    ensures
        tr_expr(env, g, Expr::Paren { inner: Box::new(inner), text }, vars) == tr_expr(env, g, inner, vars),
        fx_expr(env, g, Expr::Paren { inner: Box::new(inner), text }, vars) == fx_expr(env, g, inner, vars),
        forall|venv: VEnv, s: VState|
            #![trigger vx_value(venv, s, Expr::Paren { inner: Box::new(inner), text })]
            vx_value(venv, s, Expr::Paren { inner: Box::new(inner), text }) == vx_value(venv, s, inner),
{
}

/// No statement of the list is an `if`.
pub open spec fn no_if(ss: Seq<Stmt>) -> bool {
    forall|i: int| 0 <= i < ss.len() ==> !(#[trigger] ss[i] is If)
}

/// No statement that the generator compiles at the top of a function body
/// or of `main` is an `if`.
pub open spec fn module_has_no_if(items: Seq<ModuleItem>) -> bool {
    &&& no_if(main_stmts(items))
    &&& forall|i: int| 0 <= i < module_functions(items).len() ==> (match (#[trigger] module_functions(items)[i]).body {
        Some(b) => no_if(b@),
        None => true,
    })
}

/// Expressions compile alike under two environments with the same
/// functions.
proof fn lemma_expr_env(env1: GenEnv, env2: GenEnv, g: GenState, e: Expr, vars: Vars)
    requires
        env1.fn_returns == env2.fn_returns,
    ensures
        tr_expr(env1, g, e, vars) == tr_expr(env2, g, e, vars),
    decreases e,
{
    match e {
        Expr::Paren { inner, .. } => lemma_expr_env(env1, env2, g, *inner, vars),
        Expr::Call { callee, args, .. } => {
            lemma_args_env(env1, env2, g, args@, vars);
        },
        Expr::Bin { op, left, right } => {
            lemma_expr_env(env1, env2, g, *left, vars);
            match tr_expr(env1, g, *left, vars) {
                Ok((g1, _, _)) => lemma_expr_env(env1, env2, g1, *right, vars),
                Err(_) => {},
            }
        },
        _ => {},
    }
}

/// Arguments compile alike under two environments with the same functions.
proof fn lemma_args_env(env1: GenEnv, env2: GenEnv, g: GenState, args: Seq<Expr>, vars: Vars)
    requires
        env1.fn_returns == env2.fn_returns,
    ensures
        tr_args(env1, g, args, vars) == tr_args(env2, g, args, vars),
    decreases args,
{
    if args.len() > 0 {
        lemma_expr_env(env1, env2, g, args[0], vars);
        match tr_expr(env1, g, args[0], vars) {
            Ok((g1, _, _)) => lemma_args_env(env1, env2, g1, args.skip(1), vars),
            Err(_) => {},
        }
    }
}

/// Declarations compile alike under two environments with the same
/// functions.
proof fn lemma_decls_env(env1: GenEnv, env2: GenEnv, g: GenState, cur: SBlock, decls: Seq<VarDeclarator>, vars: Vars)
    requires
        env1.fn_returns == env2.fn_returns,
    ensures
        tr_decls(env1, g, cur, decls, vars) == tr_decls(env2, g, cur, decls, vars),
    decreases decls.len(),
{
    if decls.len() > 0 {
        let d = decls[0];
        match (d.name, d.init) {
            (Some(name), Some(init)) => {
                lemma_expr_env(env1, env2, g, init, vars);
                match tr_expr(env1, g, init, vars) {
                    Ok((g1, ops, v)) => lemma_decls_env(
                        env1,
                        env2,
                        g1,
                        crate::codegen_spec::append_ops(cur, ops),
                        decls.skip(1),
                        vars.push((name@, v)),
                    ),
                    Err(_) => {},
                }
            },
            _ => lemma_decls_env(env1, env2, g, cur, decls.skip(1), vars),
        }
    }
}

/// Statements without `if` compile alike under two environments with the
/// same functions.
proof fn lemma_stmts_env(
    env1: GenEnv,
    env2: GenEnv,
    g: GenState,
    chain: Seq<SBlock>,
    cur: SBlock,
    ss: Seq<Stmt>,
    vars: Vars,
)
    requires
        env1.fn_returns == env2.fn_returns,
        no_if(ss),
    ensures
        tr_stmts(env1, g, chain, cur, ss, vars) == tr_stmts(env2, g, chain, cur, ss, vars),
    decreases ss.len(),
{
    if ss.len() > 0 {
        let s = ss[0];
        assert(!(ss[0] is If));
        match s {
            Stmt::Var(decls) => lemma_decls_env(env1, env2, g, cur, decls@, vars),
            Stmt::Return(arg) => match arg {
                Some(e) => lemma_expr_env(env1, env2, g, e, vars),
                None => {},
            },
            Stmt::Expr(e) => lemma_expr_env(env1, env2, g, e, vars),
            _ => {},
        }
        assert(tr_stmt(env1, g, cur, s, vars) == tr_stmt(env2, g, cur, s, vars));
        assert(tr_step(env1, g, chain, cur, s, vars) == tr_step(env2, g, chain, cur, s, vars));
        let rest = ss.skip(1);
        assert forall|i: int| 0 <= i < rest.len() implies !(#[trigger] rest[i] is If) by {
            assert(rest[i] == ss[i + 1]);
        }
        match tr_step(env1, g, chain, cur, s, vars) {
            Ok((g1, chain1, cur1, vars1, term)) => {
                lemma_stmts_env(env1, env2, g1, chain1, cur1, rest, vars1);
            },
            Err(_) => {},
        }
    }
}

/// Functions without `if` at the top of their bodies compile alike under
/// two environments with the same functions.
proof fn lemma_functions_env(env1: GenEnv, env2: GenEnv, g: GenState, fs: Seq<FnDecl>)
    requires
        env1.fn_returns == env2.fn_returns,
        forall|i: int| 0 <= i < fs.len() ==> (match (#[trigger] fs[i]).body {
            Some(b) => no_if(b@),
            None => true,
        }),
    ensures
        tr_functions(env1, g, fs) == tr_functions(env2, g, fs),
    decreases fs.len(),
{
    if fs.len() > 0 {
        let f = fs[0];
        let body = match f.body {
            Some(b) => b@,
            None => seq![],
        };
        assert(match fs[0].body {
            Some(b) => no_if(b@),
            None => true,
        });
        let n = f.params@.len();
        let entry = g.next;
        let start = SBlock { id: entry, args: crate::codegen_spec::i64_args(n, entry + 1), ops: seq![] };
        lemma_stmts_env(
            env1,
            env2,
            crate::codegen_spec::bump(g, n + 1 as int),
            seq![],
            start,
            body,
            crate::codegen_spec::param_vars(f.params@, entry + 1),
        );
        assert(tr_function(env1, g, f) == tr_function(env2, g, f));
        let rest = fs.skip(1);
        assert forall|i: int| 0 <= i < rest.len() implies (match (#[trigger] rest[i]).body {
            Some(b) => no_if(b@),
            None => true,
        }) by {
            assert(rest[i] == fs[i + 1]);
        }
        match tr_function(env1, g, f) {
            Ok(g1) => lemma_functions_env(env1, env2, g1, rest),
            Err(_) => {},
        }
    }
}

/// No statement of a list is a `return`.
pub open spec fn no_return(ss: Seq<Stmt>) -> bool {
    forall|i: int| 0 <= i < ss.len() ==> !(#[trigger] ss[i] is Return)
}

/// Statements without `if` or `return` never end their block.
proof fn lemma_stmts_continue(env: GenEnv, g: GenState, chain: Seq<SBlock>, cur: SBlock, ss: Seq<Stmt>, vars: Vars)
    requires
        no_if(ss),
        no_return(ss),
    ensures
        tr_stmts(env, g, chain, cur, ss, vars) matches Ok(out) ==> !out.4,
    decreases ss.len(),
{
    if ss.len() > 0 {
        let s = ss[0];
        assert(!(ss[0] is If));
        assert(!(ss[0] is Return));
        let rest = ss.skip(1);
        assert forall|i: int| 0 <= i < rest.len() implies !(#[trigger] rest[i] is If) by {
            assert(rest[i] == ss[i + 1]);
        }
        assert forall|i: int| 0 <= i < rest.len() implies !(#[trigger] rest[i] is Return) by {
            assert(rest[i] == ss[i + 1]);
        }
        match tr_stmt(env, g, cur, s, vars) {
            Ok((g1, cur1, vars1, ctl)) => {
                assert(ctl is Continue);
            },
            Err(_) => {},
        }
        match tr_step(env, g, chain, cur, s, vars) {
            Ok((g1, chain1, cur1, vars1, term)) => {
                assert(!term);
                lemma_stmts_continue(env, g1, chain1, cur1, rest, vars1);
            },
            Err(_) => {},
        }
    }
}

/// Law: on a module with no `if` statement where the generators compile
/// statements and no `return` among its top-level statements (which a
/// module cannot hold), compiling with `if` support (`emit`) and without
/// it (`compile`) give the same result.
pub proof fn law_compile_agrees_with_emit(items: Seq<ModuleItem>)
    requires
        module_has_no_if(items),
        no_return(main_stmts(items)),
    ensures
        tr_module(items, false) == tr_module(items, true),
{
    let env1 = GenEnv { fn_returns: fn_returns_of(items), branches: false };
    let env2 = GenEnv { fn_returns: fn_returns_of(items), branches: true };
    let g0 = crate::codegen_spec::initial_state();
    lemma_functions_env(env1, env2, g0, module_functions(items));
    match tr_functions(env1, g0, module_functions(items)) {
        Ok(g1) => {
            let entry = g1.next;
            lemma_stmts_env(
                env1,
                env2,
                crate::codegen_spec::bump(g1, 1),
                seq![],
                crate::codegen_spec::empty_block(entry),
                main_stmts(items),
                seq![],
            );
            lemma_stmts_continue(
                env1,
                crate::codegen_spec::bump(g1, 1),
                seq![],
                crate::codegen_spec::empty_block(entry),
                main_stmts(items),
                seq![],
            );
            assert(tr_main(env1, g1, main_stmts(items)) == tr_main(env2, g1, main_stmts(items)));
        },
        Err(_) => {},
    }
}

} // verus!
