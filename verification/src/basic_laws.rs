//! The functions that the first generator emits return what their first
//! `return` statement returns.
use vstd::prelude::*;
use crate::ast::{BinaryOp, Expr, FnDecl, Param, Stmt};
use crate::basic::{bx_expr, bx_function, bx_returns, find_first, param_names};
use crate::ir::{ArithOp, SBlock, SOp, Ty};
use crate::laws::{keys_below, lemma_insert_fresh, lemma_run_straight_append, lemma_submap_trans};
use crate::scope::lookup;
use crate::semantics::{
    Oracle, Run, Store, Vals, arg_vals, arith, binary_value, eval_expr, param_store, run_function,
    run_ops, run_straight, step_op, values_of,
};
use crate::stmt_laws::{lemma_arg_vals, lemma_run_ops_straight, lemma_values_of_one};

verus! {

/// Each name bound among the parameters holds, under the id of its
/// argument, the value that the store binds to it.
pub open spec fn basic_related(params: Seq<(Seq<char>, int)>, first: int, st: Store, vals: Vals) -> bool {
    forall|name: Seq<char>| #[trigger] find_first(params, name) matches Some(i) ==> vals.contains_key(first + i)
        && lookup(st, name) == Some(vals[first + i])
}

/// The first binding in a list with one more at its end.
pub proof fn lemma_find_first_push(s: Seq<(Seq<char>, int)>, x: (Seq<char>, int), name: Seq<char>)
    ensures
        find_first(s.push(x), name) == match find_first(s, name) {
            Some(i) => Some(i),
            None => if x.0 == name { Some(x.1) } else { None },
        },
    decreases s.len(),
{
    let t = s.push(x);
    if s.len() == 0 {
        assert(t[0] == x);
        assert(t.skip(1) =~= Seq::<(Seq<char>, int)>::empty());
        assert(find_first(t.skip(1), name) is None);
    } else {
        assert(t[0] == s[0]);
        assert(t.skip(1) =~= s.skip(1).push(x));
        lemma_find_first_push(s.skip(1), x, name);
    }
}

/// Whether the named parameters have distinct names.
pub open spec fn distinct_names(params: Seq<Param>) -> bool {
    forall|i: int, j: int| 0 <= i < params.len() && 0 <= j < params.len() && i != j
        && (#[trigger] params[i]).name is Some && (#[trigger] params[j]).name is Some
        ==> params[i].name->Some_0@ != params[j].name->Some_0@
}

/// The bindings of parameters to indexes and to argument values agree,
/// where the names are distinct.
pub proof fn lemma_basic_params(params: Seq<Param>, args: Seq<int>, first: int, vals: Vals)
    requires
        args.len() >= params.len(),
        distinct_names(params),
        forall|i: int| 0 <= i < params.len() ==> vals.contains_key(#[trigger] (first + i)) && vals[first + i] == args[i],
    ensures
        basic_related(param_names(params), first, param_store(params, args), vals),
        forall|name: Seq<char>| #[trigger] find_first(param_names(params), name) matches Some(i) ==> 0 <= i < params.len(),
    decreases params.len(),
{
    if params.len() > 0 {
        let p0 = params.drop_last();
        let k = params.len() - 1;
        assert(distinct_names(p0)) by {
            assert forall|i: int, j: int| 0 <= i < p0.len() && 0 <= j < p0.len() && i != j
                && (#[trigger] p0[i]).name is Some && (#[trigger] p0[j]).name is Some
                implies p0[i].name->Some_0@ != p0[j].name->Some_0@ by {
                assert(p0[i] == params[i]);
                assert(p0[j] == params[j]);
            }
        }
        assert forall|i: int| 0 <= i < p0.len() implies vals.contains_key(#[trigger] (first + i)) && vals[first + i] == args[i] by {
            assert(vals.contains_key(first + i));
        }
        lemma_basic_params(p0, args, first, vals);
        let pn0 = param_names(p0);
        let st0 = param_store(p0, args);
        assert(vals.contains_key(first + k));
        match params.last().name {
            Some(nm) => {
                assert forall|name: Seq<char>| (#[trigger] find_first(param_names(params), name)) is Some
                    implies ({
                        let i = find_first(param_names(params), name)->Some_0;
                        vals.contains_key(first + i) && lookup(param_store(params, args), name) == Some(vals[first + i])
                            && 0 <= i < params.len()
                    }) by {
                    lemma_find_first_push(pn0, (nm@, k), name);
                    if name == nm@ {
                        // the name is not bound among the earlier parameters
                        if find_first(pn0, name) is Some {
                            lemma_find_first_index(p0, name);
                            let j = find_first(pn0, name)->Some_0;
                            assert(p0[j] == params[j]);
                            assert(params[k].name == Some(nm));
                        }
                    } else {
                        assert(st0.push((nm@, args[k])).last().0 != name);
                        assert(st0.push((nm@, args[k])).drop_last() =~= st0);
                    }
                }
            },
            None => {},
        }
    }
}

/// What `find_first` finds among the parameters is the index of a
/// parameter of that name.
pub proof fn lemma_find_first_index(params: Seq<Param>, name: Seq<char>)
    ensures
        find_first(param_names(params), name) matches Some(i) ==> 0 <= i < params.len()
            && params[i].name is Some && params[i].name->Some_0@ == name,
    decreases params.len(),
{
    if params.len() > 0 {
        let p0 = params.drop_last();
        lemma_find_first_index(p0, name);
        let k = params.len() - 1;
        match params.last().name {
            Some(nm) => {
                lemma_find_first_push(param_names(p0), (nm@, k), name);
                if find_first(param_names(p0), name) is Some {
                    let i = find_first(param_names(p0), name)->Some_0;
                    assert(p0[i] == params[i]);
                }
            },
            None => {},
        }
    }
}

/// The code of an expression computes its value.
pub proof fn lemma_bx_expr_correct(
    params: Seq<(Seq<char>, int)>,
    first: int,
    next: int,
    e: Expr,
    fr: Seq<(Seq<char>, bool)>,
    o: Oracle,
    st: Store,
    vals: Vals,
    out: Seq<int>,
)
    requires
        bx_expr(params, first, next, e) is Ok,
        eval_expr(fr, o, e, st, out) is Some,
        basic_related(params, first, st, vals),
        keys_below(vals, next),
    ensures
        ({
            let (n1, ops, v) = bx_expr(params, first, next, e)->Ok_0;
            let (x, out1) = eval_expr(fr, o, e, st, out)->Some_0;
            &&& out1 == out
            &&& next <= n1
            &&& match run_straight(ops, vals, out, o) {
                Some((vals1, out2)) => out2 == out && vals1.contains_key(v) && vals1[v] == x
                    && vals.submap_of(vals1) && keys_below(vals1, n1),
                None => false,
            }
        }),
    decreases e,
{
    match e {
        Expr::Num(v) => {
            reveal_with_fuel(run_straight, 2);
            let ops = bx_expr(params, first, next, e)->Ok_0.1;
            assert(ops.skip(1) =~= Seq::<SOp>::empty());
            lemma_insert_fresh(vals, next, v as int, next, next + 1);
        },
        Expr::Ident(name) => {
            assert(find_first(params, name@) is Some);
            assert(vals.submap_of(vals));
        },
        Expr::Bin { op, left, right } => {
            lemma_bx_expr_correct(params, first, next, *left, fr, o, st, vals, out);
            let (n1, o1, l) = bx_expr(params, first, next, *left)->Ok_0;
            let (a, _) = eval_expr(fr, o, *left, st, out)->Some_0;
            let (vals1, _) = run_straight(o1, vals, out, o)->Some_0;
            assert(basic_related(params, first, st, vals1)) by {
                assert forall|name: Seq<char>| (#[trigger] find_first(params, name)) is Some implies ({
                    let i = find_first(params, name)->Some_0;
                    vals1.contains_key(first + i) && lookup(st, name) == Some(vals1[first + i])
                }) by {
                    let i = find_first(params, name)->Some_0;
                    assert(vals.contains_key(first + i));
                    assert(vals.dom().contains(first + i));
                }
            }
            lemma_bx_expr_correct(params, first, n1, *right, fr, o, st, vals1, out);
            let (n2, o2, r) = bx_expr(params, first, n1, *right)->Ok_0;
            let (b, _) = eval_expr(fr, o, *right, st, out)->Some_0;
            let (vals2, _) = run_straight(o2, vals1, out, o)->Some_0;
            let kind = match op {
                BinaryOp::Add => ArithOp::AddI,
                BinaryOp::Sub => ArithOp::SubI,
                _ => ArithOp::MulI,
            };
            let x = arith(kind, a, b)->Some_0;
            assert(binary_value(op, a, b) == Some(x));
            let o3 = seq![SOp::Arith { result: n2, kind, lhs: l, rhs: r }];
            assert(vals1.dom().contains(l));
            assert(vals2.contains_key(l) && vals2[l] == a);
            assert(step_op(o3[0], vals2, out, o) == Some((vals2.insert(n2, x), out)));
            assert(run_straight(o3, vals2, out, o) == Some((vals2.insert(n2, x), out))) by {
                reveal_with_fuel(run_straight, 2);
                assert(o3.skip(1) =~= Seq::<SOp>::empty());
            }
            lemma_run_straight_append(o1, o2, vals, out, o);
            lemma_run_straight_append(o1 + o2, o3, vals, out, o);
            lemma_insert_fresh(vals2, n2, x, n2, n2 + 1);
            lemma_submap_trans(vals, vals1, vals2);
            lemma_submap_trans(vals, vals2, vals2.insert(n2, x));
        },
        _ => {},
    }
}

/// The code of the body's `return` statements starts with that of the
/// first one, where the statements before it return nothing.
pub proof fn lemma_bx_returns_first(params: Seq<(Seq<char>, int)>, first: int, next: int, ss: Seq<Stmt>, k: int)
    requires
        bx_returns(params, first, next, ss) is Ok,
        0 <= k < ss.len(),
        ss[k] is Return,
        forall|j: int| 0 <= j < k ==> !(#[trigger] ss[j] is Return),
    ensures
        ({
            let ops = bx_returns(params, first, next, ss)->Ok_0.1;
            match ss[k] {
                Stmt::Return(Some(e)) => bx_expr(params, first, next, e) matches Ok((n1, ops_e, v))
                    && ops_e.len() + 1 <= ops.len()
                    && ops.take(ops_e.len() + 1 as int) == ops_e.push(SOp::Return { operands: seq![v] }),
                _ => 1 <= ops.len() && ops[0] == SOp::Return { operands: seq![] },
            }
        }),
    decreases k,
{
    let rest = ss.skip(1);
    if k == 0 {
        match ss[0] {
            Stmt::Return(Some(e)) => {
                let (n1, ops_e, v) = bx_expr(params, first, next, e)->Ok_0;
                let h = ops_e.push(SOp::Return { operands: seq![v] });
                let (_, o2) = bx_returns(params, first, n1, rest)->Ok_0;
                assert((h + o2).take(h.len() as int) =~= h);
            },
            _ => {},
        }
    } else {
        assert(!(ss[0] is Return));
        assert(rest[k - 1] == ss[k]);
        assert forall|j: int| 0 <= j < k - 1 implies !(#[trigger] rest[j] is Return) by {
            assert(rest[j] == ss[j + 1]);
        }
        lemma_bx_returns_first(params, first, next, rest, k - 1);
        let (_, o2) = bx_returns(params, first, next, rest)->Ok_0;
        assert(Seq::<SOp>::empty() + o2 =~= o2);
    }
}

/// The statements of a function's body.
pub open spec fn body_stmts(f: FnDecl) -> Seq<Stmt> {
    match f.body {
        Some(b) => b@,
        None => seq![],
    }
}

/// What a `return` statement gives back, its parameters bound to `args`.
pub open spec fn return_values(s: Stmt, params: Seq<Param>, args: Seq<int>, o: Oracle) -> Seq<int> {
    match s {
        Stmt::Return(Some(e)) => seq![eval_expr(seq![], o, e, param_store(params, args), seq![])->Some_0.0],
        _ => seq![],
    }
}

/// Law (first generator): where a function compiles and its parameters have
/// distinct names, the function emitted for it, run on argument values,
/// returns what its first `return` statement returns with the parameters
/// bound to those values, and prints nothing; the statements before that
/// `return` have no effect.
pub proof fn law_basic_function(next: int, f: FnDecl, args: Seq<int>, o: Oracle, k: int)
    requires
        bx_function(next, f) is Ok,
        args.len() == f.params@.len(),
        distinct_names(f.params@),
        0 <= k < body_stmts(f).len(),
        body_stmts(f)[k] is Return,
        forall|j: int| 0 <= j < k ==> !(#[trigger] body_stmts(f)[j] is Return),
        match body_stmts(f)[k] {
            Stmt::Return(Some(e)) => eval_expr(seq![], o, e, param_store(f.params@, args), seq![]) is Some,
            _ => true,
        },
    ensures
        forall|fuel: nat| #[trigger] run_function(bx_function(next, f)->Ok_0.1, args, o, fuel)
            == Run::Ret(return_values(body_stmts(f)[k], f.params@, args, o), seq![]),
{
    let n = f.params@.len();
    let first = next + 1;
    let pn = param_names(f.params@);
    let body = body_stmts(f);
    let (n1, ops) = bx_returns(pn, first, next + n + 1, body)->Ok_0;
    let func = bx_function(next, f)->Ok_0.1;
    let entry = func.blocks[0];
    assert(entry.args =~= crate::codegen_spec::i64_args(n, first));
    let vals0 = arg_vals(entry.args, args);
    lemma_arg_vals(n, first, args);
    lemma_basic_params(f.params@, args, first, vals0);
    lemma_bx_returns_first(pn, first, next + n + 1, body, k);
    assert forall|fuel: nat| #[trigger] run_function(func, args, o, fuel)
        == Run::Ret(return_values(body[k], f.params@, args, o), seq![]) by {
        match body[k] {
            Stmt::Return(Some(e)) => {
                let (n2, ops_e, v) = bx_expr(pn, first, next + n + 1, e)->Ok_0;
                lemma_bx_expr_correct(pn, first, next + n + 1, e, seq![], o, param_store(f.params@, args), vals0, seq![]);
                let (vals1, _) = run_straight(ops_e, vals0, seq![], o)->Some_0;
                let rest = ops.skip(ops_e.len() + 1 as int);
                assert(ops =~= ops_e + (seq![SOp::Return { operands: seq![v] }] + rest)) by {
                    assert(ops.take(ops_e.len() + 1 as int) == ops_e.push(SOp::Return { operands: seq![v] }));
                    assert forall|i: int| 0 <= i < ops.len() implies ops[i] == (ops_e + (seq![SOp::Return { operands: seq![v] }] + rest))[i] by {
                        if i < ops_e.len() + 1 {
                            assert(ops[i] == ops.take(ops_e.len() + 1 as int)[i]);
                        }
                    }
                }
                lemma_run_ops_straight(ops_e, seq![SOp::Return { operands: seq![v] }] + rest, func.blocks, vals0, seq![], o, fuel);
                lemma_values_of_one(v, vals1);
                assert((seq![SOp::Return { operands: seq![v] }] + rest)[0] == SOp::Return { operands: seq![v] });
            },
            _ => {
                assert(values_of(Seq::<int>::empty(), vals0) == Some(Seq::<int>::empty()));
            },
        }
    }
}

} // verus!
