//! What the code generator emits, stated as functions from the source tree
//! to MLIR views.
//!
//! The generator threads a state: the next free id (shared by SSA values and
//! blocks), the module operations emitted so far, whether `printf` and its
//! format string are declared, and the blocks of the current function that
//! are finished but not yet placed in its region.
use vstd::prelude::*;
use crate::ast::{BinaryOp, Callee, Expr, FnDecl, Keyword, ModuleItem, Param, Stmt, TypeAnn, VarDeclarator};
use crate::error::CompileError;
use crate::ir::{ArithOp, Predicate, SFunc, SModuleOp, SOp, SBlock, Ty};
use crate::scope::lookup;

verus! {

/// The state that code generation threads.
#[verifier::ext_equal]
pub struct GenState {
    pub next: int,
    pub module: Seq<SModuleOp>,
    pub printf_declared: bool,
    pub format_declared: bool,
    pub pending: Seq<SBlock>,
}

/// What code generation reads and never changes: whether each function of
/// the module returns nothing, and whether `if` statements are compiled.
pub struct GenEnv {
    pub fn_returns: Seq<(Seq<char>, bool)>,
    pub branches: bool,
}

/// Bindings of names to SSA ids.
pub type Vars = Seq<(Seq<char>, int)>;

/// The state with `n` more ids used.
pub open spec fn bump(g: GenState, n: int) -> GenState {
    GenState { next: g.next + n, ..g }
}

/// The name of the format string global.
pub open spec fn fmt_name() -> Seq<char> {
    "fmt"@
}

/// The name of the C printing function.
pub open spec fn printf_name() -> Seq<char> {
    "printf"@
}

/// The text of the format string: a decimal integer, a newline, a NUL.
pub open spec fn fmt_text() -> Seq<char> {
    "%lld\n\0"@
}

/// Declares `printf` and the format string in the module, each once.
pub open spec fn ensure_printf(g: GenState) -> GenState {
    let m1 = if g.printf_declared {
        g.module
    } else {
        g.module.push(SModuleOp::ExternVarargFunc { name: printf_name(), fixed: seq![Ty::Ptr] })
    };
    let m2 = if g.format_declared {
        m1
    } else {
        m1.push(SModuleOp::ConstString { name: fmt_name(), value: fmt_text() })
    };
    GenState { module: m2, printf_declared: true, format_declared: true, ..g }
}

/// The result of generating code for an expression: the new state, the
/// operations appended to the current block, and the id of the value.
pub type ExprOut = Result<(GenState, Seq<SOp>, int), CompileError>;

/// An `arith` operation on `l` and `r`.
pub open spec fn tr_arith(g: GenState, kind: ArithOp, l: int, r: int) -> ExprOut {
    Ok((bump(g, 1), seq![SOp::Arith { result: g.next, kind, lhs: l, rhs: r }], g.next))
}

/// A comparison of `l` and `r`, widened from `i1` to `i64`.
pub open spec fn tr_compare(g: GenState, predicate: Predicate, l: int, r: int) -> ExprOut {
    let n = g.next;
    Ok((
        bump(g, 2),
        seq![
            SOp::Compare { result: n, predicate, lhs: l, rhs: r },
            SOp::ExtUI { result: n + 1, operand: n },
        ],
        n + 1,
    ))
}

/// A binary operator applied to the values `l` and `r`.
pub open spec fn tr_binary(g: GenState, op: BinaryOp, l: int, r: int) -> ExprOut {
    match op {
        BinaryOp::Add => tr_arith(g, ArithOp::AddI, l, r),
        BinaryOp::Sub => tr_arith(g, ArithOp::SubI, l, r),
        BinaryOp::Mul => tr_arith(g, ArithOp::MulI, l, r),
        BinaryOp::Div => tr_arith(g, ArithOp::DivSI, l, r),
        BinaryOp::Mod => tr_arith(g, ArithOp::RemSI, l, r),
        BinaryOp::Lt => tr_compare(g, Predicate::Slt, l, r),
        BinaryOp::LtEq => tr_compare(g, Predicate::Sle, l, r),
        BinaryOp::Gt => tr_compare(g, Predicate::Sgt, l, r),
        BinaryOp::GtEq => tr_compare(g, Predicate::Sge, l, r),
        BinaryOp::EqEqEq => tr_compare(g, Predicate::Eq, l, r),
        BinaryOp::NotEqEq => tr_compare(g, Predicate::Ne, l, r),
        BinaryOp::Other(name) => Err(CompileError::UnsupportedBinaryOperator(name)),
    }
}

/// `console.log(v)`: `printf("%lld\n", v)`, valued 0.
pub open spec fn tr_console_log(g: GenState, vals: Seq<int>) -> ExprOut {
    if vals.len() != 1 {
        Err(CompileError::ConsoleLogArity)
    } else {
        let g1 = ensure_printf(g);
        let n = g1.next;
        Ok((
            bump(g1, 3),
            seq![
                SOp::AddressOf { result: n, global: fmt_name() },
                SOp::VarargCall { result: n + 1, callee: printf_name(), args: seq![n, vals[0]] },
                SOp::Constant { result: n + 2, value: 0, ty: Ty::I64 },
            ],
            n + 2,
        ))
    }
}

/// Whether a member callee is `console.log`.
pub open spec fn is_console_log(obj: Option<String>, prop: Option<String>) -> bool {
    &&& obj matches Some(o) && o@ == "console"@
    &&& prop matches Some(p) && p@ == "log"@
}

/// A call of `callee` with the argument values `vals`. A call of a function
/// that returns nothing is valued 0.
pub open spec fn tr_call(env: GenEnv, g: GenState, callee: Callee, vals: Seq<int>) -> ExprOut {
    let n = g.next;
    match callee {
        Callee::Member { obj, prop } => if is_console_log(obj, prop) {
            tr_console_log(g, vals)
        } else {
            Err(CompileError::UnsupportedMethodCall)
        },
        Callee::Ident(name) => match lookup(env.fn_returns, name@) {
            None => Err(CompileError::UndefinedFunction(name)),
            Some(is_void) => if is_void {
                Ok((
                    bump(g, 1),
                    seq![
                        SOp::Call { callee: name@, args: vals, result: None },
                        SOp::Constant { result: n, value: 0, ty: Ty::I64 },
                    ],
                    n,
                ))
            } else {
                Ok((
                    bump(g, 1),
                    seq![SOp::Call { callee: name@, args: vals, result: Some((n, Ty::I64)) }],
                    n,
                ))
            },
        },
        Callee::OtherExpr => Err(CompileError::UnsupportedCalleeExpression),
        Callee::Other => Err(CompileError::UnsupportedCallee),
    }
}

/// An expression: the operations that compute it, appended in evaluation
/// order, and the id that holds its value.
pub open spec fn tr_expr(env: GenEnv, g: GenState, e: Expr, vars: Vars) -> ExprOut
    decreases e,
{
    match e {
        Expr::Num(v) => Ok((
            bump(g, 1),
            seq![SOp::Constant { result: g.next, value: v as int, ty: Ty::I64 }],
            g.next,
        )),
        Expr::Ident(name) => match lookup(vars, name@) {
            Some(id) => Ok((g, seq![], id)),
            None => Err(CompileError::UnknownIdentifier(name)),
        },
        Expr::Paren { inner, .. } => tr_expr(env, g, *inner, vars),
        Expr::Call { callee, args, .. } => match tr_args(env, g, args@, vars) {
            Ok((g1, ops, vals)) => match tr_call(env, g1, callee, vals) {
                Ok((g2, ops2, v)) => Ok((g2, ops + ops2, v)),
                Err(err) => Err(err),
            },
            Err(err) => Err(err),
        },
        Expr::Bin { op, left, right } => match tr_expr(env, g, *left, vars) {
            Ok((g1, ops1, l)) => match tr_expr(env, g1, *right, vars) {
                Ok((g2, ops2, r)) => match tr_binary(g2, op, l, r) {
                    Ok((g3, ops3, v)) => Ok((g3, ops1 + ops2 + ops3, v)),
                    Err(err) => Err(err),
                },
                Err(err) => Err(err),
            },
            Err(err) => Err(err),
        },
        Expr::Other { text, .. } => Err(CompileError::UnsupportedExpression(text)),
    }
}

/// Arguments, left to right: their operations and the ids of their values.
pub open spec fn tr_args(env: GenEnv, g: GenState, args: Seq<Expr>, vars: Vars) -> Result<
    (GenState, Seq<SOp>, Seq<int>),
    CompileError,
>
    decreases args,
{
    if args.len() == 0 {
        Ok((g, seq![], seq![]))
    } else {
        match tr_expr(env, g, args[0], vars) {
            Ok((g1, ops1, v)) => match tr_args(env, g1, args.skip(1), vars) {
                Ok((g2, ops2, vs)) => Ok((g2, ops1 + ops2, seq![v] + vs)),
                Err(err) => Err(err),
            },
            Err(err) => Err(err),
        }
    }
}

/// What an expression that fails to compile leaves behind: the state and
/// the operations appended before the error. Calls and operators that fail
/// append nothing of their own; what their operands appended stays.
pub open spec fn fx_expr(env: GenEnv, g: GenState, e: Expr, vars: Vars) -> (GenState, Seq<SOp>)
    decreases e,
{
    match e {
        Expr::Paren { inner, .. } => fx_expr(env, g, *inner, vars),
        Expr::Call { callee, args, .. } => match tr_args(env, g, args@, vars) {
            Ok((g1, ops, vals)) => (g1, ops),
            Err(_) => fx_args(env, g, args@, vars),
        },
        Expr::Bin { op, left, right } => match tr_expr(env, g, *left, vars) {
            Ok((g1, ops1, l)) => match tr_expr(env, g1, *right, vars) {
                Ok((g2, ops2, r)) => (g2, ops1 + ops2),
                Err(_) => {
                    let f = fx_expr(env, g1, *right, vars);
                    (f.0, ops1 + f.1)
                },
            },
            Err(_) => fx_expr(env, g, *left, vars),
        },
        _ => (g, seq![]),
    }
}

/// What arguments that fail to compile leave behind: those before the
/// failing one compiled, then what the failing one left.
pub open spec fn fx_args(env: GenEnv, g: GenState, args: Seq<Expr>, vars: Vars) -> (GenState, Seq<SOp>)
    decreases args,
{
    if args.len() == 0 {
        (g, seq![])
    } else {
        match tr_expr(env, g, args[0], vars) {
            Ok((g1, ops1, v)) => {
                let f = fx_args(env, g1, args.skip(1), vars);
                (f.0, ops1 + f.1)
            },
            Err(_) => fx_expr(env, g, args[0], vars),
        }
    }
}

/// An upper bound on the ids that an expression uses.
pub open spec fn expr_cost(e: Expr) -> nat
    decreases e,
{
    match e {
        Expr::Num(_) => 1,
        Expr::Ident(_) => 0,
        Expr::Paren { inner, .. } => expr_cost(*inner),
        Expr::Call { callee, args, .. } => args_cost(args@) + 3,
        Expr::Bin { op, left, right } => expr_cost(*left) + expr_cost(*right) + 2,
        Expr::Other { .. } => 0,
    }
}

/// An upper bound on the ids that a list of arguments uses.
pub open spec fn args_cost(args: Seq<Expr>) -> nat
    decreases args,
{
    if args.len() == 0 {
        0
    } else {
        expr_cost(args[0]) + args_cost(args.skip(1))
    }
}

/// How a statement leaves the block it was compiled into.
pub enum Control {
    /// Code for the next statement goes into the same block.
    Continue,
    /// The block ends in a return; later statements are not compiled.
    Terminated,
    /// The block ends in a branch; code for the next statement goes into
    /// the (new, empty) block with this id.
    Branch(int),
}

/// An empty block without arguments.
pub open spec fn empty_block(id: int) -> SBlock {
    SBlock { id, args: seq![], ops: seq![] }
}

/// A block with more operations at its end.
pub open spec fn append_ops(b: SBlock, ops: Seq<SOp>) -> SBlock {
    SBlock { ops: b.ops + ops, ..b }
}

/// The result of compiling a statement into the block `cur`: the new state,
/// the block, the bindings after the statement, and how it ends.
pub type StmtOut = Result<(GenState, SBlock, Vars, Control), CompileError>;

/// The result of compiling statements: the new state, the finished blocks of
/// the chain, the current block, the bindings, and whether it terminated.
pub type StmtsOut = Result<(GenState, Seq<SBlock>, SBlock, Vars, bool), CompileError>;

/// Variable declarations, in order; each declarator with a plain name and
/// an initializer binds the name to the initializer's value. The others
/// are skipped.
pub open spec fn tr_decls(env: GenEnv, g: GenState, cur: SBlock, decls: Seq<VarDeclarator>, vars: Vars) -> Result<
    (GenState, SBlock, Vars),
    CompileError,
>
    decreases decls.len(),
{
    if decls.len() == 0 {
        Ok((g, cur, vars))
    } else {
        let d = decls[0];
        match (d.name, d.init) {
            (Some(name), Some(init)) => match tr_expr(env, g, init, vars) {
                Ok((g1, ops, v)) => tr_decls(
                    env,
                    g1,
                    append_ops(cur, ops),
                    decls.skip(1),
                    vars.push((name@, v)),
                ),
                Err(err) => Err(err),
            },
            _ => tr_decls(env, g, cur, decls.skip(1), vars),
        }
    }
}

/// A statement compiled into the block `cur`.
pub open spec fn tr_stmt(env: GenEnv, g: GenState, cur: SBlock, s: Stmt, vars: Vars) -> StmtOut
    decreases s, 0nat,
{
    match s {
        Stmt::Var(decls) => match tr_decls(env, g, cur, decls@, vars) {
            Ok((g1, cur1, vars1)) => Ok((g1, cur1, vars1, Control::Continue)),
            Err(err) => Err(err),
        },
        Stmt::Return(arg) => match arg {
            None => Ok((g, append_ops(cur, seq![SOp::Return { operands: seq![] }]), vars, Control::Terminated)),
            Some(e) => match tr_expr(env, g, e, vars) {
                Ok((g1, ops, v)) => Ok((
                    g1,
                    append_ops(cur, ops.push(SOp::Return { operands: seq![v] })),
                    vars,
                    Control::Terminated,
                )),
                Err(err) => Err(err),
            },
        },
        Stmt::Expr(e) => match tr_expr(env, g, e, vars) {
            Ok((g1, ops, v)) => Ok((g1, append_ops(cur, ops), vars, Control::Continue)),
            Err(err) => Err(err),
        },
        Stmt::If { test, cons, alt } => if env.branches {
            match tr_expr(env, g, test, vars) {
                Ok((g1, ops, c)) => {
                    let t = g1.next;
                    let cur1 = append_ops(cur, ops + seq![
                        SOp::TruncI { result: t, operand: c },
                        SOp::CondBr { cond: t, then_dest: t + 1, else_dest: t + 2 },
                    ]);
                    match tr_into_block(env, bump(g1, 4), t + 1, *cons, vars, t + 3) {
                        Ok((g2, then_term)) => match alt {
                            Some(a) => match tr_into_block(env, g2, t + 2, *a, vars, t + 3) {
                                Ok((g3, else_term)) => Ok((
                                    g3,
                                    cur1,
                                    vars,
                                    if then_term && else_term { Control::Terminated } else { Control::Branch(t + 3) },
                                )),
                                Err(err) => Err(err),
                            },
                            None => Ok((
                                GenState {
                                    pending: g2.pending.push(SBlock {
                                        id: t + 2,
                                        args: seq![],
                                        ops: seq![SOp::Br { dest: t + 3 }],
                                    }),
                                    ..g2
                                },
                                cur1,
                                vars,
                                Control::Branch(t + 3),
                            )),
                        },
                        Err(err) => Err(err),
                    }
                },
                Err(err) => Err(err),
            }
        } else {
            Ok((g, cur, vars, Control::Continue))
        },
        _ => Ok((g, cur, vars, Control::Continue)),
    }
}

/// The state after one statement of a sequence: a branch finishes the
/// current block and continues in the merge block.
pub open spec fn tr_step(env: GenEnv, g: GenState, chain: Seq<SBlock>, cur: SBlock, s: Stmt, vars: Vars) -> StmtsOut
    decreases s, 1nat,
{
    match tr_stmt(env, g, cur, s, vars) {
        Ok((g1, cur1, vars1, ctl)) => match ctl {
            Control::Continue => Ok((g1, chain, cur1, vars1, false)),
            Control::Terminated => Ok((g1, chain, cur1, vars1, true)),
            Control::Branch(m) => Ok((g1, chain.push(cur1), empty_block(m), vars1, false)),
        },
        Err(err) => Err(err),
    }
}

/// Statements in order, until one terminates the block.
pub open spec fn tr_stmts(env: GenEnv, g: GenState, chain: Seq<SBlock>, cur: SBlock, ss: Seq<Stmt>, vars: Vars) -> StmtsOut
    decreases ss, 0nat,
{
    if ss.len() == 0 {
        Ok((g, chain, cur, vars, false))
    } else {
        match tr_step(env, g, chain, cur, ss[0], vars) {
            Ok((g1, chain1, cur1, vars1, term)) => if term {
                Ok((g1, chain1, cur1, vars1, true))
            } else {
                tr_stmts(env, g1, chain1, cur1, ss.skip(1), vars1)
            },
            Err(err) => Err(err),
        }
    }
}

/// The body of a branch of an `if`, compiled into the block `start`: its
/// blocks are finished (the last one branching to `merge` unless it
/// returns) and set aside in the pending blocks. Names that the branch
/// declares are not seen after it.
pub open spec fn tr_into_block(env: GenEnv, g: GenState, start: int, body: Stmt, vars: Vars, merge: int) -> Result<
    (GenState, bool),
    CompileError,
>
    decreases body, 2nat,
{
    let r = match body {
        Stmt::Block(ss) => tr_stmts(env, g, seq![], empty_block(start), ss@, vars),
        _ => tr_step(env, g, seq![], empty_block(start), body, vars),
    };
    match r {
        Ok((g1, chain, cur, vars1, term)) => {
            let last = if term { cur } else { append_ops(cur, seq![SOp::Br { dest: merge }]) };
            Ok((GenState { pending: g1.pending + chain.push(last), ..g1 }, term))
        },
        Err(err) => Err(err),
    }
}

/// The state that failing declarations leave: those before the failing
/// one compiled, then what the failing initializer left.
pub open spec fn fx_decls(env: GenEnv, g: GenState, cur: SBlock, decls: Seq<VarDeclarator>, vars: Vars) -> GenState
    decreases decls.len(),
{
    if decls.len() == 0 {
        g
    } else {
        let d = decls[0];
        match (d.name, d.init) {
            (Some(name), Some(init)) => match tr_expr(env, g, init, vars) {
                Ok((g1, ops, v)) => fx_decls(env, g1, append_ops(cur, ops), decls.skip(1), vars.push((name@, v))),
                Err(_) => fx_expr(env, g, init, vars).0,
            },
            _ => fx_decls(env, g, cur, decls.skip(1), vars),
        }
    }
}

/// The state that a statement that fails to compile leaves.
pub open spec fn fx_stmt(env: GenEnv, g: GenState, cur: SBlock, s: Stmt, vars: Vars) -> GenState
    decreases s, 0nat,
{
    match s {
        Stmt::Var(decls) => fx_decls(env, g, cur, decls@, vars),
        Stmt::Return(arg) => match arg {
            Some(e) => fx_expr(env, g, e, vars).0,
            None => g,
        },
        Stmt::Expr(e) => fx_expr(env, g, e, vars).0,
        Stmt::If { test, cons, alt } => if env.branches {
            match tr_expr(env, g, test, vars) {
                Ok((g1, ops, c)) => {
                    let t = g1.next;
                    match tr_into_block(env, bump(g1, 4), t + 1, *cons, vars, t + 3) {
                        Ok((g2, then_term)) => match alt {
                            Some(a) => fx_into_block(env, g2, t + 2, *a, vars, t + 3),
                            None => g2,
                        },
                        Err(_) => fx_into_block(env, bump(g1, 4), t + 1, *cons, vars, t + 3),
                    }
                },
                Err(_) => fx_expr(env, g, test, vars).0,
            }
        } else {
            g
        },
        _ => g,
    }
}

/// The state that a failing step of a statement sequence leaves.
pub open spec fn fx_step(env: GenEnv, g: GenState, chain: Seq<SBlock>, cur: SBlock, s: Stmt, vars: Vars) -> GenState
    decreases s, 1nat,
{
    fx_stmt(env, g, cur, s, vars)
}

/// The state that failing statements leave: those before the failing one
/// compiled, then what the failing one left.
pub open spec fn fx_stmts(env: GenEnv, g: GenState, chain: Seq<SBlock>, cur: SBlock, ss: Seq<Stmt>, vars: Vars) -> GenState
    decreases ss, 0nat,
{
    if ss.len() == 0 {
        g
    } else {
        match tr_step(env, g, chain, cur, ss[0], vars) {
            Ok((g1, chain1, cur1, vars1, term)) => if term {
                g1
            } else {
                fx_stmts(env, g1, chain1, cur1, ss.skip(1), vars1)
            },
            Err(_) => fx_step(env, g, chain, cur, ss[0], vars),
        }
    }
}

/// The state that the failing body of a branch leaves.
pub open spec fn fx_into_block(env: GenEnv, g: GenState, start: int, body: Stmt, vars: Vars, merge: int) -> GenState
    decreases body, 2nat,
{
    match body {
        Stmt::Block(ss) => fx_stmts(env, g, seq![], empty_block(start), ss@, vars),
        _ => fx_step(env, g, seq![], empty_block(start), body, vars),
    }
}

/// Whether a function with this return type returns nothing: no annotation,
/// or `void`.
pub open spec fn returns_void(ret: Option<TypeAnn>) -> bool {
    match ret {
        None => true,
        Some(TypeAnn::Keyword(Keyword::Void)) => true,
        _ => false,
    }
}

/// The bindings of the named parameters to the block arguments, the first
/// argument having the id `first`.
pub open spec fn param_vars(params: Seq<Param>, first: int) -> Vars
    decreases params.len(),
{
    if params.len() == 0 {
        seq![]
    } else {
        let rest = param_vars(params.drop_last(), first);
        match params.last().name {
            Some(name) => rest.push((name@, first + params.len() - 1)),
            None => rest,
        }
    }
}

/// `n` arguments of type `i64`, the first having the id `first`.
pub open spec fn i64_args(n: nat, first: int) -> Seq<(int, Ty)> {
    Seq::new(n, |i: int| (first + i, Ty::I64))
}

/// The finished body of a function: the chain, the last block (with
/// `last_ops` appended unless it terminated), then the pending blocks.
pub open spec fn finish_blocks(g: GenState, chain: Seq<SBlock>, cur: SBlock, term: bool, last_ops: Seq<SOp>) -> Seq<SBlock> {
    chain.push(if term { cur } else { append_ops(cur, last_ops) }) + g.pending
}

/// A function declaration: `func.func` with one `i64` argument per
/// parameter and an `i64` result unless it returns nothing. A function
/// that returns a value must end in a return on every path.
pub open spec fn tr_function(env: GenEnv, g: GenState, f: FnDecl) -> Result<GenState, CompileError> {
    let n = f.params@.len();
    let entry = g.next;
    let is_void = returns_void(f.return_type);
    let body = match f.body {
        Some(b) => b@,
        None => seq![],
    };
    let start = SBlock { id: entry, args: i64_args(n, entry + 1), ops: seq![] };
    match tr_stmts(env, bump(g, n + 1 as int), seq![], start, body, param_vars(f.params@, entry + 1)) {
        Ok((g1, chain, cur, vars, term)) => if !term && !is_void {
            Err(CompileError::MissingReturn(f.name))
        } else {
            let func = SFunc {
                name: f.name@,
                params: Seq::new(n, |i: int| Ty::I64),
                results: if is_void { seq![] } else { seq![Ty::I64] },
                blocks: finish_blocks(g1, chain, cur, term, seq![SOp::Return { operands: seq![] }]),
                private: false,
            };
            Ok(GenState { module: g1.module.push(SModuleOp::Func(func)), pending: seq![], ..g1 })
        },
        Err(err) => Err(err),
    }
}

/// The state that a function that fails to compile leaves: that after its
/// statements where it lacks a return, else what the failing statement
/// left. No `func.func` is added.
pub open spec fn fx_function(env: GenEnv, g: GenState, f: FnDecl) -> GenState {
    let n = f.params@.len();
    let entry = g.next;
    let body = match f.body {
        Some(b) => b@,
        None => seq![],
    };
    let start = SBlock { id: entry, args: i64_args(n, entry + 1), ops: seq![] };
    match tr_stmts(env, bump(g, n + 1 as int), seq![], start, body, param_vars(f.params@, entry + 1)) {
        Ok((g1, chain, cur, vars, term)) => g1,
        Err(_) => fx_stmts(env, bump(g, n + 1 as int), seq![], start, body, param_vars(f.params@, entry + 1)),
    }
}

/// The top-level statements of a module, in order: all but function
/// declarations and module declarations.
pub open spec fn main_stmts(items: Seq<ModuleItem>) -> Seq<Stmt>
    decreases items.len(),
{
    if items.len() == 0 {
        seq![]
    } else {
        let rest = main_stmts(items.skip(1));
        match items[0] {
            ModuleItem::Stmt(Stmt::FnDecl(_)) => rest,
            ModuleItem::Stmt(s) => seq![s] + rest,
            ModuleItem::ModuleDecl => rest,
        }
    }
}

/// The function declarations at the top level of a module, in order.
pub open spec fn module_functions(items: Seq<ModuleItem>) -> Seq<FnDecl>
    decreases items.len(),
{
    if items.len() == 0 {
        seq![]
    } else {
        let rest = module_functions(items.skip(1));
        match items[0] {
            ModuleItem::Stmt(Stmt::FnDecl(f)) => seq![f] + rest,
            _ => rest,
        }
    }
}

/// The functions of a module, in order.
pub open spec fn tr_functions(env: GenEnv, g: GenState, fs: Seq<FnDecl>) -> Result<GenState, CompileError>
    decreases fs.len(),
{
    if fs.len() == 0 {
        Ok(g)
    } else {
        match tr_function(env, g, fs[0]) {
            Ok(g1) => tr_functions(env, g1, fs.skip(1)),
            Err(err) => Err(err),
        }
    }
}

/// The state that functions leave where one fails: those before it
/// compiled, then what the failing one left; no later function is
/// compiled.
pub open spec fn fx_functions(env: GenEnv, g: GenState, fs: Seq<FnDecl>) -> GenState
    decreases fs.len(),
{
    if fs.len() == 0 {
        g
    } else {
        match tr_function(env, g, fs[0]) {
            Ok(g1) => fx_functions(env, g1, fs.skip(1)),
            Err(_) => fx_function(env, g, fs[0]),
        }
    }
}

/// The state that `main` leaves where one of its statements fails: no
/// `main` is added.
pub open spec fn fx_main(env: GenEnv, g: GenState, ss: Seq<Stmt>) -> GenState {
    fx_stmts(env, bump(g, 1), seq![], empty_block(g.next), ss, seq![])
}

/// Whether `main` ends in `return 0`: always when `if` statements are
/// skipped, else unless its statements returned.
pub open spec fn main_returns_zero(env: GenEnv, term: bool) -> bool {
    !term || !env.branches
}

/// The `main` function: the top-level statements, then `return 0` as an
/// `i32` (see `main_returns_zero`).
pub open spec fn tr_main(env: GenEnv, g: GenState, ss: Seq<Stmt>) -> Result<GenState, CompileError> {
    let entry = g.next;
    match tr_stmts(env, bump(g, 1), seq![], empty_block(entry), ss, seq![]) {
        Ok((g1, chain, cur, vars, term)) => {
            let z = g1.next;
            let zero = main_returns_zero(env, term);
            let g2 = if zero { bump(g1, 1) } else { g1 };
            let func = SFunc {
                name: "main"@,
                params: seq![],
                results: seq![Ty::I32],
                blocks: finish_blocks(g2, chain, cur, !zero, seq![
                    SOp::Constant { result: z, value: 0, ty: Ty::I32 },
                    SOp::Return { operands: seq![z] },
                ]),
                private: false,
            };
            Ok(GenState { module: g2.module.push(SModuleOp::Func(func)), pending: seq![], ..g2 })
        },
        Err(err) => Err(err),
    }
}

/// For each top-level function, in order, its name and whether it returns
/// nothing.
pub open spec fn fn_returns_of(items: Seq<ModuleItem>) -> Seq<(Seq<char>, bool)>
    decreases items.len(),
{
    if items.len() == 0 {
        seq![]
    } else {
        let rest = fn_returns_of(items.drop_last());
        match items.last() {
            ModuleItem::Stmt(Stmt::FnDecl(f)) => rest.push((f.name@, returns_void(f.return_type))),
            _ => rest,
        }
    }
}

/// The state before any code is generated.
pub open spec fn initial_state() -> GenState {
    GenState { next: 0, module: seq![], printf_declared: false, format_declared: false, pending: seq![] }
}

/// A whole module: its functions, then `main`. With `branches` false, `if`
/// statements are skipped.
pub open spec fn tr_module(items: Seq<ModuleItem>, branches: bool) -> Result<Seq<SModuleOp>, CompileError> {
    let env = GenEnv { fn_returns: fn_returns_of(items), branches };
    match tr_functions(env, initial_state(), module_functions(items)) {
        Ok(g1) => match tr_main(env, g1, main_stmts(items)) {
            Ok(g2) => Ok(g2.module),
            Err(err) => Err(err),
        },
        Err(err) => Err(err),
    }
}

/// An upper bound on the ids that declarations use.
pub open spec fn decls_cost(decls: Seq<VarDeclarator>) -> nat
    decreases decls.len(),
{
    if decls.len() == 0 {
        0
    } else {
        let c = match decls[0].init {
            Some(e) => expr_cost(e),
            None => 0,
        };
        c + decls_cost(decls.skip(1))
    }
}

/// An upper bound on the ids that a statement uses.
pub open spec fn stmt_cost(s: Stmt) -> nat
    decreases s, 0nat,
{
    match s {
        Stmt::Var(decls) => decls_cost(decls@),
        Stmt::Return(arg) => match arg {
            Some(e) => expr_cost(e),
            None => 0,
        },
        Stmt::Expr(e) => expr_cost(e),
        Stmt::If { test, cons, alt } => expr_cost(test) + 4 + body_cost(*cons) + match alt {
            Some(a) => body_cost(*a),
            None => 0,
        },
        _ => 0,
    }
}

/// An upper bound on the ids that the body of a branch uses.
pub open spec fn body_cost(body: Stmt) -> nat
    decreases body, 1nat,
{
    match body {
        Stmt::Block(ss) => stmts_cost(ss@),
        _ => stmt_cost(body),
    }
}

/// An upper bound on the ids that statements use.
pub open spec fn stmts_cost(ss: Seq<Stmt>) -> nat
    decreases ss, 0nat,
{
    if ss.len() == 0 {
        0
    } else {
        stmt_cost(ss[0]) + stmts_cost(ss.skip(1))
    }
}

/// An upper bound on the ids that a function uses.
pub open spec fn fn_cost(f: FnDecl) -> nat {
    f.params@.len() + 1 + match f.body {
        Some(b) => stmts_cost(b@),
        None => 0,
    }
}

/// An upper bound on the ids that functions use.
pub open spec fn fns_cost(fs: Seq<FnDecl>) -> nat
    decreases fs.len(),
{
    if fs.len() == 0 {
        0
    } else {
        fn_cost(fs[0]) + fns_cost(fs.skip(1))
    }
}

/// An upper bound on the ids that a module uses.
pub open spec fn module_cost(items: Seq<ModuleItem>) -> nat {
    fns_cost(module_functions(items)) + stmts_cost(main_stmts(items)) + 2
}

} // verus!
