//! What the visitor code generator emits, stated as functions from the
//! source tree to MLIR views.
//!
//! The visitor handles each kind of node with a handler of its own; of a
//! node without one, the pieces inside it that have one are visited. A
//! handler that fails has its error recorded, and the walk goes on with the
//! next node. Each handler leaves its result as the visitor's last result;
//! a handler that needs the value of a sub-expression visits it and reads
//! the last result, and fails where that holds no value.
use vstd::prelude::*;
use crate::ast::{AssignExpr, AssignTarget, BinaryOp, Callee, Expr, FnDecl, Keyword, ModuleItem, Param, Part, Stmt, TypeAnn, VarDeclarator};
use crate::error::CompileError;
use crate::ir::{ArithOp, Predicate, SBlock, SFunc, SModuleOp, SOp, Ty};
use crate::scope::lookup;
use crate::codegen_spec::Vars;

verus! {

/// Where the visitor stands: in a function body, in a branch of an `if`,
/// in a loop, or at the top level of the module.
#[derive(Clone, Copy, Debug, PartialEq, Eq, Structural)]
pub enum ControlContext {
    Function,
    If,
    Loop,
    Module,
}

/// The state that the visitor threads: the next free id, the operations of
/// `main`'s block and of the current block, the bindings, whether a return
/// was met in a branch, the module operations emitted, the blocks that
/// branches filled (which no region holds), the errors recorded, and the
/// result of the last handler that ran (a value, none, or its error).
#[verifier::ext_equal]
pub struct VState {
    pub next: int,
    pub main: Seq<SOp>,
    pub block: Seq<SOp>,
    pub vars: Vars,
    pub if_return: bool,
    pub module: Seq<SModuleOp>,
    pub detached: Seq<SBlock>,
    pub errors: Seq<CompileError>,
    pub result: Result<Option<int>, CompileError>,
}

/// What the visitor reads: the return type of each function of the module
/// (the last declaration of a name wins), and where it stands.
pub struct VEnv {
    pub functions: Seq<(Seq<char>, Option<TypeAnn>)>,
    pub control: ControlContext,
}

/// The MLIR type of a type annotation: `number` and `bigint` are `i64`,
/// `boolean` is `i1`, `string` is a pointer; other types have none.
pub open spec fn type_of(ann: Option<TypeAnn>) -> Option<Ty> {
    match ann {
        Some(TypeAnn::Keyword(k)) => match k {
            Keyword::Number | Keyword::BigInt => Some(Ty::I64),
            Keyword::Boolean => Some(Ty::I1),
            Keyword::String => Some(Ty::Ptr),
            _ => None,
        },
        _ => None,
    }
}

/// The state with `e` recorded.
pub open spec fn record(s: VState, e: CompileError) -> VState {
    VState { errors: s.errors.push(e), ..s }
}

/// The state after a handler: its error, if it failed, recorded.
pub open spec fn settle<T>(p: (VState, Result<T, CompileError>)) -> VState {
    match p.1 {
        Ok(_) => p.0,
        Err(e) => record(p.0, e),
    }
}

/// The state after an expression handler: its error, if it failed,
/// recorded, and its result kept as the last one.
pub open spec fn handled(p: (VState, Result<Option<int>, CompileError>)) -> VState {
    VState { result: p.1, ..settle(p) }
}

/// The state after a handler that yields nothing and succeeded.
pub open spec fn done(s: VState) -> VState {
    VState { result: Ok(None), ..s }
}

/// The state after a handler that failed with `e`: the error recorded and
/// kept as the last result.
pub open spec fn fail(s: VState, e: CompileError) -> VState {
    VState { result: Err(e), ..record(s, e) }
}

/// The value that a last result holds; where it holds none, the value is
/// missing.
pub open spec fn value_of(r: Result<Option<int>, CompileError>) -> Result<int, CompileError> {
    match r {
        Ok(Some(v)) => Ok(v),
        Ok(None) => Err(CompileError::LastValueEmpty),
        Err(e) => Err(e),
    }
}

/// The state with `op` appended to the block that receives operations:
/// `main`'s at the top level, the current one elsewhere.
pub open spec fn push_op(env: VEnv, s: VState, op: SOp) -> VState {
    if env.control == ControlContext::Module {
        VState { main: s.main.push(op), ..s }
    } else {
        VState { block: s.block.push(op), ..s }
    }
}

/// The state with one more id used.
pub open spec fn take_id(s: VState) -> VState {
    VState { next: s.next + 1, ..s }
}

/// Whether no id is left.
pub open spec fn ids_exhausted(s: VState) -> bool {
    s.next >= u64::MAX
}

/// The result of a handler that yields a value, or may yield none.
pub type VOut<T> = (VState, Result<T, CompileError>);

/// A numeric literal: an `i64` constant.
pub open spec fn vx_number(env: VEnv, s: VState, value: int) -> VOut<int> {
    if ids_exhausted(s) {
        (s, Err(CompileError::ProgramTooLarge))
    } else {
        (push_op(env, take_id(s), SOp::Constant { result: s.next, value, ty: Ty::I64 }), Ok(s.next))
    }
}

/// An identifier: the id bound to it.
pub open spec fn vx_ident(s: VState, name: Seq<char>, text: String) -> VOut<int> {
    match lookup(s.vars, name) {
        Some(id) => (s, Ok(id)),
        None => (s, Err(CompileError::UnknownIdentifier(text))),
    }
}

/// The operation of a binary operator on `l` and `r`; comparisons give an
/// `i1`.
pub open spec fn vx_operator(env: VEnv, s: VState, op: BinaryOp, l: int, r: int) -> VOut<int> {
    let n = s.next;
    let o = match op {
        BinaryOp::Add => Some(SOp::Arith { result: n, kind: ArithOp::AddI, lhs: l, rhs: r }),
        BinaryOp::Sub => Some(SOp::Arith { result: n, kind: ArithOp::SubI, lhs: l, rhs: r }),
        BinaryOp::Mul => Some(SOp::Arith { result: n, kind: ArithOp::MulI, lhs: l, rhs: r }),
        BinaryOp::Div => Some(SOp::Arith { result: n, kind: ArithOp::DivSI, lhs: l, rhs: r }),
        BinaryOp::Mod => Some(SOp::Arith { result: n, kind: ArithOp::RemSI, lhs: l, rhs: r }),
        BinaryOp::Lt => Some(SOp::Compare { result: n, predicate: Predicate::Slt, lhs: l, rhs: r }),
        BinaryOp::LtEq => Some(SOp::Compare { result: n, predicate: Predicate::Sle, lhs: l, rhs: r }),
        BinaryOp::Gt => Some(SOp::Compare { result: n, predicate: Predicate::Sgt, lhs: l, rhs: r }),
        BinaryOp::GtEq => Some(SOp::Compare { result: n, predicate: Predicate::Sge, lhs: l, rhs: r }),
        BinaryOp::EqEqEq => Some(SOp::Compare { result: n, predicate: Predicate::Eq, lhs: l, rhs: r }),
        BinaryOp::NotEqEq => Some(SOp::Compare { result: n, predicate: Predicate::Ne, lhs: l, rhs: r }),
        BinaryOp::Other(_) => None,
    };
    match o {
        None => (s, Err(CompileError::UnsupportedBinaryOperator(op->Other_0))),
        Some(operation) => if ids_exhausted(s) {
            (s, Err(CompileError::ProgramTooLarge))
        } else {
            (push_op(env, take_id(s), operation), Ok(n))
        },
    }
}

/// `console.log(v)`: a call of the runtime's `log`, without result.
pub open spec fn vx_console_log(env: VEnv, s: VState, vals: Seq<int>) -> VOut<Option<int>> {
    if vals.len() != 1 {
        (s, Err(CompileError::ConsoleLogArity))
    } else {
        (push_op(env, s, SOp::Call { callee: "log"@, args: vals, result: None }), Ok(None))
    }
}

/// A call of a built-in `obj.prop(..)`; only `console.log` is known.
pub open spec fn vx_native(env: VEnv, s: VState, obj: String, prop: String, vals: Seq<int>) -> VOut<Option<int>> {
    if obj@ == "console"@ && prop@ == "log"@ {
        vx_console_log(env, s, vals)
    } else {
        (s, Err(CompileError::UnresolvedNativeCall(obj, prop)))
    }
}

/// A call of a module function: `func.call` with the function's result
/// type; a function without one leaves no result to take.
pub open spec fn vx_fn_call(env: VEnv, s: VState, name: String, vals: Seq<int>) -> VOut<Option<int>> {
    match lookup(env.functions, name@) {
        None => (s, Err(CompileError::UnknownFunction(name))),
        Some(ret) => match type_of(ret) {
            Some(t) => if ids_exhausted(s) {
                (s, Err(CompileError::ProgramTooLarge))
            } else {
                (
                    push_op(env, take_id(s), SOp::Call { callee: name@, args: vals, result: Some((s.next, t)) }),
                    Ok(Some(s.next)),
                )
            },
            None => (
                push_op(env, s, SOp::Call { callee: name@, args: vals, result: None }),
                Err(CompileError::MissingResult),
            ),
        },
    }
}

/// A call expression.
pub open spec fn vx_call(env: VEnv, s: VState, callee: Callee, args: Seq<Expr>) -> VOut<Option<int>>
    decreases args, 3nat,
{
    match callee {
        Callee::Member { obj, prop } => match obj {
            None => (s, Err(CompileError::UnsupportedMemberObject)),
            Some(o) => match prop {
                None => (s, Err(CompileError::UnsupportedMemberProperty)),
                Some(p) => {
                    let (s1, r) = vx_args(env, s, args);
                    match r {
                        Ok(vals) => vx_native(env, s1, o, p, vals),
                        Err(e) => (s1, Err(e)),
                    }
                },
            },
        },
        Callee::Ident(name) => {
            let (s1, r) = vx_args(env, s, args);
            match r {
                Ok(vals) => vx_fn_call(env, s1, name, vals),
                Err(e) => (s1, Err(e)),
            }
        },
        Callee::OtherExpr => (s, Err(CompileError::UnsupportedCalleeExpression)),
        Callee::Other => (s, Err(CompileError::UnsupportedCallee)),
    }
}

/// The handler of an expression node, with its error recorded and its
/// result kept: numbers, identifiers, binary expressions and calls have
/// handlers; other nodes change nothing.
pub open spec fn vx_handle(env: VEnv, s: VState, e: Expr) -> VOut<Option<int>>
    decreases e, 1nat,
{
    let p: VOut<Option<int>> = match e {
        Expr::Num(v) => {
            let (s1, r) = vx_number(env, s, v as int);
            (s1, match r { Ok(x) => Ok(Some(x)), Err(err) => Err(err) })
        },
        Expr::Ident(name) => {
            let (s1, r) = vx_ident(s, name@, name);
            (s1, match r { Ok(x) => Ok(Some(x)), Err(err) => Err(err) })
        },
        Expr::Bin { op, left, right } => {
            let (s1, r1) = vx_value(env, s, *left);
            match r1 {
                Err(err) => (s1, Err(err)),
                Ok(l) => {
                    let (s2, r2) = vx_value(env, s1, *right);
                    match r2 {
                        Err(err) => (s2, Err(err)),
                        Ok(r) => {
                            let (s3, r3) = vx_operator(env, s2, op, l, r);
                            (s3, match r3 { Ok(x) => Ok(Some(x)), Err(err) => Err(err) })
                        },
                    }
                },
            }
        },
        Expr::Call { callee, args, .. } => vx_call(env, s, callee, args@),
        _ => (s, s.result),
    };
    match e {
        Expr::Paren { .. } | Expr::Other { .. } => p,
        _ => (handled(p), p.1),
    }
}

/// The value of an expression: the expression is visited, then the last
/// result is read. A parenthesized expression is visited through; of an
/// expression without a handler, the parts are visited, and the last result
/// is what they left.
pub open spec fn vx_value(env: VEnv, s: VState, e: Expr) -> VOut<int>
    decreases e, 2nat,
{
    match e {
        Expr::Paren { inner, .. } => vx_value(env, s, *inner),
        Expr::Other { text, parts } => {
            let s1 = vx_exprs(env, s, parts@);
            (s1, value_of(s1.result))
        },
        _ => {
            let (s1, r) = vx_handle(env, s, e);
            (s1, value_of(r))
        },
    }
}

/// The values of arguments, left to right, up to the first that fails.
pub open spec fn vx_args(env: VEnv, s: VState, args: Seq<Expr>) -> VOut<Seq<int>>
    decreases args, 2nat,
{
    if args.len() == 0 {
        (s, Ok(seq![]))
    } else {
        let (s1, r) = vx_value(env, s, args[0]);
        match r {
            Err(e) => (s1, Err(e)),
            Ok(v) => {
                let (s2, r2) = vx_args(env, s1, args.skip(1));
                match r2 {
                    Err(e) => (s2, Err(e)),
                    Ok(vs) => (s2, Ok(seq![v] + vs)),
                }
            },
        }
    }
}

/// An expression in statement position: its handler runs; of an
/// expression without a handler, the parts are visited.
pub open spec fn vx_expr_stmt(env: VEnv, s: VState, e: Expr) -> VState
    decreases e, 2nat,
{
    match e {
        Expr::Paren { inner, .. } => vx_expr_stmt(env, s, *inner),
        Expr::Other { text, parts } => vx_exprs(env, s, parts@),
        _ => vx_handle(env, s, e).0,
    }
}

/// Expressions visited in order, each in statement position.
pub open spec fn vx_exprs(env: VEnv, s: VState, es: Seq<Expr>) -> VState
    decreases es, 0nat,
{
    if es.len() == 0 {
        s
    } else {
        vx_exprs(env, vx_expr_stmt(env, s, es[0]), es.skip(1))
    }
}

/// A declarator binds its name to its initializer's value; one without a
/// plain name or an initializer is refused.
pub open spec fn vx_declarator(env: VEnv, s: VState, d: VarDeclarator) -> VState {
    match d.name {
        None => fail(s, CompileError::UnsupportedAssignmentTarget),
        Some(name) => match d.init {
            None => fail(s, CompileError::UnsupportedAssignmentTarget),
            Some(init) => {
                let (s1, r) = vx_value(env, s, init);
                match r {
                    Ok(v) => done(VState { vars: s1.vars.push((name@, v)), ..s1 }),
                    Err(e) => fail(s1, e),
                }
            },
        },
    }
}

/// An assignment binds its target's name to the value; a target that is
/// not a plain name is refused, after the value. The error is returned,
/// not recorded.
pub open spec fn vx_assign(env: VEnv, s: VState, a: AssignExpr) -> VOut<()> {
    let (s1, r) = vx_value(env, s, *a.value);
    match r {
        Err(e) => (s1, Err(e)),
        Ok(v) => match a.target {
            AssignTarget::Ident(name) => (VState { vars: s1.vars.push((name@, v)), ..s1 }, Ok(())),
            AssignTarget::Other => (s1, Err(CompileError::UnsupportedAssignmentTarget)),
        },
    }
}

/// Declarators, each on its own.
pub open spec fn vx_declarators(env: VEnv, s: VState, decls: Seq<VarDeclarator>) -> VState
    decreases decls.len(),
{
    if decls.len() == 0 {
        s
    } else {
        vx_declarators(env, vx_declarator(env, s, decls[0]), decls.skip(1))
    }
}

/// A return: `func.return` in a function; elsewhere `scf.yield`, noting
/// that a return was met.
pub open spec fn vx_return_op(env: VEnv, s: VState, operands: Seq<int>) -> VState {
    if env.control == ControlContext::Function {
        push_op(env, s, SOp::Return { operands })
    } else {
        push_op(env, VState { if_return: true, ..s }, SOp::Yield { operands })
    }
}

/// A return statement.
pub open spec fn vx_return(env: VEnv, s: VState, arg: Option<Expr>) -> VState {
    match arg {
        None => done(vx_return_op(env, s, seq![])),
        Some(e) => {
            let (s1, r) = vx_value(env, s, e);
            match r {
                Ok(v) => done(vx_return_op(env, s1, seq![v])),
                Err(err) => fail(s1, err),
            }
        },
    }
}

/// A branch of an `if`: a new block, filled by a new visitor in branch
/// position that shares the bindings; the block is set aside. The result
/// is the block's id and whether a return was met in it.
pub open spec fn vx_branch(env: VEnv, s: VState, body: Stmt) -> VOut<(int, bool)>
    decreases body, 3nat,
{
    if ids_exhausted(s) {
        (s, Err(CompileError::ProgramTooLarge))
    } else {
        let id = s.next;
        let child = VState { next: s.next + 1, block: seq![], if_return: false, result: Ok(None), ..s };
        let c = vx_stmt(VEnv { control: ControlContext::If, ..env }, child, body);
        (
            VState {
                block: s.block,
                if_return: s.if_return,
                result: s.result,
                detached: c.detached.push(SBlock { id, args: seq![], ops: c.block }),
                ..c
            },
            Ok((id, c.if_return)),
        )
    }
}

/// An `if`: its condition, its branches, then a conditional branch to
/// them. Where the last branch visited met a return, the return of the
/// conditional branch's result is asked for, which has none.
pub open spec fn vx_if(env: VEnv, s: VState, st: Stmt) -> VState
    decreases st, 1nat,
{
    match st {
        Stmt::If { test, cons, alt } => {
            let (s1, r) = vx_value(env, s, test);
            match r {
                Err(e) => fail(s1, e),
                Ok(c) => {
                    let (s2, r2) = vx_branch(env, s1, *cons);
                    match r2 {
                        Err(e) => fail(s2, e),
                        Ok((then_id, then_ret)) => {
                            let (s3, r3): VOut<(int, bool)> = match alt {
                                Some(a) => vx_branch(env, s2, *a),
                                None => if ids_exhausted(s2) {
                                    (s2, Err(CompileError::ProgramTooLarge))
                                } else {
                                    (take_id(s2), Ok((s2.next, then_ret)))
                                },
                            };
                            match r3 {
                                Err(e) => fail(s3, e),
                                Ok((else_id, need_return)) => {
                                    let s4 = push_op(
                                        env,
                                        s3,
                                        SOp::CondBr { cond: c, then_dest: then_id, else_dest: else_id },
                                    );
                                    if need_return { fail(s4, CompileError::MissingResult) } else { done(s4) }
                                },
                            }
                        },
                    }
                },
            }
        },
        _ => s,
    }
}

/// The named parameters, in order, with their types.
pub open spec fn fn_arguments(params: Seq<Param>) -> Seq<(Seq<char>, Ty)>
    decreases params.len(),
{
    if params.len() == 0 {
        seq![]
    } else {
        let rest = fn_arguments(params.drop_last());
        match params.last().name {
            Some(name) => rest.push((name@, type_of(params.last().type_ann)->Some_0)),
            None => rest,
        }
    }
}

/// Whether every named parameter has a type that the visitor maps.
pub open spec fn params_typed(params: Seq<Param>) -> bool {
    forall|i: int| 0 <= i < params.len() && (#[trigger] params[i]).name is Some ==> type_of(params[i].type_ann) is Some
}

/// A block whose arguments are `arguments`, numbered from `first`, and the
/// bindings of their names to those ids.
pub open spec fn block_args(arguments: Seq<(Seq<char>, Ty)>, first: int) -> Seq<(int, Ty)> {
    Seq::new(arguments.len(), |i: int| (first + i, arguments[i].1))
}

/// The bindings of the arguments' names to their ids.
pub open spec fn arg_vars(arguments: Seq<(Seq<char>, Ty)>, first: int) -> Vars {
    Seq::new(arguments.len(), |i: int| (arguments[i].0, first + i))
}

/// A function declaration: its block takes one argument per named
/// parameter; a function without a result type starts with `return`. A
/// visitor for the body, with the parameters bound, first visits the
/// function's name and the parameters' names as identifiers, then the
/// body. The function is then appended where the visitor emits items: to
/// the module at the top level, else to the current block.
pub open spec fn vx_fn_decl(env: VEnv, s: VState, f: FnDecl) -> VState
    decreases f, 0nat,
{
    let arguments = fn_arguments(f.params@);
    let n = arguments.len();
    if s.next + n + 1 > u64::MAX {
        fail(s, CompileError::ProgramTooLarge)
    } else {
        let entry = s.next;
        let result = type_of(f.return_type);
        let fvars = arg_vars(arguments, entry + 1);
        let start = if result is None { seq![SOp::Return { operands: seq![] }] } else { seq![] };
        let child = VState { next: s.next + n + 1, block: start, vars: fvars, if_return: false, result: Ok(None), ..s };
        let fenv = VEnv { control: ControlContext::Function, ..env };
        let c1 = match lookup(fvars, f.name@) {
            Some(_) => child,
            None => fail(child, CompileError::UnknownIdentifier(f.name)),
        };
        let c2 = match f.body {
            Some(b) => vx_stmts(fenv, c1, b@),
            None => c1,
        };
        let func = SFunc {
            name: f.name@,
            params: Seq::new(n, |i: int| arguments[i].1),
            results: match result {
                Some(t) => seq![t],
                None => seq![],
            },
            blocks: seq![SBlock { id: entry, args: block_args(arguments, entry + 1), ops: c2.block }],
            private: false,
        };
        let after = VState { vars: s.vars, block: s.block, if_return: s.if_return, result: Ok(None), ..c2 };
        if env.control == ControlContext::Module {
            VState { module: c2.module.push(SModuleOp::Func(func)), ..after }
        } else {
            VState { block: s.block.push(SOp::Func(func)), ..after }
        }
    }
}

/// A statement.
pub open spec fn vx_stmt(env: VEnv, s: VState, st: Stmt) -> VState
    decreases st, 2nat,
{
    match st {
        Stmt::Var(decls) => vx_declarators(env, s, decls@),
        Stmt::Return(arg) => vx_return(env, s, arg),
        Stmt::Expr(e) => vx_expr_stmt(env, s, e),
        Stmt::If { .. } => vx_if(env, s, st),
        Stmt::Block(ss) => vx_stmts(env, s, ss@),
        Stmt::FnDecl(f) => vx_fn_decl(env, s, f),
        Stmt::Other(parts) => vx_parts(env, s, parts@),
    }
}

/// The pieces of a statement without a handler, in order.
pub open spec fn vx_parts(env: VEnv, s: VState, ps: Seq<Part>) -> VState
    decreases ps, 0nat,
{
    if ps.len() == 0 {
        s
    } else {
        let s1 = match ps[0] {
            Part::Expr(e) => vx_expr_stmt(env, s, e),
            Part::Stmt(st) => vx_stmt(env, s, st),
        };
        vx_parts(env, s1, ps.skip(1))
    }
}

/// Statements in order.
pub open spec fn vx_stmts(env: VEnv, s: VState, ss: Seq<Stmt>) -> VState
    decreases ss, 0nat,
{
    if ss.len() == 0 {
        s
    } else {
        vx_stmts(env, vx_stmt(env, s, ss[0]), ss.skip(1))
    }
}

/// The functions that a statement declares, as the function collector
/// finds them: declarations, also inside blocks and branches of `if`, but
/// not inside function bodies; each with its return type.
pub open spec fn fns_in_stmt(st: Stmt) -> Seq<(Seq<char>, Option<TypeAnn>)>
    decreases st, 1nat,
{
    match st {
        Stmt::FnDecl(f) => seq![(f.name@, f.return_type)],
        Stmt::If { test, cons, alt } => fns_in_stmt(*cons) + match alt {
            Some(a) => fns_in_stmt(*a),
            None => seq![],
        },
        Stmt::Block(ss) => fns_in_stmts(ss@),
        Stmt::Other(parts) => fns_in_parts(parts@),
        _ => seq![],
    }
}

/// The functions that the statements among pieces declare, in order.
pub open spec fn fns_in_parts(ps: Seq<Part>) -> Seq<(Seq<char>, Option<TypeAnn>)>
    decreases ps, 0nat,
{
    if ps.len() == 0 {
        seq![]
    } else {
        let first = match ps[0] {
            Part::Stmt(st) => fns_in_stmt(st),
            Part::Expr(_) => seq![],
        };
        first + fns_in_parts(ps.skip(1))
    }
}

/// The functions that statements declare, in order.
pub open spec fn fns_in_stmts(ss: Seq<Stmt>) -> Seq<(Seq<char>, Option<TypeAnn>)>
    decreases ss, 0nat,
{
    if ss.len() == 0 {
        seq![]
    } else {
        fns_in_stmt(ss[0]) + fns_in_stmts(ss.skip(1))
    }
}

/// The functions that a module declares, in order.
pub open spec fn fns_in_items(items: Seq<ModuleItem>) -> Seq<(Seq<char>, Option<TypeAnn>)>
    decreases items.len(),
{
    if items.len() == 0 {
        seq![]
    } else {
        match items[0] {
            ModuleItem::Stmt(st) => fns_in_stmt(st) + fns_in_items(items.skip(1)),
            ModuleItem::ModuleDecl => fns_in_items(items.skip(1)),
        }
    }
}

/// The items of a module, in order; import and export declarations are
/// passed over.
pub open spec fn vx_items(env: VEnv, s: VState, items: Seq<ModuleItem>) -> VState
    decreases items.len(),
{
    if items.len() == 0 {
        s
    } else {
        let s1 = match items[0] {
            ModuleItem::Stmt(st) => vx_stmt(env, s, st),
            ModuleItem::ModuleDecl => s,
        };
        vx_items(env, s1, items.skip(1))
    }
}

/// The id of `main`'s block.
pub open spec fn main_block_id() -> int {
    0
}

/// The state before the visit of a module: `main`'s block has the first id.
pub open spec fn visit_start() -> VState {
    VState {
        next: main_block_id() + 1,
        main: seq![],
        block: seq![],
        vars: seq![],
        if_return: false,
        module: seq![],
        detached: seq![],
        errors: seq![],
        result: Ok(None),
    }
}

/// `func.func private @log(!llvm.ptr)`, the runtime's printing function.
pub open spec fn log_decl() -> SFunc {
    SFunc { name: "log"@, params: seq![Ty::Ptr], results: seq![], blocks: seq![], private: true }
}

/// `main`: the top-level operations, then `return 0` as an `i32`.
pub open spec fn main_fn(ops: Seq<SOp>, z: int) -> SFunc {
    SFunc {
        name: "main"@,
        params: seq![],
        results: seq![Ty::I32],
        blocks: seq![SBlock {
            id: main_block_id(),
            args: seq![],
            ops: ops + seq![SOp::Constant { result: z, value: 0, ty: Ty::I32 }, SOp::Return { operands: seq![z] }],
        }],
        private: false,
    }
}

/// The module after the visit: the operations emitted, then `main` and the
/// declaration of `log`; and the errors recorded, in order.
pub open spec fn vx_finish(s: VState) -> (Seq<SModuleOp>, Seq<CompileError>) {
    if ids_exhausted(s) {
        (s.module, s.errors.push(CompileError::ProgramTooLarge))
    } else {
        (s.module + seq![SModuleOp::Func(main_fn(s.main, s.next)), SModuleOp::Func(log_decl())], s.errors)
    }
}

/// A whole module: the functions in the order the visit emitted them, then
/// `main` and the declaration of `log`; and the errors recorded, in order.
pub open spec fn vx_module(items: Seq<ModuleItem>) -> (Seq<SModuleOp>, Seq<CompileError>) {
    vx_finish(vx_items(module_env(items), visit_start(), items))
}

/// What the visitor of a module reads.
pub open spec fn module_env(items: Seq<ModuleItem>) -> VEnv {
    VEnv { functions: fns_in_items(items), control: ControlContext::Module }
}

/// Whether every function that a statement declares, at any depth that the
/// visitor reaches, has a mapped type for each of its named parameters.
pub open spec fn typed_stmt(st: Stmt) -> bool
    decreases st, 1nat,
{
    match st {
        Stmt::FnDecl(f) => params_typed(f.params@) && match f.body {
            Some(b) => typed_stmts(b@),
            None => true,
        },
        Stmt::If { test, cons, alt } => typed_stmt(*cons) && match alt {
            Some(a) => typed_stmt(*a),
            None => true,
        },
        Stmt::Block(ss) => typed_stmts(ss@),
        Stmt::Other(parts) => typed_parts(parts@),
        _ => true,
    }
}

/// `typed_stmt` of each statement among pieces.
pub open spec fn typed_parts(ps: Seq<Part>) -> bool
    decreases ps, 0nat,
{
    forall|i: int| 0 <= i < ps.len() ==> match #[trigger] ps[i] {
        Part::Stmt(st) => typed_stmt(st),
        Part::Expr(_) => true,
    }
}

/// `typed_stmt` of each statement.
pub open spec fn typed_stmts(ss: Seq<Stmt>) -> bool
    decreases ss, 0nat,
{
    forall|i: int| 0 <= i < ss.len() ==> typed_stmt(#[trigger] ss[i])
}

/// `typed_stmt` of each statement of a module.
pub open spec fn typed_items(items: Seq<ModuleItem>) -> bool {
    forall|i: int| 0 <= i < items.len() ==> match #[trigger] items[i] {
        ModuleItem::Stmt(st) => typed_stmt(st),
        ModuleItem::ModuleDecl => true,
    }
}

} // verus!
