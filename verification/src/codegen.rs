//! The code generator: from a module to MLIR in the `func`, `arith`, `cf`
//! and `llvm` dialects, every number an `i64`.
use vstd::prelude::*;
use crate::ast::{BinaryOp, Callee, Expr, FnDecl, Keyword, Module, ModuleItem, Stmt, TypeAnn, VarDeclarator};
use crate::error::CompileError;
use crate::ir::{Module as IrModule, typed_ids_view, FuncOp, SFunc, SBlock, SModuleOp, SOp, ArithOp, Block, ModuleOp, Op, Predicate, Ty, ids_view, module_ops_view, ops_view, blocks_view};
use crate::scope::{flags_scope, ids_scope, lookup, lookup_flag, lookup_id};
use crate::codegen_spec::{
    GenEnv, GenState, args_cost, bump, ensure_printf, expr_cost, fmt_name, fmt_text, printf_name,
    Control, StmtOut, finish_blocks, fn_cost, fns_cost, i64_args, main_stmts, module_cost,
    module_functions, tr_module, param_vars, returns_void, tr_function, tr_functions, tr_main, fn_returns_of, StmtsOut, append_ops, body_cost, decls_cost, empty_block, stmt_cost,
    stmts_cost, tr_decls, tr_into_block, tr_step, tr_stmt, tr_stmts, Vars,
    tr_args, tr_binary, tr_arith, tr_compare, ExprOut, tr_call, tr_console_log, tr_expr,
    fx_args, fx_expr, fx_decls, fx_stmt, fx_step, fx_stmts, fx_into_block, fx_function, fx_functions, fx_main,
};

verus! {

/// `r` is what `out` says the generator returns, `g` the state it leaves,
/// and `after` the block that it leaves from `before`; on an error, the
/// state and the appended operations are those of `fail`.
pub open spec fn expr_done(
    r: Result<u64, CompileError>,
    out: ExprOut,
    fail: (GenState, Seq<SOp>),
    g: GenState,
    before: Seq<SOp>,
    after: Seq<SOp>,
) -> bool {
    match out {
        Ok((g1, ops, v)) => r matches Ok(x) && x as int == v && g == g1 && after == before + ops,
        Err(e) => r == Err::<u64, CompileError>(e) && g == fail.0 && after == before + fail.1,
    }
}

/// `a` starts with `b`.
pub open spec fn extends<T>(a: Seq<T>, b: Seq<T>) -> bool {
    b.len() <= a.len() && a.take(b.len() as int) == b
}

/// How a compiled statement leaves its block.
pub enum StmtControl {
    /// The next statement goes into the same block.
    Continue,
    /// The block ends in a return.
    Terminated,
    /// The block ends in a branch; the next statement goes into this block.
    Branch(Block),
}

/// `x` is the executable form of `c`.
pub open spec fn control_matches(x: StmtControl, c: Control) -> bool {
    match (x, c) {
        (StmtControl::Continue, Control::Continue) => true,
        (StmtControl::Terminated, Control::Terminated) => true,
        (StmtControl::Branch(b), Control::Branch(m)) => b@ == empty_block(m),
        _ => false,
    }
}

/// `r` is what `out` says a statement returns, and the state, block and
/// bindings are those it leaves.
pub open spec fn stmt_done(r: Result<StmtControl, CompileError>, out: StmtOut, g: GenState, cur: SBlock, vars: Vars) -> bool {
    match out {
        Ok((g1, c1, v1, ctl)) => r matches Ok(x) && control_matches(x, ctl) && g == g1 && cur == c1 && vars == v1,
        Err(e) => r == Err::<StmtControl, CompileError>(e),
    }
}

/// `r` is what `out` says statements return, and the state, chain, block
/// and bindings are those it leaves.
pub open spec fn stmts_done(r: Result<bool, CompileError>, out: StmtsOut, g: GenState, chain: Seq<SBlock>, cur: SBlock, vars: Vars) -> bool {
    match out {
        Ok((g1, ch, c1, v1, term)) => r == Ok::<bool, CompileError>(term) && g == g1 && chain == ch && cur == c1 && vars == v1,
        Err(e) => r == Err::<bool, CompileError>(e),
    }
}

/// Whether a function returns nothing: it has no return type, or `void`.
pub fn is_void_function(function: &FnDecl) -> (b: bool)
    ensures
        b == returns_void(function.return_type),
{
    match &function.return_type {
        None => true,
        Some(TypeAnn::Keyword(Keyword::Void)) => true,
        _ => false,
    }
}

/// Whether a member callee is `console.log`.
fn is_console_log_exec(obj: &Option<String>, prop: &Option<String>) -> (b: bool)
    ensures
        b == crate::codegen_spec::is_console_log(*obj, *prop),
{
    match (obj, prop) {
        (Some(o), Some(p)) => *o == String::from_str("console") && *p == String::from_str("log"),
        _ => false,
    }
}

/// The state of code generation for one module.
pub struct Compiler {
    fn_returns: Vec<(String, bool)>,
    module: Vec<ModuleOp>,
    printf_declared: bool,
    format_declared: bool,
    pending_blocks: Vec<Block>,
    next_id: u64,
    branches: bool,
}

impl Compiler {
    /// The state that generation threads.
    pub closed spec fn state(&self) -> GenState {
        GenState {
            next: self.next_id as int,
            module: module_ops_view(self.module@),
            printf_declared: self.printf_declared,
            format_declared: self.format_declared,
            pending: blocks_view(self.pending_blocks@),
        }
    }

    /// What generation reads.
    pub closed spec fn env(&self) -> GenEnv {
        GenEnv { fn_returns: flags_scope(self.fn_returns@), branches: self.branches }
    }

    /// Takes a fresh id.
    fn fresh(&mut self) -> (id: u64)
        requires
            old(self).next_id < u64::MAX,
        ensures
            id == old(self).next_id,
            final(self).next_id == old(self).next_id + 1,
            final(self).state() == bump(old(self).state(), 1),
            final(self).env() == old(self).env(),
    {
        let id = self.next_id;
        self.next_id = self.next_id + 1;
        id
    }

    /// Declares `printf` and its format string in the module, each once.
    fn ensure_printf_support(&mut self)
        ensures
            final(self).state() == ensure_printf(old(self).state()),
            final(self).env() == old(self).env(),
    {
        let ghost m0 = module_ops_view(self.module@);
        if !self.printf_declared {
            let name = String::from_str("printf");
            let fixed = vec![Ty::Ptr];
            assert(fixed@ =~= seq![Ty::Ptr]);
            let op = ModuleOp::ExternVarargFunc { name, fixed };
            assert(op@ == SModuleOp::ExternVarargFunc { name: printf_name(), fixed: seq![Ty::Ptr] });
            self.module.push(op);
            self.printf_declared = true;
        }
        let ghost m1 = module_ops_view(self.module@);
        assert(m1 =~= (if old(self).printf_declared { m0 } else {
            m0.push(SModuleOp::ExternVarargFunc { name: printf_name(), fixed: seq![Ty::Ptr] })
        }));
        if !self.format_declared {
            let op = ModuleOp::ConstString {
                name: String::from_str("fmt"),
                value: String::from_str("%lld\n\0"),
            };
            assert(op@ == SModuleOp::ConstString { name: fmt_name(), value: fmt_text() });
            self.module.push(op);
            self.format_declared = true;
        }
        assert(module_ops_view(self.module@) =~= (if old(self).format_declared { m1 } else {
            m1.push(SModuleOp::ConstString { name: fmt_name(), value: fmt_text() })
        }));
    }

    /// The constant 0 as an `i64`.
    fn zero_i64(&mut self, block: &mut Vec<Op>) -> (id: u64)
        requires
            old(self).next_id < u64::MAX,
        ensures
            id == old(self).next_id,
            final(self).state() == bump(old(self).state(), 1),
            final(self).env() == old(self).env(),
            ops_view(final(block)@) == ops_view(old(block)@).push(
                SOp::Constant { result: id as int, value: 0, ty: Ty::I64 },
            ),
    {
        let id = self.fresh();
        block.push(Op::Constant { result: id, value: 0, ty: Ty::I64 });
        proof {
            assert(ops_view(block@) =~= ops_view(old(block)@).push(
                SOp::Constant { result: id as int, value: 0, ty: Ty::I64 },
            ));
        }
        id
    }

    /// The constant 0 as an `i32`.
    fn zero_i32(&mut self, block: &mut Vec<Op>) -> (id: u64)
        requires
            old(self).next_id < u64::MAX,
        ensures
            id == old(self).next_id,
            final(self).state() == bump(old(self).state(), 1),
            final(self).env() == old(self).env(),
            ops_view(final(block)@) == ops_view(old(block)@).push(
                SOp::Constant { result: id as int, value: 0, ty: Ty::I32 },
            ),
    {
        let id = self.fresh();
        block.push(Op::Constant { result: id, value: 0, ty: Ty::I32 });
        proof {
            assert(ops_view(block@) =~= ops_view(old(block)@).push(
                SOp::Constant { result: id as int, value: 0, ty: Ty::I32 },
            ));
        }
        id
    }

    /// An `arith` operation on `lhs` and `rhs`.
    fn compile_arith(&mut self, block: &mut Vec<Op>, kind: ArithOp, lhs: u64, rhs: u64) -> (r: u64)
        requires
            old(self).next_id < u64::MAX,
        ensures
            expr_done(
                Ok(r),
                tr_arith(old(self).state(), kind, lhs as int, rhs as int),
                (old(self).state(), Seq::<SOp>::empty()),
                final(self).state(),
                ops_view(old(block)@),
                ops_view(final(block)@),
            ),
            final(self).env() == old(self).env(),
    {
        let id = self.fresh();
        block.push(Op::Arith { result: id, kind, lhs, rhs });
        proof {
            assert(ops_view(block@) =~= ops_view(old(block)@) + seq![
                SOp::Arith { result: id as int, kind, lhs: lhs as int, rhs: rhs as int },
            ]);
        }
        id
    }

    /// A comparison of `lhs` and `rhs`, widened to `i64`.
    fn compile_comparison(&mut self, block: &mut Vec<Op>, predicate: Predicate, lhs: u64, rhs: u64) -> (r: u64)
        requires
            old(self).next_id + 2 <= u64::MAX,
        ensures
            expr_done(
                Ok(r),
                tr_compare(old(self).state(), predicate, lhs as int, rhs as int),
                (old(self).state(), Seq::<SOp>::empty()),
                final(self).state(),
                ops_view(old(block)@),
                ops_view(final(block)@),
            ),
            final(self).env() == old(self).env(),
    {
        let flag = self.fresh();
        block.push(Op::Compare { result: flag, predicate, lhs, rhs });
        let id = self.fresh();
        block.push(Op::ExtUI { result: id, operand: flag });
        proof {
            assert(ops_view(block@) =~= ops_view(old(block)@) + seq![
                SOp::Compare { result: flag as int, predicate, lhs: lhs as int, rhs: rhs as int },
                SOp::ExtUI { result: flag + 1, operand: flag as int },
            ]);
        }
        id
    }

    /// A binary operator applied to `lhs` and `rhs`.
    fn compile_binary_expr(&mut self, block: &mut Vec<Op>, op: &BinaryOp, lhs: u64, rhs: u64) -> (r: Result<u64, CompileError>)
        requires
            old(self).next_id + 2 <= u64::MAX,
        ensures
            expr_done(
                r,
                tr_binary(old(self).state(), *op, lhs as int, rhs as int),
                (old(self).state(), Seq::<SOp>::empty()),
                final(self).state(),
                ops_view(old(block)@),
                ops_view(final(block)@),
            ),
            final(self).env() == old(self).env(),
            old(self).next_id <= final(self).next_id <= old(self).next_id + 2,
    {
        proof {
            assert(ops_view(block@) + Seq::<SOp>::empty() =~= ops_view(block@));
        }
        match op {
            BinaryOp::Add => Ok(self.compile_arith(block, ArithOp::AddI, lhs, rhs)),
            BinaryOp::Sub => Ok(self.compile_arith(block, ArithOp::SubI, lhs, rhs)),
            BinaryOp::Mul => Ok(self.compile_arith(block, ArithOp::MulI, lhs, rhs)),
            BinaryOp::Div => Ok(self.compile_arith(block, ArithOp::DivSI, lhs, rhs)),
            BinaryOp::Mod => Ok(self.compile_arith(block, ArithOp::RemSI, lhs, rhs)),
            BinaryOp::Lt => Ok(self.compile_comparison(block, Predicate::Slt, lhs, rhs)),
            BinaryOp::LtEq => Ok(self.compile_comparison(block, Predicate::Sle, lhs, rhs)),
            BinaryOp::Gt => Ok(self.compile_comparison(block, Predicate::Sgt, lhs, rhs)),
            BinaryOp::GtEq => Ok(self.compile_comparison(block, Predicate::Sge, lhs, rhs)),
            BinaryOp::EqEqEq => Ok(self.compile_comparison(block, Predicate::Eq, lhs, rhs)),
            BinaryOp::NotEqEq => Ok(self.compile_comparison(block, Predicate::Ne, lhs, rhs)),
            BinaryOp::Other(name) => Err(CompileError::UnsupportedBinaryOperator(name.clone())),
        }
    }

    /// `console.log(args)`: prints its one argument through `printf`.
    fn compile_console_log(&mut self, block: &mut Vec<Op>, args: &Vec<u64>) -> (r: Result<u64, CompileError>)
        requires
            old(self).next_id + 3 <= u64::MAX,
        ensures
            expr_done(
                r,
                tr_console_log(old(self).state(), ids_view(args@)),
                (old(self).state(), Seq::<SOp>::empty()),
                final(self).state(),
                ops_view(old(block)@),
                ops_view(final(block)@),
            ),
            final(self).env() == old(self).env(),
            old(self).next_id <= final(self).next_id <= old(self).next_id + 3,
    {
        proof {
            assert(ops_view(block@) + Seq::<SOp>::empty() =~= ops_view(block@));
        }
        if args.len() != 1 {
            return Err(CompileError::ConsoleLogArity);
        }
        self.ensure_printf_support();
        let fmt_ptr = self.fresh();
        block.push(Op::AddressOf { result: fmt_ptr, global: String::from_str("fmt") });
        let printed = self.fresh();
        let call_args = vec![fmt_ptr, args[0]];
        assert(ids_view(call_args@) =~= seq![fmt_ptr as int, ids_view(args@)[0]]);
        block.push(Op::VarargCall {
            result: printed,
            callee: String::from_str("printf"),
            args: call_args,
        });
        let ghost mid = ops_view(block@);
        let zero = self.zero_i64(block);
        proof {
            assert(ops_view(block@) =~= ops_view(old(block)@) + seq![
                SOp::AddressOf { result: fmt_ptr as int, global: fmt_name() },
                SOp::VarargCall {
                    result: fmt_ptr + 1,
                    callee: printf_name(),
                    args: seq![fmt_ptr as int, ids_view(args@)[0]],
                },
                SOp::Constant { result: fmt_ptr + 2, value: 0, ty: Ty::I64 },
            ]);
        }
        Ok(zero)
    }

    /// A call of the module function `name`; one that returns nothing is
    /// valued 0.
    fn compile_function_call(&mut self, block: &mut Vec<Op>, name: &String, args: Vec<u64>) -> (r: Result<u64, CompileError>)
        requires
            old(self).next_id + 1 <= u64::MAX,
        ensures
            expr_done(
                r,
                tr_call(old(self).env(), old(self).state(), Callee::Ident(*name), ids_view(args@)),
                (old(self).state(), Seq::<SOp>::empty()),
                final(self).state(),
                ops_view(old(block)@),
                ops_view(final(block)@),
            ),
            final(self).env() == old(self).env(),
            old(self).next_id <= final(self).next_id <= old(self).next_id + 1,
    {
        proof {
            assert(ops_view(block@) + Seq::<SOp>::empty() =~= ops_view(block@));
        }
        let is_void = match lookup_flag(&self.fn_returns, name) {
            Some(v) => v,
            None => return Err(CompileError::UndefinedFunction(name.clone())),
        };
        let ghost vals = ids_view(args@);
        if is_void {
            block.push(Op::Call { callee: name.clone(), args, result: None });
            let zero = self.zero_i64(block);
            proof {
                assert(ops_view(block@) =~= ops_view(old(block)@) + seq![
                    SOp::Call { callee: name@, args: vals, result: None },
                    SOp::Constant { result: zero as int, value: 0, ty: Ty::I64 },
                ]);
            }
            Ok(zero)
        } else {
            let id = self.fresh();
            block.push(Op::Call { callee: name.clone(), args, result: Some((id, Ty::I64)) });
            proof {
                assert(ops_view(block@) =~= ops_view(old(block)@) + seq![
                    SOp::Call { callee: name@, args: vals, result: Some((id as int, Ty::I64)) },
                ]);
            }
            Ok(id)
        }
    }

    /// A call of `callee` with the argument values `args`.
    fn compile_call(&mut self, block: &mut Vec<Op>, callee: &Callee, args: Vec<u64>) -> (r: Result<u64, CompileError>)
        requires
            old(self).next_id + 3 <= u64::MAX,
        ensures
            expr_done(
                r,
                tr_call(old(self).env(), old(self).state(), *callee, ids_view(args@)),
                (old(self).state(), Seq::<SOp>::empty()),
                final(self).state(),
                ops_view(old(block)@),
                ops_view(final(block)@),
            ),
            final(self).env() == old(self).env(),
            old(self).next_id <= final(self).next_id <= old(self).next_id + 3,
    {
        proof {
            assert(ops_view(block@) + Seq::<SOp>::empty() =~= ops_view(block@));
        }
        match callee {
            Callee::Member { obj, prop } => {
                if is_console_log_exec(obj, prop) {
                    self.compile_console_log(block, &args)
                } else {
                    Err(CompileError::UnsupportedMethodCall)
                }
            },
            Callee::Ident(name) => self.compile_function_call(block, name, args),
            Callee::OtherExpr => Err(CompileError::UnsupportedCalleeExpression),
            Callee::Other => Err(CompileError::UnsupportedCallee),
        }
    }

    /// An expression: appends the operations that compute it to `block` and
    /// returns the id of its value.
    fn compile_expr(&mut self, block: &mut Vec<Op>, expr: &Expr, vars: &Vec<(String, u64)>) -> (r: Result<u64, CompileError>)
        requires
            old(self).next_id + expr_cost(*expr) <= u64::MAX,
        ensures
            expr_done(
                r,
                tr_expr(old(self).env(), old(self).state(), *expr, ids_scope(vars@)),
                fx_expr(old(self).env(), old(self).state(), *expr, ids_scope(vars@)),
                final(self).state(),
                ops_view(old(block)@),
                ops_view(final(block)@),
            ),
            final(self).env() == old(self).env(),
            old(self).next_id <= final(self).next_id <= old(self).next_id + expr_cost(*expr),
        decreases expr,
    {
        proof {
            assert(ops_view(block@) + Seq::<SOp>::empty() =~= ops_view(block@));
        }
        match expr {
            Expr::Num(v) => {
                let id = self.fresh();
                block.push(Op::Constant { result: id, value: *v, ty: Ty::I64 });
                proof {
                    assert(ops_view(block@) =~= ops_view(old(block)@) + seq![
                        SOp::Constant { result: id as int, value: *v as int, ty: Ty::I64 },
                    ]);
                }
                Ok(id)
            },
            Expr::Ident(name) => match lookup_id(vars, name) {
                Some(id) => {
                    assert(ops_view(block@) =~= ops_view(old(block)@) + seq![]);
                    Ok(id)
                },
                None => Err(CompileError::UnknownIdentifier(name.clone())),
            },
            Expr::Paren { inner, .. } => self.compile_expr(block, inner, vars),
            Expr::Call { callee, args, .. } => {
                let vals = match self.compile_args(block, args, vars) {
                    Ok(vals) => vals,
                    Err(e) => return Err(e),
                };
                let ghost mid_ops = ops_view(block@);
                let ghost mid_state = self.state();
                let r = self.compile_call(block, callee, vals);
                proof {
                    let b0 = ops_view(old(block)@);
                    let a = tr_args(old(self).env(), old(self).state(), args@, ids_scope(vars@));
                    let ops1 = a->Ok_0.1;
                    assert(mid_ops == b0 + ops1);
                    let c = tr_call(old(self).env(), a->Ok_0.0, *callee, a->Ok_0.2);
                    if c is Ok {
                        let ops2 = c->Ok_0.1;
                        assert(ops_view(block@) == mid_ops + ops2);
                        assert(ops_view(block@) =~= b0 + (ops1 + ops2));
                    } else {
                        assert(ops_view(block@) =~= b0 + ops1);
                    }
                }
                r
            },
            Expr::Bin { op, left, right } => {
                let l = match self.compile_expr(block, left, vars) {
                    Ok(l) => l,
                    Err(e) => return Err(e),
                };
                let ghost mid1 = ops_view(block@);
                let r = match self.compile_expr(block, right, vars) {
                    Ok(r) => r,
                    Err(e) => {
                        proof {
                            let e1 = tr_expr(old(self).env(), old(self).state(), **left, ids_scope(vars@));
                            let f = fx_expr(old(self).env(), e1->Ok_0.0, **right, ids_scope(vars@));
                            assert(ops_view(block@) =~= ops_view(old(block)@) + (e1->Ok_0.1 + f.1));
                        }
                        return Err(e);
                    },
                };
                let ghost mid2 = ops_view(block@);
                let v = self.compile_binary_expr(block, op, l, r);
                proof {
                    let b0 = ops_view(old(block)@);
                    let e1 = tr_expr(old(self).env(), old(self).state(), **left, ids_scope(vars@));
                    let ops1 = e1->Ok_0.1;
                    assert(mid1 == b0 + ops1);
                    let e2 = tr_expr(old(self).env(), e1->Ok_0.0, **right, ids_scope(vars@));
                    let ops2 = e2->Ok_0.1;
                    assert(mid2 == mid1 + ops2);
                    let e3 = tr_binary(e2->Ok_0.0, *op, e1->Ok_0.2, e2->Ok_0.2);
                    if e3 is Ok {
                        let ops3 = e3->Ok_0.1;
                        assert(ops_view(block@) == mid2 + ops3);
                        assert(ops_view(block@) =~= b0 + (ops1 + ops2 + ops3));
                    } else {
                        assert(ops_view(block@) =~= b0 + (ops1 + ops2));
                    }
                }
                v
            },
            Expr::Other { text, .. } => Err(CompileError::UnsupportedExpression(text.clone())),
        }
    }

    /// Arguments, left to right: appends their operations and returns the
    /// ids of their values.
    fn compile_args(&mut self, block: &mut Vec<Op>, args: &Vec<Expr>, vars: &Vec<(String, u64)>) -> (r: Result<Vec<u64>, CompileError>)
        requires
            old(self).next_id + args_cost(args@) <= u64::MAX,
        ensures
            match tr_args(old(self).env(), old(self).state(), args@, ids_scope(vars@)) {
                Ok((g, ops, vals)) => r matches Ok(v) && ids_view(v@) == vals
                    && final(self).state() == g
                    && ops_view(final(block)@) == ops_view(old(block)@) + ops,
                Err(e) => r == Err::<Vec<u64>, CompileError>(e)
                    && final(self).state() == fx_args(old(self).env(), old(self).state(), args@, ids_scope(vars@)).0
                    && ops_view(final(block)@) == ops_view(old(block)@)
                        + fx_args(old(self).env(), old(self).state(), args@, ids_scope(vars@)).1,
            },
            final(self).env() == old(self).env(),
            old(self).next_id <= final(self).next_id <= old(self).next_id + args_cost(args@),
        decreases args@,
    {
        let ghost env = self.env();
        let ghost g0 = self.state();
        let ghost b0 = ops_view(block@);
        let ghost sv = ids_scope(vars@);
        let mut vals: Vec<u64> = Vec::new();
        let n = args.len();
        let mut i: usize = 0;
        assert(args@.skip(0) =~= args@);
        assert(ops_view(block@).skip(b0.len() as int) + fx_args(env, g0, args@, sv).1 =~= fx_args(env, g0, args@, sv).1);
        while i < n
            invariant
                n == args.len(),
                i <= n,
                env == old(self).env(),
                g0 == old(self).state(),
                b0 == ops_view(old(block)@),
                sv == ids_scope(vars@),
                self.env() == env,
                b0.len() <= ops_view(block@).len(),
                ops_view(block@).take(b0.len() as int) == b0,
                g0.next <= self.next_id,
                self.next_id + args_cost(args@.skip(i as int)) <= g0.next + args_cost(args@),
                g0.next + args_cost(args@) <= u64::MAX,
                match tr_args(env, self.state(), args@.skip(i as int), sv) {
                    Ok((g2, o2, vs2)) => tr_args(env, g0, args@, sv) == Ok::<_, CompileError>((
                        g2,
                        ops_view(block@).skip(b0.len() as int) + o2,
                        ids_view(vals@) + vs2,
                    )),
                    Err(e) => tr_args(env, g0, args@, sv) == Err::<(GenState, Seq<SOp>, Seq<int>), CompileError>(e)
                        && fx_args(env, g0, args@, sv) == (
                            fx_args(env, self.state(), args@.skip(i as int), sv).0,
                            ops_view(block@).skip(b0.len() as int) + fx_args(env, self.state(), args@.skip(i as int), sv).1,
                        ),
                },
            decreases n - i,
        {
            let ghost s = args@.skip(i as int);
            assert(s[0] == args@[i as int]);
            assert(s.skip(1) =~= args@.skip(i + 1));
            let ghost before = ops_view(block@);
            let ghost st = self.state();
            let v = match self.compile_expr(block, &args[i], vars) {
                Ok(v) => v,
                Err(e) => {
                    proof {
                        let f = fx_expr(env, st, s[0], sv);
                        assert(fx_args(env, st, s, sv) == f);
                        assert(before =~= b0 + before.skip(b0.len() as int));
                        assert(ops_view(block@) =~= b0 + (before.skip(b0.len() as int) + f.1));
                    }
                    return Err(e);
                },
            };
            proof {
                let o1 = ops_view(block@).skip(before.len() as int);
                assert(ops_view(block@) =~= before + o1);
                assert(ops_view(block@).skip(b0.len() as int) =~= before.skip(b0.len() as int) + o1);
                assert(ops_view(block@).take(b0.len() as int) =~= before.take(b0.len() as int));
                let out = tr_expr(env, st, s[0], sv);
                assert(out is Ok);
                let ops1 = out->Ok_0.1;
                assert(ops_view(block@) == before + ops1);
                assert(ops1 =~= o1);
                assert(out == Ok::<_, CompileError>((self.state(), o1, v as int)));
                assert(tr_args(env, st, s, sv) == match tr_args(env, self.state(), s.skip(1), sv) {
                    Ok((g2, o2, vs2)) => Ok((g2, o1 + o2, seq![v as int] + vs2)),
                    Err(err) => Err(err),
                });
                match tr_args(env, self.state(), args@.skip(i + 1), sv) {
                    Ok((g2, o2, vs2)) => {
                        assert(before.skip(b0.len() as int) + (o1 + o2) =~= (before.skip(b0.len() as int) + o1) + o2);
                        assert(ids_view(vals@) + (seq![v as int] + vs2) =~= ids_view(vals@.push(v)) + vs2);
                    },
                    Err(e) => {
                        let f = fx_args(env, self.state(), args@.skip(i + 1), sv);
                        assert(fx_args(env, st, s, sv) == (f.0, o1 + f.1));
                        assert(before.skip(b0.len() as int) + (o1 + f.1) =~= (before.skip(b0.len() as int) + o1) + f.1);
                    },
                }
            }
            vals.push(v);
            i = i + 1;
        }
        proof {
            assert(args@.skip(n as int) =~= Seq::<Expr>::empty());
            assert(ids_view(vals@) + Seq::<int>::empty() =~= ids_view(vals@));
            assert(ops_view(block@).skip(b0.len() as int) + Seq::<SOp>::empty() =~= ops_view(block@).skip(b0.len() as int));
            assert(ops_view(block@) =~= b0 + ops_view(block@).skip(b0.len() as int));
        }
        Ok(vals)
    }

    /// Variable declarations: each declarator with a plain name and an
    /// initializer binds the name to the initializer's value.
    fn compile_var_decls(&mut self, cur: &mut Block, decls: &Vec<VarDeclarator>, vars: &mut Vec<(String, u64)>) -> (r: Result<(), CompileError>)
        requires
            old(self).next_id + decls_cost(decls@) <= u64::MAX,
        ensures
            match tr_decls(old(self).env(), old(self).state(), old(cur)@, decls@, ids_scope(old(vars)@)) {
                Ok((g, c, v)) => r is Ok && final(self).state() == g && final(cur)@ == c && ids_scope(final(vars)@) == v,
                Err(e) => r == Err::<(), CompileError>(e),
            },
            final(self).env() == old(self).env(),
            old(self).next_id <= final(self).next_id <= old(self).next_id + decls_cost(decls@),
            extends(final(vars)@, old(vars)@),
            r is Err ==> final(self).state() == fx_decls(old(self).env(), old(self).state(), old(cur)@, decls@, ids_scope(old(vars)@)),
    {
        let ghost env = self.env();
        let ghost g0 = self.state();
        let ghost c0 = cur@;
        let ghost v0 = ids_scope(vars@);
        let ghost vars0 = vars@;
        let n = decls.len();
        let mut i: usize = 0;
        assert(decls@.skip(0) =~= decls@);
        assert(vars@.take(vars0.len() as int) =~= vars0);
        while i < n
            invariant
                n == decls.len(),
                i <= n,
                env == old(self).env(),
                g0 == old(self).state(),
                c0 == old(cur)@,
                v0 == ids_scope(old(vars)@),
                vars0 == old(vars)@,
                self.env() == env,
                g0.next <= self.next_id,
                self.next_id + decls_cost(decls@.skip(i as int)) <= g0.next + decls_cost(decls@),
                g0.next + decls_cost(decls@) <= u64::MAX,
                extends(vars@, vars0),
                match tr_decls(env, self.state(), cur@, decls@.skip(i as int), ids_scope(vars@)) {
                    Ok(out) => tr_decls(env, g0, c0, decls@, v0) == Ok::<_, CompileError>(out),
                    Err(e) => tr_decls(env, g0, c0, decls@, v0) == Err::<(GenState, SBlock, Vars), CompileError>(e),
                },
                fx_decls(env, self.state(), cur@, decls@.skip(i as int), ids_scope(vars@)) == fx_decls(env, g0, c0, decls@, v0),
            decreases n - i,
        {
            let ghost s = decls@.skip(i as int);
            assert(s[0] == decls@[i as int]);
            assert(s.skip(1) =~= decls@.skip(i + 1));
            let d = &decls[i];
            let ghost st = self.state();
            let ghost before = cur@;
            let ghost vs = ids_scope(vars@);
            let ghost prev = vars@;
            match (&d.name, &d.init) {
                (Some(name), Some(init)) => {
                    let v = match self.compile_expr(&mut cur.ops, init, vars) {
                        Ok(v) => v,
                        Err(e) => {
                            assert(fx_decls(env, st, before, s, vs) == fx_expr(env, st, *init, vs).0);
                            return Err(e);
                        },
                    };
                    let ghost out = tr_expr(env, st, *init, vs);
                    proof {
                        let ops = out->Ok_0.1;
                        crate::ir::lemma_sblock_ext(cur@, append_ops(before, ops));
                    }
                    vars.push((name.clone(), v));
                    proof {
                        assert(ids_scope(vars@) =~= vs.push((name@, v as int)));
                        assert(vars@.take(vars0.len() as int) =~= prev.take(vars0.len() as int));
                        assert(tr_decls(env, st, before, s, vs) == tr_decls(
                            env,
                            self.state(),
                            cur@,
                            s.skip(1),
                            ids_scope(vars@),
                        ));
                        assert(fx_decls(env, st, before, s, vs) == fx_decls(
                            env,
                            self.state(),
                            cur@,
                            s.skip(1),
                            ids_scope(vars@),
                        ));
                    }
                },
                _ => {
                    assert(tr_decls(env, st, before, s, vs) == tr_decls(env, st, before, s.skip(1), vs));
                    assert(fx_decls(env, st, before, s, vs) == fx_decls(env, st, before, s.skip(1), vs));
                },
            }
            i = i + 1;
        }
        proof {
            assert(decls@.skip(n as int) =~= Seq::<VarDeclarator>::empty());
        }
        Ok(())
    }

    /// A statement, compiled into `cur`.
    fn compile_stmt(&mut self, cur: &mut Block, stmt: &Stmt, vars: &mut Vec<(String, u64)>) -> (r: Result<StmtControl, CompileError>)
        requires
            old(self).next_id + stmt_cost(*stmt) <= u64::MAX,
        ensures
            stmt_done(
                r,
                tr_stmt(old(self).env(), old(self).state(), old(cur)@, *stmt, ids_scope(old(vars)@)),
                final(self).state(),
                final(cur)@,
                ids_scope(final(vars)@),
            ),
            final(self).env() == old(self).env(),
            old(self).next_id <= final(self).next_id <= old(self).next_id + stmt_cost(*stmt),
            extends(final(vars)@, old(vars)@),
            r is Err ==> final(self).state() == fx_stmt(old(self).env(), old(self).state(), old(cur)@, *stmt, ids_scope(old(vars)@)),
        decreases stmt, 3nat,
    {
        let ghost before = cur@;
        assert(vars@.take(vars@.len() as int) =~= vars@);
        match stmt {
            Stmt::Var(decls) => match self.compile_var_decls(cur, decls, vars) {
                Ok(()) => Ok(StmtControl::Continue),
                Err(e) => Err(e),
            },
            Stmt::Return(arg) => {
                assert(vars@.take(vars@.len() as int) =~= vars@);
                match arg {
                    Some(e) => {
                        let v = match self.compile_expr(&mut cur.ops, e, vars) {
                            Ok(v) => v,
                            Err(err) => return Err(err),
                        };
                        let ghost mid = cur@;
                        let operands = vec![v];
                        assert(ids_view(operands@) =~= seq![v as int]);
                        let ret = Op::Return { operands };
                        assert(ret@ == SOp::Return { operands: seq![v as int] });
                        let ghost mid_ops = cur.ops@;
                        cur.ops.push(ret);
                        assert(ops_view(cur.ops@) =~= ops_view(mid_ops).push(SOp::Return { operands: seq![v as int] }));
                        proof {
                            let ops = tr_expr(old(self).env(), old(self).state(), *e, ids_scope(vars@))->Ok_0.1;
                            assert(mid =~= append_ops(before, ops));
                            crate::ir::lemma_sblock_ext(cur@, append_ops(before, ops.push(SOp::Return { operands: seq![v as int] })));
                        }
                        Ok(StmtControl::Terminated)
                    },
                    None => {
                        let operands: Vec<u64> = Vec::new();
                        assert(ids_view(operands@) =~= Seq::<int>::empty());
                        cur.ops.push(Op::Return { operands });
                        proof {
                            crate::ir::lemma_sblock_ext(cur@, append_ops(before, seq![SOp::Return { operands: seq![] }]));
                        }
                        Ok(StmtControl::Terminated)
                    },
                }
            },
            Stmt::Expr(e) => {
                assert(vars@.take(vars@.len() as int) =~= vars@);
                match self.compile_expr(&mut cur.ops, e, vars) {
                    Ok(_) => {
                        proof {
                            let ops = tr_expr(old(self).env(), old(self).state(), *e, ids_scope(vars@))->Ok_0.1;
                            crate::ir::lemma_sblock_ext(cur@, append_ops(before, ops));
                        }
                        Ok(StmtControl::Continue)
                    },
                    Err(err) => Err(err),
                }
            },
            Stmt::If { .. } => {
                if !self.branches {
                    assert(vars@.take(vars@.len() as int) =~= vars@);
                    Ok(StmtControl::Continue)
                } else {
                    match self.compile_if_stmt(cur, stmt, vars) {
                        Ok((merge, term)) => if term {
                            Ok(StmtControl::Terminated)
                        } else {
                            Ok(StmtControl::Branch(merge))
                        },
                        Err(e) => Err(e),
                    }
                }
            },
            _ => {
                assert(vars@.take(vars@.len() as int) =~= vars@);
                Ok(StmtControl::Continue)
            },
        }
    }

    /// An `if` statement: the test, truncated to `i1`, selects a branch;
    /// both branches continue in a new merge block, which is returned with
    /// whether both branches return.
    fn compile_if_stmt(&mut self, cur: &mut Block, stmt: &Stmt, vars: &mut Vec<(String, u64)>) -> (r: Result<(Block, bool), CompileError>)
        requires
            stmt is If,
            old(self).env().branches,
            old(self).next_id + stmt_cost(*stmt) <= u64::MAX,
        ensures
            match tr_stmt(old(self).env(), old(self).state(), old(cur)@, *stmt, ids_scope(old(vars)@)) {
                Ok((g, c, v, ctl)) => r matches Ok((b, term)) && final(self).state() == g && final(cur)@ == c
                    && v == ids_scope(old(vars)@)
                    && b@ == empty_block(b.id as int)
                    && (if term { ctl is Terminated } else { ctl == Control::Branch(b.id as int) }),
                Err(e) => r == Err::<(Block, bool), CompileError>(e),
            },
            final(self).env() == old(self).env(),
            old(self).next_id <= final(self).next_id <= old(self).next_id + stmt_cost(*stmt),
            final(vars)@ == old(vars)@,
            r is Err ==> final(self).state() == fx_stmt(old(self).env(), old(self).state(), old(cur)@, *stmt, ids_scope(old(vars)@)),
        decreases stmt, 2nat,
    {
        let (test, cons, alt) = match stmt {
            Stmt::If { test, cons, alt } => (test, cons, alt),
            _ => return Err(CompileError::UnsupportedCallee),
        };
        let ghost env = self.env();
        let ghost before = cur@;
        let ghost vs = ids_scope(vars@);
        let cond = match self.compile_expr(&mut cur.ops, test, vars) {
            Ok(c) => c,
            Err(e) => return Err(e),
        };
        let ghost g1 = self.state();
        let ghost ops = tr_expr(env, old(self).state(), *test, vs)->Ok_0.1;
        proof {
            crate::ir::lemma_sblock_ext(cur@, append_ops(before, ops));
        }
        let ghost mid = cur@;
        let t = self.fresh();
        cur.ops.push(Op::TruncI { result: t, operand: cond });
        proof {
            crate::ir::lemma_sblock_ext(cur@, append_ops(mid, seq![SOp::TruncI { result: t as int, operand: cond as int }]));
        }
        let then_id = self.fresh();
        let else_id = self.fresh();
        let merge_id = self.fresh();
        let ghost mid2 = cur@;
        cur.ops.push(Op::CondBr { cond: t, then_dest: then_id, else_dest: else_id });
        proof {
            crate::ir::lemma_sblock_ext(cur@, append_ops(mid2, seq![SOp::CondBr { cond: t as int, then_dest: t + 1, else_dest: t + 2 }]));
        }
        proof {
            crate::ir::lemma_sblock_ext(cur@, append_ops(before, ops + seq![
                SOp::TruncI { result: t as int, operand: cond as int },
                SOp::CondBr { cond: t as int, then_dest: t + 1, else_dest: t + 2 },
            ]));
        }
        let then_block = Block { id: then_id, args: Vec::new(), ops: Vec::new() };
        proof {
            crate::ir::lemma_sblock_ext(then_block@, empty_block(then_id as int));
        }
        let then_term = match self.compile_into_block(then_block, cons, vars, merge_id) {
            Ok(b) => b,
            Err(e) => return Err(e),
        };
        let else_term = match alt {
            Some(a) => {
                let else_block = Block { id: else_id, args: Vec::new(), ops: Vec::new() };
                proof {
                    crate::ir::lemma_sblock_ext(else_block@, empty_block(else_id as int));
                }
                match self.compile_into_block(else_block, a, vars, merge_id) {
                    Ok(b) => b,
                    Err(e) => return Err(e),
                }
            },
            None => {
                let ghost p0 = self.state().pending;
                let mut ops = Vec::new();
                ops.push(Op::Br { dest: merge_id });
                let else_block = Block { id: else_id, args: Vec::new(), ops };
                proof {
                    crate::ir::lemma_sblock_ext(else_block@, (SBlock {
                                        id: t + 2,
                                        args: seq![],
                                        ops: seq![SOp::Br { dest: t + 3 }],
                                    }));
                }
                self.pending_blocks.push(else_block);
                assert(self.state().pending =~= p0.push(else_block@));
                false
            },
        };
        let merge = Block { id: merge_id, args: Vec::new(), ops: Vec::new() };
        proof {
            crate::ir::lemma_sblock_ext(merge@, empty_block(merge_id as int));
        }
        Ok((merge, then_term && else_term))
    }

    /// The body of a branch, compiled from the block `start`; its blocks go
    /// to the pending blocks, the last one branching to `merge` unless it
    /// returns. Returns whether it returns.
    fn compile_into_block(&mut self, start: Block, body: &Stmt, vars: &mut Vec<(String, u64)>, merge: u64) -> (r: Result<bool, CompileError>)
        requires
            start@ == empty_block(start.id as int),
            old(self).next_id + body_cost(*body) <= u64::MAX,
        ensures
            match tr_into_block(old(self).env(), old(self).state(), start.id as int, *body, ids_scope(old(vars)@), merge as int) {
                Ok((g, term)) => r == Ok::<bool, CompileError>(term) && final(self).state() == g,
                Err(e) => r == Err::<bool, CompileError>(e),
            },
            final(self).env() == old(self).env(),
            old(self).next_id <= final(self).next_id <= old(self).next_id + body_cost(*body),
            final(vars)@ == old(vars)@,
            r is Err ==> final(self).state() == fx_into_block(old(self).env(), old(self).state(), start.id as int, *body, ids_scope(old(vars)@), merge as int),
        decreases body, 5nat,
    {
        let saved = vars.len();
        let ghost vars0 = vars@;
        let mut chain: Vec<Block> = Vec::new();
        assert(blocks_view(chain@) =~= Seq::<SBlock>::empty());
        let mut current = start;
        let r = match body {
            Stmt::Block(ss) => self.compile_stmts(&mut chain, &mut current, ss, vars),
            _ => self.compile_step(&mut chain, &mut current, body, vars),
        };
        vars.truncate(saved);
        assert(vars@ =~= vars0);
        let term = match r {
            Ok(t) => t,
            Err(e) => return Err(e),
        };
        let ghost cur_v = current@;
        if !term {
            current.ops.push(Op::Br { dest: merge });
            proof {
                crate::ir::lemma_sblock_ext(current@, append_ops(cur_v, seq![SOp::Br { dest: merge as int }]));
            }
        }
        let ghost p0 = self.state().pending;
        let ghost pv = self.pending_blocks@;
        let ghost ch = blocks_view(chain@);
        chain.push(current);
        let ghost full = chain@;
        assert(blocks_view(full) =~= ch.push(full.last()@));
        self.pending_blocks.append(&mut chain);
        assert(self.pending_blocks@ == pv + full);
        assert(blocks_view(pv + full) =~= blocks_view(pv) + blocks_view(full));
        assert(self.state().pending =~= p0 + ch.push(full.last()@));
        Ok(term)
    }

    /// One statement of a sequence: a branch finishes `cur`, which joins
    /// `chain`, and the sequence continues in the merge block.
    fn compile_step(&mut self, chain: &mut Vec<Block>, cur: &mut Block, stmt: &Stmt, vars: &mut Vec<(String, u64)>) -> (r: Result<bool, CompileError>)
        requires
            old(self).next_id + stmt_cost(*stmt) <= u64::MAX,
        ensures
            stmts_done(
                r,
                tr_step(old(self).env(), old(self).state(), blocks_view(old(chain)@), old(cur)@, *stmt, ids_scope(old(vars)@)),
                final(self).state(),
                blocks_view(final(chain)@),
                final(cur)@,
                ids_scope(final(vars)@),
            ),
            final(self).env() == old(self).env(),
            old(self).next_id <= final(self).next_id <= old(self).next_id + stmt_cost(*stmt),
            extends(final(vars)@, old(vars)@),
            r is Err ==> final(self).state() == fx_step(old(self).env(), old(self).state(), blocks_view(old(chain)@), old(cur)@, *stmt, ids_scope(old(vars)@)),
        decreases stmt, 4nat,
    {
        match self.compile_stmt(cur, stmt, vars) {
            Ok(StmtControl::Continue) => Ok(false),
            Ok(StmtControl::Terminated) => Ok(true),
            Ok(StmtControl::Branch(merge)) => {
                let mut m = merge;
                std::mem::swap(cur, &mut m);
                let ghost ch = blocks_view(chain@);
                chain.push(m);
                assert(blocks_view(chain@) =~= ch.push(m@));
                Ok(false)
            },
            Err(e) => Err(e),
        }
    }

    /// Statements in order, until one returns; returns whether one did.
    fn compile_stmts(&mut self, chain: &mut Vec<Block>, cur: &mut Block, stmts: &Vec<Stmt>, vars: &mut Vec<(String, u64)>) -> (r: Result<bool, CompileError>)
        requires
            old(self).next_id + stmts_cost(stmts@) <= u64::MAX,
        ensures
            stmts_done(
                r,
                tr_stmts(old(self).env(), old(self).state(), blocks_view(old(chain)@), old(cur)@, stmts@, ids_scope(old(vars)@)),
                final(self).state(),
                blocks_view(final(chain)@),
                final(cur)@,
                ids_scope(final(vars)@),
            ),
            final(self).env() == old(self).env(),
            old(self).next_id <= final(self).next_id <= old(self).next_id + stmts_cost(stmts@),
            extends(final(vars)@, old(vars)@),
            r is Err ==> final(self).state() == fx_stmts(old(self).env(), old(self).state(), blocks_view(old(chain)@), old(cur)@, stmts@, ids_scope(old(vars)@)),
        decreases stmts@, 0nat,
    {
        let ghost env = self.env();
        let ghost g0 = self.state();
        let ghost ch0 = blocks_view(chain@);
        let ghost c0 = cur@;
        let ghost v0 = ids_scope(vars@);
        let ghost vars0 = vars@;
        let n = stmts.len();
        let mut i: usize = 0;
        assert(stmts@.skip(0) =~= stmts@);
        assert(vars@.take(vars0.len() as int) =~= vars0);
        while i < n
            invariant
                n == stmts.len(),
                i <= n,
                env == old(self).env(),
                g0 == old(self).state(),
                ch0 == blocks_view(old(chain)@),
                c0 == old(cur)@,
                v0 == ids_scope(old(vars)@),
                vars0 == old(vars)@,
                self.env() == env,
                g0.next <= self.next_id,
                self.next_id + stmts_cost(stmts@.skip(i as int)) <= g0.next + stmts_cost(stmts@),
                g0.next + stmts_cost(stmts@) <= u64::MAX,
                extends(vars@, vars0),
                tr_stmts(env, self.state(), blocks_view(chain@), cur@, stmts@.skip(i as int), ids_scope(vars@))
                    == tr_stmts(env, g0, ch0, c0, stmts@, v0),
                fx_stmts(env, self.state(), blocks_view(chain@), cur@, stmts@.skip(i as int), ids_scope(vars@))
                    == fx_stmts(env, g0, ch0, c0, stmts@, v0),
            decreases n - i,
        {
            let ghost s = stmts@.skip(i as int);
            assert(s[0] == stmts@[i as int]);
            assert(s.skip(1) =~= stmts@.skip(i + 1));
            let ghost prev = vars@;
            let r = self.compile_step(chain, cur, &stmts[i], vars);
            assert(vars@.take(vars0.len() as int) =~= prev.take(vars0.len() as int));
            let term = match r {
                Ok(t) => t,
                Err(e) => return Err(e),
            };
            if term {
                return Ok(true);
            }
            i = i + 1;
        }
        proof {
            assert(stmts@.skip(n as int) =~= Seq::<Stmt>::empty());
        }
        Ok(false)
    }

    /// A function declaration: appends its `func.func` to the module.
    fn compile_function(&mut self, function: &FnDecl) -> (r: Result<(), CompileError>)
        requires
            old(self).next_id + fn_cost(*function) <= u64::MAX,
        ensures
            match tr_function(old(self).env(), old(self).state(), *function) {
                Ok(g) => r is Ok && final(self).state() == g,
                Err(e) => r == Err::<(), CompileError>(e)
                    && final(self).state() == fx_function(old(self).env(), old(self).state(), *function),
            },
            final(self).env() == old(self).env(),
            old(self).next_id <= final(self).next_id <= old(self).next_id + fn_cost(*function),
    {
        let ghost g0 = self.state();
        let n = function.params.len();
        let entry = self.fresh();
        let mut args: Vec<(u64, Ty)> = Vec::new();
        let mut vars: Vec<(String, u64)> = Vec::new();
        let mut params: Vec<Ty> = Vec::new();
        let mut i: usize = 0;
        while i < n
            invariant
                n == function.params.len(),
                i <= n,
                self.env() == old(self).env(),
                self.state() == bump(g0, i + 1),
                g0 == old(self).state(),
                entry == g0.next,
                g0.next + fn_cost(*function) <= u64::MAX,
                typed_ids_view(args@) =~= i64_args(i as nat, entry + 1),
                params@ =~= Seq::new(i as nat, |k: int| Ty::I64),
                ids_scope(vars@) == param_vars(function.params@.take(i as int), entry + 1),
            decreases n - i,
        {
            let id = self.fresh();
            assert(id == entry + 1 + i);
            let ghost av = args@;
            args.push((id, Ty::I64));
            params.push(Ty::I64);
            assert(typed_ids_view(args@) =~= typed_ids_view(av).push((id as int, Ty::I64)));
            assert(typed_ids_view(args@) =~= i64_args((i + 1) as nat, entry + 1));
            let ghost pv = vars@;
            match &function.params[i].name {
                Some(name) => {
                    vars.push((name.clone(), id));
                },
                None => {},
            }
            proof {
                let ps = function.params@.take(i + 1);
                assert(ps.drop_last() =~= function.params@.take(i as int));
                assert(ids_scope(vars@) =~= param_vars(ps, entry + 1));
            }
            i = i + 1;
        }
        assert(function.params@.take(n as int) =~= function.params@);
        let is_void = is_void_function(function);
        let mut cur = Block { id: entry, args, ops: Vec::new() };
        let mut chain: Vec<Block> = Vec::new();
        assert(blocks_view(chain@) =~= Seq::<SBlock>::empty());
        proof {
            crate::ir::lemma_sblock_ext(cur@, (SBlock { id: entry as int, args: i64_args(n as nat, entry + 1), ops: seq![] }));
        }
        let term = match &function.body {
            Some(body) => match self.compile_stmts(&mut chain, &mut cur, body, &mut vars) {
                Ok(t) => t,
                Err(e) => return Err(e),
            },
            None => false,
        };
        let ghost g1 = self.state();
        let ghost cur_v = cur@;
        if !term {
            if is_void {
                let operands: Vec<u64> = Vec::new();
                assert(ids_view(operands@) =~= Seq::<int>::empty());
                cur.ops.push(Op::Return { operands });
                proof {
                    crate::ir::lemma_sblock_ext(cur@, crate::codegen_spec::append_ops(cur_v, seq![SOp::Return { operands: seq![] }]));
                }
            } else {
                return Err(CompileError::MissingReturn(function.name.clone()));
            }
        }
        let ghost ch = blocks_view(chain@);
        chain.push(cur);
        let ghost full = chain@;
        let ghost pending = self.pending_blocks@;
        chain.append(&mut self.pending_blocks);
        proof {
            assert(blocks_view(full) =~= ch.push(full.last()@));
            assert(blocks_view(full + pending) =~= blocks_view(full) + blocks_view(pending));
            assert(blocks_view(chain@) =~= finish_blocks(g1, ch, cur_v, term, seq![SOp::Return { operands: seq![] }]));
        }
        let results = if is_void { Vec::new() } else { vec![Ty::I64] };
        let func = FuncOp { name: function.name.clone(), params, results, blocks: chain, private: false };
        let ghost m0 = self.module@;
        self.module.push(ModuleOp::Func(func));
        proof {
            assert(module_ops_view(self.module@) =~= module_ops_view(m0).push(SModuleOp::Func(func@)));
            assert(blocks_view(self.pending_blocks@) =~= Seq::<SBlock>::empty());
            if is_void {
                assert(func@.results =~= Seq::<Ty>::empty());
            } else {
                assert(func@.results =~= seq![Ty::I64]);
            }
        }
        Ok(())
    }

    /// The `main` function: the top-level statements of `module`, then
    /// `return 0` as an `i32`; with `if` statements compiled, only where
    /// the statements did not return.
    fn compile_main_entry(&mut self, module: &Module) -> (r: Result<(), CompileError>)
        requires
            old(self).next_id + stmts_cost(main_stmts(module.body@)) + 2 <= u64::MAX,
        ensures
            match tr_main(old(self).env(), old(self).state(), main_stmts(module.body@)) {
                Ok(g) => r is Ok && final(self).state() == g,
                Err(e) => r == Err::<(), CompileError>(e)
                    && final(self).state() == fx_main(old(self).env(), old(self).state(), main_stmts(module.body@)),
            },
            final(self).env() == old(self).env(),
            old(self).next_id <= final(self).next_id,
    {
        let ghost env = self.env();
        let ghost items = module.body@;
        let ghost all = main_stmts(items);
        let entry = self.fresh();
        let ghost g1 = self.state();
        let mut cur = Block { id: entry, args: Vec::new(), ops: Vec::new() };
        proof {
            crate::ir::lemma_sblock_ext(cur@, crate::codegen_spec::empty_block(entry as int));
        }
        let mut chain: Vec<Block> = Vec::new();
        assert(blocks_view(chain@) =~= Seq::<SBlock>::empty());
        let mut vars: Vec<(String, u64)> = Vec::new();
        assert(ids_scope(vars@) =~= Seq::<(Seq<char>, int)>::empty());
        let ghost overall = tr_stmts(env, g1, seq![], crate::codegen_spec::empty_block(entry as int), all, seq![]);
        let n = module.body.len();
        let mut i: usize = 0;
        let mut term = false;
        assert(items.skip(0) =~= items);
        while i < n && !term
            invariant
                n == module.body.len(),
                i <= n,
                items == module.body@,
                all == main_stmts(items),
                g1 == bump(old(self).state(), 1),
                entry == old(self).next_id,
                env == old(self).env(),
                self.env() == env,
                g1.next <= self.next_id,
                self.next_id + stmts_cost(main_stmts(items.skip(i as int))) <= g1.next + stmts_cost(all),
                g1.next + stmts_cost(all) + 1 <= u64::MAX,
                overall == tr_stmts(env, g1, seq![], crate::codegen_spec::empty_block(entry as int), all, seq![]),
                !term ==> tr_stmts(env, self.state(), blocks_view(chain@), cur@, main_stmts(items.skip(i as int)), ids_scope(vars@)) == overall,
                term ==> overall == Ok::<_, CompileError>((self.state(), blocks_view(chain@), cur@, ids_scope(vars@), true)),
                !term ==> fx_stmts(env, self.state(), blocks_view(chain@), cur@, main_stmts(items.skip(i as int)), ids_scope(vars@))
                    == fx_stmts(env, g1, seq![], crate::codegen_spec::empty_block(entry as int), all, seq![]),
            decreases n - i,
        {
            let ghost sk = items.skip(i as int);
            assert(sk[0] == items[i as int]);
            assert(sk.skip(1) =~= items.skip(i + 1));
            match &module.body[i] {
                ModuleItem::Stmt(Stmt::FnDecl(_)) => {},
                ModuleItem::Stmt(s) => {
                    let ghost rest = main_stmts(items.skip(i + 1));
                    let ghost ms = main_stmts(sk);
                    assert(ms =~= seq![*s] + rest);
                    assert(ms[0] == *s);
                    assert(ms.skip(1) =~= rest);
                    let t = match self.compile_step(&mut chain, &mut cur, s, &mut vars) {
                        Ok(t) => t,
                        Err(e) => return Err(e),
                    };
                    term = t;
                },
                ModuleItem::ModuleDecl => {},
            }
            i = i + 1;
        }
        if !term {
            assert(items.skip(n as int) =~= Seq::<ModuleItem>::empty());
        }
        let ghost g2 = self.state();
        let ghost ch = blocks_view(chain@);
        let ghost cur_v = cur@;
        let zero = !term || !self.branches;
        if zero {
            let ghost o0 = ops_view(cur.ops@);
            let z = self.zero_i32(&mut cur.ops);
            let ghost o1 = ops_view(cur.ops@);
            assert(o1 == o0.push(SOp::Constant { result: z as int, value: 0, ty: Ty::I32 }));
            let operands = vec![z];
            assert(ids_view(operands@) =~= seq![z as int]);
            cur.ops.push(Op::Return { operands });
            assert(ops_view(cur.ops@) =~= o1.push(SOp::Return { operands: seq![z as int] }));
            proof {
                crate::ir::lemma_sblock_ext(cur@, crate::codegen_spec::append_ops(cur_v, seq![
                    SOp::Constant { result: z as int, value: 0, ty: Ty::I32 },
                    SOp::Return { operands: seq![z as int] },
                ]));
            }
        }
        let ghost g3 = self.state();
        chain.push(cur);
        let ghost full = chain@;
        let ghost pending = self.pending_blocks@;
        chain.append(&mut self.pending_blocks);
        proof {
            assert(blocks_view(full) =~= ch.push(full.last()@));
            assert(blocks_view(full + pending) =~= blocks_view(full) + blocks_view(pending));
            assert(blocks_view(chain@) =~= finish_blocks(g3, ch, cur_v, !zero, seq![
                SOp::Constant { result: g2.next, value: 0, ty: Ty::I32 },
                SOp::Return { operands: seq![g2.next] },
            ]));
        }
        let results = vec![Ty::I32];
        let params: Vec<Ty> = Vec::new();
        let func = FuncOp { name: String::from_str("main"), params, results, blocks: chain, private: false };
        let ghost m0 = self.module@;
        self.module.push(ModuleOp::Func(func));
        proof {
            assert(module_ops_view(self.module@) =~= module_ops_view(m0).push(SModuleOp::Func(func@)));
            assert(blocks_view(self.pending_blocks@) =~= Seq::<SBlock>::empty());
            assert(func@.results =~= seq![Ty::I32]);
            assert(func@.params =~= Seq::<Ty>::empty());
        }
        Ok(())
    }

    /// A whole module: its functions in order, then `main`.
    fn compile_module(&mut self, module: &Module) -> (r: Result<(), CompileError>)
        requires
            old(self).next_id + module_cost(module.body@) <= u64::MAX,
        ensures
            match tr_functions(old(self).env(), old(self).state(), module_functions(module.body@)) {
                Ok(g1) => match tr_main(old(self).env(), g1, main_stmts(module.body@)) {
                    Ok(g2) => r is Ok && final(self).state() == g2,
                    Err(e) => r == Err::<(), CompileError>(e)
                        && final(self).state() == fx_main(old(self).env(), g1, main_stmts(module.body@)),
                },
                Err(e) => r == Err::<(), CompileError>(e)
                    && final(self).state() == fx_functions(old(self).env(), old(self).state(), module_functions(module.body@)),
            },
            final(self).env() == old(self).env(),
    {
        let ghost env = self.env();
        let ghost g0 = self.state();
        let ghost items = module.body@;
        let ghost fs = module_functions(items);
        let n = module.body.len();
        let mut i: usize = 0;
        assert(items.skip(0) =~= items);
        while i < n
            invariant
                n == module.body.len(),
                i <= n,
                items == module.body@,
                fs == module_functions(items),
                env == old(self).env(),
                g0 == old(self).state(),
                self.env() == env,
                g0.next <= self.next_id,
                self.next_id + fns_cost(module_functions(items.skip(i as int))) <= g0.next + fns_cost(fs),
                g0.next + module_cost(items) <= u64::MAX,
                tr_functions(env, self.state(), module_functions(items.skip(i as int))) == tr_functions(env, g0, fs),
                fx_functions(env, self.state(), module_functions(items.skip(i as int))) == fx_functions(env, g0, fs),
            decreases n - i,
        {
            let ghost sk = items.skip(i as int);
            assert(sk[0] == items[i as int]);
            assert(sk.skip(1) =~= items.skip(i + 1));
            match &module.body[i] {
                ModuleItem::Stmt(Stmt::FnDecl(f)) => {
                    let ghost rest = module_functions(items.skip(i + 1));
                    let ghost mf = module_functions(sk);
                    assert(mf =~= seq![*f] + rest);
                    assert(mf[0] == *f);
                    assert(mf.skip(1) =~= rest);
                    match self.compile_function(f) {
                        Ok(()) => {},
                        Err(e) => return Err(e),
                    }
                },
                _ => {},
            }
            i = i + 1;
        }
        assert(items.skip(n as int) =~= Seq::<ModuleItem>::empty());
        self.compile_main_entry(module)
    }

    /// A generator for `module`; `branches` tells whether `if` statements
    /// are compiled or skipped.
    fn new(module: &Module, branches: bool) -> (c: Compiler)
        ensures
            c.env() == (GenEnv { fn_returns: fn_returns_of(module.body@), branches }),
            c.state() == crate::codegen_spec::initial_state(),
    {
        let mut fn_returns: Vec<(String, bool)> = Vec::new();
        let n = module.body.len();
        let mut i: usize = 0;
        while i < n
            invariant
                n == module.body.len(),
                i <= n,
                flags_scope(fn_returns@) == fn_returns_of(module.body@.take(i as int)),
            decreases n - i,
        {
            let ghost items = module.body@.take(i + 1);
            assert(items.drop_last() =~= module.body@.take(i as int));
            match &module.body[i] {
                ModuleItem::Stmt(Stmt::FnDecl(f)) => {
                    fn_returns.push((f.name.clone(), is_void_function(f)));
                },
                _ => {},
            }
            assert(flags_scope(fn_returns@) =~= fn_returns_of(items));
            i = i + 1;
        }
        assert(module.body@.take(n as int) =~= module.body@);
        let c = Compiler {
            fn_returns,
            module: Vec::new(),
            printf_declared: false,
            format_declared: false,
            pending_blocks: Vec::new(),
            next_id: 0,
            branches,
        };
        assert(c.state() =~= crate::codegen_spec::initial_state());
        c
    }
}

/// Generates the MLIR of `module`; `branches` tells whether `if`
/// statements are compiled (else they are skipped).
fn generate(module: &Module, branches: bool) -> (r: Result<IrModule, CompileError>)
    ensures
        module_cost(module.body@) >= u64::MAX ==> r == Err::<IrModule, CompileError>(CompileError::ProgramTooLarge),
        module_cost(module.body@) < u64::MAX ==> match tr_module(module.body@, branches) {
            Ok(m) => r matches Ok(x) && x@ == m,
            Err(e) => r == Err::<IrModule, CompileError>(e),
        },
{
    if crate::budget::module_budget(module) == u64::MAX {
        return Err(CompileError::ProgramTooLarge);
    }
    let mut compiler = Compiler::new(module, branches);
    match compiler.compile_module(module) {
        Ok(()) => Ok(IrModule { ops: compiler.module }),
        Err(e) => Err(e),
    }
}

/// Compiles `module` to MLIR, skipping `if` statements: each top-level
/// function becomes a `func.func` over `i64`, the other top-level
/// statements form `main`, and `console.log` prints through `printf`.
pub fn compile(module: &Module) -> (r: Result<IrModule, CompileError>)
    ensures
        module_cost(module.body@) >= u64::MAX ==> r == Err::<IrModule, CompileError>(CompileError::ProgramTooLarge),
        module_cost(module.body@) < u64::MAX ==> match tr_module(module.body@, false) {
            Ok(m) => r matches Ok(x) && x@ == m,
            Err(e) => r == Err::<IrModule, CompileError>(e),
        },
{
    generate(module, false)
}

/// Compiles `module` to MLIR as `compile` does, with `if` statements
/// compiled to conditional branches between blocks.
pub fn emit(module: &Module) -> (r: Result<IrModule, CompileError>)
    ensures
        module_cost(module.body@) >= u64::MAX ==> r == Err::<IrModule, CompileError>(CompileError::ProgramTooLarge),
        module_cost(module.body@) < u64::MAX ==> match tr_module(module.body@, true) {
            Ok(m) => r matches Ok(x) && x@ == m,
            Err(e) => r == Err::<IrModule, CompileError>(e),
        },
{
    generate(module, true)
}

} // verus!
