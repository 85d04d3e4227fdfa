//! The visitor code generator: one handler per kind of node, each stated
//! against `visit_spec`.
use vstd::prelude::*;
use crate::ast::{AssignExpr, AssignTarget, BinaryOp, Callee, Expr, FnDecl, Keyword, Module, ModuleItem, Param, Part, Stmt, TypeAnn, VarDeclarator};
use crate::error::CompileError;
use crate::ir::{
    ArithOp, Block, FuncOp, Module as IrModule, ModuleOp, Op, Predicate, SBlock, SFunc, SModuleOp, SOp, Ty,
    blocks_view, ids_view, module_ops_view, ops_view, typed_ids_view,
};
use crate::scope::{ids_scope, lookup, lookup_id};
use crate::visit_spec::{
    ControlContext, VEnv, VState, arg_vars, block_args, fn_arguments, fns_in_items, fns_in_stmt,
    fns_in_stmts, fns_in_parts, typed_parts, vx_exprs, vx_parts, vx_finish, module_env, ids_exhausted, typed_stmt, typed_stmts, typed_items, log_decl, main_block_id, main_fn, params_typed, push_op,
    handled, done, fail, take_id, type_of, visit_start, vx_args, vx_assign, vx_branch, vx_call,
    vx_console_log, vx_declarator, vx_declarators, vx_expr_stmt, vx_fn_call, vx_fn_decl, vx_handle,
    vx_ident, vx_if, vx_items, vx_module, vx_native, vx_number, vx_operator, vx_return, vx_return_op,
    vx_stmt, vx_stmts, vx_value,
};

verus! {

/// The view of the functions' return types.
pub open spec fn fns_view(v: Seq<(String, Option<TypeAnn>)>) -> Seq<(Seq<char>, Option<TypeAnn>)> {
    v.map_values(|p: (String, Option<TypeAnn>)| (p.0@, p.1))
}

/// A result holding an id, with the id as an integer.
pub open spec fn id_result(r: Result<u64, CompileError>) -> Result<int, CompileError> {
    match r {
        Ok(v) => Ok(v as int),
        Err(e) => Err(e),
    }
}

/// A result holding an id or none, with the id as an integer.
pub open spec fn opt_result(r: Result<Option<u64>, CompileError>) -> Result<Option<int>, CompileError> {
    match r {
        Ok(Some(v)) => Ok(Some(v as int)),
        Ok(None) => Ok(None),
        Err(e) => Err(e),
    }
}

/// A result holding ids, as integers.
pub open spec fn ids_result(r: Result<Vec<u64>, CompileError>) -> Result<Seq<int>, CompileError> {
    match r {
        Ok(v) => Ok(ids_view(v@)),
        Err(e) => Err(e),
    }
}

/// The MLIR type of a type annotation, where the visitor maps it.
pub fn parse_type(ann: &Option<TypeAnn>) -> (r: Option<Ty>)
    ensures
        r == type_of(*ann),
{
    match ann {
        Some(TypeAnn::Keyword(k)) => match k {
            Keyword::Number | Keyword::BigInt => Some(Ty::I64),
            Keyword::Boolean => Some(Ty::I1),
            Keyword::String => Some(Ty::Ptr),
            _ => None,
        },
        _ => None,
    }
}

/// Looks up a function's return type by name; the last declaration wins.
fn lookup_function(fns: &Vec<(String, Option<TypeAnn>)>, name: &String) -> (r: Option<Option<TypeAnn>>)
    ensures
        r == lookup(fns_view(fns@), name@),
{
    let mut i = fns.len();
    assert(fns_view(fns@).take(i as int) =~= fns_view(fns@));
    while i > 0
        invariant
            i <= fns.len(),
            lookup(fns_view(fns@), name@) == lookup(fns_view(fns@).take(i as int), name@),
        decreases i,
    {
        let ghost s = fns_view(fns@).take(i as int);
        assert(s.drop_last() =~= fns_view(fns@).take(i - 1));
        if fns[i - 1].0 == *name {
            return Some(fns[i - 1].1);
        }
        i = i - 1;
    }
    None
}

/// The visitor: the state of `VState`, and what `VEnv` reads.
pub struct CodegenVisitor {
    functions: Vec<(String, Option<TypeAnn>)>,
    main_block: Vec<Op>,
    block: Vec<Op>,
    vars: Vec<(String, u64)>,
    control: ControlContext,
    if_return: bool,
    next_id: u64,
    module: Vec<ModuleOp>,
    detached: Vec<Block>,
    errors: Vec<CompileError>,
    result: Result<Option<u64>, CompileError>,
}

impl CodegenVisitor {
    /// The state that the visitor threads.
    pub closed spec fn state(&self) -> VState {
        VState {
            next: self.next_id as int,
            main: ops_view(self.main_block@),
            block: ops_view(self.block@),
            vars: ids_scope(self.vars@),
            if_return: self.if_return,
            module: module_ops_view(self.module@),
            detached: blocks_view(self.detached@),
            errors: self.errors@,
            result: opt_result(self.result),
        }
    }

    /// What the visitor reads.
    pub closed spec fn env(&self) -> VEnv {
        VEnv { functions: fns_view(self.functions@), control: self.control }
    }

    /// A visitor that has visited nothing, with the module's functions and
    /// where it stands.
    pub fn new(functions: Vec<(String, Option<TypeAnn>)>, control: ControlContext) -> (v: CodegenVisitor)
        ensures
            v.env() == (VEnv { functions: fns_view(functions@), control }),
            v.state() == (VState {
                next: 0,
                main: seq![],
                block: seq![],
                vars: seq![],
                if_return: false,
                module: seq![],
                detached: seq![],
                errors: seq![],
                result: Ok(None),
            }),
    {
        let v = CodegenVisitor {
            functions,
            main_block: Vec::new(),
            block: Vec::new(),
            vars: Vec::new(),
            control,
            if_return: false,
            next_id: 0,
            module: Vec::new(),
            detached: Vec::new(),
            errors: Vec::new(),
            result: Ok(None),
        };
        assert(v.state() =~= (VState {
            next: 0,
            main: seq![],
            block: seq![],
            vars: seq![],
            if_return: false,
            module: seq![],
            detached: seq![],
            errors: seq![],
            result: Ok(None),
        }));
        v
    }

    /// The bindings of names to ids.
    pub fn bindings(&self) -> (r: &Vec<(String, u64)>)
        ensures
            ids_scope(r@) == self.state().vars,
    {
        &self.vars
    }

    /// The errors recorded, in order.
    pub fn errors(&self) -> (r: &Vec<CompileError>)
        ensures
            r@ == self.state().errors,
    {
        &self.errors
    }

    /// Appends `op` to the block that receives operations.
    fn push_op(&mut self, op: Op)
        ensures
            final(self).state() == push_op(old(self).env(), old(self).state(), op@),
            final(self).env() == old(self).env(),
    {
        if self.control == ControlContext::Module {
            self.main_block.push(op);
            assert(ops_view(self.main_block@) =~= ops_view(old(self).main_block@).push(op@));
        } else {
            self.block.push(op);
            assert(ops_view(self.block@) =~= ops_view(old(self).block@).push(op@));
        }
    }

    /// Ends a handler that failed with `e`.
    fn fail(&mut self, e: CompileError)
        ensures
            final(self).state() == fail(old(self).state(), e),
            final(self).env() == old(self).env(),
    {
        self.result = Err(e.duplicate());
        self.errors.push(e);
    }

    /// Ends a handler that yields nothing.
    fn done(&mut self)
        ensures
            final(self).state() == done(old(self).state()),
            final(self).env() == old(self).env(),
    {
        self.result = Ok(None);
    }

    /// Ends an expression handler with its result `r`.
    fn finish_handler(&mut self, r: Result<Option<u64>, CompileError>) -> (out: Result<Option<u64>, CompileError>)
        ensures
            final(self).state() == handled((old(self).state(), opt_result(r))),
            out == r,
            final(self).env() == old(self).env(),
    {
        match &r {
            Ok(x) => {
                self.result = Ok(*x);
            },
            Err(e) => {
                self.result = Err(e.duplicate());
                self.errors.push(e.duplicate());
            },
        }
        r
    }

    /// The result of the last handler that ran.
    pub fn last_result(&self) -> (r: Result<Option<u64>, CompileError>)
        ensures
            opt_result(r) == self.state().result,
    {
        match &self.result {
            Ok(x) => Ok(*x),
            Err(e) => Err(e.duplicate()),
        }
    }

    /// A numeric literal.
    fn visit_number(&mut self, value: i64) -> (r: Result<u64, CompileError>)
        ensures
            final(self).state() == vx_number(old(self).env(), old(self).state(), value as int).0,
            id_result(r) == vx_number(old(self).env(), old(self).state(), value as int).1,
            final(self).env() == old(self).env(),
    {
        if self.next_id == u64::MAX {
            return Err(CompileError::ProgramTooLarge);
        }
        let id = self.next_id;
        self.next_id = self.next_id + 1;
        self.push_op(Op::Constant { result: id, value, ty: Ty::I64 });
        Ok(id)
    }

    /// An identifier.
    fn visit_ident(&self, name: &String) -> (r: Result<u64, CompileError>)
        ensures
            id_result(r) == vx_ident(self.state(), name@, *name).1,
    {
        match lookup_id(&self.vars, name) {
            Some(id) => Ok(id),
            None => Err(CompileError::UnknownIdentifier(name.clone())),
        }
    }

    /// The operation of a binary operator.
    fn visit_operator(&mut self, op: &BinaryOp, l: u64, r: u64) -> (res: Result<u64, CompileError>)
        ensures
            final(self).state() == vx_operator(old(self).env(), old(self).state(), *op, l as int, r as int).0,
            id_result(res) == vx_operator(old(self).env(), old(self).state(), *op, l as int, r as int).1,
            final(self).env() == old(self).env(),
    {
        let n = self.next_id;
        let o = match op {
            BinaryOp::Add => Op::Arith { result: n, kind: ArithOp::AddI, lhs: l, rhs: r },
            BinaryOp::Sub => Op::Arith { result: n, kind: ArithOp::SubI, lhs: l, rhs: r },
            BinaryOp::Mul => Op::Arith { result: n, kind: ArithOp::MulI, lhs: l, rhs: r },
            BinaryOp::Div => Op::Arith { result: n, kind: ArithOp::DivSI, lhs: l, rhs: r },
            BinaryOp::Mod => Op::Arith { result: n, kind: ArithOp::RemSI, lhs: l, rhs: r },
            BinaryOp::Lt => Op::Compare { result: n, predicate: Predicate::Slt, lhs: l, rhs: r },
            BinaryOp::LtEq => Op::Compare { result: n, predicate: Predicate::Sle, lhs: l, rhs: r },
            BinaryOp::Gt => Op::Compare { result: n, predicate: Predicate::Sgt, lhs: l, rhs: r },
            BinaryOp::GtEq => Op::Compare { result: n, predicate: Predicate::Sge, lhs: l, rhs: r },
            BinaryOp::EqEqEq => Op::Compare { result: n, predicate: Predicate::Eq, lhs: l, rhs: r },
            BinaryOp::NotEqEq => Op::Compare { result: n, predicate: Predicate::Ne, lhs: l, rhs: r },
            BinaryOp::Other(name) => return Err(CompileError::UnsupportedBinaryOperator(name.clone())),
        };
        if self.next_id == u64::MAX {
            return Err(CompileError::ProgramTooLarge);
        }
        self.next_id = self.next_id + 1;
        self.push_op(o);
        Ok(n)
    }

    /// `console.log`: exactly one argument, passed to the runtime's `log`.
    fn call_console_log(&mut self, args: Vec<u64>) -> (r: Result<Option<u64>, CompileError>)
        ensures
            final(self).state() == vx_console_log(old(self).env(), old(self).state(), ids_view(args@)).0,
            opt_result(r) == vx_console_log(old(self).env(), old(self).state(), ids_view(args@)).1,
            final(self).env() == old(self).env(),
    {
        if args.len() != 1 {
            return Err(CompileError::ConsoleLogArity);
        }
        self.push_op(Op::Call { callee: String::from_str("log"), args, result: None });
        Ok(None)
    }

    /// A call of a built-in `obj.prop(..)`.
    fn native_call_resolver(&mut self, args: Vec<u64>, obj: &String, prop: &String) -> (r: Result<Option<u64>, CompileError>)
        ensures
            final(self).state() == vx_native(old(self).env(), old(self).state(), *obj, *prop, ids_view(args@)).0,
            opt_result(r) == vx_native(old(self).env(), old(self).state(), *obj, *prop, ids_view(args@)).1,
            final(self).env() == old(self).env(),
    {
        if *obj == String::from_str("console") && *prop == String::from_str("log") {
            self.call_console_log(args)
        } else {
            Err(CompileError::UnresolvedNativeCall(obj.clone(), prop.clone()))
        }
    }

    /// A call of a module function.
    fn call_function(&mut self, name: &String, args: Vec<u64>) -> (r: Result<Option<u64>, CompileError>)
        ensures
            final(self).state() == vx_fn_call(old(self).env(), old(self).state(), *name, ids_view(args@)).0,
            opt_result(r) == vx_fn_call(old(self).env(), old(self).state(), *name, ids_view(args@)).1,
            final(self).env() == old(self).env(),
    {
        let ret = match lookup_function(&self.functions, name) {
            Some(ret) => ret,
            None => return Err(CompileError::UnknownFunction(name.clone())),
        };
        match parse_type(&ret) {
            Some(t) => {
                if self.next_id == u64::MAX {
                    return Err(CompileError::ProgramTooLarge);
                }
                let id = self.next_id;
                self.next_id = self.next_id + 1;
                self.push_op(Op::Call { callee: name.clone(), args, result: Some((id, t)) });
                Ok(Some(id))
            },
            None => {
                self.push_op(Op::Call { callee: name.clone(), args, result: None });
                Err(CompileError::MissingResult)
            },
        }
    }

    /// The handler of an expression node, with its error recorded.
    fn handle(&mut self, e: &Expr) -> (r: Result<Option<u64>, CompileError>)
        ensures
            final(self).state() == vx_handle(old(self).env(), old(self).state(), *e).0,
            opt_result(r) == vx_handle(old(self).env(), old(self).state(), *e).1,
            final(self).env() == old(self).env(),
        decreases *e, 1nat,
    {
        match e {
            Expr::Num(v) => {
                let r = match self.visit_number(*v) {
                    Ok(x) => Ok(Some(x)),
                    Err(err) => Err(err),
                };
                self.finish_handler(r)
            },
            Expr::Ident(name) => {
                let r = match self.visit_ident(name) {
                    Ok(x) => Ok(Some(x)),
                    Err(err) => Err(err),
                };
                self.finish_handler(r)
            },
            Expr::Bin { .. } => self.visit_bin_expr(e),
            Expr::Call { .. } => self.visit_call_expr(e),
            _ => self.last_result(),
        }
    }

    /// A binary expression: the values of its operands, then its operator.
    fn visit_bin_expr(&mut self, node: &Expr) -> (r: Result<Option<u64>, CompileError>)
        requires
            *node is Bin,
        ensures
            final(self).state() == vx_handle(old(self).env(), old(self).state(), *node).0,
            opt_result(r) == vx_handle(old(self).env(), old(self).state(), *node).1,
            final(self).env() == old(self).env(),
        decreases *node, 0nat,
    {
        match node {
            Expr::Bin { op, left, right } => {
                let res = match self.get_last_value(left) {
                    Err(err) => Err(err),
                    Ok(l) => match self.get_last_value(right) {
                        Err(err) => Err(err),
                        Ok(r) => match self.visit_operator(op, l, r) {
                            Ok(x) => Ok(Some(x)),
                            Err(err) => Err(err),
                        },
                    },
                };
                self.finish_handler(res)
            },
            _ => Ok(None),
        }
    }

    /// A call expression: a built-in member call, or a call of a module
    /// function, on the values of its arguments.
    fn visit_call_expr(&mut self, node: &Expr) -> (r: Result<Option<u64>, CompileError>)
        requires
            *node is Call,
        ensures
            final(self).state() == vx_handle(old(self).env(), old(self).state(), *node).0,
            opt_result(r) == vx_handle(old(self).env(), old(self).state(), *node).1,
            final(self).env() == old(self).env(),
        decreases *node, 0nat,
    {
        match node {
            Expr::Call { callee, args, .. } => {
                let res = match callee {
                    Callee::Member { obj, prop } => match obj {
                        None => Err(CompileError::UnsupportedMemberObject),
                        Some(o) => match prop {
                            None => Err(CompileError::UnsupportedMemberProperty),
                            Some(p) => match self.visit_args(args) {
                                Ok(vals) => self.native_call_resolver(vals, o, p),
                                Err(err) => Err(err),
                            },
                        },
                    },
                    Callee::Ident(name) => match self.visit_args(args) {
                        Ok(vals) => self.call_function(name, vals),
                        Err(err) => Err(err),
                    },
                    Callee::OtherExpr => Err(CompileError::UnsupportedCalleeExpression),
                    Callee::Other => Err(CompileError::UnsupportedCallee),
                };
                self.finish_handler(res)
            },
            _ => Ok(None),
        }
    }

    /// The value of an expression: the expression is visited, then the
    /// last result is read.
    fn get_last_value(&mut self, e: &Expr) -> (r: Result<u64, CompileError>)
        ensures
            final(self).state() == vx_value(old(self).env(), old(self).state(), *e).0,
            id_result(r) == vx_value(old(self).env(), old(self).state(), *e).1,
            final(self).env() == old(self).env(),
        decreases *e, 2nat,
    {
        match e {
            Expr::Paren { inner, .. } => self.get_last_value(inner),
            Expr::Other { parts, .. } => {
                self.visit_exprs(parts);
                match &self.result {
                    Ok(Some(v)) => Ok(*v),
                    Ok(None) => Err(CompileError::LastValueEmpty),
                    Err(err) => Err(err.duplicate()),
                }
            },
            _ => match self.handle(e) {
                Ok(Some(v)) => Ok(v),
                Ok(None) => Err(CompileError::LastValueEmpty),
                Err(err) => Err(err),
            },
        }
    }

    /// The values of arguments, left to right, up to the first that fails.
    fn visit_args(&mut self, args: &Vec<Expr>) -> (r: Result<Vec<u64>, CompileError>)
        ensures
            final(self).state() == vx_args(old(self).env(), old(self).state(), args@).0,
            ids_result(r) == vx_args(old(self).env(), old(self).state(), args@).1,
            final(self).env() == old(self).env(),
        decreases args@, 2nat,
    {
        let ghost env = self.env();
        let ghost s0 = self.state();
        let mut vals: Vec<u64> = Vec::new();
        let n = args.len();
        let mut i: usize = 0;
        assert(args@.skip(0) =~= args@);
        while i < n
            invariant
                n == args.len(),
                i <= n,
                env == old(self).env(),
                s0 == old(self).state(),
                self.env() == env,
                vx_args(env, s0, args@) == args_prefix(vx_args(env, self.state(), args@.skip(i as int)), ids_view(vals@)),
            decreases n - i,
        {
            let ghost s = args@.skip(i as int);
            let ghost st = self.state();
            assert(s[0] == args@[i as int]);
            assert(s.skip(1) =~= args@.skip(i + 1));
            let v = match self.get_last_value(&args[i]) {
                Ok(v) => v,
                Err(err) => {
                    return Err(err);
                },
            };
            proof {
                let rest = vx_args(env, self.state(), args@.skip(i + 1));
                match rest.1 {
                    Ok(vs) => {
                        assert(ids_view(vals@) + (seq![v as int] + vs) =~= ids_view(vals@.push(v)) + vs);
                    },
                    Err(_) => {},
                }
            }
            vals.push(v);
            i = i + 1;
        }
        proof {
            assert(args@.skip(n as int) =~= Seq::<Expr>::empty());
            assert(ids_view(vals@) + Seq::<int>::empty() =~= ids_view(vals@));
        }
        Ok(vals)
    }

    /// An expression in statement position.
    fn visit_expr_stmt(&mut self, e: &Expr)
        ensures
            final(self).state() == vx_expr_stmt(old(self).env(), old(self).state(), *e),
            final(self).env() == old(self).env(),
        decreases *e, 2nat,
    {
        match e {
            Expr::Paren { inner, .. } => self.visit_expr_stmt(inner),
            Expr::Other { parts, .. } => self.visit_exprs(parts),
            _ => {
                let _ = self.handle(e);
            },
        }
    }

    /// Expressions in statement position, in order.
    fn visit_exprs(&mut self, es: &Vec<Expr>)
        ensures
            final(self).state() == vx_exprs(old(self).env(), old(self).state(), es@),
            final(self).env() == old(self).env(),
        decreases es@, 0nat,
    {
        let ghost env = self.env();
        let n = es.len();
        let mut i: usize = 0;
        assert(es@.skip(0) =~= es@);
        while i < n
            invariant
                n == es.len(),
                i <= n,
                self.env() == env,
                env == old(self).env(),
                vx_exprs(env, old(self).state(), es@) == vx_exprs(env, self.state(), es@.skip(i as int)),
            decreases n - i,
        {
            let ghost s = es@.skip(i as int);
            assert(s[0] == es@[i as int]);
            assert(s.skip(1) =~= es@.skip(i + 1));
            self.visit_expr_stmt(&es[i]);
            i = i + 1;
        }
        assert(es@.skip(n as int) =~= Seq::<Expr>::empty());
    }

    /// A declarator: binds its name to its initializer's value.
    fn visit_var_declarator(&mut self, d: &VarDeclarator)
        ensures
            final(self).state() == vx_declarator(old(self).env(), old(self).state(), *d),
            final(self).env() == old(self).env(),
    {
        match &d.name {
            None => self.fail(CompileError::UnsupportedAssignmentTarget),
            Some(name) => match &d.init {
                None => self.fail(CompileError::UnsupportedAssignmentTarget),
                Some(init) => match self.get_last_value(init) {
                    Ok(v) => {
                        self.vars.push((name.clone(), v));
                        self.done();
                    },
                    Err(e) => self.fail(e),
                },
            },
        }
    }

    /// An assignment: binds the target's name to the value.
    pub fn visit_assign_expr(&mut self, a: &AssignExpr) -> (r: Result<(), CompileError>)
        ensures
            final(self).state() == vx_assign(old(self).env(), old(self).state(), *a).0,
            r == vx_assign(old(self).env(), old(self).state(), *a).1,
            final(self).env() == old(self).env(),
    {
        match self.get_last_value(&a.value) {
            Err(e) => Err(e),
            Ok(v) => match &a.target {
                AssignTarget::Ident(name) => {
                    self.vars.push((name.clone(), v));
                    Ok(())
                },
                AssignTarget::Other => Err(CompileError::UnsupportedAssignmentTarget),
            },
        }
    }

    /// The declarators of a declaration, each on its own.
    fn visit_var_decl(&mut self, decls: &Vec<VarDeclarator>)
        ensures
            final(self).state() == vx_declarators(old(self).env(), old(self).state(), decls@),
            final(self).env() == old(self).env(),
    {
        let ghost env = self.env();
        let n = decls.len();
        let mut i: usize = 0;
        assert(decls@.skip(0) =~= decls@);
        while i < n
            invariant
                n == decls.len(),
                i <= n,
                self.env() == env,
                env == old(self).env(),
                vx_declarators(env, old(self).state(), decls@) == vx_declarators(env, self.state(), decls@.skip(i as int)),
            decreases n - i,
        {
            let ghost s = decls@.skip(i as int);
            assert(s[0] == decls@[i as int]);
            assert(s.skip(1) =~= decls@.skip(i + 1));
            self.visit_var_declarator(&decls[i]);
            i = i + 1;
        }
        assert(decls@.skip(n as int) =~= Seq::<VarDeclarator>::empty());
    }

    /// The operation of a return: `func.return` in a function, else
    /// `scf.yield`, noting the return.
    fn return_op(&mut self, operands: Vec<u64>)
        ensures
            final(self).state() == vx_return_op(old(self).env(), old(self).state(), ids_view(operands@)),
            final(self).env() == old(self).env(),
    {
        if self.control == ControlContext::Function {
            self.push_op(Op::Return { operands });
        } else {
            self.if_return = true;
            self.push_op(Op::Yield { operands });
        }
    }

    /// A return statement.
    fn visit_return_stmt(&mut self, arg: &Option<Expr>)
        ensures
            final(self).state() == vx_return(old(self).env(), old(self).state(), *arg),
            final(self).env() == old(self).env(),
    {
        match arg {
            None => {
                let operands: Vec<u64> = Vec::new();
                assert(ids_view(operands@) =~= Seq::<int>::empty());
                self.return_op(operands);
                self.done();
            },
            Some(e) => match self.get_last_value(e) {
                Ok(v) => {
                    let operands = vec![v];
                    assert(ids_view(operands@) =~= seq![v as int]);
                    self.return_op(operands);
                    self.done();
                },
                Err(err) => self.fail(err),
            },
        }
    }

    /// A branch of an `if`: a new block, filled by the visitor in branch
    /// position with the bindings shared, then set aside. Returns the
    /// block's id and whether a return was met in it.
    fn block_visitor(&mut self, body: &Stmt) -> (r: Result<(u64, bool), CompileError>)
        requires
            typed_stmt(*body),
        ensures
            final(self).state() == vx_branch(old(self).env(), old(self).state(), *body).0,
            match r {
                Ok((id, ret)) => vx_branch(old(self).env(), old(self).state(), *body).1 == Ok::<(int, bool), CompileError>((id as int, ret)),
                Err(e) => vx_branch(old(self).env(), old(self).state(), *body).1 == Err::<(int, bool), CompileError>(e),
            },
            final(self).env() == old(self).env(),
        decreases *body, 3nat,
    {
        if self.next_id == u64::MAX {
            return Err(CompileError::ProgramTooLarge);
        }
        let id = self.next_id;
        self.next_id = self.next_id + 1;
        let mut saved_block: Vec<Op> = Vec::new();
        std::mem::swap(&mut saved_block, &mut self.block);
        let saved_return = self.if_return;
        self.if_return = false;
        let saved_control = self.control;
        self.control = ControlContext::If;
        let mut saved_result: Result<Option<u64>, CompileError> = Ok(None);
        std::mem::swap(&mut saved_result, &mut self.result);
        proof {
            assert(ops_view(self.block@) =~= Seq::<SOp>::empty());
        }
        self.visit_stmt(body);
        let mut child_block: Vec<Op> = Vec::new();
        std::mem::swap(&mut child_block, &mut self.block);
        self.block = saved_block;
        let need_return = self.if_return;
        self.if_return = saved_return;
        self.control = saved_control;
        self.result = saved_result;
        let b = Block { id, args: Vec::new(), ops: child_block };
        proof {
            assert(typed_ids_view(b.args@) =~= Seq::<(int, Ty)>::empty());
        }
        self.detached.push(b);
        Ok((id, need_return))
    }

    /// An `if` statement.
    fn visit_if_stmt(&mut self, st: &Stmt)
        requires
            *st is If,
            typed_stmt(*st),
        ensures
            final(self).state() == vx_if(old(self).env(), old(self).state(), *st),
            final(self).env() == old(self).env(),
        decreases *st, 1nat,
    {
        match st {
            Stmt::If { test, cons, alt } => {
                let c = match self.get_last_value(test) {
                    Ok(c) => c,
                    Err(e) => {
                        self.fail(e);
                        return;
                    },
                };
                let (then_id, then_ret) = match self.block_visitor(cons) {
                    Ok(x) => x,
                    Err(e) => {
                        self.fail(e);
                        return;
                    },
                };
                let r3 = match alt {
                    Some(a) => self.block_visitor(a),
                    None => if self.next_id == u64::MAX {
                        Err(CompileError::ProgramTooLarge)
                    } else {
                        let id = self.next_id;
                        self.next_id = self.next_id + 1;
                        Ok((id, then_ret))
                    },
                };
                let (else_id, need_return) = match r3 {
                    Ok(x) => x,
                    Err(e) => {
                        self.fail(e);
                        return;
                    },
                };
                self.push_op(Op::CondBr { cond: c, then_dest: then_id, else_dest: else_id });
                if need_return {
                    self.fail(CompileError::MissingResult);
                } else {
                    self.done();
                }
            },
            _ => {},
        }
    }

    /// A statement.
    fn visit_stmt(&mut self, st: &Stmt)
        requires
            typed_stmt(*st),
        ensures
            final(self).state() == vx_stmt(old(self).env(), old(self).state(), *st),
            final(self).env() == old(self).env(),
        decreases *st, 2nat,
    {
        match st {
            Stmt::Var(decls) => self.visit_var_decl(decls),
            Stmt::Return(arg) => self.visit_return_stmt(arg),
            Stmt::Expr(e) => self.visit_expr_stmt(e),
            Stmt::If { .. } => self.visit_if_stmt(st),
            Stmt::Block(ss) => self.visit_stmts(ss),
            Stmt::FnDecl(f) => self.visit_fn_decl(f),
            Stmt::Other(parts) => self.visit_parts(parts),
        }
    }

    /// The pieces of a statement without a handler, in order.
    fn visit_parts(&mut self, ps: &Vec<Part>)
        requires
            typed_parts(ps@),
        ensures
            final(self).state() == vx_parts(old(self).env(), old(self).state(), ps@),
            final(self).env() == old(self).env(),
        decreases ps@, 0nat,
    {
        let ghost env = self.env();
        let n = ps.len();
        let mut i: usize = 0;
        assert(ps@.skip(0) =~= ps@);
        while i < n
            invariant
                n == ps.len(),
                i <= n,
                typed_parts(ps@),
                self.env() == env,
                env == old(self).env(),
                vx_parts(env, old(self).state(), ps@) == vx_parts(env, self.state(), ps@.skip(i as int)),
            decreases n - i,
        {
            let ghost s = ps@.skip(i as int);
            assert(s[0] == ps@[i as int]);
            assert(s.skip(1) =~= ps@.skip(i + 1));
            match &ps[i] {
                Part::Expr(e) => self.visit_expr_stmt(e),
                Part::Stmt(st) => {
                    assert(match ps@[i as int] {
                        Part::Stmt(st) => typed_stmt(st),
                        Part::Expr(_) => true,
                    });
                    self.visit_stmt(st);
                },
            }
            i = i + 1;
        }
        assert(ps@.skip(n as int) =~= Seq::<Part>::empty());
    }

    /// Statements in order.
    fn visit_stmts(&mut self, ss: &Vec<Stmt>)
        requires
            typed_stmts(ss@),
        ensures
            final(self).state() == vx_stmts(old(self).env(), old(self).state(), ss@),
            final(self).env() == old(self).env(),
        decreases ss@, 0nat,
    {
        let ghost env = self.env();
        let n = ss.len();
        let mut i: usize = 0;
        assert(ss@.skip(0) =~= ss@);
        while i < n
            invariant
                n == ss.len(),
                i <= n,
                typed_stmts(ss@),
                self.env() == env,
                env == old(self).env(),
                vx_stmts(env, old(self).state(), ss@) == vx_stmts(env, self.state(), ss@.skip(i as int)),
            decreases n - i,
        {
            let ghost s = ss@.skip(i as int);
            assert(s[0] == ss@[i as int]);
            assert(s.skip(1) =~= ss@.skip(i + 1));
            assert(typed_stmt(ss@[i as int]));
            self.visit_stmt(&ss[i]);
            i = i + 1;
        }
        assert(ss@.skip(n as int) =~= Seq::<Stmt>::empty());
    }

    /// A function declaration: its block and bindings, a visitor for its
    /// body, and the function appended to the module at the top level, else
    /// to the current block.
    fn visit_fn_decl(&mut self, f: &FnDecl)
        requires
            params_typed(f.params@),
            match f.body {
                Some(b) => typed_stmts(b@),
                None => true,
            },
        ensures
            final(self).state() == vx_fn_decl(old(self).env(), old(self).state(), *f),
            final(self).env() == old(self).env(),
        decreases *f, 0nat,
    {
        let ghost s0 = self.state();
        let ghost env = self.env();
        let arguments = named_arguments(&f.params);
        let n = arguments.len();
        if n as u64 >= u64::MAX - self.next_id {
            self.fail(CompileError::ProgramTooLarge);
            return;
        }
        let entry = self.next_id;
        let result = parse_type(&f.return_type);
        let (bargs, fvars) = build_block_and_vars(&arguments, entry + 1);
        let mut params: Vec<Ty> = Vec::new();
        let mut k: usize = 0;
        while k < n
            invariant
                n == arguments.len(),
                k <= n,
                params@ =~= Seq::new(k as nat, |j: int| arguments@[j].1),
            decreases n - k,
        {
            params.push(arguments[k].1);
            k = k + 1;
        }
        self.next_id = entry + n as u64 + 1;
        let mut start: Vec<Op> = Vec::new();
        if result.is_none() {
            let o: Vec<u64> = Vec::new();
            assert(ids_view(o@) =~= Seq::<int>::empty());
            start.push(Op::Return { operands: o });
        }
        proof {
            assert(ops_view(start@) =~= (if result is None { seq![SOp::Return { operands: seq![] }] } else { Seq::<SOp>::empty() }));
        }
        let mut saved_block = start;
        std::mem::swap(&mut saved_block, &mut self.block);
        let mut saved_vars = fvars;
        std::mem::swap(&mut saved_vars, &mut self.vars);
        let saved_return = self.if_return;
        self.if_return = false;
        let saved_control = self.control;
        self.control = ControlContext::Function;
        self.result = Ok(None);
        let ghost child = self.state();
        if lookup_id(&self.vars, &f.name).is_none() {
            self.fail(CompileError::UnknownIdentifier(f.name.clone()));
        }
        match &f.body {
            Some(b) => self.visit_stmts(b),
            None => {},
        }
        let ghost c2 = self.state();
        let mut body_ops: Vec<Op> = Vec::new();
        std::mem::swap(&mut body_ops, &mut self.block);
        self.block = saved_block;
        self.vars = saved_vars;
        self.if_return = saved_return;
        self.control = saved_control;
        self.result = Ok(None);
        let results: Vec<Ty> = match result {
            Some(t) => vec![t],
            None => Vec::new(),
        };
        let entry_block = Block { id: entry, args: bargs, ops: body_ops };
        let blocks = vec![entry_block];
        let func = FuncOp { name: f.name.clone(), params, results, blocks, private: false };
        proof {
            let av = args_view(arguments@);
            assert(blocks_view(blocks@) =~= seq![SBlock { id: entry as int, args: block_args(av, entry + 1), ops: c2.block }]);
            assert(params@ =~= Seq::new(av.len(), |j: int| av[j].1));
            assert(results@ =~= (match result { Some(t) => seq![t], None => Seq::<Ty>::empty() }));
        }
        if self.control == ControlContext::Module {
            self.module.push(ModuleOp::Func(func));
        } else {
            let ghost b0 = ops_view(self.block@);
            let ghost fv = func@;
            proof {
                crate::ir::lemma_func_view(func);
            }
            self.block.push(Op::Func(func));
            assert(ops_view(self.block@) =~= b0.push(SOp::Func(fv)));
        }
    }

    /// Ends the module: `main` returns 0 as an `i32`, and the runtime's
    /// `log` is declared.
    fn module_extends(self) -> (r: (IrModule, Vec<CompileError>))
        ensures
            r.0@ == vx_finish(self.state()).0,
            r.1@ == vx_finish(self.state()).1,
    {
        let mut module = self.module;
        let mut errors = self.errors;
        if self.next_id == u64::MAX {
            errors.push(CompileError::ProgramTooLarge);
            return (IrModule { ops: module }, errors);
        }
        let z = self.next_id;
        let mut main_ops = self.main_block;
        let ghost m0 = ops_view(main_ops@);
        main_ops.push(Op::Constant { result: z, value: 0, ty: Ty::I32 });
        let operands = vec![z];
        main_ops.push(Op::Return { operands });
        proof {
            assert(ids_view(operands@) =~= seq![z as int]);
            assert(ops_view(main_ops@) =~= m0 + seq![
                SOp::Constant { result: z as int, value: 0, ty: Ty::I32 },
                SOp::Return { operands: seq![z as int] },
            ]);
        }
        let main_block = Block { id: 0, args: Vec::new(), ops: main_ops };
        let main_func = FuncOp {
            name: String::from_str("main"),
            params: Vec::new(),
            results: vec![Ty::I32],
            blocks: vec![main_block],
            private: false,
        };
        let log_func = FuncOp {
            name: String::from_str("log"),
            params: vec![Ty::Ptr],
            results: Vec::new(),
            blocks: Vec::new(),
            private: true,
        };
        proof {
            assert(typed_ids_view(main_block.args@) =~= Seq::<(int, Ty)>::empty());
            crate::ir::lemma_sblock_ext(main_block@, main_fn(m0, z as int).blocks[0]);
            crate::ir::lemma_sfunc_ext(main_func@, main_fn(m0, z as int));
            crate::ir::lemma_sfunc_ext(log_func@, log_decl());
        }
        let ghost before = module_ops_view(module@);
        module.push(ModuleOp::Func(main_func));
        module.push(ModuleOp::Func(log_func));
        proof {
            assert(module_ops_view(module@) =~= before + seq![SModuleOp::Func(main_fn(m0, z as int)), SModuleOp::Func(log_decl())]);
        }
        (IrModule { ops: module }, errors)
    }
}

/// The view of named arguments.
pub open spec fn args_view(v: Seq<(String, Ty)>) -> Seq<(Seq<char>, Ty)> {
    v.map_values(|p: (String, Ty)| (p.0@, p.1))
}

/// The named parameters, with their types.
fn named_arguments(params: &Vec<Param>) -> (r: Vec<(String, Ty)>)
    requires
        params_typed(params@),
    ensures
        args_view(r@) == fn_arguments(params@),
{
    let mut r: Vec<(String, Ty)> = Vec::new();
    let n = params.len();
    let mut i: usize = 0;
    assert(params@.take(0) =~= Seq::<Param>::empty());
    while i < n
        invariant
            n == params.len(),
            i <= n,
            params_typed(params@),
            args_view(r@) == fn_arguments(params@.take(i as int)),
        decreases n - i,
    {
        let ghost t = params@.take(i + 1);
        assert(t.drop_last() =~= params@.take(i as int));
        assert(t.last() == params@[i as int]);
        match &params[i].name {
            Some(name) => {
                assert(params@[i as int].name is Some);
                match parse_type(&params[i].type_ann) {
                    Some(ty) => {
                        r.push((name.clone(), ty));
                        assert(args_view(r@) =~= fn_arguments(params@.take(i as int)).push((name@, ty)));
                    },
                    None => {},
                }
            },
            None => {},
        }
        i = i + 1;
    }
    assert(params@.take(n as int) =~= params@);
    r
}

/// A block's arguments, one per named argument with ids from `first`, and
/// the bindings of the names to them.
pub fn build_block_and_vars(arguments: &Vec<(String, Ty)>, first: u64) -> (r: (Vec<(u64, Ty)>, Vec<(String, u64)>))
    requires
        first + arguments.len() <= u64::MAX,
    ensures
        typed_ids_view(r.0@) == block_args(args_view(arguments@), first as int),
        ids_scope(r.1@) == arg_vars(args_view(arguments@), first as int),
{
    let mut bargs: Vec<(u64, Ty)> = Vec::new();
    let mut vars: Vec<(String, u64)> = Vec::new();
    let n = arguments.len();
    let mut i: usize = 0;
    while i < n
        invariant
            n == arguments.len(),
            i <= n,
            first + n <= u64::MAX,
            typed_ids_view(bargs@) =~= block_args(args_view(arguments@), first as int).take(i as int),
            ids_scope(vars@) =~= arg_vars(args_view(arguments@), first as int).take(i as int),
        decreases n - i,
    {
        let id = first + i as u64;
        let ghost ba = block_args(args_view(arguments@), first as int);
        let ghost av = arg_vars(args_view(arguments@), first as int);
        let ghost b0 = bargs@;
        let ghost v0 = vars@;
        bargs.push((id, arguments[i].1));
        vars.push((arguments[i].0.clone(), id));
        proof {
            assert(bargs@ == b0.push((id, arguments@[i as int].1)));
            assert(typed_ids_view(bargs@) =~= typed_ids_view(b0).push((id as int, arguments@[i as int].1)));
            assert(ba.take(i + 1) =~= ba.take(i as int).push(ba[i as int]));
            assert(ids_scope(vars@) =~= ids_scope(v0).push((arguments@[i as int].0@, id as int)));
            assert(av.take(i + 1) =~= av.take(i as int).push(av[i as int]));
        }
        i = i + 1;
    }
    (bargs, vars)

}

/// Collects the functions that a module declares, with their return types;
/// a later declaration of a name hides an earlier one.
pub struct FunctionsVisitor {
    pub functions: Vec<(String, Option<TypeAnn>)>,
}

impl FunctionsVisitor {
    /// A collector that has found nothing.
    pub fn new() -> (v: FunctionsVisitor)
        ensures
            v.functions@.len() == 0,
    {
        FunctionsVisitor { functions: Vec::new() }
    }

    /// Notes a function declaration; its body is not searched.
    pub fn visit_fn_decl(&mut self, node: &FnDecl)
        ensures
            fns_view(final(self).functions@) == fns_view(old(self).functions@).push((node.name@, node.return_type)),
    {
        self.functions.push((node.name.clone(), node.return_type));
        assert(fns_view(self.functions@) =~= fns_view(old(self).functions@).push((node.name@, node.return_type)));
    }

    /// Searches a statement.
    pub fn visit_stmt(&mut self, st: &Stmt)
        ensures
            fns_view(final(self).functions@) == fns_view(old(self).functions@) + fns_in_stmt(*st),
        decreases *st, 1nat,
    {
        match st {
            Stmt::FnDecl(f) => self.visit_fn_decl(f),
            Stmt::If { test: _, cons, alt } => {
                let ghost f0 = fns_view(self.functions@);
                self.visit_stmt(cons);
                let ghost f1 = fns_view(self.functions@);
                match alt {
                    Some(a) => {
                        self.visit_stmt(a);
                        assert(fns_view(self.functions@) =~= f0 + (fns_in_stmt(**cons) + fns_in_stmt(**a)));
                    },
                    None => {
                        assert(fns_view(self.functions@) =~= f0 + (fns_in_stmt(**cons) + Seq::empty()));
                    },
                }
            },
            Stmt::Block(ss) => self.visit_stmts(ss),
            Stmt::Other(parts) => self.visit_parts(parts),
            _ => {
                assert(fns_view(self.functions@) =~= fns_view(old(self).functions@) + Seq::empty());
            },
        }
    }

    /// Searches the statements among pieces, in order.
    pub fn visit_parts(&mut self, ps: &Vec<Part>)
        ensures
            fns_view(final(self).functions@) == fns_view(old(self).functions@) + fns_in_parts(ps@),
        decreases ps@, 0nat,
    {
        let n = ps.len();
        let mut i: usize = 0;
        assert(ps@.skip(0) =~= ps@);
        assert(fns_view(self.functions@) =~= fns_view(old(self).functions@) + Seq::empty());
        while i < n
            invariant
                n == ps.len(),
                i <= n,
                fns_view(old(self).functions@) + fns_in_parts(ps@) == fns_view(self.functions@) + fns_in_parts(ps@.skip(i as int)),
            decreases n - i,
        {
            let ghost s = ps@.skip(i as int);
            assert(s[0] == ps@[i as int]);
            assert(s.skip(1) =~= ps@.skip(i + 1));
            let ghost f0 = fns_view(self.functions@);
            match &ps[i] {
                Part::Stmt(st) => {
                    self.visit_stmt(st);
                    assert(f0 + fns_in_parts(s) =~= fns_view(self.functions@) + fns_in_parts(ps@.skip(i + 1)));
                },
                Part::Expr(_) => {
                    assert(f0 + fns_in_parts(s) =~= fns_view(self.functions@) + fns_in_parts(ps@.skip(i + 1)));
                },
            }
            i = i + 1;
        }
        assert(ps@.skip(n as int) =~= Seq::<Part>::empty());
        assert(fns_view(self.functions@) + fns_in_parts(Seq::<Part>::empty()) =~= fns_view(self.functions@));
    }

    /// Searches statements, in order.
    pub fn visit_stmts(&mut self, ss: &Vec<Stmt>)
        ensures
            fns_view(final(self).functions@) == fns_view(old(self).functions@) + fns_in_stmts(ss@),
        decreases ss@, 0nat,
    {
        let n = ss.len();
        let mut i: usize = 0;
        assert(ss@.skip(0) =~= ss@);
        assert(fns_view(self.functions@) =~= fns_view(old(self).functions@) + Seq::empty());
        while i < n
            invariant
                n == ss.len(),
                i <= n,
                fns_view(old(self).functions@) + fns_in_stmts(ss@) == fns_view(self.functions@) + fns_in_stmts(ss@.skip(i as int)),
            decreases n - i,
        {
            let ghost s = ss@.skip(i as int);
            assert(s[0] == ss@[i as int]);
            assert(s.skip(1) =~= ss@.skip(i + 1));
            let ghost f0 = fns_view(self.functions@);
            self.visit_stmt(&ss[i]);
            assert(f0 + fns_in_stmts(s) =~= fns_view(self.functions@) + fns_in_stmts(ss@.skip(i + 1)));
            i = i + 1;
        }
        assert(ss@.skip(n as int) =~= Seq::<Stmt>::empty());
        assert(fns_view(self.functions@) + fns_in_stmts(Seq::<Stmt>::empty()) =~= fns_view(self.functions@));
    }

    /// Searches the items of a module, in order.
    pub fn visit_items(&mut self, items: &Vec<ModuleItem>)
        ensures
            fns_view(final(self).functions@) == fns_view(old(self).functions@) + fns_in_items(items@),
    {
        let n = items.len();
        let mut i: usize = 0;
        assert(items@.skip(0) =~= items@);
        assert(fns_view(self.functions@) =~= fns_view(old(self).functions@) + Seq::empty());
        while i < n
            invariant
                n == items.len(),
                i <= n,
                fns_view(old(self).functions@) + fns_in_items(items@) == fns_view(self.functions@) + fns_in_items(items@.skip(i as int)),
            decreases n - i,
        {
            let ghost s = items@.skip(i as int);
            assert(s[0] == items@[i as int]);
            assert(s.skip(1) =~= items@.skip(i + 1));
            let ghost f0 = fns_view(self.functions@);
            match &items[i] {
                ModuleItem::Stmt(st) => {
                    self.visit_stmt(st);
                    assert(f0 + fns_in_items(s) =~= fns_view(self.functions@) + fns_in_items(items@.skip(i + 1)));
                },
                ModuleItem::ModuleDecl => {},
            }
            i = i + 1;
        }
        assert(items@.skip(n as int) =~= Seq::<ModuleItem>::empty());
        assert(fns_view(self.functions@) + fns_in_items(Seq::<ModuleItem>::empty()) =~= fns_view(self.functions@));
    }
}

/// Whether every named parameter has a type that the visitor maps.
fn params_are_typed(params: &Vec<Param>) -> (r: bool)
    ensures
        r == params_typed(params@),
{
    let n = params.len();
    let mut i: usize = 0;
    while i < n
        invariant
            n == params.len(),
            i <= n,
            forall|j: int| 0 <= j < i && (#[trigger] params@[j]).name is Some ==> type_of(params@[j].type_ann) is Some,
        decreases n - i,
    {
        if params[i].name.is_some() && parse_type(&params[i].type_ann).is_none() {
            return false;
        }
        i = i + 1;
    }
    true
}

/// Whether every function that a statement declares, where the visitor
/// reaches it, has a mapped type for each named parameter.
pub fn stmt_is_typed(st: &Stmt) -> (r: bool)
    ensures
        r == typed_stmt(*st),
    decreases *st, 1nat,
{
    match st {
        Stmt::FnDecl(f) => {
            if !params_are_typed(&f.params) {
                return false;
            }
            match &f.body {
                Some(b) => stmts_are_typed(b),
                None => true,
            }
        },
        Stmt::If { test: _, cons, alt } => {
            if !stmt_is_typed(cons) {
                return false;
            }
            match alt {
                Some(a) => stmt_is_typed(a),
                None => true,
            }
        },
        Stmt::Block(ss) => stmts_are_typed(ss),
        Stmt::Other(parts) => parts_are_typed(parts),
        _ => true,
    }
}

/// `stmt_is_typed` of each statement among pieces.
pub fn parts_are_typed(ps: &Vec<Part>) -> (r: bool)
    ensures
        r == typed_parts(ps@),
    decreases ps@, 0nat,
{
    let n = ps.len();
    let mut i: usize = 0;
    while i < n
        invariant
            n == ps.len(),
            i <= n,
            forall|j: int| 0 <= j < i ==> match #[trigger] ps@[j] {
                Part::Stmt(st) => typed_stmt(st),
                Part::Expr(_) => true,
            },
        decreases n - i,
    {
        match &ps[i] {
            Part::Stmt(st) => {
                if !stmt_is_typed(st) {
                    return false;
                }
            },
            Part::Expr(_) => {},
        }
        i = i + 1;
    }
    true
}

/// `stmt_is_typed` of each statement.
pub fn stmts_are_typed(ss: &Vec<Stmt>) -> (r: bool)
    ensures
        r == typed_stmts(ss@),
    decreases ss@, 0nat,
{
    let n = ss.len();
    let mut i: usize = 0;
    while i < n
        invariant
            n == ss.len(),
            i <= n,
            forall|j: int| 0 <= j < i ==> typed_stmt(#[trigger] ss@[j]),
        decreases n - i,
    {
        if !stmt_is_typed(&ss[i]) {
            return false;
        }
        i = i + 1;
    }
    true
}

/// Whether `visit_module` can take the module: every function that it
/// declares, where the visitor reaches it, has a mapped type for each named
/// parameter.
pub fn module_is_typed(module: &Module) -> (r: bool)
    ensures
        r == typed_items(module.body@),
{
    let n = module.body.len();
    let mut i: usize = 0;
    while i < n
        invariant
            n == module.body.len(),
            i <= n,
            forall|j: int| 0 <= j < i ==> match #[trigger] module.body@[j] {
                ModuleItem::Stmt(st) => typed_stmt(st),
                ModuleItem::ModuleDecl => true,
            },
        decreases n - i,
    {
        match &module.body[i] {
            ModuleItem::Stmt(st) => {
                if !stmt_is_typed(st) {
                    return false;
                }
            },
            ModuleItem::ModuleDecl => {},
        }
        i = i + 1;
    }
    true
}

/// Generates the MLIR of `module` with the visitor: the functions it
/// declares, in the order visited, then `main` with the top-level
/// operations and `return 0`, then the declaration of the runtime's `log`.
/// The errors that handlers met are returned, in order, beside the module.
pub fn visit_module(module: &Module) -> (r: (IrModule, Vec<CompileError>))
    requires
        typed_items(module.body@),
    ensures
        r.0@ == vx_module(module.body@).0,
        r.1@ == vx_module(module.body@).1,
{
    let mut collector = FunctionsVisitor::new();
    collector.visit_items(&module.body);
    assert(fns_view(collector.functions@) =~= fns_in_items(module.body@));
    let mut visitor = CodegenVisitor {
        functions: collector.functions,
        main_block: Vec::new(),
        block: Vec::new(),
        vars: Vec::new(),
        control: ControlContext::Module,
        if_return: false,
        next_id: 1,
        module: Vec::new(),
        detached: Vec::new(),
        errors: Vec::new(),
        result: Ok(None),
    };
    let ghost env = module_env(module.body@);
    assert(visitor.state() =~= visit_start());
    assert(visitor.env() == env);
    let items = &module.body;
    let n = items.len();
    let mut i: usize = 0;
    assert(items@.skip(0) =~= items@);
    while i < n
        invariant
            n == items.len(),
            items == &module.body,
            i <= n,
            typed_items(items@),
            visitor.env() == env,
            vx_items(env, visit_start(), items@) == vx_items(env, visitor.state(), items@.skip(i as int)),
        decreases n - i,
    {
        let ghost s = items@.skip(i as int);
        assert(s[0] == items@[i as int]);
        assert(s.skip(1) =~= items@.skip(i + 1));
        match &items[i] {
            ModuleItem::Stmt(st) => {
                assert(typed_stmt(*st));
                visitor.visit_stmt(st);
            },
            ModuleItem::ModuleDecl => {},
        }
        i = i + 1;
    }
    assert(items@.skip(n as int) =~= Seq::<ModuleItem>::empty());
    visitor.module_extends()
}

/// Values already computed, put before the values of a run.
pub open spec fn args_prefix(p: (VState, Result<Seq<int>, CompileError>), pre: Seq<int>) -> (VState, Result<Seq<int>, CompileError>) {
    (p.0, match p.1 {
        Ok(vs) => Ok(pre + vs),
        Err(e) => Err(e),
    })
}

} // verus!
