//! What programs mean: the source as the code generator reads it, and the
//! emitted MLIR.
//!
//! Numbers are 64-bit two's complement integers: `+`, `-` and `*` wrap,
//! `/` and `%` truncate toward zero and are undefined on a zero divisor or
//! on the one quotient that overflows. A call of a module function is
//! answered by an oracle (its result and what it prints), the same for both
//! sides; `console.log(v)` prints `v`. Statements that the generator passes
//! over (loops, nested blocks, nested functions, ...) have no effect here
//! either.
use vstd::prelude::*;
use crate::ast::{BinaryOp, Callee, Expr, Param, Stmt, VarDeclarator};
use crate::ir::{ArithOp, Predicate, SBlock, SFunc, SOp, Ty};
use crate::scope::lookup;
use crate::codegen_spec::is_console_log;

verus! {

/// Answers a call of the named function on argument values with its result
/// and what it prints.
pub type Oracle = spec_fn(Seq<char>, Seq<int>) -> (int, Seq<int>);

/// Bindings of names to values.
pub type Store = Seq<(Seq<char>, int)>;

/// `x` as a 64-bit two's complement integer.
pub open spec fn wrap(x: int) -> int {
    let m = x % 0x1_0000_0000_0000_0000;
    if m >= 0x8000_0000_0000_0000 { m - 0x1_0000_0000_0000_0000 } else { m }
}

/// Whether `x` fits in 64 bits, signed.
pub open spec fn is_i64(x: int) -> bool {
    i64::MIN <= x <= i64::MAX
}

/// Division rounding toward zero.
pub open spec fn div_trunc(a: int, b: int) -> int {
    let q = (if a < 0 { -a } else { a }) / (if b < 0 { -b } else { b });
    if (a < 0) == (b < 0) { q } else { -q }
}

/// The remainder of `div_trunc`, with the sign of `a`.
pub open spec fn rem_trunc(a: int, b: int) -> int {
    a - b * div_trunc(a, b)
}

/// An `arith` operation on two values; `None` where it is undefined.
pub open spec fn arith(kind: ArithOp, a: int, b: int) -> Option<int> {
    match kind {
        ArithOp::AddI => Some(wrap(a + b)),
        ArithOp::SubI => Some(wrap(a - b)),
        ArithOp::MulI => Some(wrap(a * b)),
        ArithOp::DivSI => if b == 0 || (a == i64::MIN && b == -1) { None } else { Some(div_trunc(a, b)) },
        ArithOp::RemSI => if b == 0 || (a == i64::MIN && b == -1) { None } else { Some(rem_trunc(a, b)) },
    }
}

/// A signed comparison.
pub open spec fn holds(p: Predicate, a: int, b: int) -> bool {
    match p {
        Predicate::Slt => a < b,
        Predicate::Sle => a <= b,
        Predicate::Sgt => a > b,
        Predicate::Sge => a >= b,
        Predicate::Eq => a == b,
        Predicate::Ne => a != b,
    }
}

/// 1 for true, 0 for false.
pub open spec fn bit(b: bool) -> int {
    if b { 1 } else { 0 }
}

/// The operation and predicate that a binary operator stands for.
pub open spec fn binary_value(op: BinaryOp, a: int, b: int) -> Option<int> {
    match op {
        BinaryOp::Add => arith(ArithOp::AddI, a, b),
        BinaryOp::Sub => arith(ArithOp::SubI, a, b),
        BinaryOp::Mul => arith(ArithOp::MulI, a, b),
        BinaryOp::Div => arith(ArithOp::DivSI, a, b),
        BinaryOp::Mod => arith(ArithOp::RemSI, a, b),
        BinaryOp::Lt => Some(bit(a < b)),
        BinaryOp::LtEq => Some(bit(a <= b)),
        BinaryOp::Gt => Some(bit(a > b)),
        BinaryOp::GtEq => Some(bit(a >= b)),
        BinaryOp::EqEqEq => Some(bit(a == b)),
        BinaryOp::NotEqEq => Some(bit(a != b)),
        BinaryOp::Other(_) => None,
    }
}

/// The value of an expression and the output after it; `None` where the
/// program is not defined (an unbound name, an undefined operation, a call
/// of no module function, an unsupported construct). A call of a function
/// that returns nothing is valued 0.
pub open spec fn eval_expr(
    fn_returns: Seq<(Seq<char>, bool)>,
    o: Oracle,
    e: Expr,
    st: Store,
    out: Seq<int>,
) -> Option<(int, Seq<int>)>
    decreases e,
{
    match e {
        Expr::Num(v) => Some((v as int, out)),
        Expr::Ident(name) => match lookup(st, name@) {
            Some(v) => Some((v, out)),
            None => None,
        },
        Expr::Paren { inner, .. } => eval_expr(fn_returns, o, *inner, st, out),
        Expr::Call { callee, args, .. } => match eval_args(fn_returns, o, args@, st, out) {
            Some((vals, out1)) => match callee {
                Callee::Member { obj, prop } => if is_console_log(obj, prop) && vals.len() == 1 {
                    Some((0, out1.push(vals[0])))
                } else {
                    None
                },
                Callee::Ident(name) => match lookup(fn_returns, name@) {
                    Some(is_void) => {
                        let (r, printed) = o(name@, vals);
                        Some((if is_void { 0 } else { r }, out1 + printed))
                    },
                    None => None,
                },
                _ => None,
            },
            None => None,
        },
        Expr::Bin { op, left, right } => match eval_expr(fn_returns, o, *left, st, out) {
            Some((a, out1)) => match eval_expr(fn_returns, o, *right, st, out1) {
                Some((b, out2)) => match binary_value(op, a, b) {
                    Some(v) => Some((v, out2)),
                    None => None,
                },
                None => None,
            },
            None => None,
        },
        Expr::Other { .. } => None,
    }
}

/// The values of arguments, left to right, and the output after them.
pub open spec fn eval_args(
    fn_returns: Seq<(Seq<char>, bool)>,
    o: Oracle,
    args: Seq<Expr>,
    st: Store,
    out: Seq<int>,
) -> Option<(Seq<int>, Seq<int>)>
    decreases args,
{
    if args.len() == 0 {
        Some((seq![], out))
    } else {
        match eval_expr(fn_returns, o, args[0], st, out) {
            Some((v, out1)) => match eval_args(fn_returns, o, args.skip(1), st, out1) {
                Some((vs, out2)) => Some((seq![v] + vs, out2)),
                None => None,
            },
            None => None,
        }
    }
}

/// The values of SSA ids.
pub type Vals = Map<int, int>;

/// The values of a list of ids; `None` if one has none.
pub open spec fn values_of(ids: Seq<int>, vals: Vals) -> Option<Seq<int>>
    decreases ids.len(),
{
    if ids.len() == 0 {
        Some(seq![])
    } else {
        match values_of(ids.drop_last(), vals) {
            Some(vs) => if vals.contains_key(ids.last()) {
                Some(vs.push(vals[ids.last()]))
            } else {
                None
            },
            None => None,
        }
    }
}

/// Whether an operation ends a block.
pub open spec fn is_terminator(op: SOp) -> bool {
    match op {
        SOp::Return { .. } | SOp::Yield { .. } | SOp::Br { .. } | SOp::CondBr { .. } => true,
        _ => false,
    }
}

/// One operation that does not end a block: the values and output after
/// it. `printf` prints its second argument (its own result, the count of
/// bytes printed, is taken as 0); the address of a global is 0.
pub open spec fn step_op(op: SOp, vals: Vals, out: Seq<int>, o: Oracle) -> Option<(Vals, Seq<int>)> {
    match op {
        SOp::Constant { result, value, ty } => Some((vals.insert(result, value), out)),
        SOp::Arith { result, kind, lhs, rhs } => if vals.contains_key(lhs) && vals.contains_key(rhs) {
            match arith(kind, vals[lhs], vals[rhs]) {
                Some(v) => Some((vals.insert(result, v), out)),
                None => None,
            }
        } else {
            None
        },
        SOp::Compare { result, predicate, lhs, rhs } => if vals.contains_key(lhs) && vals.contains_key(rhs) {
            Some((vals.insert(result, bit(holds(predicate, vals[lhs], vals[rhs]))), out))
        } else {
            None
        },
        SOp::ExtUI { result, operand } => if vals.contains_key(operand) {
            Some((vals.insert(result, vals[operand] % 2), out))
        } else {
            None
        },
        SOp::TruncI { result, operand } => if vals.contains_key(operand) {
            Some((vals.insert(result, vals[operand] % 2), out))
        } else {
            None
        },
        SOp::Call { callee, args, result } => match values_of(args, vals) {
            Some(vs) => {
                let (r, printed) = o(callee, vs);
                match result {
                    Some((id, ty)) => Some((vals.insert(id, r), out + printed)),
                    None => Some((vals, out + printed)),
                }
            },
            None => None,
        },
        SOp::AddressOf { result, global } => Some((vals.insert(result, 0), out)),
        SOp::VarargCall { result, callee, args } => if args.len() == 2 && vals.contains_key(args[1]) {
            Some((vals.insert(result, 0), out.push(vals[args[1]])))
        } else {
            None
        },
        _ => None,
    }
}

/// Operations that do not end a block, in order.
pub open spec fn run_straight(ops: Seq<SOp>, vals: Vals, out: Seq<int>, o: Oracle) -> Option<(Vals, Seq<int>)>
    decreases ops.len(),
{
    if ops.len() == 0 {
        Some((vals, out))
    } else {
        match step_op(ops[0], vals, out, o) {
            Some((v1, out1)) => run_straight(ops.skip(1), v1, out1, o),
            None => None,
        }
    }
}

/// How running operations ends.
pub enum Run {
    /// The operations ran out without ending their block.
    Fall(Vals, Seq<int>),
    /// A return, with its values and the output.
    Ret(Seq<int>, Seq<int>),
    /// An undefined operation, a missing block, or a block without end.
    Stuck,
    /// More jumps than the fuel allows.
    OutOfFuel,
}

/// The first block of a list with the given id.
pub open spec fn find_block(blocks: Seq<SBlock>, id: int) -> Option<SBlock>
    decreases blocks.len(),
{
    if blocks.len() == 0 {
        None
    } else if blocks[0].id == id {
        Some(blocks[0])
    } else {
        find_block(blocks.skip(1), id)
    }
}

/// Runs `ops` with the blocks of a function; each jump takes one unit of
/// fuel.
pub open spec fn run_ops(ops: Seq<SOp>, blocks: Seq<SBlock>, vals: Vals, out: Seq<int>, o: Oracle, fuel: nat) -> Run
    decreases fuel, 0nat, ops.len(),
{
    if ops.len() == 0 {
        Run::Fall(vals, out)
    } else {
        match ops[0] {
            SOp::Return { operands } => match values_of(operands, vals) {
                Some(vs) => Run::Ret(vs, out),
                None => Run::Stuck,
            },
            SOp::Br { dest } => if fuel == 0 {
                Run::OutOfFuel
            } else {
                run_block(dest, blocks, vals, out, o, (fuel - 1) as nat)
            },
            SOp::CondBr { cond, then_dest, else_dest } => if fuel == 0 {
                Run::OutOfFuel
            } else if !vals.contains_key(cond) {
                Run::Stuck
            } else if vals[cond] != 0 {
                run_block(then_dest, blocks, vals, out, o, (fuel - 1) as nat)
            } else {
                run_block(else_dest, blocks, vals, out, o, (fuel - 1) as nat)
            },
            SOp::Yield { .. } => Run::Stuck,
            _ => match step_op(ops[0], vals, out, o) {
                Some((v1, out1)) => run_ops(ops.skip(1), blocks, v1, out1, o, fuel),
                None => Run::Stuck,
            },
        }
    }
}

/// Runs the block with the given id; a block that does not end is stuck.
pub open spec fn run_block(id: int, blocks: Seq<SBlock>, vals: Vals, out: Seq<int>, o: Oracle, fuel: nat) -> Run
    decreases fuel, 1nat, 0nat,
{
    match find_block(blocks, id) {
        Some(b) => match run_ops(b.ops, blocks, vals, out, o, fuel) {
            Run::Fall(_, _) => Run::Stuck,
            r => r,
        },
        None => Run::Stuck,
    }
}

/// The values of a block's arguments: the `i`-th argument value under the
/// id of the `i`-th argument.
pub open spec fn arg_vals(block_args: Seq<(int, Ty)>, args: Seq<int>) -> Vals {
    Map::new(
        |id: int| exists|i: int| 0 <= i < args.len() && block_args[i].0 == id,
        |id: int| args[choose|i: int| 0 <= i < args.len() && block_args[i].0 == id],
    )
}

/// Calls a function on argument values: binds its entry block's arguments
/// and runs that block.
pub open spec fn run_function(f: SFunc, args: Seq<int>, o: Oracle, fuel: nat) -> Run {
    if f.blocks.len() == 0 || f.blocks[0].args.len() != args.len() {
        Run::Stuck
    } else {
        let entry = f.blocks[0];
        match run_ops(entry.ops, f.blocks, arg_vals(entry.args, args), seq![], o, fuel) {
            Run::Fall(_, _) => Run::Stuck,
            r => r,
        }
    }
}

/// How running statements ends.
pub enum Outcome {
    /// They ran to their end: the bindings and the output after them.
    Normal(Store, Seq<int>),
    /// A return: its values (none, or the value returned) and the output.
    Returned(Seq<int>, Seq<int>),
}

/// Variable declarations: each declarator with a plain name and an
/// initializer binds the name to the initializer's value; the others do
/// nothing.
pub open spec fn exec_decls(
    fn_returns: Seq<(Seq<char>, bool)>,
    o: Oracle,
    decls: Seq<VarDeclarator>,
    st: Store,
    out: Seq<int>,
) -> Option<(Store, Seq<int>)>
    decreases decls.len(),
{
    if decls.len() == 0 {
        Some((st, out))
    } else {
        let d = decls[0];
        match (d.name, d.init) {
            (Some(name), Some(init)) => match eval_expr(fn_returns, o, init, st, out) {
                Some((v, out1)) => exec_decls(fn_returns, o, decls.skip(1), st.push((name@, v)), out1),
                None => None,
            },
            _ => exec_decls(fn_returns, o, decls.skip(1), st, out),
        }
    }
}

/// A statement, as the code generator reads it: declarations, returns,
/// expressions and, where `branches` holds, `if` statements; nothing else
/// has an effect. An `if` takes its first branch where the low bit of its
/// condition's value is set (the condition is truncated to one bit), and
/// names that a branch declares are not seen after it.
pub open spec fn exec_stmt(
    fn_returns: Seq<(Seq<char>, bool)>,
    branches: bool,
    o: Oracle,
    s: Stmt,
    st: Store,
    out: Seq<int>,
) -> Option<Outcome>
    decreases s, 0nat,
{
    match s {
        Stmt::Var(decls) => match exec_decls(fn_returns, o, decls@, st, out) {
            Some((st1, out1)) => Some(Outcome::Normal(st1, out1)),
            None => None,
        },
        Stmt::Return(arg) => match arg {
            None => Some(Outcome::Returned(seq![], out)),
            Some(e) => match eval_expr(fn_returns, o, e, st, out) {
                Some((v, out1)) => Some(Outcome::Returned(seq![v], out1)),
                None => None,
            },
        },
        Stmt::Expr(e) => match eval_expr(fn_returns, o, e, st, out) {
            Some((_, out1)) => Some(Outcome::Normal(st, out1)),
            None => None,
        },
        Stmt::If { test, cons, alt } => if !branches {
            Some(Outcome::Normal(st, out))
        } else {
            match eval_expr(fn_returns, o, test, st, out) {
                Some((c, out1)) => {
                    let r = if c % 2 != 0 {
                        exec_body(fn_returns, branches, o, *cons, st, out1)
                    } else {
                        match alt {
                            Some(a) => exec_body(fn_returns, branches, o, *a, st, out1),
                            None => Some(Outcome::Normal(st, out1)),
                        }
                    };
                    match r {
                        Some(Outcome::Normal(_, out2)) => Some(Outcome::Normal(st, out2)),
                        other => other,
                    }
                },
                None => None,
            }
        },
        _ => Some(Outcome::Normal(st, out)),
    }
}

/// The body of a branch: the statements of a block, or one statement.
pub open spec fn exec_body(
    fn_returns: Seq<(Seq<char>, bool)>,
    branches: bool,
    o: Oracle,
    body: Stmt,
    st: Store,
    out: Seq<int>,
) -> Option<Outcome>
    decreases body, 1nat,
{
    match body {
        Stmt::Block(ss) => exec_stmts(fn_returns, branches, o, ss@, st, out),
        _ => exec_stmt(fn_returns, branches, o, body, st, out),
    }
}

/// Statements in order, until one returns.
pub open spec fn exec_stmts(
    fn_returns: Seq<(Seq<char>, bool)>,
    branches: bool,
    o: Oracle,
    ss: Seq<Stmt>,
    st: Store,
    out: Seq<int>,
) -> Option<Outcome>
    decreases ss, 0nat,
{
    if ss.len() == 0 {
        Some(Outcome::Normal(st, out))
    } else {
        match exec_stmt(fn_returns, branches, o, ss[0], st, out) {
            Some(Outcome::Normal(st1, out1)) => exec_stmts(fn_returns, branches, o, ss.skip(1), st1, out1),
            other => other,
        }
    }
}

/// The bindings of the named parameters to the argument values.
pub open spec fn param_store(params: Seq<Param>, args: Seq<int>) -> Store
    decreases params.len(),
{
    if params.len() == 0 {
        seq![]
    } else {
        let rest = param_store(params.drop_last(), args);
        match params.last().name {
            Some(name) => rest.push((name@, args[params.len() - 1])),
            None => rest,
        }
    }
}

} // verus!
