//! The MLIR that the code generators emit.
//!
//! Executable values (`Op`, `Block`, ...) name SSA values and blocks by
//! 64-bit ids; each has a mathematical view (`SOp`, `SBlock`, ...) in which
//! ids are integers and lists are sequences.
use vstd::prelude::*;

verus! {

/// The types that appear in the emitted MLIR.
#[derive(Clone, Copy, Debug, PartialEq, Eq, Structural)]
pub enum Ty {
    I1,
    I8,
    I32,
    I64,
    /// `!llvm.ptr`
    Ptr,
}

/// The integer operations of the `arith` dialect that are emitted.
#[derive(Clone, Copy, Debug, PartialEq, Eq, Structural)]
pub enum ArithOp {
    AddI,
    SubI,
    MulI,
    DivSI,
    RemSI,
}

/// The predicates of `arith.cmpi` that are emitted.
#[derive(Clone, Copy, Debug, PartialEq, Eq, Structural)]
pub enum Predicate {
    Slt,
    Sle,
    Sgt,
    Sge,
    Eq,
    Ne,
}

/// An operation inside a block.
#[derive(Debug)]
pub enum Op {
    /// `arith.constant value : ty`
    Constant { result: u64, value: i64, ty: Ty },
    /// `arith.addi` / `subi` / `muli` / `divsi` / `remsi`
    Arith { result: u64, kind: ArithOp, lhs: u64, rhs: u64 },
    /// `arith.cmpi predicate, lhs, rhs` (an `i1`)
    Compare { result: u64, predicate: Predicate, lhs: u64, rhs: u64 },
    /// `arith.extui` from `i1` to `i64`
    ExtUI { result: u64, operand: u64 },
    /// `arith.trunci` from `i64` to `i1`
    TruncI { result: u64, operand: u64 },
    /// `func.call @callee(args)`, with at most one typed result
    Call { callee: String, args: Vec<u64>, result: Option<(u64, Ty)> },
    /// `llvm.mlir.addressof @global`
    AddressOf { result: u64, global: String },
    /// `llvm.call @callee(args)` of a variadic function returning `i32`
    VarargCall { result: u64, callee: String, args: Vec<u64> },
    /// `func.return operands`
    Return { operands: Vec<u64> },
    /// `scf.yield operands`
    Yield { operands: Vec<u64> },
    /// `cf.br ^dest`
    Br { dest: u64 },
    /// `cf.cond_br cond, ^then_dest, ^else_dest`
    CondBr { cond: u64, then_dest: u64, else_dest: u64 },
    /// A `func.func` declared inside a block.
    Func(FuncOp),
}

/// A block: its id, its typed arguments, and its operations.
#[derive(Debug)]
pub struct Block {
    pub id: u64,
    pub args: Vec<(u64, Ty)>,
    pub ops: Vec<Op>,
}

/// `func.func @name(params) -> results`, with its body (no blocks for a
/// declaration) and whether it is private.
#[derive(Debug)]
pub struct FuncOp {
    pub name: String,
    pub params: Vec<Ty>,
    pub results: Vec<Ty>,
    pub blocks: Vec<Block>,
    pub private: bool,
}

/// An operation at module level.
#[derive(Debug)]
pub enum ModuleOp {
    Func(FuncOp),
    /// `llvm.func @name(fixed, ...) -> i32` with external linkage
    ExternVarargFunc { name: String, fixed: Vec<Ty> },
    /// `llvm.mlir.global internal constant @name("value")`, an `i8` array as
    /// long as `value`
    ConstString { name: String, value: String },
}

/// A module: its operations in order.
#[derive(Debug)]
pub struct Module {
    pub ops: Vec<ModuleOp>,
}

/// The view of an `Op`.
pub enum SOp {
    Constant { result: int, value: int, ty: Ty },
    Arith { result: int, kind: ArithOp, lhs: int, rhs: int },
    Compare { result: int, predicate: Predicate, lhs: int, rhs: int },
    ExtUI { result: int, operand: int },
    TruncI { result: int, operand: int },
    Call { callee: Seq<char>, args: Seq<int>, result: Option<(int, Ty)> },
    AddressOf { result: int, global: Seq<char> },
    VarargCall { result: int, callee: Seq<char>, args: Seq<int> },
    Return { operands: Seq<int> },
    Yield { operands: Seq<int> },
    Br { dest: int },
    CondBr { cond: int, then_dest: int, else_dest: int },
    Func(SFunc),
}

/// The view of a `Block`.
#[verifier::ext_equal]
pub struct SBlock {
    pub id: int,
    pub args: Seq<(int, Ty)>,
    pub ops: Seq<SOp>,
}

/// The view of a `FuncOp`.
#[verifier::ext_equal]
pub struct SFunc {
    pub name: Seq<char>,
    pub params: Seq<Ty>,
    pub results: Seq<Ty>,
    pub blocks: Seq<SBlock>,
    pub private: bool,
}

/// The view of a `ModuleOp`.
pub enum SModuleOp {
    Func(SFunc),
    ExternVarargFunc { name: Seq<char>, fixed: Seq<Ty> },
    ConstString { name: Seq<char>, value: Seq<char> },
}

/// The ids of a list, as integers.
pub open spec fn ids_view(v: Seq<u64>) -> Seq<int> {
    v.map_values(|x: u64| x as int)
}

/// Typed ids, as integers.
pub open spec fn typed_ids_view(v: Seq<(u64, Ty)>) -> Seq<(int, Ty)> {
    v.map_values(|p: (u64, Ty)| (p.0 as int, p.1))
}

/// The view of an operation; a function declared inside a block has its
/// blocks viewed in turn.
pub open spec fn op_view(o: Op) -> SOp
    decreases o,
{
    match o {
        Op::Constant { result, value, ty } => SOp::Constant {
            result: result as int,
            value: value as int,
            ty,
        },
        Op::Arith { result, kind, lhs, rhs } => SOp::Arith {
            result: result as int,
            kind,
            lhs: lhs as int,
            rhs: rhs as int,
        },
        Op::Compare { result, predicate, lhs, rhs } => SOp::Compare {
            result: result as int,
            predicate,
            lhs: lhs as int,
            rhs: rhs as int,
        },
        Op::ExtUI { result, operand } => SOp::ExtUI {
            result: result as int,
            operand: operand as int,
        },
        Op::TruncI { result, operand } => SOp::TruncI {
            result: result as int,
            operand: operand as int,
        },
        Op::Call { callee, args, result } => SOp::Call {
            callee: callee@,
            args: ids_view(args@),
            result: match result {
                Some(r) => Some((r.0 as int, r.1)),
                None => None,
            },
        },
        Op::AddressOf { result, global } => SOp::AddressOf {
            result: result as int,
            global: global@,
        },
        Op::VarargCall { result, callee, args } => SOp::VarargCall {
            result: result as int,
            callee: callee@,
            args: ids_view(args@),
        },
        Op::Return { operands } => SOp::Return { operands: ids_view(operands@) },
        Op::Yield { operands } => SOp::Yield { operands: ids_view(operands@) },
        Op::Br { dest } => SOp::Br { dest: dest as int },
        Op::CondBr { cond, then_dest, else_dest } => SOp::CondBr {
            cond: cond as int,
            then_dest: then_dest as int,
            else_dest: else_dest as int,
        },
        Op::Func(f) => SOp::Func(func_view(f)),
    }
}

/// The view of a function, its blocks viewed by `block_view`.
pub open spec fn func_view(f: FuncOp) -> SFunc
    decreases f,
{
    SFunc {
        name: f.name@,
        params: f.params@,
        results: f.results@,
        blocks: blocks_view_of(f.blocks@),
        private: f.private,
    }
}

/// The views of blocks, one by one.
pub open spec fn blocks_view_of(bs: Seq<Block>) -> Seq<SBlock>
    decreases bs,
{
    if bs.len() == 0 {
        seq![]
    } else {
        seq![block_view(bs[0])] + blocks_view_of(bs.skip(1))
    }
}

/// The view of a block, its operations viewed by `op_view`.
pub open spec fn block_view(b: Block) -> SBlock
    decreases b,
{
    SBlock { id: b.id as int, args: typed_ids_view(b.args@), ops: ops_view_of(b.ops@) }
}

/// The views of operations, one by one.
pub open spec fn ops_view_of(os: Seq<Op>) -> Seq<SOp>
    decreases os,
{
    if os.len() == 0 {
        seq![]
    } else {
        seq![op_view(os[0])] + ops_view_of(os.skip(1))
    }
}

impl View for Op {
    type V = SOp;

    open spec fn view(&self) -> SOp {
        op_view(*self)
    }
}

/// Viewing operations one by one is viewing each.
pub proof fn lemma_ops_view_of(os: Seq<Op>)
    ensures
        ops_view_of(os) == ops_view(os),
    decreases os.len(),
{
    if os.len() > 0 {
        lemma_ops_view_of(os.skip(1));
        assert(ops_view_of(os) =~= ops_view(os));
    }
}

/// Viewing blocks one by one is viewing each.
pub proof fn lemma_blocks_view_of(bs: Seq<Block>)
    ensures
        blocks_view_of(bs) == blocks_view(bs),
    decreases bs.len(),
{
    if bs.len() > 0 {
        lemma_blocks_view_of(bs.skip(1));
        lemma_ops_view_of(bs[0].ops@);
        assert(block_view(bs[0]) == bs[0]@);
        assert(blocks_view_of(bs) =~= blocks_view(bs));
    }
}

/// Blocks with equal ids, arguments and operations are equal.
pub proof fn lemma_sblock_ext(a: SBlock, b: SBlock)
    requires
        a.id == b.id,
        a.args =~= b.args,
        a.ops =~= b.ops,
    ensures
        a == b,
{
}

/// Functions with equal parts are equal.
pub proof fn lemma_sfunc_ext(a: SFunc, b: SFunc)
    requires
        a.name =~= b.name,
        a.params =~= b.params,
        a.results =~= b.results,
        a.blocks =~= b.blocks,
        a.private == b.private,
    ensures
        a == b,
{
}

/// The view of a function declared in a block is its view.
pub proof fn lemma_func_view(f: FuncOp)
    ensures
        func_view(f) == f@,
{
    lemma_blocks_view_of(f.blocks@);
}


/// The views of a list of operations.
pub open spec fn ops_view(v: Seq<Op>) -> Seq<SOp> {
    v.map_values(|o: Op| o@)
}

impl View for Block {
    type V = SBlock;

    open spec fn view(&self) -> SBlock {
        SBlock { id: self.id as int, args: typed_ids_view(self.args@), ops: ops_view(self.ops@) }
    }
}

/// The views of a list of blocks.
pub open spec fn blocks_view(v: Seq<Block>) -> Seq<SBlock> {
    v.map_values(|b: Block| b@)
}

impl View for FuncOp {
    type V = SFunc;

    open spec fn view(&self) -> SFunc {
        SFunc {
            name: self.name@,
            params: self.params@,
            results: self.results@,
            blocks: blocks_view(self.blocks@),
            private: self.private,
        }
    }
}

impl View for ModuleOp {
    type V = SModuleOp;

    open spec fn view(&self) -> SModuleOp {
        match self {
            ModuleOp::Func(f) => SModuleOp::Func(f@),
            ModuleOp::ExternVarargFunc { name, fixed } => SModuleOp::ExternVarargFunc {
                name: name@,
                fixed: fixed@,
            },
            ModuleOp::ConstString { name, value } => SModuleOp::ConstString {
                name: name@,
                value: value@,
            },
        }
    }
}

/// The views of a list of module operations.
pub open spec fn module_ops_view(v: Seq<ModuleOp>) -> Seq<SModuleOp> {
    v.map_values(|o: ModuleOp| o@)
}

impl View for Module {
    type V = Seq<SModuleOp>;

    open spec fn view(&self) -> Seq<SModuleOp> {
        module_ops_view(self.ops@)
    }
}

} // verus!
