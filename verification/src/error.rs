//! Why a module cannot be compiled.
use vstd::prelude::*;
use crate::ast::BinaryOp;

verus! {

/// The errors of code generation.
#[derive(Clone, Debug)]
pub enum CompileError {
    /// An identifier that names no variable or parameter in scope.
    UnknownIdentifier(String),
    /// An expression that the generator does not handle, as the parser
    /// printed it.
    UnsupportedExpression(String),
    /// A method call other than `console.log`.
    UnsupportedMethodCall,
    /// A call whose callee is neither a name nor a member.
    UnsupportedCalleeExpression,
    /// A `super(..)` or `import(..)` call.
    UnsupportedCallee,
    /// A call of a name that no function of the module declares.
    UndefinedFunction(String),
    /// A binary operator that the generator does not handle (its name).
    UnsupportedBinaryOperator(String),
    /// `console.log` with other than one argument.
    ConsoleLogArity,
    /// A function with a return type whose body can end without `return`.
    MissingReturn(String),
    /// The module needs more SSA names than a 64-bit counter holds.
    ProgramTooLarge,
    /// A call of a name that no collected function declares.
    UnknownFunction(String),
    /// A member call whose object is not a plain name.
    UnsupportedMemberObject,
    /// A member call whose property is not a plain name.
    UnsupportedMemberProperty,
    /// A member call that names no built-in (object, property).
    UnresolvedNativeCall(String, String),
    /// A declaration or assignment whose target is not a plain name, or a
    /// declaration without initializer.
    UnsupportedAssignmentTarget,
    /// An expression that produced no value where one is needed.
    LastValueEmpty,
    /// The result of an operation that has none was asked for.
    MissingResult,
    /// A binary operator that the first generator does not handle.
    UnsupportedOperator(BinaryOp),
}

impl CompileError {
    /// A copy of the error.
    pub fn duplicate(&self) -> (r: CompileError)
        ensures
            r == *self,
    {
        match self {
            CompileError::UnknownIdentifier(s) => CompileError::UnknownIdentifier(s.clone()),
            CompileError::UnsupportedExpression(t) => CompileError::UnsupportedExpression(t.clone()),
            CompileError::UnsupportedMethodCall => CompileError::UnsupportedMethodCall,
            CompileError::UnsupportedCalleeExpression => CompileError::UnsupportedCalleeExpression,
            CompileError::UnsupportedCallee => CompileError::UnsupportedCallee,
            CompileError::UndefinedFunction(s) => CompileError::UndefinedFunction(s.clone()),
            CompileError::UnsupportedBinaryOperator(s) => CompileError::UnsupportedBinaryOperator(s.clone()),
            CompileError::ConsoleLogArity => CompileError::ConsoleLogArity,
            CompileError::MissingReturn(s) => CompileError::MissingReturn(s.clone()),
            CompileError::ProgramTooLarge => CompileError::ProgramTooLarge,
            CompileError::UnknownFunction(s) => CompileError::UnknownFunction(s.clone()),
            CompileError::UnsupportedMemberObject => CompileError::UnsupportedMemberObject,
            CompileError::UnsupportedMemberProperty => CompileError::UnsupportedMemberProperty,
            CompileError::UnresolvedNativeCall(a, b) => CompileError::UnresolvedNativeCall(a.clone(), b.clone()),
            CompileError::UnsupportedAssignmentTarget => CompileError::UnsupportedAssignmentTarget,
            CompileError::LastValueEmpty => CompileError::LastValueEmpty,
            CompileError::MissingResult => CompileError::MissingResult,
            CompileError::UnsupportedOperator(op) => CompileError::UnsupportedOperator(op.duplicate()),
        }
    }
}

} // verus!
