//! Reading TypeScript source text into swc's syntax tree.
use vstd::prelude::*;
use swc_common::sync::Lrc;
use swc_common::{FileName, SourceMap};
use swc_ecma_parser::lexer::Lexer;
use swc_ecma_parser::{Parser, StringInput, Syntax, TsSyntax};
use swc_ecma_ast::Module as SwcModule;

verus! {

/// swc's module: the items of a parsed source file.
#[verifier::external_type_specification]
#[verifier::external_body]
pub struct ExSourceModule(SwcModule);

/// Why a source text could not be parsed: the parser's description.
#[derive(Debug)]
pub struct ParseError {
    pub message: String,
}

/// Whether swc's parser accepts `source` as a TypeScript module.
pub uninterp spec fn parses(source: Seq<char>) -> bool;

/// The module that swc's parser builds from `source`, where it accepts it.
pub uninterp spec fn parsed_module(source: Seq<char>) -> SwcModule;

/// The parser's description of why it refuses `source`, where it does.
pub uninterp spec fn syntax_error_text(source: Seq<char>) -> Seq<char>;

/// Parses `source` with swc's `Parser::parse_module`, over a `Lexer` with
/// TypeScript syntax and every TypeScript option off (no TSX, no
/// decorators, not a declaration file, early errors reported). The
/// contract claims that the call succeeds exactly when `parses` holds of
/// the text, that the module is the one named by `parsed_module` for the
/// text, and that a refusal is described by the `Debug` text of swc's
/// error, named by `syntax_error_text` for the text: the parser is a
/// function of the text alone (a fresh source map and fixed options on
/// each call). What the module and the description hold is not described,
/// nor the texts, if any, on which the parser panics (it holds
/// `unreachable!`, `unwrap` and `expect` sites).
#[verifier::external_body]
fn parse_module_source(source: &str) -> (r: Result<SwcModule, String>)
    ensures
        r is Ok <==> parses(source@),
        r matches Ok(m) ==> m == parsed_module(source@),
        r matches Err(t) ==> t@ == syntax_error_text(source@),
{
    let cm: Lrc<SourceMap> = Default::default();
    let fm = cm.new_source_file(Lrc::new(FileName::Custom("input.ts".into())), source.to_string());
    let syntax = Syntax::Typescript(TsSyntax::default());
    let lexer = Lexer::new(syntax, Default::default(), StringInput::from(&*fm), None);
    match Parser::new_from(lexer).parse_module() {
        Ok(m) => Ok(m),
        Err(e) => Err(format!("{e:?}")),
    }
}

/// Parses TypeScript source text as a module; fails, with the parser's
/// description, exactly where the parser refuses the text.
pub fn parse_typescript(source: &str) -> (r: Result<SwcModule, ParseError>)
    ensures
        r is Ok <==> parses(source@),
        r matches Ok(m) ==> m == parsed_module(source@),
        r matches Err(e) ==> e.message@ == syntax_error_text(source@),
{
    match parse_module_source(source) {
        Ok(m) => Ok(m),
        Err(message) => Err(ParseError { message }),
    }
}

} // verus!
