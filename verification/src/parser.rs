//! Parsing a source file: the syntax that its name selects, and swc's parse of it.
use vstd::prelude::*;
use crate::ast::Module;
use crate::error::JsxrsError;
use crate::frontend::{swc_module, swc_parse_module};
use crate::renderer::module_res_view;
use crate::text::{ends_with, str_ends_with};

verus! {

/// TypeScript with TSX, or ECMAScript with JSX.
#[derive(Clone, Copy)]
pub enum SourceSyntax {
    TypeScript,
    EcmaScript,
}

/// Files named `.tsx` or `.ts` are TypeScript; any other is ECMAScript with JSX.
pub open spec fn is_typescript_name(file_name: Seq<char>) -> bool {
    ends_with(file_name, ".tsx"@) || ends_with(file_name, ".ts"@)
}

/// The syntax for a file, by its name.
pub fn syntax_for_file(file_name: &str) -> (r: SourceSyntax)
    ensures
        (r is TypeScript) == is_typescript_name(file_name@),
{
    if str_ends_with(file_name, ".tsx") || str_ends_with(file_name, ".ts") {
        SourceSyntax::TypeScript
    } else {
        SourceSyntax::EcmaScript
    }
}

/// The syntax that a file is parsed with, by its name.
pub open spec fn syntax_of(file_name: Seq<char>) -> SourceSyntax {
    if is_typescript_name(file_name) {
        SourceSyntax::TypeScript
    } else {
        SourceSyntax::EcmaScript
    }
}

/// Parses a JSX/TSX source into the library's syntax tree with swc, under the syntax
/// that its file name gives: TypeScript with TSX for `.tsx` and `.ts`, else
/// ECMAScript with JSX. A source that does not parse gives swc's parse error.
pub fn parse_source(source: &str, file_name: &str) -> (r: Result<Module, JsxrsError>)
    ensures
        module_res_view(r) == swc_module(source@, file_name@, syntax_of(file_name@)),
{
    let syntax = syntax_for_file(file_name);
    swc_parse_module(source, file_name, syntax)
}

} // verus!
