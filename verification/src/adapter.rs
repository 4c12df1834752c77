//! The parser adapter: the one boundary to the outside grammar engine.
//!
//! The engine is a black box with two capabilities: parse a source text into a
//! syntax tree, and run a structural pattern over the tree, yielding every
//! match in traversal order. Both are deterministic functions of the source
//! text alone: each call here parses the text afresh with the Python grammar
//! and runs one fixed pattern, so the results are given names below
//! (`functions_of`, `decision_spans_of`) that the verified logic builds on.
//!
//! The engine is error-tolerant: it yields a tree, with error nodes inside,
//! for nearly any text, and such a partial tree counts as success here. It
//! yields no tree only when it cannot run at all, and only that is a parse
//! failure.

use vstd::prelude::*;
use tree_sitter::{Query, QueryCursor};
use tree_sitter::Parser as TsParser;

verus! {

/// One function definition found in a source text: its name, the 0-based row
/// of the `def` keyword, and the byte range of its body block.
pub struct FnSpan {
    pub name: String,
    pub row: u64,
    pub body_start: u64,
    pub body_end: u64,
}

/// The mathematical image of a `FnSpan`.
#[verifier::ext_equal]
pub ghost struct FnSpanV {
    pub name: Seq<char>,
    pub row: u64,
    pub body_start: u64,
    pub body_end: u64,
}

impl View for FnSpan {
    type V = FnSpanV;

    open spec fn view(&self) -> FnSpanV {
        FnSpanV {
            name: self.name@,
            row: self.row,
            body_start: self.body_start,
            body_end: self.body_end,
        }
    }
}

impl DeepView for FnSpan {
    type V = FnSpanV;

    open spec fn deep_view(&self) -> FnSpanV {
        self@
    }
}

/// Whether the grammar engine yields a tree for this source text.
pub uninterp spec fn parse_succeeds(source: Seq<char>) -> bool;

/// The function definitions of this source text, in traversal order.
pub uninterp spec fn functions_of(source: Seq<char>) -> Seq<FnSpanV>;

/// The byte ranges of the decision-point constructs of this source text
/// (conditionals, `elif` clauses, loops, `try` and `except` clauses, `with`
/// blocks, short-circuit boolean operators), in traversal order.
pub uninterp spec fn decision_spans_of(source: Seq<char>) -> Seq<(u64, u64)>;

/// Relies on tree_sitter's `Parser::parse` with the grammar of
/// tree_sitter_python, and on `Query` matching: yields every
/// `function_definition` node of the tree with its name identifier's text,
/// its starting row, and its body block's byte range, in traversal order;
/// `None` exactly when the engine yields no tree. Both are deterministic in
/// the source text. A malformed fixed pattern is a programming error and
/// panics.
#[verifier::external_body]
pub fn scan_functions(source: &str) -> (r: Option<Vec<FnSpan>>)
    ensures
        r is Some <==> parse_succeeds(source@),
        r matches Some(v) ==> v.deep_view() == functions_of(source@),
{
    let lang = tree_sitter_python::language();
    let mut parser = TsParser::new();
    parser.set_language(lang).expect("grammar version mismatch");
    let tree = parser.parse(source, None)?;
    let query = Query::new(lang, "(function_definition name: (identifier) @name body: (block) @body) @function").expect("malformed function pattern");
    let mut cursor = QueryCursor::new();
    let spans = cursor.matches(&query, tree.root_node(), source.as_bytes()).map(|m| FnSpan {
        name: m.captures[1].node.utf8_text(source.as_bytes()).unwrap_or("").to_string(),
        row: m.captures[0].node.start_position().row as u64,
        body_start: m.captures[2].node.start_byte() as u64,
        body_end: m.captures[2].node.end_byte() as u64,
    }).collect();
    Some(spans)
}

/// Relies on tree_sitter's `Parser::parse` with the grammar of
/// tree_sitter_python, and on `Query` matching: yields the byte range of
/// every decision-point node of the tree, in traversal order; `None` exactly
/// when the engine yields no tree. Both are deterministic in the source text.
/// A malformed fixed pattern is a programming error and panics.
#[verifier::external_body]
pub fn scan_decisions(source: &str) -> (r: Option<Vec<(u64, u64)>>)
    ensures
        r is Some <==> parse_succeeds(source@),
        r matches Some(v) ==> v@ == decision_spans_of(source@),
{
    let lang = tree_sitter_python::language();
    let mut parser = TsParser::new();
    parser.set_language(lang).expect("grammar version mismatch");
    let tree = parser.parse(source, None)?;
    let query = Query::new(lang, "(if_statement) @if (elif_clause) @elif (for_statement) @for (while_statement) @while (try_statement) @try (except_clause) @except (with_statement) @with (boolean_operator) @bool_op").expect("malformed decision pattern");
    let mut cursor = QueryCursor::new();
    let spans = cursor.matches(&query, tree.root_node(), source.as_bytes()).map(|m| {
        (m.captures[0].node.start_byte() as u64, m.captures[0].node.end_byte() as u64)
    }).collect();
    Some(spans)
}

} // verus!
