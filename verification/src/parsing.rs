//! The parse stage: from source text to a document tree or an error, by the
//! parser of `mediawiki_parser`.
//!
//! The parser is run only on the texts that [`parser_takes`] describes. What
//! it returns is a function of the text but for one thing: the tokens that
//! a parse error lists as expected come in no fixed order. The stage puts
//! them in order, so that one text is always reported in the same way.

use vstd::prelude::*;
use vstd::multiset::Multiset;
use crate::outcome::{ParseError, ParseErrorView, PipelineError, PipelineErrorView, Position};
use crate::guard::{parser_can_take, parser_takes};
use crate::tokens::{in_order, sort_tokens, texts};

verus! {

/// A node of the document tree of `mediawiki_parser`; the root of a parsed
/// text is one. The pipeline hands trees on and never looks inside.
#[verifier::external_type_specification]
#[verifier::external_body]
pub struct ExElement(mediawiki_parser::Element);

/// A parse error as the parser states it: the tokens that it expected are a
/// bag, for the parser lists them in no order of its own.
pub struct RawParseError {
    pub position: Position,
    pub expected: Multiset<Seq<char>>,
    pub context: Seq<Seq<char>>,
    pub context_start: usize,
    pub context_end: usize,
}

/// What the parser makes of a text.
pub enum Parsed {
    /// The root of the document tree.
    Tree(mediawiki_parser::Element),
    /// The text is not well-formed markup.
    ParseError(RawParseError),
    /// The text was read, but one of the transformations that the parser
    /// applies to the tree failed.
    TransformationError(mediawiki_parser::TransformationError),
}

/// What `mediawiki_parser::parse` makes of a text.
pub uninterp spec fn parse_outcome(text: Seq<char>) -> Parsed;

/// The value of an outcome of the parse stage.
pub open spec fn outcome_view(outcome: Result<mediawiki_parser::Element, PipelineError>) -> Result<
    mediawiki_parser::Element,
    PipelineErrorView,
> {
    match outcome {
        Ok(tree) => Ok(tree),
        Err(error) => Err(error@),
    }
}

/// What an outcome of the parse stage says when the order of the expected
/// tokens is left aside.
pub open spec fn unordered(outcome: Result<mediawiki_parser::Element, PipelineError>) -> Parsed {
    match outcome {
        Ok(tree) => Parsed::Tree(tree),
        Err(PipelineError::ParseError(error)) => Parsed::ParseError(
            RawParseError {
                position: error.position,
                expected: texts(error.expected@).to_multiset(),
                context: texts(error.context@),
                context_start: error.context_start,
                context_end: error.context_end,
            },
        ),
        Err(PipelineError::TransformationError(error)) => Parsed::TransformationError(error),
    }
}

/// What the parse stage reports for what the parser made of a text: the
/// same, with the expected tokens of a parse error in order.
pub open spec fn reported(parsed: Parsed) -> Result<mediawiki_parser::Element, PipelineErrorView> {
    match parsed {
        Parsed::Tree(tree) => Ok(tree),
        Parsed::ParseError(error) => Err(
            PipelineErrorView::ParseError(
                ParseErrorView {
                    position: error.position,
                    expected: in_order(error.expected),
                    context: error.context,
                    context_start: error.context_start,
                    context_end: error.context_end,
                },
            ),
        ),
        Parsed::TransformationError(error) => Err(PipelineErrorView::TransformationError(error)),
    }
}

/// Calls `mediawiki_parser::parse` and moves the fields of a parse error
/// into the library's own type, one for one. The parser reads nothing but
/// the text, so the contract names what it returns as a function of the
/// text, except for the order of the expected tokens, which come out of a
/// hash set; of what the tree or the error holds it says nothing. The call
/// is made only on texts on which the parser's matching of tag names stays
/// on character boundaries. The parser descends once for every level of
/// nesting in the text, and like every recursion it needs stack for that:
/// of the limits of the machine no clause here speaks.
#[verifier::external_body]
fn parse_source(text: &str) -> (outcome: Result<mediawiki_parser::Element, PipelineError>)
    requires
        parser_takes(text@),
    ensures
        unordered(outcome) == parse_outcome(text@),
{
    match mediawiki_parser::parse(text) {
        Ok(tree) => Ok(tree),
        Err(mediawiki_parser::MWError::TransformationError(e)) => Err(PipelineError::TransformationError(e)),
        Err(mediawiki_parser::MWError::ParseError(e)) => Err(PipelineError::ParseError(ParseError {
            position: Position { offset: e.position.offset, line: e.position.line, col: e.position.col },
            expected: e.expected,
            context: e.context,
            context_start: e.context_start,
            context_end: e.context_end,
        })),
    }
}

/// Puts the expected tokens of a parse error in order, and leaves every
/// other outcome as it is.
pub fn in_canonical_order(outcome: Result<mediawiki_parser::Element, PipelineError>) -> (ordered:
    Result<mediawiki_parser::Element, PipelineError>)
    ensures
        outcome_view(ordered) == reported(unordered(outcome)),
{
    match outcome {
        Err(PipelineError::ParseError(error)) => {
            let ParseError { position, expected, context, context_start, context_end } = error;
            Err(
                PipelineError::ParseError(
                    ParseError {
                        position,
                        expected: sort_tokens(expected),
                        context,
                        context_start,
                        context_end,
                    },
                ),
            )
        },
        other => other,
    }
}

/// The parse stage. A text that the parser cannot be run on gives `None`;
/// every other text gives what the parser makes of it, with the expected
/// tokens of a parse error in order.
pub fn parse(text: &str) -> (parsed: Option<Result<mediawiki_parser::Element, PipelineError>>)
    ensures
        parsed is Some <==> parser_takes(text@),
        parsed matches Some(outcome) ==> outcome_view(outcome) == reported(parse_outcome(text@)),
{
    if parser_can_take(text) {
        Some(in_canonical_order(parse_source(text)))
    } else {
        None
    }
}

} // verus!
