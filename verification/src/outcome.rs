//! The one shape in which a request reports: either the findings of the rule
//! battery or the error of the stage that failed, never both.

use vstd::prelude::*;
use crate::tokens::texts;

verus! {

/// A transformation error of `mediawiki_parser`, carried through to the
/// response untouched.
#[verifier::external_type_specification]
#[verifier::external_body]
pub struct ExTransformationError(mediawiki_parser::TransformationError);

/// A place in the source text.
#[derive(Debug, Clone, Copy, PartialEq, Eq, Structural)]
pub struct Position {
    /// The offset in bytes from the start of the text.
    pub offset: usize,
    /// The line, counted from 1.
    pub line: usize,
    /// The column in characters, counted from 1.
    pub col: usize,
}

/// Where and why the parser gave up.
#[derive(Debug)]
pub struct ParseError {
    /// The place that the parser could not get past.
    pub position: Position,
    /// What the parser could have gone on with at that place.
    pub expected: Vec<String>,
    /// The lines of the source around that place.
    pub context: Vec<String>,
    /// The index of the first line of `context` among the lines of the
    /// source.
    pub context_start: usize,
    /// The index of the last line of `context` among the lines of the
    /// source.
    pub context_end: usize,
}

/// The mathematical value of a [`ParseError`].
pub struct ParseErrorView {
    pub position: Position,
    pub expected: Seq<Seq<char>>,
    pub context: Seq<Seq<char>>,
    pub context_start: usize,
    pub context_end: usize,
}

impl View for ParseError {
    type V = ParseErrorView;

    open spec fn view(&self) -> ParseErrorView {
        ParseErrorView {
            position: self.position,
            expected: texts(self.expected@),
            context: texts(self.context@),
            context_start: self.context_start,
            context_end: self.context_end,
        }
    }
}

/// Why a request produced no findings.
#[derive(Debug)]
pub enum PipelineError {
    /// The source text is not well-formed markup.
    ParseError(ParseError),
    /// A transformation of the document tree failed, among them a formula
    /// that the checker refused or could not check.
    TransformationError(mediawiki_parser::TransformationError),
}

/// The mathematical value of a [`PipelineError`].
pub enum PipelineErrorView {
    ParseError(ParseErrorView),
    TransformationError(mediawiki_parser::TransformationError),
}

impl View for PipelineError {
    type V = PipelineErrorView;

    open spec fn view(&self) -> PipelineErrorView {
        match self {
            PipelineError::ParseError(error) => PipelineErrorView::ParseError(error@),
            PipelineError::TransformationError(error) => PipelineErrorView::TransformationError(
                *error,
            ),
        }
    }
}

/// What a request ends in. `F` is the type of one finding, which the rules
/// define.
#[derive(Debug)]
pub enum ResultKind<F> {
    /// Every stage succeeded; the findings of all rules, in the order of the
    /// rules.
    Lints(Vec<F>),
    /// A stage failed; no finding is reported.
    Error(PipelineError),
}

/// The mathematical value of a [`ResultKind`].
pub enum ResultView<F> {
    Lints(Seq<F>),
    Error(PipelineErrorView),
}

impl<F> View for ResultKind<F> {
    type V = ResultView<F>;

    open spec fn view(&self) -> ResultView<F> {
        match self {
            ResultKind::Lints(findings) => ResultView::Lints(findings@),
            ResultKind::Error(error) => ResultView::Error(error@),
        }
    }
}

impl<F> ResultView<F> {
    /// The findings that the result reports: none where a stage failed.
    pub open spec fn findings(self) -> Seq<F> {
        match self {
            ResultView::Lints(findings) => findings,
            ResultView::Error(_) => Seq::empty(),
        }
    }

    /// The error that the result reports, if any.
    pub open spec fn error(self) -> Option<PipelineErrorView> {
        match self {
            ResultView::Lints(_) => None,
            ResultView::Error(error) => Some(error),
        }
    }

    /// A result never reports findings beside an error.
    pub proof fn lemma_findings_exclude_error(self)
        ensures
            !(self.findings().len() > 0 && self.error() is Some),
            self.error() is None <==> self is Lints,
    {
    }
}

impl<F> ResultKind<F> {
    /// The findings that the result reports: none where a stage failed.
    pub fn findings(&self) -> (findings: &[F])
        ensures
            findings@ == self@.findings(),
    {
        match self {
            ResultKind::Lints(findings) => findings.as_slice(),
            ResultKind::Error(_) => &[],
        }
    }

    /// The error that the result reports, if any.
    pub fn error(&self) -> (error: Option<&PipelineError>)
        ensures
            match error {
                Some(e) => self@.error() == Some(e@),
                None => self@.error() is None,
            },
    {
        match self {
            ResultKind::Lints(_) => None,
            ResultKind::Error(error) => Some(error),
        }
    }
}

} // verus!
