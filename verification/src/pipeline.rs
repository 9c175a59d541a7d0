//! The course of one request: parse, normalize, run every rule of the
//! battery in its order, report.
//!
//! Parsing is done here. Normalizing a tree and running a rule are the work
//! of the driver around this library, so the course is laid down as a state
//! machine: [`lint`] and [`step`] say what the driver is to do next (an
//! [`Action`]), and the driver says what came of it (an [`Event`]). The first
//! stage that fails ends the request with its error; otherwise the request
//! ends with the findings of all rules, in the order of the rules.
//!
//! A rule that cannot finish is a fault of the rule, not of the text. There
//! is no event for it: the driver gives the request up, and no result is
//! made of it.

use vstd::prelude::*;
use crate::outcome::{PipelineError, PipelineErrorView, ResultKind, ResultView};
use crate::guard::parser_takes;
use crate::parsing::{outcome_view, parse, parse_outcome, reported};

verus! {

/// Where a request stands.
#[derive(Debug, Clone, Copy, PartialEq, Eq, Structural)]
pub enum Phase {
    /// The text is parsed; its tree is being normalized.
    Normalizing,
    /// The tree is normalized; the rules run, one after the other.
    Linting,
    /// The request has its result.
    Finished,
}

/// What the driver is to do next.
#[derive(Debug)]
pub enum Action<F> {
    /// Normalize this tree, and report with [`Event::Normalized`].
    Normalize(mediawiki_parser::Element),
    /// Run the rule with this index on the normalized tree, and report with
    /// [`Event::RuleFinished`].
    RunRule(usize),
    /// Answer the request with this result. Nothing follows.
    Respond(ResultKind<F>),
}

/// What came of the last action.
#[derive(Debug)]
pub enum Event<F> {
    /// Normalization succeeded, or failed with this error.
    Normalized(Result<(), mediawiki_parser::TransformationError>),
    /// The rule ran and found these.
    RuleFinished(Vec<F>),
}

/// The state of a request between two actions.
#[derive(Debug)]
pub struct Run<F> {
    phase: Phase,
    rule_count: usize,
    next_rule: usize,
    findings: Vec<F>,
}

/// The mathematical value of an [`Action`].
pub enum ActionView<F> {
    Normalize(mediawiki_parser::Element),
    RunRule(nat),
    Respond(ResultView<F>),
}

/// The mathematical value of an [`Event`].
pub enum EventView<F> {
    Normalized(Result<(), mediawiki_parser::TransformationError>),
    RuleFinished(Seq<F>),
}

/// The mathematical value of a [`Run`]: its phase, the number of rules in
/// the battery, the index of the rule that runs next and the findings of the
/// rules that ran.
pub struct RunView<F> {
    pub phase: Phase,
    pub rule_count: nat,
    pub next_rule: nat,
    pub findings: Seq<F>,
}

impl<F> View for Action<F> {
    type V = ActionView<F>;

    open spec fn view(&self) -> ActionView<F> {
        match self {
            Action::Normalize(tree) => ActionView::Normalize(*tree),
            Action::RunRule(index) => ActionView::RunRule(*index as nat),
            Action::Respond(result) => ActionView::Respond(result@),
        }
    }
}

impl<F> View for Event<F> {
    type V = EventView<F>;

    open spec fn view(&self) -> EventView<F> {
        match self {
            Event::Normalized(outcome) => EventView::Normalized(*outcome),
            Event::RuleFinished(found) => EventView::RuleFinished(found@),
        }
    }
}

impl<F> View for Run<F> {
    type V = RunView<F>;

    closed spec fn view(&self) -> RunView<F> {
        RunView {
            phase: self.phase,
            rule_count: self.rule_count as nat,
            next_rule: self.next_rule as nat,
            findings: self.findings@,
        }
    }
}

impl<F> RunView<F> {
    /// A request that has its result.
    pub open spec fn finished(rule_count: nat) -> RunView<F> {
        RunView { phase: Phase::Finished, rule_count, next_rule: 0, findings: Seq::empty() }
    }

    /// What a state must satisfy: before linting nothing is found yet, and
    /// while linting a rule is left to run.
    pub open spec fn wf(self) -> bool {
        match self.phase {
            Phase::Normalizing => self.next_rule == 0 && self.findings.len() == 0,
            Phase::Linting => self.next_rule < self.rule_count,
            Phase::Finished => self.next_rule == 0 && self.findings.len() == 0,
        }
    }

    /// Whether `event` answers the action that is pending in this state.
    pub open spec fn accepts(self, event: EventView<F>) -> bool {
        match (self.phase, event) {
            (Phase::Normalizing, EventView::Normalized(_)) => true,
            (Phase::Linting, EventView::RuleFinished(_)) => true,
            _ => false,
        }
    }

    /// Linting with `findings` gathered and rule `next_rule` to run: the rule
    /// runs if the battery has it, and else the findings are the result.
    pub open spec fn linting(rule_count: nat, next_rule: nat, findings: Seq<F>) -> (
        RunView<F>,
        ActionView<F>,
    ) {
        if next_rule < rule_count {
            (
                RunView { phase: Phase::Linting, rule_count, next_rule, findings },
                ActionView::RunRule(next_rule),
            )
        } else {
            (Self::finished(rule_count), ActionView::Respond(ResultView::Lints(findings)))
        }
    }

    /// The state and the action that follow when `event` answers the pending
    /// action.
    pub open spec fn step(self, event: EventView<F>) -> (RunView<F>, ActionView<F>) {
        match event {
            EventView::Normalized(Ok(_)) => Self::linting(self.rule_count, 0, Seq::empty()),
            EventView::Normalized(Err(error)) => (
                Self::finished(self.rule_count),
                ActionView::Respond(ResultView::Error(PipelineErrorView::TransformationError(error))),
            ),
            EventView::RuleFinished(found) => Self::linting(
                self.rule_count,
                self.next_rule + 1,
                self.findings + found,
            ),
        }
    }

    /// The state and the action with which a request begins, given what the
    /// parser made of its text.
    pub open spec fn begin(
        parsed: Result<mediawiki_parser::Element, PipelineErrorView>,
        rule_count: nat,
    ) -> (RunView<F>, ActionView<F>) {
        match parsed {
            Ok(tree) => (
                RunView {
                    phase: Phase::Normalizing,
                    rule_count,
                    next_rule: 0,
                    findings: Seq::empty(),
                },
                ActionView::Normalize(tree),
            ),
            Err(error) => (
                Self::finished(rule_count),
                ActionView::Respond(ResultView::Error(error)),
            ),
        }
    }
}

/// The events of a request whose normalization ended in `normalized` and
/// whose rules, as far as they ran, found `per_rule`, each its own.
pub open spec fn events_of<F>(
    normalized: Result<(), mediawiki_parser::TransformationError>,
    per_rule: Seq<Seq<F>>,
) -> Seq<EventView<F>> {
    seq![EventView::Normalized(normalized)] + per_rule.map_values(
        |found: Seq<F>| EventView::RuleFinished(found),
    )
}

/// Where a request that began at `from` stands after `events`, each taken as
/// [`RunView::step`] takes it, and left out where it answers no pending
/// action.
pub open spec fn replay<F>(from: (RunView<F>, ActionView<F>), events: Seq<EventView<F>>) -> (
    RunView<F>,
    ActionView<F>,
)
    decreases events.len(),
{
    if events.len() == 0 {
        from
    } else {
        let before = replay(from, events.drop_last());
        if before.0.accepts(events.last()) {
            before.0.step(events.last())
        } else {
            before
        }
    }
}

/// What a request reports: the parser's error; else the error of
/// normalization; else what every rule found, in the order of the rules.
pub open spec fn report<F>(
    parsed: Result<mediawiki_parser::Element, PipelineErrorView>,
    normalized: Result<(), mediawiki_parser::TransformationError>,
    per_rule: Seq<Seq<F>>,
) -> ResultView<F> {
    match parsed {
        Err(error) => ResultView::Error(error),
        Ok(_) => match normalized {
            Err(error) => ResultView::Error(PipelineErrorView::TransformationError(error)),
            Ok(_) => ResultView::Lints(per_rule.flatten()),
        },
    }
}

/// While the rules run, the findings gathered are those of the rules that
/// ran, in their order, and the rule that runs next is the one behind them;
/// after the last rule they are the result.
pub proof fn lemma_rules_run_in_order<F>(
    tree: mediawiki_parser::Element,
    normalized: Result<(), mediawiki_parser::TransformationError>,
    rule_count: nat,
    ran: Seq<Seq<F>>,
)
    requires
        normalized is Ok,
        ran.len() <= rule_count,
    ensures
        replay(RunView::<F>::begin(Ok(tree), rule_count), events_of(normalized, ran))
            == RunView::<F>::linting(rule_count, ran.len(), ran.flatten()),
    decreases ran.len(),
{
    let from = RunView::<F>::begin(Ok(tree), rule_count);
    let events = events_of::<F>(normalized, ran);
    if ran.len() == 0 {
        assert(events.drop_last() =~= Seq::empty());
        assert(replay(from, events.drop_last()) == from);
        assert(ran.flatten() =~= Seq::empty());
    } else {
        let earlier = ran.drop_last();
        lemma_rules_run_in_order(tree, normalized, rule_count, earlier);
        assert(events.drop_last() =~= events_of::<F>(normalized, earlier));
        assert(events.last() == EventView::RuleFinished(ran.last()));
        assert(earlier.push(ran.last()) =~= ran);
        earlier.lemma_flatten_push(ran.last());
    }
}

/// The course of a whole request. Parsed text, normalization and the rules
/// having gone as given, the driver is told to respond with the parser's
/// error if there was one, else with the error of normalization if there was
/// one, else with the findings of all rules in the order of the rules. The
/// first failure ends the request, and what later stages would have brought
/// is not in the result.
pub proof fn lemma_request_reports<F>(
    parsed: Result<mediawiki_parser::Element, PipelineErrorView>,
    normalized: Result<(), mediawiki_parser::TransformationError>,
    per_rule: Seq<Seq<F>>,
    rule_count: nat,
)
    requires
        per_rule.len() == rule_count,
    ensures
        replay(RunView::<F>::begin(parsed, rule_count), events_of(normalized, per_rule))
            == (
            RunView::<F>::finished(rule_count),
            ActionView::Respond(report(parsed, normalized, per_rule)),
        ),
{
    let from = RunView::<F>::begin(parsed, rule_count);
    let events = events_of(normalized, per_rule);
    if parsed is Err {
        lemma_finished_stays(from, events);
    } else if normalized is Err {
        let first = seq![EventView::<F>::Normalized(normalized)];
        let rest = per_rule.map_values(|found: Seq<F>| EventView::RuleFinished(found));
        assert(first.drop_last() =~= Seq::empty());
        assert(replay(from, first.drop_last()) == from);
        lemma_replay_in_two(from, first, rest);
        lemma_finished_stays(replay(from, first), rest);
    } else {
        lemma_rules_run_in_order(parsed->Ok_0, normalized, rule_count, per_rule);
    }
}

/// A request that has its result takes no further event.
pub proof fn lemma_finished_stays<F>(from: (RunView<F>, ActionView<F>), events: Seq<EventView<F>>)
    requires
        from.0.phase == Phase::Finished,
    ensures
        replay(from, events) == from,
    decreases events.len(),
{
    if events.len() > 0 {
        lemma_finished_stays(from, events.drop_last());
    }
}

/// Replaying two runs of events, one after the other, is replaying both at
/// once.
pub proof fn lemma_replay_in_two<F>(
    from: (RunView<F>, ActionView<F>),
    first: Seq<EventView<F>>,
    second: Seq<EventView<F>>,
)
    ensures
        replay(from, first + second) == replay(replay(from, first), second),
    decreases second.len(),
{
    if second.len() == 0 {
        assert(first + second =~= first);
    } else {
        lemma_replay_in_two(from, first, second.drop_last());
        assert((first + second).drop_last() =~= first + second.drop_last());
        assert((first + second).last() == second.last());
    }
}

/// Two requests for the same text, whose normalization and whose rules went
/// the same way, report the same.
pub proof fn lemma_same_text_same_report<F>(
    text: Seq<char>,
    again: Seq<char>,
    normalized: Result<(), mediawiki_parser::TransformationError>,
    per_rule: Seq<Seq<F>>,
    rule_count: nat,
)
    requires
        text == again,
        per_rule.len() == rule_count,
    ensures
        replay(
            RunView::<F>::begin(reported(parse_outcome(text)), rule_count),
            events_of(normalized, per_rule),
        ) == replay(
            RunView::<F>::begin(reported(parse_outcome(again)), rule_count),
            events_of(normalized, per_rule),
        ),
        replay(
            RunView::<F>::begin(reported(parse_outcome(text)), rule_count),
            events_of(normalized, per_rule),
        ).1 == ActionView::Respond(report(reported(parse_outcome(again)), normalized, per_rule)),
{
    lemma_request_reports(reported(parse_outcome(text)), normalized, per_rule, rule_count);
}

impl<F> Run<F> {
    #[verifier::type_invariant]
    spec fn inv(self) -> bool {
        self@.wf()
    }

    /// Where the request stands.
    pub fn phase(&self) -> (phase: Phase)
        ensures
            phase == self@.phase,
            self@.wf(),
    {
        proof {
            use_type_invariant(self);
        }
        self.phase
    }

    /// The number of rules in the battery that this request runs.
    pub fn rule_count(&self) -> (count: usize)
        ensures
            count == self@.rule_count,
    {
        self.rule_count
    }
}

/// Begins a request whose text the parser has seen: a tree goes on to be
/// normalized, and an error is the result at once.
pub fn begin<F>(parsed: Result<mediawiki_parser::Element, PipelineError>, rule_count: usize) -> (next:
    (Run<F>, Action<F>))
    ensures
        (next.0@, next.1@) == RunView::<F>::begin(outcome_view(parsed), rule_count as nat),
        next.0@.wf(),
{
    match parsed {
        Ok(tree) => (
            Run { phase: Phase::Normalizing, rule_count, next_rule: 0, findings: Vec::new() },
            Action::Normalize(tree),
        ),
        Err(error) => (
            Run { phase: Phase::Finished, rule_count, next_rule: 0, findings: Vec::new() },
            Action::Respond(ResultKind::Error(error)),
        ),
    }
}

/// Begins the request for `text`, to be checked by a battery of `rule_count`
/// rules: parses the text and says what follows. A text that the parser
/// cannot be run on gives `None`.
pub fn lint<F>(text: &str, rule_count: usize) -> (next: Option<(Run<F>, Action<F>)>)
    ensures
        next is Some <==> parser_takes(text@),
        next matches Some(n) ==> (n.0@, n.1@) == RunView::<F>::begin(
            reported(parse_outcome(text@)),
            rule_count as nat,
        ) && n.0@.wf(),
{
    match parse(text) {
        Some(parsed) => Some(begin(parsed, rule_count)),
        None => None,
    }
}

/// Takes the request one step on: `event` is what came of the action that
/// was pending. An event that does not answer that action gives `None`.
pub fn step<F>(run: Run<F>, event: Event<F>) -> (next: Option<(Run<F>, Action<F>)>)
    ensures
        next is Some <==> run@.accepts(event@),
        next matches Some(n) ==> (n.0@, n.1@) == run@.step(event@) && n.0@.wf(),
{
    proof {
        use_type_invariant(&run);
    }
    let Run { phase, rule_count, next_rule, findings } = run;
    match (phase, event) {
        (Phase::Normalizing, Event::Normalized(Ok(_))) => Some(linting(rule_count, 0, Vec::new())),
        (Phase::Normalizing, Event::Normalized(Err(error))) => Some(
            (
                Run { phase: Phase::Finished, rule_count, next_rule: 0, findings: Vec::new() },
                Action::Respond(ResultKind::Error(PipelineError::TransformationError(error))),
            ),
        ),
        (Phase::Linting, Event::RuleFinished(found)) => {
            let mut findings = findings;
            let mut found = found;
            findings.append(&mut found);
            Some(linting(rule_count, next_rule + 1, findings))
        },
        _ => None,
    }
}

/// Linting with `findings` gathered and rule `next_rule` to run.
fn linting<F>(rule_count: usize, next_rule: usize, findings: Vec<F>) -> (next: (Run<F>, Action<F>))
    ensures
        (next.0@, next.1@) == RunView::<F>::linting(
            rule_count as nat,
            next_rule as nat,
            findings@,
        ),
        next.0@.wf(),
{
    if next_rule < rule_count {
        (Run { phase: Phase::Linting, rule_count, next_rule, findings }, Action::RunRule(next_rule))
    } else {
        (
            Run { phase: Phase::Finished, rule_count, next_rule: 0, findings: Vec::new() },
            Action::Respond(ResultKind::Lints(findings)),
        )
    }
}

} // verus!
