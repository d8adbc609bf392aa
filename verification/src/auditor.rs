use vstd::prelude::*;

use crate::models::VulnerabilityReport;
use crate::service::interface::VulnerabilityService;

verus! {

/// How one unit of work — one dependency's query — ended. The dispatcher
/// isolates failures per unit: a failed unit never affects its siblings,
/// it is merely dropped from the output (and reported as a diagnostic by
/// the caller).
pub enum UnitOutcome {
    /// The unit produced a report.
    Completed { report: VulnerabilityReport },
    /// The query failed at the transport level (connection error, timeout,
    /// malformed response body).
    TransportFailure { message: String },
    /// The unit of work itself could not run to completion.
    UnitFailure { message: String },
}

/// The report of a completed unit, or `None` for a dropped one.
pub open spec fn report_of(outcome: UnitOutcome) -> Option<VulnerabilityReport> {
    match outcome {
        UnitOutcome::Completed { report } => Some(report),
        UnitOutcome::TransportFailure { .. } => None,
        UnitOutcome::UnitFailure { .. } => None,
    }
}

/// The reports of the completed units, in input order, with failed units
/// dropped.
pub open spec fn collected_reports(outcomes: Seq<UnitOutcome>) -> Seq<VulnerabilityReport> {
    outcomes.filter_map(|o: UnitOutcome| report_of(o))
}

/// Dropping failures never adds reports: there is at most one report per
/// unit of work, so at most one per input dependency.
pub proof fn lemma_collected_reports_len(outcomes: Seq<UnitOutcome>)
    ensures
        collected_reports(outcomes).len() <= outcomes.len(),
    decreases outcomes.len(),
{
    if outcomes.len() > 0 {
        lemma_collected_reports_len(outcomes.drop_last());
    }
}

/// A unit outcome respects the report model: if it completed, its report
/// is well formed.
pub open spec fn outcome_well_formed(outcome: UnitOutcome) -> bool {
    outcome matches UnitOutcome::Completed { report } ==> report.well_formed()
}

/// The report model's invariant survives aggregation: when every completed
/// unit carries a well-formed report, every collected report is well
/// formed — in particular, no `Vulnerable` report with an empty advisory
/// list can reach a formatter.
pub proof fn lemma_collected_reports_well_formed(outcomes: Seq<UnitOutcome>)
    requires
        forall|i: int| 0 <= i < outcomes.len() ==> outcome_well_formed(outcomes[i]),
    ensures
        forall|j: int|
            0 <= j < collected_reports(outcomes).len() ==> collected_reports(
                outcomes,
            )[j].well_formed(),
    decreases outcomes.len(),
{
    if outcomes.len() > 0 {
        let rest = outcomes.drop_last();
        assert(forall|i: int| 0 <= i < rest.len() ==> outcomes[i] == rest[i]);
        lemma_collected_reports_well_formed(rest);
        let collected = collected_reports(outcomes);
        let prev = collected_reports(rest);
        let last = outcomes.last();
        assert(outcome_well_formed(outcomes[outcomes.len() - 1]));
        assert forall|j: int| 0 <= j < collected.len() implies collected[j].well_formed() by {
            match report_of(last) {
                Some(report) => {
                    assert(collected == prev + seq![report]);
                    if j < prev.len() {
                        assert(collected[j] == prev[j]);
                    } else {
                        assert(collected[j] == report);
                    }
                },
                None => {
                    assert(collected == prev);
                    assert(collected[j] == prev[j]);
                },
            }
        }
    }
}

/// Order preservation modulo dropped failures: the report of the completed
/// unit at input position `i` stands in the output exactly after the
/// reports of the completed units before position `i`.
pub proof fn lemma_collected_reports_order(outcomes: Seq<UnitOutcome>, i: int)
    requires
        0 <= i < outcomes.len(),
        outcomes[i] is Completed,
    ensures
        collected_reports(outcomes.take(i)).len() < collected_reports(outcomes).len(),
        collected_reports(outcomes)[collected_reports(outcomes.take(i)).len() as int]
            == outcomes[i]->report,
    decreases outcomes.len(),
{
    let rest = outcomes.drop_last();
    if i == outcomes.len() - 1 {
        assert(outcomes.take(i) =~= rest);
    } else {
        lemma_collected_reports_order(rest, i);
        assert(outcomes.take(i) =~= rest.take(i));
    }
}

/// The audit dispatcher: one unit of work per dependency, one shared
/// service, aggregation in input order.
pub struct Auditor<T: VulnerabilityService> {
    service: T,
}

impl<T: VulnerabilityService> View for Auditor<T> {
    type V = T;

    closed spec fn view(&self) -> T {
        self.service
    }
}

impl<T: VulnerabilityService> Auditor<T> {
    pub fn from_service(service: T) -> (auditor: Self)
        ensures
            auditor@ == service,
    {
        Self { service }
    }

    /// Aggregate the outcomes of all units of work, in the order the units
    /// were started: each completed unit contributes its report, failed
    /// units are dropped, and nothing else changes the order. The output
    /// is therefore never longer than the input.
    pub fn render_result(&self, outcomes: Vec<UnitOutcome>) -> (reports: Vec<VulnerabilityReport>)
        ensures
            reports@ == collected_reports(outcomes@),
            reports@.len() <= outcomes@.len(),
    {
        let mut rest = outcomes;
        let mut reports: Vec<VulnerabilityReport> = Vec::new();
        proof {
            assert(collected_reports(rest@) + reports@ =~= collected_reports(rest@));
        }
        while rest.len() > 0
            invariant
                collected_reports(rest@) + reports@ == collected_reports(outcomes@),
            decreases rest.len(),
        {
            let ghost prev = rest@;
            let outcome = rest.pop().unwrap();
            proof {
                assert(prev.drop_last() == rest@);
                assert(collected_reports(prev) == collected_reports(rest@) + (match report_of(
                    outcome,
                ) {
                    Some(r) => seq![r],
                    None => Seq::<VulnerabilityReport>::empty(),
                }));
            }
            match outcome {
                UnitOutcome::Completed { report } => {
                    let ghost before = reports@;
                    reports.insert(0, report);
                    proof {
                        assert(reports@ =~= seq![report] + before);
                        assert(collected_reports(rest@) + (seq![report] + before)
                            =~= (collected_reports(rest@) + seq![report]) + before);
                    }
                },
                UnitOutcome::TransportFailure { .. } => {},
                UnitOutcome::UnitFailure { .. } => {},
            }
        }
        proof {
            lemma_collected_reports_len(outcomes@);
            assert(collected_reports(rest@) + reports@ =~= reports@);
        }
        reports
    }
}

} // verus!
