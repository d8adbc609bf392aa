use pyaudit::auditor::{Auditor, UnitOutcome};
use pyaudit::models::VulnerabilityReport;
use pyaudit::service::pypi::PyPi;

fn skipped(name: &str) -> VulnerabilityReport {
    VulnerabilityReport::Skipped {
        name: name.to_string(),
        reason: "reason".to_string(),
    }
}

#[test]
fn all_completed_units_keep_their_reports_in_order() {
    let auditor = Auditor::from_service(PyPi::new(5, 20));
    let outcomes = vec![
        UnitOutcome::Completed { report: skipped("a") },
        UnitOutcome::Completed { report: VulnerabilityReport::NotVulnerable },
        UnitOutcome::Completed { report: skipped("c") },
    ];
    let reports = auditor.render_result(outcomes);
    assert_eq!(
        reports,
        vec![skipped("a"), VulnerabilityReport::NotVulnerable, skipped("c")]
    );
}

#[test]
fn one_transport_failure_among_five_drops_one_report() {
    let auditor = Auditor::from_service(PyPi::new(5, 20));
    let outcomes = vec![
        UnitOutcome::Completed { report: skipped("a") },
        UnitOutcome::Completed { report: skipped("b") },
        UnitOutcome::TransportFailure { message: "connection reset".to_string() },
        UnitOutcome::Completed { report: skipped("d") },
        UnitOutcome::Completed { report: skipped("e") },
    ];
    let reports = auditor.render_result(outcomes);
    assert_eq!(reports.len(), 4);
    assert_eq!(
        reports,
        vec![skipped("a"), skipped("b"), skipped("d"), skipped("e")]
    );
}

#[test]
fn failed_units_are_dropped_and_order_is_kept() {
    let auditor = Auditor::from_service(PyPi::new(5, 20));
    let outcomes = vec![
        UnitOutcome::UnitFailure { message: "aborted".to_string() },
        UnitOutcome::Completed { report: skipped("b") },
        UnitOutcome::TransportFailure { message: "timeout".to_string() },
        UnitOutcome::Completed { report: skipped("d") },
    ];
    let reports = auditor.render_result(outcomes);
    assert_eq!(reports, vec![skipped("b"), skipped("d")]);
}

#[test]
fn no_outcomes_yield_no_reports() {
    let auditor = Auditor::from_service(PyPi::new(5, 20));
    let reports = auditor.render_result(Vec::new());
    assert!(reports.is_empty());
}

#[test]
fn output_is_never_longer_than_input() {
    let auditor = Auditor::from_service(PyPi::new(5, 20));
    let outcomes = vec![
        UnitOutcome::TransportFailure { message: "refused".to_string() },
        UnitOutcome::Completed { report: skipped("b") },
    ];
    let reports = auditor.render_result(outcomes);
    assert!(reports.len() <= 2);
}
