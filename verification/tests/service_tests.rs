use pyaudit::extractor::Dependency;
use pyaudit::models::{Vulnerability, VulnerabilityReport};
use pyaudit::service::interface::{QueryPlan, VulnerabilityService};
use pyaudit::service::pypi::PyPi;

fn service() -> PyPi {
    PyPi::new(5, 20)
}

#[test]
fn resolved_dependency_plans_one_fetch() {
    let plan = service().query_plan(Dependency::Resolved {
        name: "pkg".to_string(),
        version: "1.0.0".to_string(),
    });
    match plan {
        QueryPlan::Fetch { url, name, version } => {
            assert_eq!(url, "https://pypi.org/pypi/pkg/1.0.0/json");
            assert_eq!(name, "pkg");
            assert_eq!(version, "1.0.0");
        }
        QueryPlan::Skip { .. } => panic!("a resolved dependency must be queried"),
    }
}

#[test]
fn unresolved_dependency_is_skipped_without_network() {
    let plan = service().query_plan(Dependency::Unresolved {
        name: "pkg".to_string(),
        url: "git+https://github.com/somerepo.git".to_string(),
    });
    match plan {
        QueryPlan::Skip { report } => match report {
            VulnerabilityReport::Skipped { name, reason } => {
                assert_eq!(name, "pkg");
                assert!(!reason.is_empty());
            }
            _ => panic!("an unresolved dependency yields a skip report"),
        },
        QueryPlan::Fetch { .. } => panic!("an unresolved dependency must not be queried"),
    }
}

#[test]
fn unknown_dependency_is_skipped_without_network() {
    let plan = service().query_plan(Dependency::Unknown {
        identifier: "https://github.com/somerepo.git".to_string(),
    });
    match plan {
        QueryPlan::Skip { report } => match report {
            VulnerabilityReport::Skipped { name, reason } => {
                assert_eq!(name, "https://github.com/somerepo.git");
                assert!(!reason.is_empty());
            }
            _ => panic!("an unknown dependency yields a skip report"),
        },
        QueryPlan::Fetch { .. } => panic!("an unknown dependency must not be queried"),
    }
}

#[test]
fn success_with_no_advisories_is_not_vulnerable() {
    let report = service().interpret_response(
        "pkg".to_string(),
        "1.0.0".to_string(),
        200,
        Vec::new(),
    );
    assert_eq!(report, VulnerabilityReport::NotVulnerable);
}

#[test]
fn success_with_one_advisory_is_vulnerable() {
    let advisory = Vulnerability {
        id: "V-1".to_string(),
        aliases: vec![],
        fixed_in: vec!["1.0.1".to_string()],
        details: "desc".to_string(),
    };
    let report = service().interpret_response(
        "pkg".to_string(),
        "1.0.0".to_string(),
        200,
        vec![advisory.clone()],
    );
    assert_eq!(
        report,
        VulnerabilityReport::Vulnerable {
            name: "pkg".to_string(),
            version: "1.0.0".to_string(),
            vulnerabilities: vec![advisory],
        }
    );
}

#[test]
fn not_found_status_is_skipped_with_a_reason() {
    let report = service().interpret_response(
        "pkg".to_string(),
        "1.0.0".to_string(),
        404,
        Vec::new(),
    );
    match report {
        VulnerabilityReport::Skipped { name, reason } => {
            assert_eq!(name, "pkg");
            assert!(!reason.is_empty());
        }
        _ => panic!("a non-success status yields a skip report"),
    }
}

#[test]
fn configured_limits_are_reported_back() {
    let svc = PyPi::new(7, 11);
    assert_eq!(svc.get_timeout(), 7);
    assert_eq!(svc.get_connection_limit(), 11);
}
