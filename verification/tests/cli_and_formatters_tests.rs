use pyaudit::cli::{Config, OutputFormatSelector, ServiceSelector};
use pyaudit::formatters::vulnerable_only;
use pyaudit::models::{Vulnerability, VulnerabilityReport};

fn config(format: OutputFormatSelector, output: Option<String>) -> Config {
    Config {
        requirement: None,
        project_path: None,
        format,
        service: ServiceSelector::Pypi,
        timeout: 5,
        connections: 20,
        output,
        index_url: None,
        extra_index_url: None,
        exclude_editable: false,
        no_deps: false,
    }
}

#[test]
fn columns_format_refuses_an_output_file() {
    let bad = config(OutputFormatSelector::Columns, Some("report.txt".to_string()));
    assert!(!bad.validate_config());
}

#[test]
fn other_formats_accept_an_output_file() {
    let json = config(OutputFormatSelector::Json, Some("report.json".to_string()));
    assert!(json.validate_config());
    let bom = config(OutputFormatSelector::CyclonedxJson, Some("bom.json".to_string()));
    assert!(bom.validate_config());
    let columns = config(OutputFormatSelector::Columns, None);
    assert!(columns.validate_config());
}

#[test]
fn vulnerable_only_selects_and_keeps_order() {
    let vulnerable_a = VulnerabilityReport::Vulnerable {
        name: "a".to_string(),
        version: "1.0".to_string(),
        vulnerabilities: vec![Vulnerability {
            id: "V-1".to_string(),
            aliases: vec![],
            fixed_in: vec!["1.1".to_string()],
            details: "desc".to_string(),
        }],
    };
    let vulnerable_c = VulnerabilityReport::Vulnerable {
        name: "c".to_string(),
        version: "3.0".to_string(),
        vulnerabilities: vec![Vulnerability {
            id: "V-2".to_string(),
            aliases: vec!["CVE-0".to_string()],
            fixed_in: vec![],
            details: "desc".to_string(),
        }],
    };
    let reports = vec![
        vulnerable_a.clone(),
        VulnerabilityReport::NotVulnerable,
        vulnerable_c.clone(),
        VulnerabilityReport::Skipped {
            name: "d".to_string(),
            reason: "not queryable".to_string(),
        },
    ];
    let selected = vulnerable_only(&reports);
    assert_eq!(selected, vec![&vulnerable_a, &vulnerable_c]);
}

#[test]
fn vulnerable_only_of_clean_reports_is_empty() {
    let reports = vec![
        VulnerabilityReport::NotVulnerable,
        VulnerabilityReport::Skipped {
            name: "a".to_string(),
            reason: "not queryable".to_string(),
        },
    ];
    assert!(vulnerable_only(&reports).is_empty());
}
