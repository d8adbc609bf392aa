use vstd::prelude::*;
use vstd::string::StringExecFns;

use crate::extractor::Dependency;
use crate::models::{Vulnerability, VulnerabilityReport};
use crate::service::interface::{QueryPlan, VulnerabilityService};

verus! {

/// The advisory backend of the Python Package Index: one query per resolved
/// dependency, against `https://pypi.org/pypi/{name}/{version}/json`.
#[derive(Debug, PartialEq, Copy, Clone)]
pub struct PyPi {
    timeout: u8,
    connections: usize,
}

impl PyPi {
    pub fn new(timeout: u8, connections: usize) -> (service: Self)
        ensures
            service.timeout_spec() == timeout,
            service.connection_limit_spec() == connections,
    {
        Self { timeout, connections }
    }
}

impl VulnerabilityService for PyPi {
    open spec fn query_url(&self, name: Seq<char>, version: Seq<char>) -> Seq<char> {
        "https://pypi.org/pypi"@ + "/"@ + name + "/"@ + version + "/json"@
    }

    open spec fn unresolved_reason(&self) -> Seq<char> {
        "Unresolved dependency cannot be audited"@
    }

    open spec fn unknown_reason(&self) -> Seq<char> {
        "Unknown dependency cannot be audited"@
    }

    open spec fn not_found_reason(&self) -> Seq<char> {
        "Dependency was not found on PyPi and cannot be audited"@
    }

    closed spec fn timeout_spec(&self) -> u8 {
        self.timeout
    }

    closed spec fn connection_limit_spec(&self) -> usize {
        self.connections
    }

    fn query_plan(&self, dependency: Dependency) -> (plan: QueryPlan) {
        match dependency {
            Dependency::Resolved { name, version } => {
                let mut url = "https://pypi.org/pypi".to_owned();
                url.append("/");
                url.append(name.as_str());
                url.append("/");
                url.append(version.as_str());
                url.append("/json");
                QueryPlan::Fetch { url, name, version }
            },
            Dependency::Unresolved { name, url } => {
                proof {
                    reveal_strlit("Unresolved dependency cannot be audited");
                }
                QueryPlan::Skip {
                    report: VulnerabilityReport::Skipped {
                        name,
                        reason: "Unresolved dependency cannot be audited".to_owned(),
                    },
                }
            },
            Dependency::Unknown { identifier } => {
                proof {
                    reveal_strlit("Unknown dependency cannot be audited");
                }
                QueryPlan::Skip {
                    report: VulnerabilityReport::Skipped {
                        name: identifier,
                        reason: "Unknown dependency cannot be audited".to_owned(),
                    },
                }
            },
        }
    }

    fn interpret_response(
        &self,
        name: String,
        version: String,
        status: u16,
        vulnerabilities: Vec<Vulnerability>,
    ) -> (report: VulnerabilityReport) {
        if status == 200 {
            if vulnerabilities.len() > 0 {
                VulnerabilityReport::Vulnerable { name, version, vulnerabilities }
            } else {
                VulnerabilityReport::NotVulnerable
            }
        } else {
            proof {
                reveal_strlit("Dependency was not found on PyPi and cannot be audited");
            }
            VulnerabilityReport::Skipped {
                name,
                reason: "Dependency was not found on PyPi and cannot be audited".to_owned(),
            }
        }
    }

    fn get_timeout(&self) -> (t: u8) {
        self.timeout
    }

    fn get_connection_limit(&self) -> (l: usize) {
        self.connections
    }
}

} // verus!
