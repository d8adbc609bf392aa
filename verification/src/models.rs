use vstd::prelude::*;

verus! {

/// One advisory record returned by the vulnerability source for a specific
/// dependency version.
#[derive(Debug, Clone, PartialEq, Eq)]
pub struct Vulnerability {
    pub id: String,
    pub aliases: Vec<String>,
    pub fixed_in: Vec<String>,
    pub details: String,
}

/// The payload of a successful advisory query: every advisory record that
/// applies to the queried dependency version.
#[derive(Debug, Clone, PartialEq, Eq)]
pub struct Vulnerabilities {
    pub vulnerabilities: Vec<Vulnerability>,
}

/// The outcome of auditing a single dependency.
#[derive(Debug, Clone, PartialEq, Eq)]
pub enum VulnerabilityReport {
    /// The query succeeded and at least one advisory applies.
    Vulnerable { name: String, version: String, vulnerabilities: Vec<Vulnerability> },
    /// The query succeeded and no advisory applies.
    NotVulnerable,
    /// The query was not attempted or did not yield a usable answer.
    Skipped { name: String, reason: String },
}

impl VulnerabilityReport {
    /// A `Vulnerable` report always carries at least one advisory record; a
    /// query that succeeds with an empty advisory list is `NotVulnerable`.
    pub open spec fn well_formed(self) -> bool {
        self matches VulnerabilityReport::Vulnerable { vulnerabilities, .. }
            ==> vulnerabilities@.len() > 0
    }
}

} // verus!
