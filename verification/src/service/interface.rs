use vstd::prelude::*;

use crate::extractor::Dependency;
use crate::models::{Vulnerability, VulnerabilityReport};

verus! {

/// What a backend decides to do about one dependency. Only a `Fetch` plan
/// leads to a network call; a `Skip` plan carries the finished report and
/// the dispatcher performs no network work for it.
pub enum QueryPlan {
    /// Issue one request to `url`, which identifies `name` and `version`.
    Fetch { url: String, name: String, version: String },
    /// Do not query; the report is already decided.
    Skip { report: VulnerabilityReport },
}

/// Interface that any vulnerability service must implement.
///
/// A backend is split into its decisions, which are verified here, and the
/// network exchange itself, which the caller performs: `query_plan` decides
/// whether a dependency can be queried at all and where, and
/// `interpret_response` turns the answer of the advisory source into a
/// report. A backend never plans a network call for an `Unresolved` or
/// `Unknown` dependency: those are skipped outright.
pub trait VulnerabilityService: Sized {
    /// The URL this backend queries for a resolved dependency, as a function
    /// of its name and version.
    spec fn query_url(&self, name: Seq<char>, version: Seq<char>) -> Seq<char>;

    /// The reason this backend attaches when a named dependency is pinned to
    /// a source URL instead of a version.
    spec fn unresolved_reason(&self) -> Seq<char>;

    /// The reason this backend attaches when no reliable name is known.
    spec fn unknown_reason(&self) -> Seq<char>;

    /// The reason this backend attaches when the advisory source answers
    /// with a non-success status.
    spec fn not_found_reason(&self) -> Seq<char>;

    /// The per-request socket timeout this backend wants enforced, in seconds.
    spec fn timeout_spec(&self) -> u8;

    /// The number of simultaneous in-flight queries this backend tolerates.
    spec fn connection_limit_spec(&self) -> usize;

    /// Decide what to do about one dependency: a `Resolved` dependency is
    /// planned as one fetch of this backend's query URL; an `Unresolved` or
    /// `Unknown` dependency is skipped immediately, with a non-empty reason,
    /// and no fetch is ever planned for it.
    fn query_plan(&self, dependency: Dependency) -> (plan: QueryPlan)
        ensures
            match dependency {
                Dependency::Resolved { name, version } => plan matches QueryPlan::Fetch {
                    url,
                    name: n,
                    version: v,
                } && url@ == self.query_url(name@, version@) && n == name && v == version,
                Dependency::Unresolved { name, url } => plan matches QueryPlan::Skip { report }
                    && report matches VulnerabilityReport::Skipped { name: n, reason }
                    && n == name && reason@ == self.unresolved_reason()
                    && self.unresolved_reason().len() > 0,
                Dependency::Unknown { identifier } => plan matches QueryPlan::Skip { report }
                    && report matches VulnerabilityReport::Skipped { name: n, reason }
                    && n == identifier && reason@ == self.unknown_reason()
                    && self.unknown_reason().len() > 0,
            },
    ;

    /// Turn the advisory source's answer for `(name, version)` into a
    /// report: a success with advisories present is `Vulnerable` with
    /// exactly those advisories, a success with none is `NotVulnerable`,
    /// and any other status is `Skipped` with a non-empty reason.
    fn interpret_response(
        &self,
        name: String,
        version: String,
        status: u16,
        vulnerabilities: Vec<Vulnerability>,
    ) -> (report: VulnerabilityReport)
        ensures
            status == 200 && vulnerabilities@.len() > 0 ==> report
                == (VulnerabilityReport::Vulnerable { name, version, vulnerabilities }),
            status == 200 && vulnerabilities@.len() == 0 ==> report
                == VulnerabilityReport::NotVulnerable,
            status != 200 ==> (report matches VulnerabilityReport::Skipped { name: n, reason }
                && n == name && reason@ == self.not_found_reason()
                && self.not_found_reason().len() > 0),
            report.well_formed(),
    ;

    /// The per-request socket timeout, in seconds.
    fn get_timeout(&self) -> (t: u8)
        ensures
            t == self.timeout_spec(),
    ;

    /// The maximum number of simultaneous connections.
    fn get_connection_limit(&self) -> (l: usize)
        ensures
            l == self.connection_limit_spec(),
    ;
}

} // verus!
