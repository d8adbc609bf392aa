use vstd::prelude::*;

verus! {

/// Which advisory backend to audit against.
#[derive(Copy, Clone, Debug, PartialEq, Eq, Structural)]
pub enum ServiceSelector {
    /// Open Source Vulnerabilities - api.osv.dev
    Osv,
    /// Python Package Index - pypi.org
    Pypi,
}

/// Which shape the final report takes.
#[derive(Copy, Clone, Debug, PartialEq, Eq, Structural)]
pub enum OutputFormatSelector {
    /// Format output as a table
    Columns,
    /// Format output as a json
    Json,
    /// Format output as CycloneDX json
    CyclonedxJson,
}

/// The tool's configuration, as gathered from the command line.
pub struct Config {
    /// Audit the given requirements file.
    pub requirement: Option<String>,
    /// Audit the Python project at the given path.
    pub project_path: Option<String>,
    /// Format to emit audit results in.
    pub format: OutputFormatSelector,
    /// Vulnerability service to audit dependencies against.
    pub service: ServiceSelector,
    /// The socket timeout, in seconds.
    pub timeout: u64,
    /// The number of concurrent connections.
    pub connections: usize,
    /// Output results to the given file instead of standard output.
    pub output: Option<String>,
    /// Base URL of the package index.
    pub index_url: Option<String>,
    /// Extra package index URLs to use in addition to `index_url`.
    pub extra_index_url: Option<Vec<String>>,
    /// Do not audit packages that are marked as editable.
    pub exclude_editable: bool,
    /// Do not perform any dependency resolution.
    pub no_deps: bool,
}

impl Config {
    /// A configuration is acceptable unless it directs the columns format,
    /// which only renders to standard output, into an output file.
    pub fn validate_config(&self) -> (ok: bool)
        ensures
            ok <==> !(self.format is Columns && self.output is Some),
    {
        match self.format {
            OutputFormatSelector::Columns => self.output.is_none(),
            _ => true,
        }
    }
}

} // verus!
