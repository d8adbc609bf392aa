use vstd::prelude::*;

verus! {

/// What a requirement line of the resolver's input carries, reduced to the
/// fields that classification reads: either a named requirement, possibly
/// pinned to a version specifier or to a source URL, or a bare identifier
/// for which no name could be extracted.
#[derive(Debug, Clone, PartialEq, Eq)]
pub enum VersionOrUrl {
    /// The requirement pins a concrete version.
    VersionSpecifier(String),
    /// The requirement points at a source URL instead of a version.
    Url(String),
}

/// One entry of a requirements listing, as handed over by the front end that
/// reads requirement files.
#[derive(Debug, Clone, PartialEq, Eq)]
pub enum RequirementEntry {
    /// An entry with a well-formed name.
    Named { name: String, version_or_url: Option<VersionOrUrl> },
    /// An entry from which no reliable name could be extracted.
    Unnamed { identifier: String },
}

/// The canonical shape of a dependency after classification.
#[derive(Debug, Clone, PartialEq, Eq)]
pub enum Dependency {
    /// A name and a concrete version: queryable against the advisory source.
    Resolved { name: String, version: String },
    /// A name pinned to a source URL instead of a version: not queryable.
    Unresolved { name: String, url: String },
    /// No reliable name or version: not queryable.
    Unknown { identifier: String },
}

/// Classification of a raw requirement entry, in priority order: a concrete
/// version makes the dependency `Resolved`, a source URL leaves it
/// `Unresolved`, and anything else degrades to `Unknown`. There is no error
/// path: every entry classifies.
pub open spec fn classify(entry: RequirementEntry) -> Dependency {
    match entry {
        RequirementEntry::Named { name, version_or_url } => match version_or_url {
            Some(VersionOrUrl::VersionSpecifier(version)) => Dependency::Resolved {
                name,
                version,
            },
            Some(VersionOrUrl::Url(url)) => Dependency::Unresolved { name, url },
            None => Dependency::Unknown { identifier: name },
        },
        RequirementEntry::Unnamed { identifier } => Dependency::Unknown { identifier },
    }
}

impl Dependency {
    /// Classify one requirement entry. Total: every entry yields a
    /// dependency, and the same entry always yields the same dependency.
    pub fn from_requirement_entry(entry: &RequirementEntry) -> (dep: Self)
        ensures
            dep == classify(*entry),
    {
        match entry {
            RequirementEntry::Named { name, version_or_url } => match version_or_url {
                Some(VersionOrUrl::VersionSpecifier(version)) => Dependency::Resolved {
                    name: name.clone(),
                    version: version.clone(),
                },
                Some(VersionOrUrl::Url(url)) => Dependency::Unresolved {
                    name: name.clone(),
                    url: url.clone(),
                },
                None => Dependency::Unknown { identifier: name.clone() },
            },
            RequirementEntry::Unnamed { identifier } => Dependency::Unknown {
                identifier: identifier.clone(),
            },
        }
    }

    /// Lift the resolver front end's output into the canonical shape: a
    /// resolved name and version stays `Resolved`; a bare identifier has no
    /// name and is therefore `Unknown`.
    pub fn from_uv_dependency(dep: crate::uv_cli::Dependency) -> (d: Self)
        ensures
            d == match dep {
                crate::uv_cli::Dependency::Resolved { name, version } => Dependency::Resolved {
                    name,
                    version,
                },
                crate::uv_cli::Dependency::Unresolved { identifier } => Dependency::Unknown {
                    identifier,
                },
            },
    {
        match dep {
            crate::uv_cli::Dependency::Resolved { name, version } => Dependency::Resolved {
                name,
                version,
            },
            crate::uv_cli::Dependency::Unresolved { identifier } => Dependency::Unknown {
                identifier,
            },
        }
    }
}

/// Classification is total and exhaustive: every entry maps to exactly one
/// of the three dependency shapes, and which shape it is depends only on
/// the form of the entry.
pub proof fn lemma_classification_total(entry: RequirementEntry)
    ensures
        classify(entry) is Resolved || classify(entry) is Unresolved || classify(entry)
            is Unknown,
        classify(entry) is Resolved <==> (entry matches RequirementEntry::Named {
            version_or_url: Some(VersionOrUrl::VersionSpecifier(_)),
            ..
        }),
        classify(entry) is Unresolved <==> (entry matches RequirementEntry::Named {
            version_or_url: Some(VersionOrUrl::Url(_)),
            ..
        }),
        classify(entry) is Unknown <==> (entry matches RequirementEntry::Named {
            version_or_url: None,
            ..
        } || entry matches RequirementEntry::Unnamed { .. }),
{
}

} // verus!
