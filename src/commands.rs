//! Decisions that administrative commands take from their arguments before
//! they touch the queue or the build executor.
use vstd::prelude::*;
use crate::queue::opt_text;

verus! {

/// Where a build's package comes from.
#[derive(PartialEq, Eq, Debug)]
pub enum PackageKind {
    /// The public registry.
    CratesIo,
    /// The alternate registry at this index URL.
    Registry(String),
}

/// What a build command builds.
#[derive(PartialEq, Eq, Debug)]
pub enum BuildTarget {
    /// The package in this local directory.
    Local(String),
    /// A release fetched from a registry.
    Package { name: String, version: String, kind: PackageKind },
}

/// Why a build command's arguments name nothing to build.
#[derive(PartialEq, Eq, Structural, Clone, Copy, Debug)]
pub enum BuildArgError {
    /// Neither a local path nor a crate name was given.
    MissingName,
    /// A crate name was given without a version.
    MissingVersion,
}

/// Decides what to build: a local path when one is given, otherwise the named
/// release, from the alternate registry when one is configured.
pub fn build_target(
    name: Option<String>,
    version: Option<String>,
    local: Option<String>,
    registry_url: Option<String>,
) -> (r: Result<BuildTarget, BuildArgError>)
    ensures
        local.is_some() ==> (r matches Ok(BuildTarget::Local(p)) && p@ == local.unwrap()@),
        local.is_none() && name.is_none() ==> r == Err::<BuildTarget, BuildArgError>(
            BuildArgError::MissingName,
        ),
        local.is_none() && name.is_some() && version.is_none() ==> r == Err::<
            BuildTarget,
            BuildArgError,
        >(BuildArgError::MissingVersion),
        local.is_none() && name.is_some() && version.is_some() ==> (r matches Ok(
            BuildTarget::Package { name: n, version: v, kind },
        ) && n@ == name.unwrap()@ && v@ == version.unwrap()@ && match kind {
            PackageKind::CratesIo => registry_url.is_none(),
            PackageKind::Registry(u) => opt_text(registry_url) == Some(u@),
        }),
{
    if let Some(path) = local {
        return Ok(BuildTarget::Local(path));
    }
    let name = match name {
        Some(n) => n,
        None => return Err(BuildArgError::MissingName),
    };
    let version = match version {
        Some(v) => v,
        None => return Err(BuildArgError::MissingVersion),
    };
    let kind = match registry_url {
        Some(u) => PackageKind::Registry(u),
        None => PackageKind::CratesIo,
    };
    Ok(BuildTarget::Package { name, version, kind })
}

/// Where a new resume reference comes from.
#[derive(PartialEq, Eq, Debug)]
pub enum ReferenceSource {
    /// The reference the operator gave.
    Given(String),
    /// The registry's current head, to be fetched.
    Head,
}

/// Decides where the resume reference to set comes from: exactly one of an
/// explicit reference and the head flag must be given; `None` otherwise.
pub fn reference_source(reference: Option<String>, head: bool) -> (r: Option<ReferenceSource>)
    ensures
        reference.is_some() && !head ==> (r matches Some(ReferenceSource::Given(s)) && s@
            == reference.unwrap()@),
        reference.is_none() && head ==> r == Some(ReferenceSource::Head),
        reference.is_some() == head ==> r.is_none(),
{
    match (reference, head) {
        (Some(s), false) => Some(ReferenceSource::Given(s)),
        (None, true) => Some(ReferenceSource::Head),
        _ => None,
    }
}

/// Whether a toolchain update runs: always, unless it was asked for only on
/// the first run and a toolchain is recorded already.
pub fn should_update_toolchain(only_first_time: bool, toolchain_recorded: bool) -> (r: bool)
    ensures
        r == !(only_first_time && toolchain_recorded),
{
    !(only_first_time && toolchain_recorded)
}

} // verus!
