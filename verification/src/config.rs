//! Project-level configuration and the choice of the effective bundle
//! directory.

use vstd::prelude::*;

verus! {

use crate::command::EsbuildCommand;

/// Optional project-level configuration: a base output directory and a
/// command variant. Absence of the configuration file yields the default.
pub struct BundleConfig {
    pub bundle_path: Option<String>,
    pub esbuild: Option<EsbuildCommand>,
}

impl Default for BundleConfig {
    /// No bundle path, and the default command variant.
    fn default() -> (r: Self)
        ensures
            r.bundle_path is None,
            r.esbuild is None,
    {
        BundleConfig { bundle_path: None, esbuild: None }
    }
}

/// The effective bundle directory before expansion: an explicit override
/// wins, else the configured value; with neither there is none.
pub open spec fn spec_resolve_bundle_path(
    override_path: Option<Seq<char>>,
    configured: Option<Seq<char>>,
) -> Option<Seq<char>> {
    match override_path {
        Some(p) => Some(p),
        None => configured,
    }
}

/// Picks the effective bundle directory: the explicit override, else the
/// configured value, else nothing — this engine has no default output
/// location.
pub fn resolve_bundle_path(override_path: Option<String>, configured: Option<String>) -> (r:
    Option<String>)
    ensures
        ({
            let ov = match override_path {
                Some(p) => Some(p@),
                None => None::<Seq<char>>,
            };
            let cf = match configured {
                Some(p) => Some(p@),
                None => None::<Seq<char>>,
            };
            match r {
                Some(p) => spec_resolve_bundle_path(ov, cf) == Some(p@),
                None => spec_resolve_bundle_path(ov, cf) is None,
            }
        }),
{
    match override_path {
        Some(p) => Some(p),
        None => configured,
    }
}

/// The configured command variant, or the default one where the
/// configuration names none.
pub fn variant_or_default(v: Option<EsbuildCommand>) -> (r: EsbuildCommand)
    ensures
        match v {
            Some(c) => r == c,
            None => r == EsbuildCommand::Npx,
        },
{
    match v {
        Some(c) => c,
        None => EsbuildCommand::default(),
    }
}

} // verus!
