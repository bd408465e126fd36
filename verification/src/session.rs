//! The orchestration itself: path resolution, and the build session that
//! sequences the two bundler invocations and decides when the cache may be
//! persisted. The surrounding program performs the file reads and writes and
//! spawns the commands; every decision is made here.

use vstd::prelude::*;
use vstd::string::StringExecFns;

verus! {

use crate::cache::{
    BundleCache,
    cache_contains,
    cache_wf,
    CacheModel,
    is_identifier,
    spec_get_or_create,
};
use crate::codec::{parse_cache, parse_cache_text, ser_cache, serialize_cache};
use crate::command::{CommandLine, EsbuildCommand, EsbuildOptions, spec_args, spec_program, views_of};
use crate::config::resolve_bundle_path;

/// Why an orchestration aborts. Every failure is fatal: nothing is retried,
/// and the cache file is left in its prior state.
#[derive(Debug)]
pub enum OrchestrationError {
    /// Environment-variable expansion in the entry point failed.
    EntryPointExpansion { message: String },
    /// Neither an override nor the configuration named a bundle directory.
    MissingBundlePath,
    /// Environment-variable expansion in the bundle directory failed.
    BundlePathExpansion { message: String },
    /// The cache file's content was not an object of string-to-string
    /// entries with distinct keys.
    MalformedCache,
}

impl OrchestrationError {
    /// A diagnostic line for this error.
    pub fn message(&self) -> (r: String)
        ensures
            self matches OrchestrationError::EntryPointExpansion { message } ==> r@
                == "failed to expand environment variables in entry point: "@ + message@,
            self is MissingBundlePath ==> r@
                == "no bundle path provided, and the configuration names none"@,
            self matches OrchestrationError::BundlePathExpansion { message } ==> r@
                == "failed to expand environment variables in bundle path: "@ + message@,
            self is MalformedCache ==> r@
                == "the bundles cache is not a mapping of strings to strings"@,
    {
        match self {
            OrchestrationError::EntryPointExpansion { message } => String::from_str(
                "failed to expand environment variables in entry point: ",
            ).concat(message.as_str()),
            OrchestrationError::MissingBundlePath => String::from_str(
                "no bundle path provided, and the configuration names none",
            ),
            OrchestrationError::BundlePathExpansion { message } => String::from_str(
                "failed to expand environment variables in bundle path: ",
            ).concat(message.as_str()),
            OrchestrationError::MalformedCache => String::from_str(
                "the bundles cache is not a mapping of strings to strings",
            ),
        }
    }
}

/// Relies on shellexpand::env: expands `$VAR`-style references from the
/// process environment, or reports the unresolved variable. Which references
/// resolve depends on that environment, so nothing is promised of the
/// outcome beyond its shape.
#[verifier::external_body]
fn expand_env_vars(s: &str) -> (r: Result<String, String>) {
    match shellexpand::env(s) {
        Ok(expanded) => Ok(expanded.into_owned()),
        Err(err) => Err(err.to_string()),
    }
}

/// The expanded entry point, the expanded bundle directory, and the cache
/// file's path under that directory.
pub struct ResolvedPaths {
    pub entry_point: String,
    pub bundle_dir: String,
    pub cache_file: String,
}

/// Lays out the paths for an already expanded entry point and bundle
/// directory: the cache file lives at `.bundles.json` under that directory.
pub fn assemble_paths(entry_point: String, bundle_dir: String) -> (r: ResolvedPaths)
    ensures
        r.entry_point == entry_point,
        r.bundle_dir == bundle_dir,
        r.cache_file@ == bundle_dir@ + "/.bundles.json"@,
{
    let cache_file = bundle_dir.clone().concat("/.bundles.json");
    ResolvedPaths { entry_point, bundle_dir, cache_file }
}

/// Expands environment-variable references in the entry point, picks the
/// bundle directory (the explicit override wins over the configured value;
/// with neither the orchestration aborts), and expands references in it.
/// The cache file lives at `.bundles.json` under the bundle directory.
pub fn resolve_paths(
    entry_point: &str,
    override_path: Option<String>,
    configured_path: Option<String>,
) -> (r: Result<ResolvedPaths, OrchestrationError>)
    ensures
        r matches Ok(p) ==> p.cache_file@ == p.bundle_dir@ + "/.bundles.json"@,
        r matches Ok(p) ==> !(override_path is None && configured_path is None),
        override_path is None && configured_path is None ==> r is Err && (r->Err_0
            is MissingBundlePath || r->Err_0 is EntryPointExpansion),
        r matches Err(e) && e is MissingBundlePath ==> override_path is None && configured_path
            is None,
        r matches Err(e) ==> (e is MissingBundlePath || e is EntryPointExpansion || e
            is BundlePathExpansion),
{
    let expanded_entry = match expand_env_vars(entry_point) {
        Ok(e) => e,
        Err(message) => {
            return Err(OrchestrationError::EntryPointExpansion { message });
        },
    };
    let raw_dir = match resolve_bundle_path(override_path, configured_path) {
        Some(p) => p,
        None => {
            return Err(OrchestrationError::MissingBundlePath);
        },
    };
    let bundle_dir = match expand_env_vars(raw_dir.as_str()) {
        Ok(d) => d,
        Err(message) => {
            return Err(OrchestrationError::BundlePathExpansion { message });
        },
    };
    Ok(assemble_paths(expanded_entry, bundle_dir))
}

/// Where a build session stands.
#[derive(Clone, Copy, PartialEq, Eq, Structural, Debug)]
pub enum BuildPhase {
    /// The non-minified invocation was handed out and has not reported back.
    AwaitingPlain,
    /// The plain build succeeded; the minified invocation was handed out.
    AwaitingMinified,
    /// Both invocations succeeded and the cache may be persisted.
    Done,
    /// An invocation failed; the session is over and the cache stays as it
    /// was.
    Failed,
}

/// What the surrounding program must do next after reporting an exit.
#[derive(Clone, Copy, PartialEq, Eq, Structural, Debug)]
pub enum BuildStep {
    /// Run the session's minified command and report its exit.
    RunMinified,
    /// Overwrite the cache file with the session's serialized cache and
    /// return the identifier.
    PersistCache,
    /// Abort: report the failure and leave the cache file untouched.
    Abort,
}

/// The session's transition relation: the phase an exit report moves the
/// session to, and the step it asks for.
pub open spec fn spec_step(phase: BuildPhase, success: bool) -> (BuildPhase, BuildStep) {
    match phase {
        BuildPhase::AwaitingPlain => if success {
            (BuildPhase::AwaitingMinified, BuildStep::RunMinified)
        } else {
            (BuildPhase::Failed, BuildStep::Abort)
        },
        BuildPhase::AwaitingMinified => if success {
            (BuildPhase::Done, BuildStep::PersistCache)
        } else {
            (BuildPhase::Failed, BuildStep::Abort)
        },
        BuildPhase::Done => (BuildPhase::Done, BuildStep::Abort),
        BuildPhase::Failed => (BuildPhase::Failed, BuildStep::Abort),
    }
}

/// The cache is persisted only after the minified invocation succeeded, which
/// itself is handed out only after the plain one succeeded; any failure
/// aborts, and a failed session never asks for anything again.
pub proof fn lemma_persist_needs_both_successes(phase: BuildPhase, success: bool)
    ensures
        spec_step(phase, success).1 == BuildStep::PersistCache ==> phase
            == BuildPhase::AwaitingMinified && success,
        spec_step(phase, success).1 == BuildStep::RunMinified ==> phase
            == BuildPhase::AwaitingPlain && success,
        !success ==> spec_step(phase, success).1 == BuildStep::Abort,
        spec_step(BuildPhase::Failed, success) == (BuildPhase::Failed, BuildStep::Abort),
{
}

/// One orchestration's in-flight state: the identifier, the prepared second
/// invocation, the cache file's path and future content, and where the
/// session stands.
pub struct BuildSession {
    pub identifier: String,
    pub minified_command: CommandLine,
    pub cache_file: String,
    pub cache_content: String,
    pub phase: BuildPhase,
}

/// What a cache text loads to: absent text is the empty cache; text that does
/// not parse, or parses to entries with a repeated key, loads to nothing and
/// is fatal.
pub open spec fn loaded_cache(text: Option<Seq<char>>) -> Option<CacheModel> {
    match text {
        None => Some(Seq::empty()),
        Some(t) => match parse_cache_text(t) {
            Some(es) => if cache_wf(es) {
                Some(es)
            } else {
                None
            },
            None => None,
        },
    }
}

/// The output path of one build: `<dir>/<identifier>.js`, or
/// `<dir>/<identifier>.min.js` for the minified one.
pub open spec fn spec_output_path(dir: Seq<char>, id: Seq<char>, minified: bool) -> Seq<char> {
    if minified {
        dir + "/"@ + id + ".min.js"@
    } else {
        dir + "/"@ + id + ".js"@
    }
}

/// Starts a build session: loads the cache from the given text, obtains or
/// creates the identifier for the entry point, prepares both invocations,
/// and hands back the non-minified one to run first.
pub fn begin_build(
    paths: &ResolvedPaths,
    variant: &EsbuildCommand,
    options: &EsbuildOptions,
    cache_text: Option<&str>,
) -> (r: Result<(BuildSession, CommandLine), OrchestrationError>)
    ensures
        ({
            let tv = match cache_text {
                Some(t) => Some(t@),
                None => None::<Seq<char>>,
            };
            &&& (r is Ok <==> loaded_cache(tv) is Some)
            &&& (r matches Err(e) ==> e is MalformedCache)
            &&& (r matches Ok(p) ==> {
                let (sess, first) = p;
                let es0 = loaded_cache(tv)->0;
                let (es1, id, _) = spec_get_or_create(es0, paths.entry_point@, sess.identifier@);
                &&& sess.identifier@ == id
                &&& (!cache_contains(es0, paths.entry_point@) ==> is_identifier(id))
                &&& first.program@ == spec_program(*variant)
                &&& views_of(first.args@) == spec_args(
                    *variant,
                    *options,
                    false,
                    paths.entry_point@,
                    spec_output_path(paths.bundle_dir@, id, false),
                )
                &&& sess.minified_command.program@ == spec_program(*variant)
                &&& views_of(sess.minified_command.args@) == spec_args(
                    *variant,
                    *options,
                    true,
                    paths.entry_point@,
                    spec_output_path(paths.bundle_dir@, id, true),
                )
                &&& sess.cache_file@ == paths.cache_file@
                &&& sess.cache_content@ == ser_cache(es1)
                &&& sess.phase == BuildPhase::AwaitingPlain
            })
        }),
{
    let mut cache = match cache_text {
        Some(t) => match parse_cache(t) {
            Some(entries) => match BundleCache::from_entries(entries) {
                Some(c) => c,
                None => {
                    return Err(OrchestrationError::MalformedCache);
                },
            },
            None => {
                return Err(OrchestrationError::MalformedCache);
            },
        },
        None => BundleCache::empty(),
    };
    let (identifier, _is_new) = cache.get_or_create(paths.entry_point.as_str());
    let out_plain = paths.bundle_dir.clone().concat("/").concat(identifier.as_str()).concat(".js");
    let out_min = paths.bundle_dir.clone().concat("/").concat(identifier.as_str()).concat(
        ".min.js",
    );
    let first = variant.build_command(options, false, paths.entry_point.as_str(), out_plain.as_str());
    let minified_command = variant.build_command(
        options,
        true,
        paths.entry_point.as_str(),
        out_min.as_str(),
    );
    let cache_content = serialize_cache(&cache);
    Ok(
        (
            BuildSession {
                identifier,
                minified_command,
                cache_file: paths.cache_file.clone(),
                cache_content,
                phase: BuildPhase::AwaitingPlain,
            },
            first,
        ),
    )
}

/// Idempotence of the orchestration: when a session built over some cache
/// persists its content, a second orchestration for the same entry point
/// loads that content back to exactly the updated cache and is handed the
/// same identifier again, without treating the entry point as new.
pub proof fn lemma_orchestration_idempotent(
    es0: CacheModel,
    entry: Seq<char>,
    fresh1: Seq<char>,
    fresh2: Seq<char>,
)
    requires
        cache_wf(es0),
    ensures
        ({
            let (es1, id1, _) = spec_get_or_create(es0, entry, fresh1);
            let reloaded = loaded_cache(Some(ser_cache(es1)));
            let (es2, id2, is_new2) = spec_get_or_create(es1, entry, fresh2);
            &&& reloaded == Some(es1)
            &&& id2 == id1
            &&& es2 == es1
            &&& !is_new2
        }),
{
    let (es1, id1, _) = spec_get_or_create(es0, entry, fresh1);
    if !cache_contains(es0, entry) {
        crate::cache::lemma_wf_push(es0, entry, fresh1);
    }
    crate::codec::lemma_cache_round_trip(es1);
    crate::cache::lemma_get_or_create_idempotent(es0, entry, fresh1, fresh2);
}

impl BuildSession {
    /// Reports the exit of the invocation last handed out. A failure aborts
    /// the session at once: after a failed plain build the minified
    /// invocation is never handed out, and the cache is persisted only once
    /// both invocations have succeeded.
    pub fn on_exit(&mut self, success: bool) -> (r: BuildStep)
        requires
            old(self).phase == BuildPhase::AwaitingPlain || old(self).phase
                == BuildPhase::AwaitingMinified,
        ensures
            (final(self).phase, r) == spec_step(old(self).phase, success),
            final(self).identifier == old(self).identifier,
            final(self).minified_command == old(self).minified_command,
            final(self).cache_file == old(self).cache_file,
            final(self).cache_content == old(self).cache_content,
    {
        if !success {
            self.phase = BuildPhase::Failed;
            BuildStep::Abort
        } else if self.phase == BuildPhase::AwaitingPlain {
            self.phase = BuildPhase::AwaitingMinified;
            BuildStep::RunMinified
        } else {
            self.phase = BuildPhase::Done;
            BuildStep::PersistCache
        }
    }
}

} // verus!
