//! The orchestration sequence: path resolution, session start, the two
//! invocations in order, and when the cache may be persisted.

use esbuild_bundle::codec::parse_cache;
use esbuild_bundle::command::{EsbuildCommand, EsbuildOptions};
use esbuild_bundle::session::{
    begin_build, resolve_paths, BuildPhase, BuildStep, OrchestrationError,
};

fn no_options() -> EsbuildOptions {
    EsbuildOptions { format: None, global_name: None }
}

#[test]
fn fresh_entry_point_builds_both_variants_and_persists_mapping() {
    let paths = resolve_paths("src/app.ts", None, Some(String::from("/out"))).unwrap();
    assert_eq!(paths.entry_point, "src/app.ts");
    assert_eq!(paths.bundle_dir, "/out");
    assert_eq!(paths.cache_file, "/out/.bundles.json");

    let (mut session, first) = begin_build(&paths, &EsbuildCommand::Npx, &no_options(), None)
        .unwrap();
    let id = session.identifier.clone();
    assert_eq!(id.len(), 32);
    assert!(id.chars().all(|c| c.is_ascii_alphanumeric()));

    assert_eq!(first.program, "npx");
    assert!(first.args.iter().any(|a| *a == format!("--outfile=/out/{}.js", id)));
    assert!(first.args.iter().any(|a| a == "--sourcemap"));
    assert!(session
        .minified_command
        .args
        .iter()
        .any(|a| *a == format!("--outfile=/out/{}.min.js", id)));
    assert!(session.minified_command.args.iter().any(|a| a == "--minify"));

    assert_eq!(session.on_exit(true), BuildStep::RunMinified);
    assert_eq!(session.on_exit(true), BuildStep::PersistCache);
    assert_eq!(session.phase, BuildPhase::Done);
    assert_eq!(session.cache_file, "/out/.bundles.json");
    let persisted = parse_cache(session.cache_content.as_str()).unwrap();
    assert_eq!(persisted, vec![(String::from("src/app.ts"), id)]);
}

#[test]
fn seen_entry_point_reuses_identifier_and_still_runs_both() {
    let paths = resolve_paths("src/app.ts", None, Some(String::from("/out"))).unwrap();
    let existing = "{\n  \"src/app.ts\": \"Qq0123456789Qq0123456789Qq012345\"\n}";
    let (mut session, first) =
        begin_build(&paths, &EsbuildCommand::Npx, &no_options(), Some(existing)).unwrap();
    assert_eq!(session.identifier, "Qq0123456789Qq0123456789Qq012345");
    assert!(first
        .args
        .iter()
        .any(|a| a == "--outfile=/out/Qq0123456789Qq0123456789Qq012345.js"));
    assert_eq!(session.on_exit(true), BuildStep::RunMinified);
    assert_eq!(session.on_exit(true), BuildStep::PersistCache);
    let persisted = parse_cache(session.cache_content.as_str()).unwrap();
    assert_eq!(
        persisted,
        vec![(
            String::from("src/app.ts"),
            String::from("Qq0123456789Qq0123456789Qq012345")
        )]
    );
}

#[test]
fn failed_plain_build_aborts_before_the_minified_one() {
    let paths = resolve_paths("src/app.ts", None, Some(String::from("/out"))).unwrap();
    let (mut session, _first) = begin_build(&paths, &EsbuildCommand::Npx, &no_options(), None)
        .unwrap();
    assert_eq!(session.on_exit(false), BuildStep::Abort);
    assert_eq!(session.phase, BuildPhase::Failed);
}

#[test]
fn failed_minified_build_aborts_without_persisting() {
    let paths = resolve_paths("src/app.ts", None, Some(String::from("/out"))).unwrap();
    let (mut session, _first) = begin_build(&paths, &EsbuildCommand::Npx, &no_options(), None)
        .unwrap();
    assert_eq!(session.on_exit(true), BuildStep::RunMinified);
    assert_eq!(session.on_exit(false), BuildStep::Abort);
    assert_eq!(session.phase, BuildPhase::Failed);
}

#[test]
fn missing_bundle_path_aborts_before_any_invocation() {
    let r = resolve_paths("src/app.ts", None, None);
    assert!(matches!(r, Err(OrchestrationError::MissingBundlePath)));
}

#[test]
fn override_wins_over_configured_path() {
    let paths = resolve_paths(
        "src/app.ts",
        Some(String::from("/override")),
        Some(String::from("/configured")),
    )
    .unwrap();
    assert_eq!(paths.bundle_dir, "/override");
    assert_eq!(paths.cache_file, "/override/.bundles.json");
}

#[test]
fn unresolved_variable_in_entry_point_is_fatal() {
    let r = resolve_paths(
        "${surely_not_defined_anywhere_at_all}/app.ts",
        None,
        Some(String::from("/out")),
    );
    assert!(matches!(r, Err(OrchestrationError::EntryPointExpansion { .. })));
}

#[test]
fn unresolved_variable_in_bundle_path_is_fatal() {
    let r = resolve_paths(
        "src/app.ts",
        Some(String::from("${surely_not_defined_anywhere_at_all}/out")),
        None,
    );
    assert!(matches!(r, Err(OrchestrationError::BundlePathExpansion { .. })));
}

#[test]
fn malformed_cache_text_is_fatal() {
    let paths = resolve_paths("src/app.ts", None, Some(String::from("/out"))).unwrap();
    let r = begin_build(&paths, &EsbuildCommand::Npx, &no_options(), Some("not a cache"));
    assert!(matches!(r, Err(OrchestrationError::MalformedCache)));
    let dup = "{\n  \"a\": \"x\",\n  \"a\": \"y\"\n}";
    let r2 = begin_build(&paths, &EsbuildCommand::Npx, &no_options(), Some(dup));
    assert!(matches!(r2, Err(OrchestrationError::MalformedCache)));
}

#[test]
fn script_variant_builds_both_invocations_with_positional_arguments() {
    let paths = resolve_paths("src/app.ts", None, Some(String::from("/out"))).unwrap();
    let variant = EsbuildCommand::Npm { script: String::from("bundle") };
    let (session, first) = begin_build(&paths, &variant, &no_options(), None).unwrap();
    let id = session.identifier.clone();
    let firsts: Vec<&str> = first.args.iter().map(|a| a.as_str()).collect();
    assert_eq!(
        firsts,
        vec!["bundle", "src/app.ts", &format!("/out/{}.js", id) as &str]
    );
    let seconds: Vec<&str> = session.minified_command.args.iter().map(|a| a.as_str()).collect();
    assert_eq!(
        seconds,
        vec!["bundle", "src/app.ts", &format!("/out/{}.min.js", id) as &str]
    );
}

#[test]
fn error_messages_name_their_cause() {
    let r = resolve_paths("src/app.ts", None, None);
    let message = match r {
        Err(e) => e.message(),
        Ok(_) => panic!("a missing bundle path must be fatal"),
    };
    assert_eq!(message, "no bundle path provided, and the configuration names none");
}
