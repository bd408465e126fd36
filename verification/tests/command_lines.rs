//! Command construction: each front-end variant yields exactly the
//! documented program and argument list, deterministically.

use esbuild_bundle::command::{CommandLine, EsbuildCommand, EsbuildOptions};

fn no_options() -> EsbuildOptions {
    EsbuildOptions { format: None, global_name: None }
}

fn args_of(c: &CommandLine) -> Vec<&str> {
    c.args.iter().map(|a| a.as_str()).collect()
}

#[test]
fn npm_delegates_to_script() {
    let cmd = EsbuildCommand::Npm { script: String::from("bundle") };
    let c = cmd.build_command(&no_options(), false, "src/app.ts", "/out/x.js");
    assert_eq!(c.program, "npm");
    assert_eq!(args_of(&c), vec!["bundle", "src/app.ts", "/out/x.js"]);
    let minified = cmd.build_command(&no_options(), true, "src/app.ts", "/out/x.min.js");
    assert_eq!(args_of(&minified), vec!["bundle", "src/app.ts", "/out/x.min.js"]);
}

#[test]
fn pnpm_with_script_delegates() {
    let cmd = EsbuildCommand::Pnpm { script: Some(String::from("make-bundle")) };
    let c = cmd.build_command(&no_options(), true, "lib/main.ts", "/tmp/y.min.js");
    assert_eq!(c.program, "pnpm");
    assert_eq!(args_of(&c), vec!["make-bundle", "lib/main.ts", "/tmp/y.min.js"]);
}

#[test]
fn pnpm_without_script_invokes_directly() {
    let cmd = EsbuildCommand::Pnpm { script: None };
    let c = cmd.build_command(&no_options(), false, "src/app.ts", "/out/x.js");
    assert_eq!(c.program, "pnpm");
    assert_eq!(
        args_of(&c),
        vec!["exec", "esbuild", "--sourcemap", "--bundle", "--outfile=/out/x.js", "src/app.ts"]
    );
}

#[test]
fn npx_minified_has_minify_and_no_sourcemap() {
    let cmd = EsbuildCommand::Npx;
    let c = cmd.build_command(&no_options(), true, "src/app.ts", "/out/x.min.js");
    assert_eq!(c.program, "npx");
    assert_eq!(
        args_of(&c),
        vec!["esbuild", "--minify", "--bundle", "--outfile=/out/x.min.js", "src/app.ts"]
    );
    assert!(!c.args.iter().any(|a| a == "--sourcemap"));
}

#[test]
fn npx_plain_has_sourcemap_and_no_minify() {
    let cmd = EsbuildCommand::Npx;
    let c = cmd.build_command(&no_options(), false, "src/app.ts", "/out/x.js");
    assert!(c.args.iter().any(|a| a == "--sourcemap"));
    assert!(!c.args.iter().any(|a| a == "--minify"));
}

#[test]
fn yarn_invokes_directly() {
    let cmd = EsbuildCommand::Yarn;
    let c = cmd.build_command(&no_options(), false, "a.ts", "/o/b.js");
    assert_eq!(c.program, "yarn");
    assert_eq!(args_of(&c), vec!["esbuild", "--sourcemap", "--bundle", "--outfile=/o/b.js", "a.ts"]);
}

#[test]
fn options_add_format_and_global_name_flags() {
    let opts = EsbuildOptions {
        format: Some(String::from("iife")),
        global_name: Some(String::from("app")),
    };
    let c = EsbuildCommand::Npx.build_command(&opts, true, "src/app.ts", "/out/x.min.js");
    assert_eq!(
        args_of(&c),
        vec![
            "esbuild",
            "--format=iife",
            "--global-name=app",
            "--minify",
            "--bundle",
            "--outfile=/out/x.min.js",
            "src/app.ts"
        ]
    );
}

#[test]
fn options_are_ignored_by_script_variants() {
    let opts = EsbuildOptions { format: Some(String::from("esm")), global_name: None };
    let c = EsbuildCommand::Npm { script: String::from("b") }.build_command(
        &opts,
        false,
        "e.ts",
        "/o/x.js",
    );
    assert_eq!(args_of(&c), vec!["b", "e.ts", "/o/x.js"]);
}

#[test]
fn command_construction_is_deterministic() {
    let opts = EsbuildOptions { format: Some(String::from("esm")), global_name: None };
    let cmd = EsbuildCommand::Pnpm { script: None };
    let a = cmd.build_command(&opts, true, "src/app.ts", "/out/x.min.js");
    let b = cmd.build_command(&opts, true, "src/app.ts", "/out/x.min.js");
    assert_eq!(a.program, b.program);
    assert_eq!(a.args, b.args);
}

#[test]
fn default_variant_is_npx() {
    let cmd = EsbuildCommand::default();
    let c = cmd.build_command(&no_options(), false, "e.ts", "/o/x.js");
    assert_eq!(c.program, "npx");
}
