//! Command construction: maps a package-manager front end, bundler options
//! and a minification flag to the exact argument list of one bundler
//! invocation.

use vstd::prelude::*;
use vstd::string::StringExecFns;

verus! {

/// Flags passed through to the bundler for the direct-invocation variants.
pub struct EsbuildOptions {
    pub format: Option<String>,
    pub global_name: Option<String>,
}

/// The chosen package-manager front end. `Npm` and `Pnpm` with a script
/// delegate bundling to that script; `Npx`, `Yarn` and `Pnpm` without a
/// script invoke the bundler directly and the engine supplies all flags.
pub enum EsbuildCommand {
    Npm { script: String },
    Pnpm { script: Option<String> },
    Npx,
    Yarn,
}

/// A fully constructed subprocess invocation: a program and its arguments.
pub struct CommandLine {
    pub program: String,
    pub args: Vec<String>,
}

/// The character sequences of a list of argument strings.
pub open spec fn views_of(args: Seq<String>) -> Seq<Seq<char>> {
    args.map_values(|s: String| s@)
}

/// The option flags a direct invocation carries: a format flag if a format
/// is set, then a global-name flag if a global name is set.
pub open spec fn option_flags(opts: EsbuildOptions) -> Seq<Seq<char>> {
    let f = match opts.format {
        Some(f) => seq!["--format="@ + f@],
        None => Seq::<Seq<char>>::empty(),
    };
    let g = match opts.global_name {
        Some(g) => seq!["--global-name="@ + g@],
        None => Seq::<Seq<char>>::empty(),
    };
    f + g
}

/// The flag that selects between a minified build and a source-mapped one.
pub open spec fn minify_flag(minified: bool) -> Seq<char> {
    if minified {
        "--minify"@
    } else {
        "--sourcemap"@
    }
}

/// The arguments every direct invocation ends with: option flags, the
/// minify-or-sourcemap flag, the bundling flag, the output-file flag and the
/// entry point.
pub open spec fn direct_tail(
    opts: EsbuildOptions,
    minified: bool,
    entry: Seq<char>,
    out: Seq<char>,
) -> Seq<Seq<char>> {
    option_flags(opts) + seq![minify_flag(minified)] + seq![
        "--bundle"@,
        "--outfile="@ + out,
        entry,
    ]
}

/// The program a variant invokes.
pub open spec fn spec_program(cmd: EsbuildCommand) -> Seq<char> {
    match cmd {
        EsbuildCommand::Npm { script: _ } => "npm"@,
        EsbuildCommand::Pnpm { script: _ } => "pnpm"@,
        EsbuildCommand::Npx => "npx"@,
        EsbuildCommand::Yarn => "yarn"@,
    }
}

/// The exact argument list a variant invokes its program with.
pub open spec fn spec_args(
    cmd: EsbuildCommand,
    opts: EsbuildOptions,
    minified: bool,
    entry: Seq<char>,
    out: Seq<char>,
) -> Seq<Seq<char>> {
    match cmd {
        EsbuildCommand::Npm { script } => seq![script@, entry, out],
        EsbuildCommand::Pnpm { script: Some(script) } => seq![script@, entry, out],
        EsbuildCommand::Pnpm { script: None } => seq!["exec"@, "esbuild"@] + direct_tail(
            opts,
            minified,
            entry,
            out,
        ),
        EsbuildCommand::Npx => seq!["esbuild"@] + direct_tail(opts, minified, entry, out),
        EsbuildCommand::Yarn => seq!["esbuild"@] + direct_tail(opts, minified, entry, out),
    }
}

impl Default for EsbuildOptions {
    /// No format and no global name: the bundler's defaults.
    fn default() -> (r: Self)
        ensures
            r.format is None,
            r.global_name is None,
    {
        EsbuildOptions { format: None, global_name: None }
    }
}

impl EsbuildOptions {
    /// Appends this option set's flags to an argument list.
    pub fn add(&self, args: &mut Vec<String>)
        ensures
            views_of(final(args)@) == views_of(old(args)@) + option_flags(*self),
    {
        if let Some(format) = &self.format {
            let flag = String::from_str("--format=").concat(format.as_str());
            args.push(flag);
        }
        if let Some(global_name) = &self.global_name {
            let flag = String::from_str("--global-name=").concat(global_name.as_str());
            args.push(flag);
        }
        assert(views_of(args@) =~= views_of(old(args)@) + option_flags(*self));
    }
}

impl EsbuildCommand {
    /// Constructs the exact command line for one bundler invocation. Pure:
    /// the result is fully determined by the arguments.
    pub fn build_command(
        &self,
        options: &EsbuildOptions,
        minified: bool,
        entry_point: &str,
        output_path: &str,
    ) -> (r: CommandLine)
        ensures
            r.program@ == spec_program(*self),
            views_of(r.args@) == spec_args(*self, *options, minified, entry_point@, output_path@),
    {
        match self {
            EsbuildCommand::Npm { script } => {
                let mut args: Vec<String> = Vec::new();
                args.push(String::from_str(script.as_str()));
                args.push(String::from_str(entry_point));
                args.push(String::from_str(output_path));
                assert(views_of(args@) =~= spec_args(
                    *self,
                    *options,
                    minified,
                    entry_point@,
                    output_path@,
                ));
                CommandLine { program: String::from_str("npm"), args }
            },
            EsbuildCommand::Pnpm { script: Some(script) } => {
                let mut args: Vec<String> = Vec::new();
                args.push(String::from_str(script.as_str()));
                args.push(String::from_str(entry_point));
                args.push(String::from_str(output_path));
                assert(views_of(args@) =~= spec_args(
                    *self,
                    *options,
                    minified,
                    entry_point@,
                    output_path@,
                ));
                CommandLine { program: String::from_str("pnpm"), args }
            },
            EsbuildCommand::Pnpm { script: None } => {
                let mut args: Vec<String> = Vec::new();
                args.push(String::from_str("exec"));
                args.push(String::from_str("esbuild"));
                push_direct_tail(&mut args, options, minified, entry_point, output_path);
                assert(views_of(args@) =~= spec_args(
                    *self,
                    *options,
                    minified,
                    entry_point@,
                    output_path@,
                ));
                CommandLine { program: String::from_str("pnpm"), args }
            },
            EsbuildCommand::Npx => {
                let mut args: Vec<String> = Vec::new();
                args.push(String::from_str("esbuild"));
                push_direct_tail(&mut args, options, minified, entry_point, output_path);
                assert(views_of(args@) =~= spec_args(
                    *self,
                    *options,
                    minified,
                    entry_point@,
                    output_path@,
                ));
                CommandLine { program: String::from_str("npx"), args }
            },
            EsbuildCommand::Yarn => {
                let mut args: Vec<String> = Vec::new();
                args.push(String::from_str("esbuild"));
                push_direct_tail(&mut args, options, minified, entry_point, output_path);
                assert(views_of(args@) =~= spec_args(
                    *self,
                    *options,
                    minified,
                    entry_point@,
                    output_path@,
                ));
                CommandLine { program: String::from_str("yarn"), args }
            },
        }
    }
}

/// Appends the shared tail of a direct invocation.
fn push_direct_tail(
    args: &mut Vec<String>,
    options: &EsbuildOptions,
    minified: bool,
    entry_point: &str,
    output_path: &str,
)
    ensures
        views_of(final(args)@) == views_of(old(args)@) + direct_tail(
            *options,
            minified,
            entry_point@,
            output_path@,
        ),
{
    options.add(args);
    let ghost base = args@;
    if minified {
        args.push(String::from_str("--minify"));
    } else {
        args.push(String::from_str("--sourcemap"));
    }
    args.push(String::from_str("--bundle"));
    args.push(String::from_str("--outfile=").concat(output_path));
    args.push(String::from_str(entry_point));
    assert(views_of(args@) =~= views_of(base) + seq![
        minify_flag(minified),
        "--bundle"@,
        "--outfile="@ + output_path@,
        entry_point@,
    ]);
    assert(views_of(args@) =~= views_of(old(args)@) + direct_tail(
        *options,
        minified,
        entry_point@,
        output_path@,
    ));
}

impl Default for EsbuildCommand {
    /// The default front end is a bare direct invocation.
    fn default() -> (r: Self)
        ensures
            r == EsbuildCommand::Npx,
    {
        EsbuildCommand::Npx
    }
}

/// Command construction is deterministic: two command lines built from the
/// same variant, options, minification flag, entry point and output path are
/// identical.
pub proof fn lemma_build_command_deterministic(
    p1: Seq<char>,
    a1: Seq<Seq<char>>,
    p2: Seq<char>,
    a2: Seq<Seq<char>>,
    cmd: EsbuildCommand,
    opts: EsbuildOptions,
    minified: bool,
    entry: Seq<char>,
    out: Seq<char>,
)
    requires
        p1 == spec_program(cmd),
        a1 == spec_args(cmd, opts, minified, entry, out),
        p2 == spec_program(cmd),
        a2 == spec_args(cmd, opts, minified, entry, out),
    ensures
        p1 == p2,
        a1 == a2,
{
}

/// The flag segment of a direct invocation carries the minify flag, and not
/// the source-map flag, exactly when a minified build was asked for; the
/// option flags can never be mistaken for either, since they carry their own
/// prefixes.
pub proof fn lemma_minify_flag_coverage(opts: EsbuildOptions, minified: bool)
    ensures
        option_flags(opts).push(minify_flag(minified)).contains("--minify"@) == minified,
        option_flags(opts).push(minify_flag(minified)).contains("--sourcemap"@) == !minified,
{
    reveal_strlit("--minify");
    reveal_strlit("--sourcemap");
    reveal_strlit("--format=");
    reveal_strlit("--global-name=");
    let flags = option_flags(opts).push(minify_flag(minified));
    assert(forall|i: int|
        0 <= i < option_flags(opts).len() ==> #[trigger] option_flags(opts)[i] != "--minify"@
            && option_flags(opts)[i] != "--sourcemap"@) by {
        if opts.format is Some {
            assert(("--format="@ + opts.format->0@)[2] == 'f');
        }
        if opts.global_name is Some {
            assert(("--global-name="@ + opts.global_name->0@).len() >= 14);
        }
    }
    assert(flags[flags.len() - 1] == minify_flag(minified));
    if minified {
        assert(flags.contains("--minify"@));
    } else {
        assert(flags.contains("--sourcemap"@));
    }
}

} // verus!
