//! Reading the command line of the importer:
//! `import-step <step-file> <db-dir> [--json dump.json] [--verbose]`.
use vstd::prelude::*;
use crate::parser::texts;

verus! {

/// What the command line asks for.
pub enum CliCommand {
    /// `--help` or `-h` was given: show the usage and stop.
    Help,
    /// Import the STEP file into the database directory.
    Import { step_path: String, db_dir: String, json_path: Option<String>, verbose: bool },
}

/// Why a command line is refused.
pub enum CliError {
    /// No STEP file path was given.
    MissingStepPath,
    /// `--json` is the last argument.
    JsonNeedsPath,
    /// An argument starting with `-` that is not an option.
    UnknownArgument(String),
    /// No database directory was given.
    MissingDbDir,
}

/// A command as plain values.
pub enum CliCommandView {
    Help,
    Import { step_path: Seq<char>, db_dir: Seq<char>, json_path: Option<Seq<char>>, verbose: bool },
}

/// A refusal as plain values.
pub enum CliErrorView {
    MissingStepPath,
    JsonNeedsPath,
    UnknownArgument(Seq<char>),
    MissingDbDir,
}

impl View for CliCommand {
    type V = CliCommandView;

    open spec fn view(&self) -> CliCommandView {
        match self {
            CliCommand::Help => CliCommandView::Help,
            CliCommand::Import { step_path, db_dir, json_path, verbose } => CliCommandView::Import {
                step_path: step_path@,
                db_dir: db_dir@,
                json_path: match json_path {
                    Some(p) => Some(p@),
                    None => None,
                },
                verbose: *verbose,
            },
        }
    }
}

impl View for CliError {
    type V = CliErrorView;

    open spec fn view(&self) -> CliErrorView {
        match self {
            CliError::MissingStepPath => CliErrorView::MissingStepPath,
            CliError::JsonNeedsPath => CliErrorView::JsonNeedsPath,
            CliError::UnknownArgument(a) => CliErrorView::UnknownArgument(a@),
            CliError::MissingDbDir => CliErrorView::MissingDbDir,
        }
    }
}

pub open spec fn is_help_flag(a: Seq<char>) -> bool {
    a == "--help"@ || a == "-h"@
}

/// The options and paths read from `args[i..]`, after `json`, `verbose`
/// and `paths` were read from the arguments before.
pub open spec fn read_args(
    args: Seq<Seq<char>>,
    i: int,
    json: Option<Seq<char>>,
    verbose: bool,
    paths: Seq<Seq<char>>,
) -> Result<(Option<Seq<char>>, bool, Seq<Seq<char>>), CliErrorView>
    decreases args.len() - i,
{
    if i < 0 || i >= args.len() {
        Ok((json, verbose, paths))
    } else {
        let a = args[i];
        if a == "--json"@ {
            if i + 1 < args.len() {
                read_args(args, i + 2, Some(args[i + 1]), verbose, paths)
            } else {
                Err(CliErrorView::JsonNeedsPath)
            }
        } else if a == "--verbose"@ || a == "-v"@ {
            read_args(args, i + 1, json, true, paths)
        } else if a.len() > 0 && a[0] == '-' {
            Err(CliErrorView::UnknownArgument(a))
        } else {
            read_args(args, i + 1, json, verbose, paths.push(a))
        }
    }
}

/// The command that a command line (without the program name) asks for.
pub open spec fn cli_spec(args: Seq<Seq<char>>) -> Result<CliCommandView, CliErrorView> {
    if args.len() == 0 {
        Err(CliErrorView::MissingStepPath)
    } else if exists|i: int| 0 <= i < args.len() && is_help_flag(#[trigger] args[i]) {
        Ok(CliCommandView::Help)
    } else {
        match read_args(args, 0, None, false, Seq::empty()) {
            Err(e) => Err(e),
            Ok((json, verbose, paths)) => if paths.len() < 1 {
                Err(CliErrorView::MissingStepPath)
            } else if paths.len() < 2 {
                Err(CliErrorView::MissingDbDir)
            } else {
                Ok(
                    CliCommandView::Import {
                        step_path: paths[0],
                        db_dir: paths[1],
                        json_path: json,
                        verbose,
                    },
                )
            },
        }
    }
}

fn text_is(a: &String, lit: &str) -> (b: bool)
    ensures
        b == (a@ == lit@),
{
    let x = crate::text::chars_of(a.as_str());
    let y = crate::text::chars_of(lit);
    crate::text::chars_equal(x.as_slice(), y.as_slice())
}

/// Read the command line (without the program name).
pub fn parse_cli(args: &Vec<String>) -> (r: Result<CliCommand, CliError>)
    ensures
        match r {
            Ok(c) => cli_spec(texts(args@)) == Ok::<CliCommandView, CliErrorView>(c@),
            Err(e) => cli_spec(texts(args@)) == Err::<CliCommandView, CliErrorView>(e@),
        },
{
    let ghost av = texts(args@);
    if args.len() == 0 {
        return Err(CliError::MissingStepPath);
    }
    let mut k: usize = 0;
    while k < args.len()
        invariant
            av == texts(args@),
            k <= args@.len(),
            forall|j: int| 0 <= j < k ==> !is_help_flag(#[trigger] av[j]),
        decreases args@.len() - k,
    {
        if text_is(&args[k], "--help") || text_is(&args[k], "-h") {
            assert(is_help_flag(av[k as int]));
            return Ok(CliCommand::Help);
        }
        k = k + 1;
    }
    let mut json_path: Option<String> = None;
    let mut verbose = false;
    let mut paths: Vec<String> = Vec::new();
    let ghost start = read_args(av, 0, None, false, Seq::empty());
    let mut i: usize = 0;
    assert(texts(paths@) =~= Seq::<Seq<char>>::empty());
    while i < args.len()
        invariant
            av == texts(args@),
            i <= args@.len(),
            args@.len() > 0,
            forall|j: int| 0 <= j < av.len() ==> !is_help_flag(#[trigger] av[j]),
            start == read_args(av, 0, None, false, Seq::empty()),
            start == read_args(
                av,
                i as int,
                match json_path {
                    Some(p) => Some(p@),
                    None => None,
                },
                verbose,
                texts(paths@),
            ),
        decreases args@.len() - i,
    {
        if text_is(&args[i], "--json") {
            if i + 1 < args.len() {
                json_path = Some(args[i + 1].clone());
                i = i + 2;
            } else {
                return Err(CliError::JsonNeedsPath);
            }
        } else if text_is(&args[i], "--verbose") || text_is(&args[i], "-v") {
            verbose = true;
            i = i + 1;
        } else {
            let a = crate::text::chars_of(args[i].as_str());
            if a.len() > 0 && a[0] == '-' {
                return Err(CliError::UnknownArgument(args[i].clone()));
            }
            let ghost before = paths@;
            paths.push(args[i].clone());
            assert(texts(paths@) =~= texts(before).push(av[i as int]));
            i = i + 1;
        }
    }
    if paths.len() < 1 {
        return Err(CliError::MissingStepPath);
    }
    if paths.len() < 2 {
        return Err(CliError::MissingDbDir);
    }
    let step_path = paths[0].clone();
    let db_dir = paths[1].clone();
    assert(texts(paths@)[0] == step_path@);
    assert(texts(paths@)[1] == db_dir@);
    Ok(CliCommand::Import { step_path, db_dir, json_path, verbose })
}

} // verus!
