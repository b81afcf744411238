//! The command line of the repository tasks.
use vstd::prelude::*;

use crate::text;

verus! {

/// The help text.
pub const HELP: &'static str =
    "RMUX repository tasks\n\nUsage:\n    cargo run -p xtask -- <command> [args]\n\nCommands:\n    --help, -h, help            Print this help text.\n    feature-inventory                      Regenerate v1 public overview files from xtask/assets/.\n    feature-inventory --check              Fail if any generated public overview drifts from canon.\n";

/// What to do.
#[derive(Debug, PartialEq, Eq)]
pub enum Command {
    /// Print the help text.
    Help,
    /// Write the overview files, or compare them with what would be written.
    FeatureInventory {
        /// Whether to compare only.
        check: bool,
    },
}

/// Whether a word asks for help.
pub open spec fn is_help(word: Seq<char>) -> bool {
    word == "--help"@ || word == "-h"@ || word == "help"@
}

/// The first argument from `i` on that is not `--check`.
pub open spec fn first_stranger(args: Seq<Seq<char>>, i: int) -> Option<Seq<char>>
    decreases args.len() - i,
{
    if i >= args.len() {
        None
    } else if args[i] != "--check"@ {
        Some(args[i])
    } else {
        first_stranger(args, i + 1)
    }
}

/// What arguments ask for, or what is wrong with them.
pub open spec fn parsed(args: Seq<Seq<char>>) -> Result<Command, Seq<char>> {
    if args.len() == 0 {
        Ok(Command::Help)
    } else if is_help(args[0]) {
        if args.len() > 1 {
            Err("unexpected xtask argument after "@ + args[0] + ": "@ + args[1])
        } else {
            Ok(Command::Help)
        }
    } else if args[0] == "feature-inventory"@ {
        match first_stranger(args, 1) {
            Some(other) => Err("unknown feature-inventory argument: "@ + other),
            None => Ok(Command::FeatureInventory { check: args.len() > 1 }),
        }
    } else {
        Err("unknown xtask command: "@ + args[0])
    }
}

/// Reads the arguments; see [`parsed`].
pub fn parse_args(args: &Vec<String>) -> (r: Result<Command, String>)
    ensures
        match r {
            Ok(command) => parsed(args.deep_view()) == Ok::<Command, Seq<char>>(command),
            Err(message) => parsed(args.deep_view()) == Err::<Command, Seq<char>>(message@),
        },
{
    let ghost words = args.deep_view();
    if args.len() == 0 {
        return Ok(Command::Help);
    }
    let command = &args[0];
    if text::str_eq(command, "--help") || text::str_eq(command, "-h") || text::str_eq(
        command,
        "help",
    ) {
        if args.len() > 1 {
            let mut message = "unexpected xtask argument after ".to_owned();
            message.append(command);
            message.append(": ");
            message.append(&args[1]);
            return Err(message);
        }
        return Ok(Command::Help);
    }
    if text::str_eq(command, "feature-inventory") {
        let mut check = false;
        let mut i: usize = 1;
        while i < args.len()
            invariant
                1 <= i <= args@.len(),
                words == args.deep_view(),
                words[0] == "feature-inventory"@,
                !is_help(words[0]),
                check == (i > 1),
                first_stranger(words, 1) == first_stranger(words, i as int),
            decreases args.len() - i,
        {
            if text::str_eq(&args[i], "--check") {
                check = true;
            } else {
                let mut message = "unknown feature-inventory argument: ".to_owned();
                message.append(&args[i]);
                return Err(message);
            }
            i = i + 1;
        }
        return Ok(Command::FeatureInventory { check });
    }
    let mut message = "unknown xtask command: ".to_owned();
    message.append(command);
    Err(message)
}

/// What became of the overview files, each by its path.
#[derive(Debug, PartialEq, Eq)]
pub struct InventoryReport {
    /// Those that were written.
    pub changed: Vec<String>,
    /// Those that were right.
    pub unchanged: Vec<String>,
}

/// The lines about some files.
pub open spec fn lines_about(word: Seq<char>, paths: Seq<Seq<char>>) -> Seq<Seq<char>> {
    paths.map_values(|path: Seq<char>| word + path)
}

/// Appends the lines about some files.
fn push_lines(lines: &mut Vec<String>, word: &str, paths: &Vec<String>)
    ensures
        final(lines).deep_view() == old(lines).deep_view() + lines_about(word@, paths.deep_view()),
{
    let ghost before = lines.deep_view();
    let ghost all = lines_about(word@, paths.deep_view());
    let mut i: usize = 0;
    assert(lines.deep_view() =~= before + all.take(0));
    while i < paths.len()
        invariant
            i <= paths@.len(),
            all == lines_about(word@, paths.deep_view()),
            lines.deep_view() == before + all.take(i as int),
        decreases paths.len() - i,
    {
        let ghost earlier = lines.deep_view();
        let mut line = word.to_owned();
        line.append(&paths[i]);
        assert(all[i as int] == word@ + paths@[i as int]@);
        lines.push(line);
        assert(lines.deep_view() =~= earlier.push(all[i as int]));
        assert(lines.deep_view() =~= before + all.take(i + 1));
        i = i + 1;
    }
    assert(all.take(i as int) =~= all);
}

/// What is printed about the overview files: a line for each that was written,
/// and then one for each that was right; or what went wrong.
pub fn run_feature_inventory(report: Result<InventoryReport, String>) -> (r: Result<
    Vec<String>,
    String,
>)
    ensures
        match report {
            Ok(report) => r matches Ok(lines) && lines.deep_view() == lines_about(
                "feature-inventory: wrote "@,
                report.changed.deep_view(),
            ) + lines_about("feature-inventory: unchanged "@, report.unchanged.deep_view()),
            Err(error) => r matches Err(message) && message@ == "xtask feature-inventory failed: "@
                + error@,
        },
{
    match report {
        Ok(report) => {
            let mut lines: Vec<String> = Vec::new();
            assert(lines.deep_view() =~= Seq::empty());
            push_lines(&mut lines, "feature-inventory: wrote ", &report.changed);
            assert(lines.deep_view() =~= lines_about(
                "feature-inventory: wrote "@,
                report.changed.deep_view(),
            ));
            push_lines(&mut lines, "feature-inventory: unchanged ", &report.unchanged);
            Ok(lines)
        },
        Err(error) => {
            let mut message = "xtask feature-inventory failed: ".to_owned();
            message.append(&error);
            Err(message)
        },
    }
}

} // verus!
