use vstd::prelude::*;
use vstd::string::StringExecFns;

verus! {

/// What the command line asks for.
pub enum Command {
    /// Print the usage text and exit with success.
    Help,
    /// No path was given: report it and exit with a failure status.
    NoPaths,
    /// Measure each of these paths, in order.
    Measure(Vec<String>),
}

/// `--help` or `-help`.
pub open spec fn is_help_flag(s: Seq<char>) -> bool {
    s == seq!['-', '-', 'h', 'e', 'l', 'p'] || s == seq!['-', 'h', 'e', 'l', 'p']
}

/// Reads the command line, program name first: with no argument after it there is
/// nothing to measure; a first argument `--help` or `-help` asks for the usage
/// text; otherwise every argument after the program name is a path to measure.
pub fn parse_command(args: &Vec<String>) -> (r: Command)
    ensures
        args.len() < 2 ==> r is NoPaths,
        args.len() >= 2 && is_help_flag(args[1]@) ==> r is Help,
        args.len() >= 2 && !is_help_flag(args[1]@) ==> (match r {
            Command::Measure(paths) => paths@ == args@.subrange(1, args.len() as int),
            _ => false,
        }),
{
    if args.len() < 2 {
        return Command::NoPaths;
    }
    proof {
        reveal_strlit("--help");
        reveal_strlit("-help");
        assert("--help"@ =~= seq!['-', '-', 'h', 'e', 'l', 'p']);
        assert("-help"@ =~= seq!['-', 'h', 'e', 'l', 'p']);
    }
    let long_flag = String::from_str("--help");
    let short_flag = String::from_str("-help");
    if args[1] == long_flag || args[1] == short_flag {
        return Command::Help;
    }
    let mut paths: Vec<String> = Vec::new();
    let mut i: usize = 1;
    while i < args.len()
        invariant
            1 <= i <= args.len(),
            paths@ == args@.subrange(1, i as int),
        decreases args.len() - i,
    {
        paths.push(args[i].clone());
        i = i + 1;
        assert(paths@ =~= args@.subrange(1, i as int));
    }
    Command::Measure(paths)
}

} // verus!
