//! The search configuration and how it is read from the command-line words.
use vstd::prelude::*;
use vstd::string::StringExecFns;
use crate::text::views;

verus! {

/// Message for a command line that does not hold enough words for a search.
pub const INVALID_ARGS_INFO: &'static str = "Invalid arguments! User -h or --help for usage information.";

/// Help text listing the options.
pub const USAGE_INFO: &'static str = "Usage: grep [OPTIONS] <pattern> <files...>\nOptions:\n-i                Case-insensitive search\n-n                Print line numbers\n-v                Invert match (exclude lines that match the pattern)\n-r                Recursive directory search\n-f                Print filenames\n-c                Enable colored output\n-h, --help        Show help information";

/// The option words that the command line understands.
#[derive(Clone, Copy, Debug, PartialEq, Eq, Structural)]
pub enum Switch {
    CaseInsensitive,
    LineNumbers,
    Invert,
    Recursive,
    Filenames,
    Color,
    Help,
}

/// The option that the word `a` stands for, if any.
pub open spec fn switch_of(a: Seq<char>) -> Option<Switch> {
    if a == "-i"@ {
        Some(Switch::CaseInsensitive)
    } else if a == "-n"@ {
        Some(Switch::LineNumbers)
    } else if a == "-v"@ {
        Some(Switch::Invert)
    } else if a == "-r"@ {
        Some(Switch::Recursive)
    } else if a == "-f"@ {
        Some(Switch::Filenames)
    } else if a == "-c"@ {
        Some(Switch::Color)
    } else if a == "-h"@ || a == "--help"@ {
        Some(Switch::Help)
    } else {
        None
    }
}

/// Some word of `args` stands for the option `s`.
pub open spec fn has_switch(args: Seq<Seq<char>>, s: Switch) -> bool {
    exists|i: int| 0 <= i < args.len() && switch_of(args[i]) == Some(s)
}

/// The words of `args` that are no option, in order (the program name first).
pub open spec fn positional(args: Seq<Seq<char>>) -> Seq<Seq<char>>
    decreases args.len(),
{
    if args.len() == 0 {
        Seq::empty()
    } else if switch_of(args.last()) is Some {
        positional(args.drop_last())
    } else {
        positional(args.drop_last()).push(args.last())
    }
}

/// The command line `args` does not describe a run: too short, or no help
/// asked for and fewer than a program name, a pattern and a path.
pub open spec fn invalid_args(args: Seq<Seq<char>>) -> bool {
    args.len() < 2 || (!has_switch(args, Switch::Help) && positional(args).len() < 3)
}

/// What to search for and how to report it.
pub struct Config {
    pub print_usage: bool,
    pub search_string: String,
    pub filenames: Vec<String>,
    pub is_case_insensitive: bool,
    pub print_line_no: bool,
    pub invert_match: bool,
    pub recursive_search: bool,
    pub print_filenames: bool,
    pub coloured_output: bool,
}

/// Which option, if any, the word `a` stands for.
fn switch_of_word(a: &String) -> (r: Option<Switch>)
    ensures
        r == switch_of(a@),
{
    if *a == String::from_str("-i") {
        Some(Switch::CaseInsensitive)
    } else if *a == String::from_str("-n") {
        Some(Switch::LineNumbers)
    } else if *a == String::from_str("-v") {
        Some(Switch::Invert)
    } else if *a == String::from_str("-r") {
        Some(Switch::Recursive)
    } else if *a == String::from_str("-f") {
        Some(Switch::Filenames)
    } else if *a == String::from_str("-c") {
        Some(Switch::Color)
    } else if *a == String::from_str("-h") || *a == String::from_str("--help") {
        Some(Switch::Help)
    } else {
        None
    }
}

impl Config {
    /// Reads the command line `args` (the program name first): option words may
    /// stand anywhere; of the other words the second is the pattern and those
    /// after it are the paths. With `-h` or `--help` no pattern or path is needed.
    pub fn new(args: &[String]) -> (r: Result<Config, &'static str>)
        ensures
            r is Err <==> invalid_args(views(args@)),
            r matches Err(e) ==> e == INVALID_ARGS_INFO,
            r matches Ok(c) ==> {
                let a = views(args@);
                &&& c.print_usage == has_switch(a, Switch::Help)
                &&& c.is_case_insensitive == has_switch(a, Switch::CaseInsensitive)
                &&& c.print_line_no == has_switch(a, Switch::LineNumbers)
                &&& c.invert_match == has_switch(a, Switch::Invert)
                &&& c.recursive_search == has_switch(a, Switch::Recursive)
                &&& c.print_filenames == has_switch(a, Switch::Filenames)
                &&& c.coloured_output == has_switch(a, Switch::Color)
                &&& c.print_usage ==> c.search_string@.len() == 0 && c.filenames@.len() == 0
                &&& !c.print_usage ==> c.search_string@ == positional(a)[1] && views(c.filenames@)
                    == positional(a).subrange(2, positional(a).len() as int)
            },
    {
        if args.len() < 2 {
            return Err(INVALID_ARGS_INFO);
        }
        let ghost a = views(args@);
        let mut queries = Vec::<String>::new();
        let mut case_insensitive = false;
        let mut print_line_no = false;
        let mut invert_match = false;
        let mut recursive_search = false;
        let mut print_filenames = false;
        let mut coloured_output = false;
        let mut print_usage = false;
        let mut i: usize = 0;
        while i < args.len()
            invariant
                a == views(args@),
                i <= args@.len(),
                views(queries@) == positional(a.subrange(0, i as int)),
                case_insensitive == has_switch(a.subrange(0, i as int), Switch::CaseInsensitive),
                print_line_no == has_switch(a.subrange(0, i as int), Switch::LineNumbers),
                invert_match == has_switch(a.subrange(0, i as int), Switch::Invert),
                recursive_search == has_switch(a.subrange(0, i as int), Switch::Recursive),
                print_filenames == has_switch(a.subrange(0, i as int), Switch::Filenames),
                coloured_output == has_switch(a.subrange(0, i as int), Switch::Color),
                print_usage == has_switch(a.subrange(0, i as int), Switch::Help),
            decreases args@.len() - i,
        {
            let ghost prev = a.subrange(0, i as int);
            let ghost next = a.subrange(0, i + 1);
            assert(next.drop_last() =~= prev);
            assert(next.last() == args@[i as int]@);
            let sw = switch_of_word(&args[i]);
            match sw {
                Some(Switch::CaseInsensitive) => case_insensitive = true,
                Some(Switch::LineNumbers) => print_line_no = true,
                Some(Switch::Invert) => invert_match = true,
                Some(Switch::Recursive) => recursive_search = true,
                Some(Switch::Filenames) => print_filenames = true,
                Some(Switch::Color) => coloured_output = true,
                Some(Switch::Help) => print_usage = true,
                None => {
                    queries.push(args[i].clone());
                    assert(views(queries@) =~= positional(prev).push(args@[i as int]@));
                },
            }
            proof {
                assert forall|s: Switch| has_switch(next, s) == (has_switch(prev, s) || sw == Some(s)) by {
                    if has_switch(next, s) && sw != Some(s) {
                        let k = choose|k: int| 0 <= k < next.len() && switch_of(next[k]) == Some(s);
                        assert(prev[k] == next[k]);
                    }
                    if has_switch(prev, s) {
                        let k = choose|k: int| 0 <= k < prev.len() && switch_of(prev[k]) == Some(s);
                        assert(prev[k] == next[k]);
                    }
                    if sw == Some(s) {
                        assert(switch_of(next[i as int]) == Some(s));
                    }
                }
            }
            i = i + 1;
        }
        assert(a.subrange(0, args@.len() as int) =~= a);
        let mut filenames = Vec::new();
        let mut search_string = String::new();
        if !print_usage && queries.len() < 3 {
            return Err(INVALID_ARGS_INFO);
        } else if !print_usage {
            let mut k: usize = 2;
            while k < queries.len()
                invariant
                    2 <= k <= queries@.len(),
                    views(filenames@) == views(queries@).subrange(2, k as int),
                decreases queries@.len() - k,
            {
                let ghost old_names = filenames@;
                filenames.push(queries[k].clone());
                assert(filenames@ == old_names.push(queries@[k as int]));
                assert(views(filenames@) =~= views(old_names).push(queries@[k as int]@));
                assert(views(filenames@) =~= views(queries@).subrange(2, k + 1));
                k = k + 1;
            }
            search_string = queries[1].clone();
        }
        Ok(
            Config {
                print_usage,
                search_string,
                filenames,
                is_case_insensitive: case_insensitive,
                print_line_no,
                invert_match,
                recursive_search,
                print_filenames,
                coloured_output,
            },
        )
    }
}

} // verus!
