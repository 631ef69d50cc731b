//! The one trusted boundary: handing an argument list to the option-grammar
//! parser of the `getopts` crate and reading the outcome back as plain
//! values.

use crate::options::MatchView;
use crate::options::RawMatches;
use vstd::prelude::*;

verus! {

/// Outcome of parsing an argument list against the tool's fixed option
/// grammar (`-i/--input MODE`, `-o/--output MODE`, `-e/--error MODE`,
/// `--help`, `--version`): `None` when the list does not parse as an option
/// list, otherwise the two flags, the raw value of each stream option, and
/// the count of left-over positional arguments.  With the grammar fixed,
/// the outcome is a function of the argument strings alone.
pub uninterp spec fn stdbuf_getopt(args: Seq<Seq<char>>) -> Option<MatchView>;

#[verifier::external_type_specification]
#[verifier::external_body]
pub struct ExFail(getopts::Fail);

/// Relies on getopts: `Options::parse` over the grammar that
/// `stdbuf_getopt` describes, read back through `Matches::opt_present`,
/// `Matches::opt_str` and the `Matches::free` field.  For a fixed grammar
/// the parse is deterministic in the argument strings, so its outcome is
/// named by `stdbuf_getopt`; an empty argument list parses to empty
/// matches.
#[verifier::external_body]
pub(crate) fn getopt_parse(args: &Vec<String>) -> (r: Result<RawMatches, getopts::Fail>)
    ensures
        match r {
            Ok(m) => stdbuf_getopt(args.deep_view()) == Some(m@) && (args@.len() == 0 ==> m@
                == (MatchView {
                help: false,
                version: false,
                input: None,
                output: None,
                error: None,
                free_count: 0,
            })),
            Err(_) => stdbuf_getopt(args.deep_view()) == None::<MatchView> && args@.len() != 0,
        },
{
    let mut opts = getopts::Options::new();
    opts.optopt("i", "input", "", "MODE");
    opts.optopt("o", "output", "", "MODE");
    opts.optopt("e", "error", "", "MODE");
    opts.optflag("", "help", "");
    opts.optflag("", "version", "");
    match opts.parse(args) {
        Ok(m) => Ok(RawMatches {
            help: m.opt_present("help"), version: m.opt_present("version"),
            input: m.opt_str("input"), output: m.opt_str("output"),
            error: m.opt_str("error"), free_count: m.free.len(),
        }),
        Err(e) => Err(e),
    }
}

} // verus!
