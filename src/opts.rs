use vstd::prelude::*;

pub use crate::util::Opts;
use crate::util::{cli_paths_of, get_opts, plain_command_line};

verus! {

/// The options given on the command line `args` (program name first); the
/// same reading as [`get_opts`].
pub fn get(args: &Vec<String>) -> (r: Option<Opts>)
    ensures
        plain_command_line(args.deep_view()) ==> r is Some && r->Some_0.plan@ == args@[1]@
            && r->Some_0.log@ == args@[2]@,
        r is Some <==> cli_paths_of(args.deep_view()) is Some,
        r is Some ==> cli_paths_of(args.deep_view()) == Some((r->Some_0.plan@, r->Some_0.log@)),
{
    get_opts(args)
}

} // verus!
