use vstd::prelude::*;

verus! {

/// Where the plan is read from and written back to, and where the log goes.
#[derive(Clone, Debug)]
pub struct Opts {
    pub plan: String,
    pub log: String,
}

/// A name for the (plan, log) arguments that clap matches in `args`, or
/// `None` where it rejects them (or was asked for help or the version).
pub uninterp spec fn cli_paths_of(args: Seq<Seq<char>>) -> Option<(Seq<char>, Seq<char>)>;

/// An argument that clap takes as a positional value: not empty, and not
/// starting with `-`.
pub open spec fn plain_arg(a: Seq<char>) -> bool {
    a.len() > 0 && a[0] != '-'
}

/// The program name and two plain arguments: the plan, then the log.
pub open spec fn plain_command_line(args: Seq<Seq<char>>) -> bool {
    args.len() == 3 && plain_arg(args[1]) && plain_arg(args[2])
}

/// Relies on clap's `Command::try_get_matches_from`: a command line with the
/// two required positional arguments `plan` and `log`, program name first;
/// two plain values fill them in order.
#[verifier::external_body]
fn match_command_line(args: &Vec<String>) -> (r: Option<(String, String)>)
    ensures
        plain_command_line(args.deep_view()) ==> r is Some && r->Some_0.0@ == args@[1]@
            && r->Some_0.1@ == args@[2]@,
        r is None ==> cli_paths_of(args.deep_view()) is None,
        r is Some ==> cli_paths_of(args.deep_view()) == Some((r->Some_0.0@, r->Some_0.1@)),
{
    let m = clap::Command::new("status_change_monitor").version("1.0")
        .arg(clap::Arg::new("plan").required(true))
        .arg(clap::Arg::new("log").required(true))
        .try_get_matches_from(args).ok()?;
    Some((m.get_one::<String>("plan")?.clone(), m.get_one::<String>("log")?.clone()))
}

/// The options given on the command line `args` (program name first).
pub fn get_opts(args: &Vec<String>) -> (r: Option<Opts>)
    ensures
        plain_command_line(args.deep_view()) ==> r is Some && r->Some_0.plan@ == args@[1]@
            && r->Some_0.log@ == args@[2]@,
        r is Some <==> cli_paths_of(args.deep_view()) is Some,
        r is Some ==> cli_paths_of(args.deep_view()) == Some((r->Some_0.plan@, r->Some_0.log@)),
{
    match match_command_line(args) {
        Some((plan, log)) => Some(Opts { plan, log }),
        None => None,
    }
}

} // verus!
