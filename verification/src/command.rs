//! The arguments of the tmux commands.

use vstd::prelude::*;
use vstd::string::StringExecFns;

verus! {

/// The texts that a list of strings holds.
pub open spec fn strings_view(args: Seq<String>) -> Seq<Seq<char>> {
    args.map_values(|s: String| s@)
}

/// The target that names exactly the session `name`: tmux takes a name after
/// `=` as it stands, and matches a name without it as a prefix or a pattern.
pub open spec fn exact_target_spec(name: Seq<char>) -> Seq<char> {
    seq!['='] + name
}

/// The target that names exactly the session `name`.
pub fn exact_target(name: &str) -> (target: String)
    ensures
        target@ == exact_target_spec(name@),
{
    proof {
        reveal_strlit("=");
        assert("="@ =~= seq!['=']);
    }
    let target: String = "=".to_owned();
    target.concat(name)
}

/// A list of one argument.
pub fn args1(a: &str) -> (args: Vec<String>)
    ensures
        strings_view(args@) == seq![a@],
{
    let mut args: Vec<String> = Vec::new();
    args.push(a.to_owned());
    assert(strings_view(args@) =~= seq![a@]);
    args
}

/// The list `args` with the argument `a` after it.
pub fn with_arg(args: Vec<String>, a: &str) -> (longer: Vec<String>)
    ensures
        strings_view(longer@) == strings_view(args@).push(a@),
{
    let mut longer: Vec<String> = args;
    longer.push(a.to_owned());
    assert(strings_view(longer@) =~= strings_view(args@).push(a@));
    longer
}

} // verus!
