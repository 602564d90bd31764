use vstd::prelude::*;

use crate::dependency::{Crate, DependencyView};

verus! {

/// The arguments of the package manager call that sets dependency `c` to its
/// version: `add name@version`, then `--features list` where it has features.
pub open spec fn update_command(c: DependencyView) -> Seq<Seq<char>> {
    let base = seq!["add"@, c.name + seq!['@'] + c.version];
    if c.features.len() == 0 {
        base
    } else {
        base + seq!["--features"@, c.features]
    }
}

/// The arguments to hand the package manager to update `c`.
pub fn update_args(c: &Crate) -> (r: Vec<String>)
    ensures
        r@.map_values(|a: String| a@) == update_command(c@),
{
    let mut target = c.name.clone();
    target.append("@");
    target.append(c.version.as_str());
    let mut r: Vec<String> = Vec::new();
    r.push(String::from_str("add"));
    r.push(target);
    if !c.features.as_str().is_empty() {
        r.push(String::from_str("--features"));
        r.push(c.features.clone());
    }
    proof {
        reveal_strlit("@");
        assert("@"@ =~= seq!['@']);
    }
    assert(r@[1]@ == c@.name + seq!['@'] + c@.version);
    assert(r@.map_values(|a: String| a@) =~= update_command(c@));
    r
}

/// The line that reports the outcome of one update.
pub open spec fn update_report(c: DependencyView, success: bool) -> Seq<char> {
    c.name + " update to "@ + c.version + if success {
        " success"@
    } else {
        " failed"@
    }
}

/// The line that reports whether the update of `c` succeeded.
pub fn update_message(c: &Crate, success: bool) -> (r: String)
    ensures
        r@ == update_report(c@, success),
{
    let mut r = c.name.clone();
    r.append(" update to ");
    r.append(c.version.as_str());
    if success {
        r.append(" success");
    } else {
        r.append(" failed");
    }
    r
}

} // verus!
