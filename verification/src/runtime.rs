//! How the locations of the bundled runtime are settled at start-up: from what
//! the environment names and what exists next to the program, in a fixed order
//! of preference.
use vstd::prelude::*;
use crate::paths::{ends_with, joins, no_colon, no_separator, path_join, verbatim};

verus! {

broadcast use vstd::string::group_string_axioms;

/// The program runs from a portable package: Node sits next to it, with the
/// bundled DSH or the bundled plugins.
pub fn is_portable(sibling_node: bool, sibling_dsh: bool, bundled_plugins: bool) -> (r: bool)
    ensures
        r == (sibling_node && (sibling_dsh || bundled_plugins)),
{
    sibling_node && (sibling_dsh || bundled_plugins)
}

/// The first candidate present, in order of preference.
pub open spec fn first_present(candidates: Seq<Option<String>>) -> Option<String>
    decreases candidates.len(),
{
    if candidates.len() == 0 {
        None
    } else if candidates[0] is Some {
        candidates[0]
    } else {
        first_present(candidates.drop_first())
    }
}

/// Picks the first candidate present; the caller keeps only candidates that
/// exist (a file set by the environment, the copy next to the program, the one
/// in a source checkout, in that order).
pub fn first_available(candidates: Vec<Option<String>>) -> (r: Option<String>)
    ensures
        r == first_present(candidates@),
{
    let ghost c = candidates@;
    let mut i: usize = 0;
    assert(c.skip(0) =~= c);
    while i < candidates.len()
        invariant
            i <= c.len(),
            c == candidates@,
            first_present(c) == first_present(c.skip(i as int)),
        decreases candidates.len() - i,
    {
        assert(c.skip(i as int)[0] == c[i as int]);
        if candidates[i].is_some() {
            return candidates[i].clone();
        }
        assert(c.skip(i as int).drop_first() =~= c.skip(i + 1));
        i = i + 1;
    }
    assert(c.skip(i as int).len() == 0);
    None
}

/// The data directory: the one set by the environment; else `.portable` next to
/// the program in a portable package; else `.tmp/desktop-data` in the project
/// root (or next to the program when there is none).
pub fn data_root_choice(
    from_env: Option<String>,
    portable: bool,
    exe_dir: &str,
    project_root: Option<String>,
) -> (r: String)
    ensures
        from_env matches Some(e) ==> r@ == e@,
        from_env is None && portable ==> ends_with(r@, ".portable"@),
        from_env is None && portable && !verbatim(exe_dir@) ==> joins(r@, exe_dir@, ".portable"@),
        from_env is None && !portable ==> ({
            let base = match project_root {
                Some(p) => p@,
                None => exe_dir@,
            };
            !verbatim(base) ==> joins(r@, base, ".tmp/desktop-data"@)
        }),
{
    proof {
        reveal_strlit(".portable");
        reveal_strlit(".tmp/desktop-data");
        reveal_strlit(".");
        reveal_strlit("..");
        reveal_with_fuel(no_separator, 13);
        reveal_with_fuel(no_colon, 18);
    }
    match from_env {
        Some(e) => e,
        None => if portable {
            path_join(exe_dir, ".portable")
        } else {
            let base = match project_root {
                Some(p) => p,
                None => String::from_str(exe_dir),
            };
            path_join(base.as_str(), ".tmp/desktop-data")
        },
    }
}

/// The variable is set and not empty.
pub open spec fn set_and_nonempty(v: Option<String>) -> bool {
    v matches Some(e) && e@.len() > 0
}

pub open spec fn opt_view(v: Option<String>) -> Option<Seq<char>> {
    match v {
        Some(e) => Some(e@),
        None => None,
    }
}

/// The DSH home set for this run: the one the environment names when it is not
/// empty; else, when the portable mode is asked for, `dsh-home` in the data
/// directory; else none, and DSH's standard home is used.
pub fn explicit_dsh_home(from_env: Option<String>, portable_requested: bool, data_root: &str) -> (r: Option<String>)
    ensures
        set_and_nonempty(from_env) ==> (r matches Some(h) && Some(h@) == opt_view(from_env)),
        !set_and_nonempty(from_env) ==> (r is Some <==> portable_requested),
        !set_and_nonempty(from_env) && portable_requested ==> (r matches Some(h) && ends_with(h@, "dsh-home"@)),
        !set_and_nonempty(from_env) && portable_requested && !verbatim(data_root@) ==> (r matches Some(h)
            && joins(h@, data_root@, "dsh-home"@)),
{
    proof {
        reveal_strlit("dsh-home");
        reveal_strlit(".");
        reveal_strlit("..");
        reveal_with_fuel(no_separator, 9);
        reveal_with_fuel(no_colon, 9);
    }
    match from_env {
        Some(e) => if !e.as_str().is_empty() {
            return Some(e);
        },
        None => {},
    }
    if portable_requested {
        Some(path_join(data_root, "dsh-home"))
    } else {
        None
    }
}

/// Which copy of a component is used: the updated copy in the data directory
/// when it exists, else the bundled one.
pub fn updated_or_bundled(updated: String, updated_exists: bool, bundled: String) -> (r: String)
    ensures
        r == (if updated_exists { updated } else { bundled }),
{
    if updated_exists { updated } else { bundled }
}

} // verus!
