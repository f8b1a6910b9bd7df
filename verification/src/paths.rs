//! Where the application keeps its files, and which of several candidate
//! locations it settles on. The file system is looked at by the caller, which
//! hands in what it saw; the choices are made here.
use vstd::prelude::*;
use vstd::utf8::{decode_utf8, valid_utf8};
use crate::cli::{distinct_positions, first_occurrences, first_true, first_true_index};
use crate::text::{decimal, views};

verus! {

broadcast use vstd::string::group_string_axioms;

/// The text that `String::from_utf8_lossy` makes of `bytes`: their UTF-8 reading,
/// with U+FFFD in place of each invalid sequence.
pub uninterp spec fn utf8_lossy(bytes: Seq<u8>) -> Seq<char>;

/// `String::from_utf8_lossy`. Claimed: the result is the lossy reading of the
/// bytes, and on valid UTF-8 it is exactly the text the bytes encode.
#[verifier::external_body]
fn lossy_utf8(bytes: &[u8]) -> (r: String)
    ensures
        r@ == utf8_lossy(bytes@),
        valid_utf8(bytes@) ==> r@ == decode_utf8(bytes@),
{
    String::from_utf8_lossy(bytes).into_owned()
}

/// A path as text, from the bytes of its platform string; bytes that are not
/// UTF-8 become U+FFFD.
pub fn path_string(bytes: &[u8]) -> (r: String)
    ensures
        r@ == utf8_lossy(bytes@),
        valid_utf8(bytes@) ==> r@ == decode_utf8(bytes@),
{
    lossy_utf8(bytes)
}

/// The text that `String::from_utf16_lossy` makes of `units`: their UTF-16
/// reading, with U+FFFD in place of each unpaired surrogate.
pub uninterp spec fn utf16_lossy(units: Seq<u16>) -> Seq<char>;

/// `String::from_utf16_lossy`. Claimed: the result is the lossy reading of the
/// units, and where no unit is a surrogate each unit is the character of that
/// code point.
#[verifier::external_body]
fn lossy_utf16(units: &[u16]) -> (r: String)
    ensures
        r@ == utf16_lossy(units@),
        (forall|i: int| 0 <= i < units@.len() ==> #[trigger] units@[i] < 0xD800 || units@[i] >= 0xE000) ==> r@
            == units@.map_values(|u: u16| u as char),
{
    String::from_utf16_lossy(units)
}

/// A path as text, from the UTF-16 units of its Windows string; each unpaired
/// surrogate becomes one U+FFFD.
pub fn path_string_wide(units: &[u16]) -> (r: String)
    ensures
        r@ == utf16_lossy(units@),
        (forall|i: int| 0 <= i < units@.len() ==> #[trigger] units@[i] < 0xD800 || units@[i] >= 0xE000) ==> r@
            == units@.map_values(|u: u16| u as char),
{
    lossy_utf16(units)
}

/// `s` ends with `suffix`.
pub open spec fn ends_with(s: Seq<char>, suffix: Seq<char>) -> bool {
    suffix.len() <= s.len() && s.skip(s.len() - suffix.len()) == suffix
}

/// A single plain file or directory name: not empty, no separator or drive
/// colon, and not `.` or `..`.
pub open spec fn plain_name(name: Seq<char>) -> bool {
    &&& name.len() > 0
    &&& no_separator(name)
    &&& name != "."@
    &&& name != ".."@
}

/// No character of `s` is `/`, `\` or `:`.
pub open spec fn no_separator(s: Seq<char>) -> bool
    decreases s.len(),
{
    s.len() == 0 || (s[0] != '/' && s[0] != '\\' && s[0] != ':' && no_separator(s.drop_first()))
}

/// A relative path: not empty, not starting with a separator, and without a
/// drive colon anywhere.
pub open spec fn relative_name(name: Seq<char>) -> bool {
    &&& name.len() > 0
    &&& name[0] != '/'
    &&& name[0] != '\\'
    &&& no_colon(name)
}

/// No character of `s` is `:`.
pub open spec fn no_colon(s: Seq<char>) -> bool
    decreases s.len(),
{
    s.len() == 0 || (s[0] != ':' && no_colon(s.drop_first()))
}

/// `s` starts like a Windows verbatim path (`\\?`), whose joins are normalised.
pub open spec fn verbatim(s: Seq<char>) -> bool {
    s.len() >= 3 && s[0] == '\\' && s[1] == '\\' && s[2] == '?'
}

/// `r` is `name` appended to `base`, with a `/` or `\` between them or none
/// (none where `base` is empty, ends with a separator or is a bare drive).
pub open spec fn joins(r: Seq<char>, base: Seq<char>, name: Seq<char>) -> bool {
    r == base + name || r == base + "/"@ + name || r == base + "\\"@ + name
}

/// `Path::join` with a relative path (`PathBuf::push`), as text. Claimed: for a
/// base that is not a verbatim path, the result is the base followed by at most
/// one separator and the relative path as written; for any base, a plain name is
/// what the result ends with. Which separator, and whether one is put, depends
/// on the platform, so the claim leaves that open; onto a verbatim base a path of
/// several components is written normalised, so nothing more is claimed there.
#[verifier::external_body]
pub(crate) fn path_join(base: &str, name: &str) -> (r: String)
    requires
        relative_name(name@),
    ensures
        plain_name(name@) ==> ends_with(r@, name@),
        !verbatim(base@) ==> joins(r@, base@, name@),
{
    std::path::Path::new(base).join(name).to_string_lossy().into_owned()
}

/// The file that holds the saved settings, in the data directory.
pub fn config_path(data_root: &str) -> (r: String)
    ensures
        ends_with(r@, "dshplusplus.json"@),
        !verbatim(data_root@) ==> joins(r@, data_root@, "dshplusplus.json"@),
{
    proof {
        reveal_strlit("dshplusplus.json");
        reveal_strlit(".");
        reveal_strlit("..");
        reveal_with_fuel(no_separator, 17);
        reveal_with_fuel(no_colon, 17);
    }
    path_join(data_root, "dshplusplus.json")
}

/// A text that may be missing; empty where it is.
pub open spec fn or_empty(o: Option<String>) -> Seq<char> {
    match o {
        Some(s) => s@,
        None => Seq::empty(),
    }
}

/// The standard DSH home, `.dsh` in the user's profile directory
/// (`USERPROFILE`, else `HOME`); none when neither is set.
pub fn default_dsh_home(user_profile: Option<String>, home: Option<String>) -> (r: Option<String>)
    ensures
        r is Some <==> (user_profile is Some || home is Some),
        r matches Some(p) ==> ends_with(p@, ".dsh"@),
        r matches Some(p) ==> ({
            let base = match user_profile {
                Some(u) => u@,
                None => or_empty(home),
            };
            !verbatim(base) ==> joins(p@, base, ".dsh"@)
        }),
{
    proof {
        reveal_strlit(".dsh");
        reveal_strlit(".");
        reveal_strlit("..");
        reveal_with_fuel(no_separator, 5);
        reveal_with_fuel(no_colon, 5);
    }
    let base = match user_profile {
        Some(p) => p,
        None => match home {
            Some(h) => h,
            None => return None,
        },
    };
    Some(path_join(base.as_str(), ".dsh"))
}

/// The DSH home used for this run: the one set explicitly (also the portable
/// one), else the standard home, else `dsh-home` in the data directory.
pub fn effective_dsh_home(explicit: Option<String>, standard: Option<String>, data_root: &str) -> (r: String)
    ensures
        explicit matches Some(e) ==> r@ == e@,
        explicit is None ==> (standard matches Some(s) ==> r@ == s@),
        explicit is None && standard is None ==> ends_with(r@, "dsh-home"@),
        explicit is None && standard is None && !verbatim(data_root@) ==> joins(r@, data_root@, "dsh-home"@),
{
    proof {
        reveal_strlit("dsh-home");
        reveal_strlit(".");
        reveal_strlit("..");
        reveal_with_fuel(no_separator, 9);
        reveal_with_fuel(no_colon, 9);
    }
    match explicit {
        Some(e) => e,
        None => match standard {
            Some(s) => s,
            None => path_join(data_root, "dsh-home"),
        },
    }
}

/// The index of the first ancestor that holds both the bundled DSH package
/// and the bundle-plus package: the root of a source checkout of this project.
pub open spec fn both(a: Seq<bool>, b: Seq<bool>) -> Seq<bool> {
    Seq::new(a.len(), |i: int| a[i] && b[i])
}

/// The project root among the ancestors of a directory, nearest first:
/// `has_runtime_package[i]` and `has_bundle_package[i]` say whether the i-th
/// ancestor holds `runtime/dsh/package.json` and
/// `packages/bundle-plus/package.json`.
pub fn find_project_root(has_runtime_package: &Vec<bool>, has_bundle_package: &Vec<bool>) -> (r: Option<usize>)
    requires
        has_runtime_package@.len() == has_bundle_package@.len(),
    ensures
        (match r { Some(i) => Some(i as int), None => None }) == first_true(
            both(has_runtime_package@, has_bundle_package@),
        ),
{
    let mut marks: Vec<bool> = Vec::new();
    let mut i: usize = 0;
    while i < has_runtime_package.len()
        invariant
            i <= has_runtime_package@.len(),
            has_runtime_package@.len() == has_bundle_package@.len(),
            marks@ == both(has_runtime_package@, has_bundle_package@).take(i as int),
        decreases has_runtime_package.len() - i,
    {
        marks.push(has_runtime_package[i] && has_bundle_package[i]);
        i = i + 1;
    }
    assert(marks@ =~= both(has_runtime_package@, has_bundle_package@));
    first_true_index(&marks)
}

/// Where the browser extension may sit, relative to the browser gateway's
/// directory, in the order they are tried.
pub fn extension_candidate_dirs() -> (r: Vec<&'static str>)
    ensures
        crate::config::str_views(r@) == seq!["extension"@, "../extension"@, "../../extension"@],
{
    let r = vec!["extension", "../extension", "../../extension"];
    assert(crate::config::str_views(r@) =~= seq!["extension"@, "../extension"@, "../../extension"@]);
    r
}

/// The browser extension directory: the first candidate (in the order of
/// `extension_candidate_dirs`) that holds the extension's descriptor file.
pub fn extension_source(candidates: &Vec<String>, has_manifest: &Vec<bool>) -> (r: Option<String>)
    requires
        candidates@.len() == has_manifest@.len(),
    ensures
        (match r { Some(p) => Some(p@), None => None }) == (match first_true(has_manifest@) {
            Some(i) => Some(candidates@[i]@),
            None => None,
        }),
{
    match first_true_index(has_manifest) {
        Some(i) => {
            proof {
                crate::cli::lemma_first_true_bounds(has_manifest@);
            }
            Some(candidates[i].clone())
        },
        None => None,
    }
}

/// Where to look for a DSH CLI near a directory: the directory itself, then each
/// of the conventional checkout names inside it (`None`, then `Some(k)` for the
/// k-th name of `checkout_names`).
pub open spec fn near_steps(p: int) -> Seq<(int, Option<int>)> {
    seq![(p, None), (p, Some(0int)), (p, Some(1int)), (p, Some(2int))]
}

/// The search plan over the given directory positions, in order.
pub open spec fn near_plan(positions: Seq<int>) -> Seq<(int, Option<int>)>
    decreases positions.len(),
{
    if positions.len() == 0 {
        Seq::empty()
    } else {
        near_plan(positions.drop_last()) + near_steps(positions.last())
    }
}

pub open spec fn step_view(s: (usize, Option<usize>)) -> (int, Option<int>) {
    (s.0 as int, match s.1 { Some(k) => Some(k as int), None => None })
}

/// The order in which locations near the start directories are searched for a
/// DSH CLI: `ancestors` lists the ancestors of every start directory, start by
/// start, nearest first; each directory is searched once, at its first
/// occurrence, itself first and then each conventional checkout inside it. The
/// first step at which a CLI resolves is the one used.
pub fn find_dsh_near_paths(ancestors: &Vec<String>) -> (r: Vec<(usize, Option<usize>)>)
    ensures
        r@.map_values(|s: (usize, Option<usize>)| step_view(s)) == near_plan(first_occurrences(views(ancestors@))),
{
    let positions = distinct_positions(ancestors);
    let ghost ps = positions@.map_values(|i: usize| i as int);
    let mut r: Vec<(usize, Option<usize>)> = Vec::new();
    let mut i: usize = 0;
    assert(ps.take(0) =~= Seq::<int>::empty());
    assert(r@.map_values(|s: (usize, Option<usize>)| step_view(s)) =~= Seq::<(int, Option<int>)>::empty());
    while i < positions.len()
        invariant
            i <= positions@.len(),
            ps == positions@.map_values(|k: usize| k as int),
            r@.map_values(|s: (usize, Option<usize>)| step_view(s)) == near_plan(ps.take(i as int)),
        decreases positions.len() - i,
    {
        let p = positions[i];
        let ghost before = r@;
        r.push((p, None));
        r.push((p, Some(0)));
        r.push((p, Some(1)));
        r.push((p, Some(2)));
        assert(ps.take(i + 1).drop_last() =~= ps.take(i as int));
        assert(ps.take(i + 1).last() == p as int);
        assert(r@.map_values(|s: (usize, Option<usize>)| step_view(s)) =~= before.map_values(
            |s: (usize, Option<usize>)| step_view(s),
        ) + near_steps(p as int));
        i = i + 1;
    }
    assert(ps.take(i as int) =~= ps);
    r
}

/// The step of the search near the start directories at which a DSH CLI is
/// found: `resolves[j]` says whether a CLI resolves at the location of step `j`
/// of `find_dsh_near_paths(ancestors)`. The first such step is the one used;
/// none when no step resolves (in particular when there are no ancestors).
pub fn dsh_near_hit(ancestors: &Vec<String>, resolves: &Vec<bool>) -> (r: Option<usize>)
    requires
        resolves@.len() == near_plan(first_occurrences(views(ancestors@))).len(),
    ensures
        (match r { Some(j) => Some(j as int), None => None }) == first_true(resolves@),
        r matches Some(j) ==> j < near_plan(first_occurrences(views(ancestors@))).len(),
{
    proof {
        lemma_first_true_bound(resolves@);
    }
    first_true_index(resolves)
}

proof fn lemma_first_true_bound(v: Seq<bool>)
    ensures
        first_true(v) matches Some(j) ==> 0 <= j < v.len() && v[j],
    decreases v.len(),
{
    if v.len() > 0 && !v[0] {
        lemma_first_true_bound(v.drop_first());
    }
}

#[verifier::external_type_specification]
#[verifier::external_body]
pub struct ExSystemTime(std::time::SystemTime);

#[verifier::external_type_specification]
#[verifier::external_body]
pub struct ExSystemTimeError(std::time::SystemTimeError);

/// `SystemTime::now`. Nothing is claimed of the time it reads.
#[verifier::external_body]
fn clock_now() -> std::time::SystemTime {
    std::time::SystemTime::now()
}

/// `SystemTime::duration_since(UNIX_EPOCH)`: how long after the Unix epoch `t`
/// is, or an error when it is before it. Nothing is claimed of the value.
#[verifier::external_body]
fn since_unix_epoch(t: &std::time::SystemTime) -> std::result::Result<core::time::Duration, std::time::SystemTimeError> {
    t.duration_since(std::time::UNIX_EPOCH)
}

/// `Duration::as_nanos`. Nothing is claimed beyond its type.
#[verifier::external_body]
fn duration_nanos(d: &core::time::Duration) -> u128 {
    d.as_nanos()
}

/// Nanoseconds since the Unix epoch by the clock, 0 when the clock is before it.
fn unix_nanos() -> u128 {
    match since_unix_epoch(&clock_now()) {
        Ok(d) => duration_nanos(&d),
        Err(_) => 0,
    }
}

/// Appends the decimal notation of a 128-bit `n`.
fn push_decimal_wide(s: &mut String, n: u128)
    ensures
        final(s)@ == old(s)@ + decimal(n as nat),
    decreases n,
{
    if n >= 10 {
        push_decimal_wide(s, n / 10);
    }
    let d = (n % 10) as u64;
    let mut t = String::new();
    crate::text::push_decimal(&mut t, d);
    s.append(t.as_str());
}

/// A suffix that differs between runs: the clock's nanoseconds since the Unix
/// epoch, in decimal.
pub fn random_suffix() -> (r: String)
    ensures
        exists|n: nat| r@ == decimal(n),
{
    let n = unix_nanos();
    let mut s = String::new();
    push_decimal_wide(&mut s, n);
    assert(s@ == decimal(n as nat));
    s
}

} // verus!
