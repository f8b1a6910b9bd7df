//! One control center at a time: what the named mutex said decides whether this
//! process goes on, and which window of the running one is brought forward.
use vstd::prelude::*;

verus! {

/// What creating the application's named mutex gave.
#[derive(PartialEq, Eq, Structural, Clone, Copy, Debug)]
pub enum MutexOutcome {
    /// No handle came back.
    Failed,
    /// The mutex existed already: another instance runs.
    AlreadyExists,
    /// This process holds the mutex now.
    Created,
}

/// Whether this process may go on: only when it created the mutex. When another
/// instance holds it, the caller brings that instance's window forward.
pub fn ensure_single_instance(outcome: MutexOutcome) -> (r: Result<(), String>)
    ensures
        outcome == MutexOutcome::Created <==> r is Ok,
        outcome == MutexOutcome::Failed ==> (r matches Err(m) && m@ == "创建单实例互斥体失败"@),
        outcome == MutexOutcome::AlreadyExists ==> (r matches Err(m) && m@ == "已有 DSH++ 实例正在运行"@),
{
    match outcome {
        MutexOutcome::Failed => Err(String::from_str("创建单实例互斥体失败")),
        MutexOutcome::AlreadyExists => Err(String::from_str("已有 DSH++ 实例正在运行")),
        MutexOutcome::Created => Ok(()),
    }
}

/// The title of the control center's main window.
pub fn main_window_title() -> (r: &'static str)
    ensures
        r@ == "DSH++ 控制中心"@,
{
    "DSH++ 控制中心"
}

/// The name of the mutex that marks a running control center.
pub fn single_instance_mutex_name() -> (r: &'static str)
    ensures
        r@ == "Local\\DSHPlusPlus-SingleInstance"@,
{
    "Local\\DSHPlusPlus-SingleInstance"
}

/// Position of the first 0 unit.
pub open spec fn first_zero(s: Seq<u16>) -> Option<int>
    decreases s.len(),
{
    if s.len() == 0 {
        None
    } else if s[0] == 0 {
        Some(0)
    } else {
        match first_zero(s.drop_first()) {
            Some(i) => Some(i + 1),
            None => None,
        }
    }
}

/// A window whose title is `title` (its text, without terminator) is the one
/// named by the NUL-terminated `target`: the title is not empty and equals the
/// units of `target` before its first NUL.
pub open spec fn title_matches(title: Seq<u16>, target: Seq<u16>) -> bool {
    &&& title.len() > 0
    &&& first_zero(target) matches Some(k)
    &&& title == target.take(k)
}

/// Whether a window with title `title` is the one named by `target`.
pub fn window_title_matches(title: &[u16], target: &[u16]) -> (r: bool)
    ensures
        r == title_matches(title@, target@),
{
    if title.len() == 0 {
        return false;
    }
    let ghost t = target@;
    let mut i: usize = 0;
    assert(t.skip(0) =~= t);
    while i < target.len()
        invariant
            i <= t.len(),
            t == target@,
            title@.len() > 0,
            i <= title@.len(),
            title@.take(i as int) == t.take(i as int),
            forall|j: int| 0 <= j < i ==> t[j] != 0,
            first_zero(t) == (match first_zero(t.skip(i as int)) {
                Some(j) => Some(j + i),
                None => None,
            }),
        decreases target.len() - i,
    {
        assert(t.skip(i as int)[0] == t[i as int]);
        if target[i] == 0 {
            assert(first_zero(t.skip(i as int)) == Some(0int));
            assert(t.take(i as int).len() == i);
            if i == title.len() {
                assert(title@.take(i as int) =~= title@);
            }
            return i == title.len();
        }
        assert(t.skip(i as int).drop_first() =~= t.skip(i + 1));
        if i >= title.len() || title[i] != target[i] {
            proof {
                match first_zero(t) {
                    Some(k) => {
                        if title@ == t.take(k) {
                            lemma_first_zero(t);
                            assert(k > i);
                            assert(title@.len() == k);
                            assert(title@[i as int] == t.take(k)[i as int]);
                        }
                    },
                    None => {},
                }
            }
            return false;
        }
        assert(title@.take(i + 1) =~= title@.take(i as int).push(title@[i as int]));
        assert(t.take(i + 1) =~= t.take(i as int).push(t[i as int]));
        i = i + 1;
    }
    assert(t.skip(i as int).len() == 0);
    false
}

/// The first 0 lies inside the sequence, is 0, and none comes before it.
pub proof fn lemma_first_zero(s: Seq<u16>)
    ensures
        first_zero(s) matches Some(k) ==> 0 <= k < s.len() && s[k] == 0 && forall|j: int|
            0 <= j < k ==> s[j] != 0,
    decreases s.len(),
{
    if s.len() > 0 && s[0] != 0 {
        lemma_first_zero(s.drop_first());
        if let Some(k) = first_zero(s) {
            assert forall|j: int| 0 <= j < k implies s[j] != 0 by {
                if j > 0 {
                    assert(s[j] == s.drop_first()[j - 1]);
                }
            }
        }
    }
}

} // verus!
