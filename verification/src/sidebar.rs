//! The sidebar: its download counters and its avatar.
use vstd::prelude::*;

use crate::text::{decimal_digits, str_eq, u64_to_string};

verus! {

/// Where a download task stands, as far as the sidebar counts it.
#[derive(Clone, Copy, PartialEq, Eq, Structural, Debug)]
pub enum TaskPhase {
    Downloading,
    Queued,
    Other,
}

/// How many tasks of `s` are in `phase`.
pub open spec fn count_phase(s: Seq<TaskPhase>, phase: TaskPhase) -> nat
    decreases s.len(),
{
    if s.len() == 0 {
        0
    } else {
        count_phase(s.drop_last(), phase) + if s.last() == phase {
            1nat
        } else {
            0nat
        }
    }
}

proof fn lemma_count_phase_le(s: Seq<TaskPhase>, phase: TaskPhase)
    ensures
        count_phase(s, phase) <= s.len(),
    decreases s.len(),
{
    if s.len() > 0 {
        lemma_count_phase_le(s.drop_last(), phase);
    }
}

/// The numbers on the "downloading" and "queued" badges.
pub fn download_counts(tasks: &Vec<TaskPhase>) -> (r: (usize, usize))
    ensures
        r.0 as int == count_phase(tasks@, TaskPhase::Downloading),
        r.1 as int == count_phase(tasks@, TaskPhase::Queued),
{
    let mut d: usize = 0;
    let mut q: usize = 0;
    let mut i: usize = 0;
    while i < tasks.len()
        invariant
            i <= tasks@.len(),
            d as int == count_phase(tasks@.take(i as int), TaskPhase::Downloading),
            q as int == count_phase(tasks@.take(i as int), TaskPhase::Queued),
        decreases tasks.len() - i,
    {
        proof {
            assert(tasks@.take(i + 1).drop_last() =~= tasks@.take(i as int));
            lemma_count_phase_le(tasks@.take(i as int), TaskPhase::Downloading);
            lemma_count_phase_le(tasks@.take(i as int), TaskPhase::Queued);
        }
        match tasks[i] {
            TaskPhase::Downloading => d = d + 1,
            TaskPhase::Queued => q = q + 1,
            TaskPhase::Other => {},
        }
        i = i + 1;
    }
    proof {
        assert(tasks@.take(tasks@.len() as int) =~= tasks@);
    }
    (d, q)
}

/// A count badge: hidden at zero, the number otherwise.
pub fn count_badge(n: usize) -> (r: Option<String>)
    ensures
        n == 0 ==> r is None,
        n > 0 ==> (r matches Some(s) && s@ == decimal_digits(n as nat)),
{
    if n == 0 {
        None
    } else {
        Some(u64_to_string(n as u64))
    }
}

/// Whether a newly known avatar address has to be loaded: it is set and
/// differs from the one shown.
pub fn avatar_needs_load(shown: &str, new_url: &str) -> (r: bool)
    ensures
        r == (new_url@.len() > 0 && shown@ != new_url@),
{
    new_url.unicode_len() > 0 && !str_eq(shown, new_url)
}

/// Whether the profile and the categories are preloaded on this frame: only
/// on the first frame of the main layout. Gives whether they were preloaded
/// by now.
pub fn preload_once(done: bool) -> (r: (bool, bool))
    ensures
        r == (!done, true),
{
    (!done, true)
}

} // verus!
