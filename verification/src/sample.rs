//! Samples of desktop visibility, one per monitor, and the allow-list that
//! selects the monitors to watch.

use crate::percent::{percent_of, percent_of_totals};
use vstd::prelude::*;

verus! {

/// What the visibility source reports of one monitor at one moment.
#[derive(Clone, Copy, Debug, PartialEq, Eq, Structural)]
pub struct VisibilitySample {
    /// Identifier of the display, for showing to the user.
    pub monitor_id: i64,
    /// The number by which the monitor is selected and addressed in commands.
    pub monitor_index: i64,
    /// Pixels of the desktop that no window covers right now.
    pub current_visible: i64,
    /// Pixels of the desktop that could be visible at most.
    pub max_visible: i64,
    /// Pixels of the monitor as a whole.
    pub total_area: i64,
}

/// What travels from the visibility callback to the decision loop.
#[derive(Clone, Debug)]
pub enum MonitorMessage {
    /// A set of samples that passed the allow-list and is not empty.
    VisibilityUpdate(Vec<VisibilitySample>),
    /// The request to end the decision loop.
    Shutdown,
}

/// The allow-list as a mathematical value: `None` admits every monitor.
pub open spec fn allow_list(monitor_indices: Option<Vec<i64>>) -> Option<Seq<i64>> {
    match monitor_indices {
        None => None,
        Some(v) => Some(v@),
    }
}

/// Whether the allow-list admits the monitor with this index.
pub open spec fn admits(allow: Option<Seq<i64>>, monitor_index: i64) -> bool {
    match allow {
        None => true,
        Some(indices) => indices.contains(monitor_index),
    }
}

/// The samples that the allow-list admits, in the order in which they came.
pub open spec fn filtered(samples: Seq<VisibilitySample>, allow: Option<Seq<i64>>) -> Seq<
    VisibilitySample,
> {
    match allow {
        None => samples,
        Some(_) => samples.filter(|m: VisibilitySample| admits(allow, m.monitor_index)),
    }
}

/// Sum of the currently visible pixels over all samples.
pub open spec fn total_current(samples: Seq<VisibilitySample>) -> int
    decreases samples.len(),
{
    if samples.len() == 0 {
        0
    } else {
        total_current(samples.drop_last()) + samples.last().current_visible
    }
}

/// Sum of the pixels that could be visible over all samples.
pub open spec fn total_max(samples: Seq<VisibilitySample>) -> int
    decreases samples.len(),
{
    if samples.len() == 0 {
        0
    } else {
        total_max(samples.drop_last()) + samples.last().max_visible
    }
}

/// The percentage of all samples taken together.
pub open spec fn aggregate_percent_of(samples: Seq<VisibilitySample>) -> int {
    percent_of(total_current(samples), total_max(samples))
}

/// Whether `monitor_index` occurs in `indices`.
pub fn index_listed(indices: &Vec<i64>, monitor_index: i64) -> (found: bool)
    ensures
        found == indices@.contains(monitor_index),
{
    let mut i: usize = 0;
    while i < indices.len()
        invariant
            i <= indices.len(),
            forall|j: int| 0 <= j < i ==> indices@[j] != monitor_index,
        decreases indices.len() - i,
    {
        if indices[i] == monitor_index {
            return true;
        }
        i += 1;
    }
    false
}

/// Keeps the samples whose monitor the allow-list admits; without an
/// allow-list every sample is kept. The order of the samples is preserved.
///
/// An empty result means that the update concerns no watched monitor and is
/// to be dropped as a whole.
pub fn filter_samples(samples: &Vec<VisibilitySample>, monitor_indices: &Option<Vec<i64>>) -> (out:
    Vec<VisibilitySample>)
    ensures
        out@ == filtered(samples@, allow_list(*monitor_indices)),
{
    let ghost allow = allow_list(*monitor_indices);
    let ghost keep = |m: VisibilitySample| admits(allow, m.monitor_index);
    let mut out: Vec<VisibilitySample> = Vec::new();
    let mut i: usize = 0;
    proof {
        reveal(Seq::filter);
        assert(samples@.take(0) =~= Seq::empty());
    }
    while i < samples.len()
        invariant
            i <= samples.len(),
            allow == allow_list(*monitor_indices),
            keep == (|m: VisibilitySample| admits(allow, m.monitor_index)),
            out@ == filtered(samples@.take(i as int), allow),
        decreases samples.len() - i,
    {
        let sample = samples[i];
        let kept = match monitor_indices {
            None => true,
            Some(indices) => index_listed(indices, sample.monitor_index),
        };
        proof {
            reveal(Seq::filter);
            let next = samples@.take(i + 1);
            assert(next.drop_last() =~= samples@.take(i as int));
            assert(next.last() == sample);
            assert(kept == keep(sample));
            if allow is None {
                assert(next =~= samples@.take(i as int).push(sample));
            }
        }
        if kept {
            out.push(sample);
        }
        i += 1;
    }
    proof {
        assert(samples@.take(samples.len() as int) =~= samples@);
    }
    out
}

/// The percentage of all samples taken together: the visible pixels of all
/// of them against the pixels that could be visible on all of them.
pub fn aggregate_percent(samples: &Vec<VisibilitySample>) -> (p: u8)
    ensures
        p == aggregate_percent_of(samples@),
{
    let mut visible: i128 = 0;
    let mut possible: i128 = 0;
    let mut i: usize = 0;
    proof {
        assert(samples@.take(0) =~= Seq::empty());
    }
    while i < samples.len()
        invariant
            i <= samples.len(),
            visible == total_current(samples@.take(i as int)),
            possible == total_max(samples@.take(i as int)),
            -(i * 0x8000_0000_0000_0000) <= visible <= i * 0x8000_0000_0000_0000,
            -(i * 0x8000_0000_0000_0000) <= possible <= i * 0x8000_0000_0000_0000,
        decreases samples.len() - i,
    {
        proof {
            let next = samples@.take(i + 1);
            assert(next.drop_last() =~= samples@.take(i as int));
            assert(next.last() == samples@[i as int]);
        }
        visible = visible + samples[i].current_visible as i128;
        possible = possible + samples[i].max_visible as i128;
        i += 1;
    }
    proof {
        assert(samples@.take(samples.len() as int) =~= samples@);
    }
    percent_of_totals(visible, possible)
}

} // verus!
