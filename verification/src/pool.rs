use vstd::prelude::*;

use crate::datetime::DateTime;
use crate::records::{MediaRecord, MediaRecordView};

verus! {

/// The monotonic ticket dispenser behind progress display: each task
/// draws one ticket. Tickets reflect claim order, never completion
/// order, and decide nothing but display.
pub struct ProgressCounter {
    pub count: usize,
}

impl ProgressCounter {
    /// A dispenser that has issued no ticket.
    pub fn new() -> (r: ProgressCounter)
        ensures
            r.count == 0,
    {
        ProgressCounter { count: 0 }
    }

    /// Draw the next ticket: the number of tickets drawn before this one.
    pub fn take_ticket(&mut self) -> (t: usize)
        requires
            old(self).count < usize::MAX,
        ensures
            t == old(self).count,
            final(self).count == old(self).count + 1,
    {
        let t = self.count;
        self.count = self.count + 1;
        t
    }
}

/// One unit of work of the extraction phase: a candidate path and the
/// position it was dispatched at.
pub struct ExtractionTask {
    pub index: usize,
    pub path: String,
}

/// The mathematical value of an [`ExtractionTask`].
pub struct ExtractionTaskView {
    pub index: usize,
    pub path: Seq<char>,
}

impl View for ExtractionTask {
    type V = ExtractionTaskView;

    open spec fn view(&self) -> ExtractionTaskView {
        ExtractionTaskView { index: self.index, path: self.path@ }
    }
}

impl DeepView for ExtractionTask {
    type V = ExtractionTaskView;

    open spec fn deep_view(&self) -> ExtractionTaskView {
        self@
    }
}

/// Dispatch one extraction task per candidate path: no path is dropped
/// and no task invented, each task carries its path unchanged and its
/// dispatch position.
pub fn make_extraction_tasks(paths: &Vec<String>) -> (r: Vec<ExtractionTask>)
    ensures
        r.deep_view().len() == paths.deep_view().len(),
        forall|i: int|
            0 <= i < r.deep_view().len() ==> (#[trigger] r.deep_view()[i]).path
                == paths.deep_view()[i] && r.deep_view()[i].index == i,
{
    let n = paths.len();
    let mut r: Vec<ExtractionTask> = Vec::new();
    let mut i: usize = 0;
    proof {
        assert(paths.deep_view().len() == paths@.len());
    }
    while i < n
        invariant
            i <= n,
            n == paths@.len(),
            r@.len() == i,
            forall|t: int|
                0 <= t < i ==> (#[trigger] r.deep_view()[t]).path == paths.deep_view()[t]
                    && r.deep_view()[t].index == t,
        decreases n - i,
    {
        let ghost pdv = r.deep_view();
        let task = ExtractionTask { index: i, path: paths[i].clone() };
        let ghost tv = task@;
        proof {
            assert(tv.path == paths.deep_view()[i as int]);
        }
        r.push(task);
        proof {
            assert(r.deep_view() =~= pdv.push(tv));
        }
        i = i + 1;
    }
    r
}

/// What one extraction task reported: its path, and the capture
/// timestamp when one was resolved.
pub struct ExtractionOutcome {
    pub path: String,
    pub captured_at: Option<DateTime>,
}

/// The mathematical value of an [`ExtractionOutcome`].
pub struct ExtractionOutcomeView {
    pub path: Seq<char>,
    pub captured_at: Option<DateTime>,
}

impl View for ExtractionOutcome {
    type V = ExtractionOutcomeView;

    open spec fn view(&self) -> ExtractionOutcomeView {
        ExtractionOutcomeView { path: self.path@, captured_at: self.captured_at }
    }
}

impl DeepView for ExtractionOutcome {
    type V = ExtractionOutcomeView;

    open spec fn deep_view(&self) -> ExtractionOutcomeView {
        self@
    }
}

/// The records aggregated from task outcomes, in the order the outcomes
/// arrived: one record per resolved timestamp, failures dropped.
pub open spec fn spec_collected(outs: Seq<ExtractionOutcomeView>) -> Seq<MediaRecordView>
    decreases outs.len(),
{
    if outs.len() == 0 {
        Seq::empty()
    } else {
        let rest = spec_collected(outs.drop_last());
        match outs.last().captured_at {
            Some(dt) => rest.push(MediaRecordView { path: outs.last().path, captured_at: dt }),
            None => rest,
        }
    }
}

/// Aggregate the outcomes the extraction tasks reported: each resolved
/// timestamp yields one record, in arrival order; failed tasks yield
/// nothing.
pub fn collect_records(outcomes: &Vec<ExtractionOutcome>) -> (r: Vec<MediaRecord>)
    ensures
        r.deep_view() == spec_collected(outcomes.deep_view()),
{
    let ghost odv = outcomes.deep_view();
    let n = outcomes.len();
    let mut r: Vec<MediaRecord> = Vec::new();
    let mut i: usize = 0;
    proof {
        assert(odv.len() == outcomes@.len());
        assert(odv.take(0) =~= Seq::<ExtractionOutcomeView>::empty());
    }
    while i < n
        invariant
            i <= n,
            n == outcomes@.len(),
            odv == outcomes.deep_view(),
            odv.len() == n,
            r.deep_view() == spec_collected(odv.take(i as int)),
        decreases n - i,
    {
        let ghost prev = r.deep_view();
        let o = &outcomes[i];
        proof {
            assert(o@ == odv[i as int]);
            assert(odv.take(i + 1).drop_last() =~= odv.take(i as int));
            assert(odv.take(i + 1).last() == odv[i as int]);
        }
        match &o.captured_at {
            Some(dt) => {
                let rec = MediaRecord { path: o.path.clone(), captured_at: *dt };
                r.push(rec);
                assert(r.deep_view() =~= prev.push(
                    MediaRecordView { path: odv[i as int].path, captured_at: *dt },
                ));
            },
            None => {},
        }
        i = i + 1;
    }
    proof {
        assert(odv.take(n as int) =~= odv);
    }
    r
}

} // verus!
