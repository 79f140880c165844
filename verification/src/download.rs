//! Planning the segmented download, and accounting for its progress with an
//! exact byte-count integrity check.
//!
//! A plan resolves every segment path against the variant's base URL up
//! front and carries the precomputed total of the declared segment sizes
//! (the initialization block does not count toward it). The caller performs
//! the transfers in order; after each one, [`Progress::on_segment`] accepts
//! the transfer exactly when the transferred byte count equals the declared
//! size, and otherwise fails with the expected and observed counts and
//! refuses to go on.

use vstd::prelude::*;

use crate::Error;
use crate::manifest::{SegModel, VideoInfo};
use crate::urlres::{url_resolved, resolve_url};

verus! {

/// One planned transfer: a resolved absolute URL and the declared size.
pub struct SegmentTarget {
    pub url: Vec<u8>,
    pub size: u64,
}

/// The mathematical value of a [`SegmentTarget`].
pub struct TargetModel {
    pub url: Seq<u8>,
    pub size: u64,
}

impl View for SegmentTarget {
    type V = TargetModel;

    open spec fn view(&self) -> TargetModel {
        TargetModel { url: self.url@, size: self.size }
    }
}

/// Planned transfers, as the specification sees them.
pub open spec fn targets_view(v: Seq<SegmentTarget>) -> Seq<TargetModel> {
    v.map_values(|t: SegmentTarget| t@)
}

/// The sum of the declared segment sizes.
pub open spec fn spec_sum_sizes(segs: Seq<SegModel>) -> int
    decreases segs.len(),
{
    if segs.len() == 0 {
        0
    } else {
        segs[0].size + spec_sum_sizes(segs.drop_first())
    }
}

/// The sum of the planned transfer sizes.
pub open spec fn spec_sum_targets(ts: Seq<TargetModel>) -> int
    decreases ts.len(),
{
    if ts.len() == 0 {
        0
    } else {
        ts[0].size + spec_sum_targets(ts.drop_first())
    }
}

/// The planned transfers for the given segments: each path resolved
/// against `base`, sizes kept, order kept; nothing when any resolution
/// fails.
pub open spec fn spec_targets(base: Seq<u8>, segs: Seq<SegModel>) -> Option<Seq<TargetModel>>
    decreases segs.len(),
{
    if segs.len() == 0 {
        Some(Seq::empty())
    } else {
        match url_resolved(base, segs[0].path) {
            None => None,
            Some(u) => match spec_targets(base, segs.drop_first()) {
                None => None,
                Some(rest) => Some(seq![TargetModel { url: u, size: segs[0].size }] + rest),
            },
        }
    }
}

proof fn lemma_sum_targets_nonneg(ts: Seq<TargetModel>)
    ensures
        spec_sum_targets(ts) >= 0,
    decreases ts.len(),
{
    if ts.len() > 0 {
        lemma_sum_targets_nonneg(ts.drop_first());
    }
}

proof fn lemma_sum_sizes_nonneg(segs: Seq<SegModel>)
    ensures
        spec_sum_sizes(segs) >= 0,
    decreases segs.len(),
{
    if segs.len() > 0 {
        lemma_sum_sizes_nonneg(segs.drop_first());
    }
}

proof fn lemma_sum_targets_append(a: Seq<TargetModel>, b: Seq<TargetModel>)
    ensures
        spec_sum_targets(a + b) == spec_sum_targets(a) + spec_sum_targets(b),
    decreases a.len(),
{
    if a.len() == 0 {
        assert(a + b =~= b);
    } else {
        assert((a + b).drop_first() =~= a.drop_first() + b);
        lemma_sum_targets_append(a.drop_first(), b);
    }
}

proof fn lemma_sum_targets_push(a: Seq<TargetModel>, x: TargetModel)
    ensures
        spec_sum_targets(a.push(x)) == spec_sum_targets(a) + x.size,
{
    assert(a.push(x) =~= a + seq![x]);
    lemma_sum_targets_append(a, seq![x]);
    assert(seq![x].drop_first() =~= Seq::<TargetModel>::empty());
    assert(spec_sum_targets(seq![x]) == x.size + spec_sum_targets(seq![x].drop_first()));
}

/// A prefix of the planned transfers never outweighs the whole.
proof fn lemma_prefix_bound(ts: Seq<TargetModel>, k: int)
    requires
        0 <= k <= ts.len(),
    ensures
        spec_sum_targets(ts.take(k)) <= spec_sum_targets(ts),
{
    assert(ts =~= ts.take(k) + ts.skip(k));
    lemma_sum_targets_append(ts.take(k), ts.skip(k));
    lemma_sum_targets_nonneg(ts.skip(k));
}

/// Extending a prefix by one transfer adds exactly its size.
proof fn lemma_take_succ(ts: Seq<TargetModel>, n: int)
    requires
        0 <= n < ts.len(),
    ensures
        spec_sum_targets(ts.take(n + 1)) == spec_sum_targets(ts.take(n)) + ts[n].size,
{
    assert(ts.take(n + 1) =~= ts.take(n).push(ts[n]));
    lemma_sum_targets_push(ts.take(n), ts[n]);
}

/// Everything the download loop needs: the initialization block, the
/// resolved transfers in manifest order, and the total of the declared
/// sizes.
pub struct DownloadPlan {
    pub init_segment: Vec<u8>,
    pub targets: Vec<SegmentTarget>,
    pub total: u64,
}

/// Builds the plan for one variant: resolves every segment path against
/// the variant's base URL, in order, and totals the declared sizes. Fails
/// with `InvalidFormat` when a path cannot be resolved or the total does
/// not fit in a byte counter.
pub fn plan_download(v: &VideoInfo) -> (r: Result<DownloadPlan, Error>)
    ensures
        match r {
            Ok(p) => spec_targets(v@.base_url, v@.segments) == Some(targets_view(p.targets@))
                && p.init_segment@ == v@.init_segment && spec_sum_sizes(v@.segments) <= u64::MAX
                && p.total as int == spec_sum_sizes(v@.segments) && p.total as int
                == spec_sum_targets(targets_view(p.targets@)),
            Err(e) => e == Error::InvalidFormat && (spec_targets(v@.base_url, v@.segments) is None
                || spec_sum_sizes(v@.segments) > u64::MAX),
        },
{
    let ghost segsv = v@.segments;
    let mut targets: Vec<SegmentTarget> = Vec::new();
    let mut total: u64 = 0;
    let mut q: usize = 0;
    proof {
        assert(segsv.skip(0) =~= segsv);
        assert(targets_view(targets@) =~= Seq::<TargetModel>::empty());
    }
    while q < v.segments.len()
        invariant
            q <= v.segments@.len(),
            segsv == v@.segments,
            segsv.len() == v.segments@.len(),
            match spec_targets(v@.base_url, segsv.skip(q as int)) {
                Some(rest) => spec_targets(v@.base_url, segsv) == Some(
                    targets_view(targets@) + rest,
                ),
                None => spec_targets(v@.base_url, segsv) is None,
            },
            spec_sum_sizes(segsv) == total + spec_sum_sizes(segsv.skip(q as int)),
            total as int == spec_sum_targets(targets_view(targets@)),
        decreases v.segments@.len() - q,
    {
        proof {
            assert(segsv.skip(q as int)[0] == segsv[q as int]);
            assert(segsv.skip(q as int).drop_first() =~= segsv.skip(q + 1 as int));
            assert(segsv[q as int] == v.segments@[q as int]@);
        }
        let seg = &v.segments[q];
        let u = match resolve_url(v.base_url.as_slice(), seg.path.as_slice()) {
            Some(u) => u,
            None => {
                return Err(Error::InvalidFormat);
            },
        };
        if total > u64::MAX - seg.size {
            proof {
                lemma_sum_sizes_nonneg(segsv.skip(q + 1 as int));
            }
            return Err(Error::InvalidFormat);
        }
        let ghost targets0 = targets@;
        let ghost uv = u@;
        let ghost sz = seg.size;
        total = total + seg.size;
        targets.push(SegmentTarget { url: u, size: seg.size });
        proof {
            assert(targets_view(targets@) =~= targets_view(targets0).push(
                TargetModel { url: uv, size: sz },
            ));
            lemma_sum_targets_push(targets_view(targets0), TargetModel { url: uv, size: sz });
            if let Some(rest) = spec_targets(v@.base_url, segsv.skip(q + 1 as int)) {
                assert(targets_view(targets0) + (seq![TargetModel { url: uv, size: sz }] + rest)
                    =~= targets_view(targets0).push(TargetModel { url: uv, size: sz }) + rest);
            }
        }
        q = q + 1;
    }
    proof {
        assert(segsv.skip(segsv.len() as int) =~= Seq::<SegModel>::empty());
        assert(targets_view(targets@) + Seq::<TargetModel>::empty() =~= targets_view(targets@));
    }
    Ok(DownloadPlan { init_segment: v.init_segment.clone(), targets, total })
}

/// The running byte account of one download: how many of the plan's
/// transfers have been accepted and how many bytes they carried.
pub struct Progress {
    pub total: u64,
    pub done: u64,
    pub next: usize,
    pub failed: bool,
}

impl Progress {
    /// The account is sound for `plan`: not failed, bound to the plan's
    /// total, and `done` is exactly the sum of the accepted transfers'
    /// declared sizes.
    pub open spec fn wf(&self, plan: &DownloadPlan) -> bool {
        &&& !self.failed
        &&& self.total == plan.total
        &&& self.done <= self.total
        &&& plan.total as int == spec_sum_targets(targets_view(plan.targets@))
        &&& self.next <= plan.targets@.len()
        &&& self.done as int == spec_sum_targets(
            targets_view(plan.targets@).take(self.next as int),
        )
    }

    /// A fresh account: nothing transferred yet.
    pub fn start(plan: &DownloadPlan) -> (r: Progress)
        requires
            plan.total as int == spec_sum_targets(targets_view(plan.targets@)),
        ensures
            r.wf(plan),
            r.next == 0,
            r.done == 0,
            r.total == plan.total,
    {
        proof {
            assert(targets_view(plan.targets@).take(0) =~= Seq::<TargetModel>::empty());
        }
        Progress { total: plan.total, done: 0, next: 0, failed: false }
    }

    /// Accounts for the next transfer: accepted exactly when the
    /// transferred byte count equals the declared size, in which case the
    /// accepted byte count is returned for incremental reporting; any
    /// mismatch is an integrity failure naming the expected and observed
    /// counts, and the account refuses further transfers.
    pub fn on_segment(&mut self, plan: &DownloadPlan, transferred: u64) -> (r: Result<u64, Error>)
        requires
            old(self).wf(plan),
            old(self).next < plan.targets@.len(),
        ensures
            match r {
                Ok(inc) => transferred == plan.targets@[old(self).next as int]@.size && inc
                    == transferred && final(self).wf(plan) && final(self).next == old(self).next
                    + 1 && final(self).done == old(self).done + transferred && final(self).total
                    == old(self).total,
                Err(e) => transferred != plan.targets@[old(self).next as int]@.size && e == (
                Error::Integrity {
                    expected: plan.targets@[old(self).next as int]@.size,
                    observed: transferred,
                }) && final(self).failed && final(self).done == old(self).done && final(self).next
                    == old(self).next,
            },
    {
        let n = plan.targets.len();
        let expected = plan.targets[self.next].size;
        if transferred != expected {
            self.failed = true;
            return Err(Error::Integrity { expected, observed: transferred });
        }
        proof {
            lemma_take_succ(targets_view(plan.targets@), self.next as int);
            lemma_prefix_bound(targets_view(plan.targets@), self.next + 1 as int);
        }
        self.done = self.done + transferred;
        self.next = self.next + 1;
        Ok(transferred)
    }

    /// Whether every planned transfer has been accepted; then the account
    /// stands at exactly the plan's total.
    pub fn is_complete(&self, plan: &DownloadPlan) -> (r: bool)
        requires
            self.wf(plan),
        ensures
            r == (self.next == plan.targets@.len()),
            r ==> self.done == self.total,
    {
        proof {
            if self.next == plan.targets@.len() {
                assert(targets_view(plan.targets@).take(plan.targets@.len() as int)
                    =~= targets_view(plan.targets@));
            }
        }
        self.next == plan.targets.len()
    }
}

} // verus!
