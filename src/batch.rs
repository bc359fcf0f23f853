//! The runs of every model attachment of one event, each on its own, and
//! what is answered once they are over.

use vstd::prelude::*;
use crate::pipeline::Stage;

verus! {

/// The positions, in order, of the runs that produced an artifact.
pub open spec fn done_indices(s: Seq<Stage>) -> Seq<usize>
    decreases s.len(),
{
    if s.len() == 0 {
        Seq::empty()
    } else if s.last() is Done {
        done_indices(s.drop_last()).push((s.len() - 1) as usize)
    } else {
        done_indices(s.drop_last())
    }
}

/// The positions, in order, of the runs that failed.
pub open spec fn failed_indices(s: Seq<Stage>) -> Seq<usize>
    decreases s.len(),
{
    if s.len() == 0 {
        Seq::empty()
    } else if s.last() is Failed {
        failed_indices(s.drop_last()).push((s.len() - 1) as usize)
    } else {
        failed_indices(s.drop_last())
    }
}

/// Which runs of a batch produced an artifact and which failed, by their
/// position among the attachments.
pub struct BatchSummary {
    pub delivered: Vec<usize>,
    pub failed: Vec<usize>,
}

/// Sorts the runs of a batch, by their final stages, into those that
/// produced an artifact and those that failed, each in attachment order.
pub fn summarize(stages: &Vec<Stage>) -> (r: BatchSummary)
    ensures
        r.delivered@ == done_indices(stages@),
        r.failed@ == failed_indices(stages@),
{
    let mut delivered: Vec<usize> = Vec::new();
    let mut failed: Vec<usize> = Vec::new();
    let mut i: usize = 0;
    while i < stages.len()
        invariant
            i <= stages@.len(),
            delivered@ == done_indices(stages@.take(i as int)),
            failed@ == failed_indices(stages@.take(i as int)),
        decreases stages@.len() - i,
    {
        assert(stages@.take(i + 1 as int).drop_last() =~= stages@.take(i as int));
        match stages[i] {
            Stage::Done => delivered.push(i),
            Stage::Failed(_) => failed.push(i),
            _ => {},
        }
        i = i + 1;
    }
    assert(stages@.take(stages@.len() as int) =~= stages@);
    BatchSummary { delivered, failed }
}

/// A position is listed as delivered exactly when its run is done, and as
/// failed exactly when its run failed.
pub proof fn lemma_indices_members(s: Seq<Stage>, i: int)
    requires
        s.len() <= usize::MAX,
        0 <= i < s.len(),
    ensures
        done_indices(s).contains(i as usize) <==> s[i] is Done,
        failed_indices(s).contains(i as usize) <==> s[i] is Failed,
    decreases s.len(),
{
    let t = s.drop_last();
    let last = (s.len() - 1) as usize;
    lemma_indices_bounded(t);
    if i < s.len() - 1 {
        lemma_indices_members(t, i);
        assert(t[i] == s[i]);
        assert(done_indices(t).push(last).contains(i as usize) <==> done_indices(t).contains(
            i as usize,
        )) by {
            if done_indices(t).push(last).contains(i as usize) {
                let k = choose|k: int|
                    0 <= k < done_indices(t).push(last).len() && done_indices(t).push(last)[k]
                        == i as usize;
                if k < done_indices(t).len() {
                    assert(done_indices(t)[k] == i as usize);
                }
            }
            if done_indices(t).contains(i as usize) {
                let k = choose|k: int|
                    0 <= k < done_indices(t).len() && done_indices(t)[k] == i as usize;
                assert(done_indices(t).push(last)[k] == i as usize);
            }
        }
        assert(failed_indices(t).push(last).contains(i as usize) <==> failed_indices(t).contains(
            i as usize,
        )) by {
            if failed_indices(t).push(last).contains(i as usize) {
                let k = choose|k: int|
                    0 <= k < failed_indices(t).push(last).len() && failed_indices(t).push(last)[k]
                        == i as usize;
                if k < failed_indices(t).len() {
                    assert(failed_indices(t)[k] == i as usize);
                }
            }
            if failed_indices(t).contains(i as usize) {
                let k = choose|k: int|
                    0 <= k < failed_indices(t).len() && failed_indices(t)[k] == i as usize;
                assert(failed_indices(t).push(last)[k] == i as usize);
            }
        }
    } else {
        assert(!done_indices(t).contains(last)) by {
            if done_indices(t).contains(last) {
                let k = choose|k: int| 0 <= k < done_indices(t).len() && done_indices(t)[k] == last;
            }
        }
        assert(!failed_indices(t).contains(last)) by {
            if failed_indices(t).contains(last) {
                let k = choose|k: int|
                    0 <= k < failed_indices(t).len() && failed_indices(t)[k] == last;
            }
        }
        assert(done_indices(t).push(last)[done_indices(t).len() as int] == last);
        assert(failed_indices(t).push(last)[failed_indices(t).len() as int] == last);
    }
}

/// The positions listed are those of runs of the batch.
proof fn lemma_indices_bounded(s: Seq<Stage>)
    requires
        s.len() <= usize::MAX,
    ensures
        forall|k: int| 0 <= k < done_indices(s).len() ==> done_indices(s)[k] < s.len(),
        forall|k: int| 0 <= k < failed_indices(s).len() ==> failed_indices(s)[k] < s.len(),
        done_indices(s).len() + failed_indices(s).len() <= s.len(),
    decreases s.len(),
{
    if s.len() > 0 {
        lemma_indices_bounded(s.drop_last());
    }
}

/// Where every run of a batch of `k` produced its artifact but one, which
/// failed, the batch delivers `k - 1` artifacts and records that one failure;
/// every other run is delivered.
pub proof fn lemma_single_failure(s: Seq<Stage>, bad: int)
    requires
        s.len() <= usize::MAX,
        0 <= bad < s.len(),
        s[bad] is Failed,
        forall|i: int| 0 <= i < s.len() && i != bad ==> s[i] is Done,
    ensures
        done_indices(s).len() == s.len() - 1,
        failed_indices(s) == seq![bad as usize],
        forall|i: int|
            0 <= i < s.len() ==> (#[trigger] done_indices(s).contains(i as usize) <==> i != bad),
    decreases s.len(),
{
    let t = s.drop_last();
    assert(forall|j: int| 0 <= j < t.len() ==> t[j] == s[j]);
    if bad == s.len() - 1 {
        lemma_all_done(t);
    } else {
        lemma_single_failure(t, bad);
    }
    assert forall|i: int| 0 <= i < s.len() implies (#[trigger] done_indices(s).contains(
        i as usize,
    ) <==> i != bad) by {
        lemma_indices_members(s, i);
    }
}

/// A batch whose runs are all done delivers each of them.
proof fn lemma_all_done(s: Seq<Stage>)
    requires
        forall|i: int| 0 <= i < s.len() ==> s[i] is Done,
    ensures
        done_indices(s).len() == s.len(),
        failed_indices(s) == Seq::<usize>::empty(),
    decreases s.len(),
{
    if s.len() > 0 {
        let t = s.drop_last();
        assert(forall|j: int| 0 <= j < t.len() ==> t[j] == s[j]);
        lemma_all_done(t);
    }
}

/// Runs are independent: where a batch holds the same runs in another order
/// (position `j` of `b` is position `p[j]` of `a`), each attachment lands on
/// the same side, delivered or failed.
pub proof fn lemma_order_independent(a: Seq<Stage>, b: Seq<Stage>, p: Seq<int>)
    requires
        a.len() <= usize::MAX,
        b.len() == a.len(),
        p.len() == b.len(),
        forall|j: int| 0 <= j < b.len() ==> 0 <= #[trigger] p[j] < a.len() && b[j] == a[p[j]],
    ensures
        forall|j: int|
            0 <= j < b.len() ==> (done_indices(b).contains(j as usize) <==> done_indices(
                a,
            ).contains(#[trigger] p[j] as usize)),
        forall|j: int|
            0 <= j < b.len() ==> (failed_indices(b).contains(j as usize) <==> failed_indices(
                a,
            ).contains(#[trigger] p[j] as usize)),
{
    assert forall|j: int| 0 <= j < b.len() implies (done_indices(b).contains(j as usize)
        <==> done_indices(a).contains(#[trigger] p[j] as usize)) && (failed_indices(b).contains(
        j as usize,
    ) <==> failed_indices(a).contains(p[j] as usize)) by {
        lemma_indices_members(b, j);
        lemma_indices_members(a, p[j]);
    }
}

/// The answer to the preview command once its runs are over.
#[derive(Clone, Copy, Debug, PartialEq, Eq, Structural)]
pub enum CommandReply {
    /// The message holds no model: say so, to the one who asked only.
    NoModelsFound,
    /// No run produced an artifact: nothing is posted.
    NothingProduced,
    /// Post every artifact, together, in one follow-up.
    Artifacts,
}

/// The answer to the preview command, from the number of model attachments
/// that the message holds and of artifacts that their runs produced.
pub fn command_reply(models: usize, produced: usize) -> (r: CommandReply)
    ensures
        models == 0 ==> r == CommandReply::NoModelsFound,
        models > 0 && produced == 0 ==> r == CommandReply::NothingProduced,
        models > 0 && produced > 0 ==> r == CommandReply::Artifacts,
{
    if models == 0 {
        CommandReply::NoModelsFound
    } else if produced == 0 {
        CommandReply::NothingProduced
    } else {
        CommandReply::Artifacts
    }
}

} // verus!
