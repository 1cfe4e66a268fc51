use crate::queue::{accepts, submit_step, take_step, QueueModel};
use vstd::prelude::*;

verus! {

/// One operation on a shared queue, in the order the queue's lock let it in.
pub enum QueueOp<T> {
    Submit(T),
    Take,
}

/// The queue after the operations `ops`, applied in order to `m`.
pub open spec fn replay<T>(m: QueueModel<T>, ops: Seq<QueueOp<T>>) -> QueueModel<T>
    decreases ops.len(),
{
    if ops.len() == 0 {
        m
    } else {
        let before = replay(m, ops.drop_last());
        match ops.last() {
            QueueOp::Submit(job) => submit_step(before, job),
            QueueOp::Take => take_step(before),
        }
    }
}

/// The jobs that the `Take` operations of `ops` handed to workers, in order.
pub open spec fn handed_out<T>(m: QueueModel<T>, ops: Seq<QueueOp<T>>) -> Seq<T>
    decreases ops.len(),
{
    if ops.len() == 0 {
        Seq::empty()
    } else {
        let before = replay(m, ops.drop_last());
        let earlier = handed_out(m, ops.drop_last());
        match ops.last() {
            QueueOp::Submit(_) => earlier,
            QueueOp::Take => if before.pending.len() > 0 {
                earlier.push(before.pending[0])
            } else {
                earlier
            },
        }
    }
}

/// The jobs that `ops` submits, in order.
pub open spec fn submissions<T>(ops: Seq<QueueOp<T>>) -> Seq<T>
    decreases ops.len(),
{
    if ops.len() == 0 {
        Seq::empty()
    } else {
        match ops.last() {
            QueueOp::Submit(job) => submissions(ops.drop_last()).push(job),
            QueueOp::Take => submissions(ops.drop_last()),
        }
    }
}

/// While a queue accepts work, whatever mix of submissions and takes reaches
/// it, each job leaves it once and in the order it came: the jobs handed to
/// workers followed by those still pending are exactly the jobs that were
/// pending at the start followed by those submitted since. The counters agree.
pub proof fn lemma_each_job_once_in_order<T>(m: QueueModel<T>, ops: Seq<QueueOp<T>>)
    requires
        accepts(m),
    ensures
        accepts(replay(m, ops)),
        handed_out(m, ops) + replay(m, ops).pending == m.pending + submissions(ops),
        replay(m, ops).submitted == m.submitted + submissions(ops).len(),
        replay(m, ops).taken == m.taken + handed_out(m, ops).len(),
    decreases ops.len(),
{
    if ops.len() > 0 {
        let prev = ops.drop_last();
        lemma_each_job_once_in_order(m, prev);
        let before = replay(m, prev);
        match ops.last() {
            QueueOp::Submit(job) => {
                assert(handed_out(m, ops) + replay(m, ops).pending =~= (handed_out(m, prev)
                    + before.pending).push(job));
                assert(m.pending + submissions(ops) =~= (m.pending + submissions(prev)).push(job));
            },
            QueueOp::Take => {
                if before.pending.len() > 0 {
                    assert(handed_out(m, ops) + replay(m, ops).pending =~= handed_out(m, prev)
                        + before.pending);
                }
            },
        }
    } else {
        assert(handed_out(m, ops) + replay(m, ops).pending =~= m.pending + submissions(ops));
    }
}

/// Starting from an empty queue, once the queue is drained every submitted
/// job was handed out exactly once, and as many jobs ran as were submitted.
pub proof fn lemma_drained_runs_every_job_once<T>(m: QueueModel<T>, ops: Seq<QueueOp<T>>)
    requires
        accepts(m),
        m.pending.len() == 0,
        replay(m, ops).pending.len() == 0,
    ensures
        handed_out(m, ops) == submissions(ops),
        replay(m, ops).taken - m.taken == replay(m, ops).submitted - m.submitted,
{
    lemma_each_job_once_in_order(m, ops);
    assert(handed_out(m, ops) =~= handed_out(m, ops) + replay(m, ops).pending);
    assert(submissions(ops) =~= m.pending + submissions(ops));
}

/// Starting from an empty queue, the k-th job handed to a worker is the k-th
/// job submitted: of two jobs submitted one after the other, the first is
/// dequeued first.
pub proof fn lemma_dequeued_in_submission_order<T>(m: QueueModel<T>, ops: Seq<QueueOp<T>>)
    requires
        accepts(m),
        m.pending.len() == 0,
    ensures
        handed_out(m, ops).len() <= submissions(ops).len(),
        forall|k: int|
            0 <= k < handed_out(m, ops).len() ==> #[trigger] handed_out(m, ops)[k]
                == submissions(ops)[k],
{
    lemma_each_job_once_in_order(m, ops);
    assert(m.pending + submissions(ops) =~= submissions(ops));
    assert forall|k: int| 0 <= k < handed_out(m, ops).len() implies #[trigger] handed_out(
        m,
        ops,
    )[k] == submissions(ops)[k] by {
        assert((handed_out(m, ops) + replay(m, ops).pending)[k] == handed_out(m, ops)[k]);
    }
}

/// Jobs tagged with the caller that submitted them.
pub open spec fn from_caller<U>(caller: nat) -> spec_fn((nat, U)) -> bool {
    |j: (nat, U)| j.0 == caller
}

/// However the submissions of several callers interleave on one queue, no
/// job is lost or run twice: for each caller, its jobs handed out followed by
/// its jobs still pending are exactly the jobs it submitted, in its order;
/// and all jobs handed out or pending are, as a multiset, those submitted.
pub proof fn lemma_interleaved_callers_lose_nothing<U>(
    m: QueueModel<(nat, U)>,
    ops: Seq<QueueOp<(nat, U)>>,
    caller: nat,
)
    requires
        accepts(m),
        m.pending.len() == 0,
    ensures
        handed_out(m, ops).filter(from_caller(caller)) + replay(m, ops).pending.filter(
            from_caller(caller),
        ) == submissions(ops).filter(from_caller(caller)),
        handed_out(m, ops).to_multiset().add(replay(m, ops).pending.to_multiset())
            == submissions(ops).to_multiset(),
{
    lemma_each_job_once_in_order(m, ops);
    let out = handed_out(m, ops);
    let rest = replay(m, ops).pending;
    assert(m.pending + submissions(ops) =~= submissions(ops));
    Seq::filter_distributes_over_add(out, rest, from_caller(caller));
    vstd::seq_lib::lemma_multiset_commutative(out, rest);
}

} // verus!
