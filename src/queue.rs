use std::collections::VecDeque;
use vstd::prelude::*;

verus! {

/// The abstract state of a job queue.
pub struct QueueModel<T> {
    /// Jobs submitted and not yet handed to a worker, oldest first.
    pub pending: Seq<T>,
    /// How many jobs were ever accepted; the next accepted job gets this ticket.
    pub submitted: nat,
    /// How many jobs were ever handed to a worker.
    pub taken: nat,
    /// Whether the submitting side is still there.
    pub open: bool,
    /// How many workers still drain the queue.
    pub receivers: nat,
}

/// A queue takes new work only while submitters and workers are both there.
pub open spec fn accepts<T>(m: QueueModel<T>) -> bool {
    m.open && m.receivers > 0
}

/// The queue after `job` is offered to it.
pub open spec fn submit_step<T>(m: QueueModel<T>, job: T) -> QueueModel<T> {
    if accepts(m) {
        QueueModel { pending: m.pending.push(job), submitted: m.submitted + 1, ..m }
    } else {
        m
    }
}

/// The queue after a worker takes the oldest pending job, if there is one.
pub open spec fn take_step<T>(m: QueueModel<T>) -> QueueModel<T> {
    if m.pending.len() > 0 {
        QueueModel { pending: m.pending.drop_first(), taken: m.taken + 1, ..m }
    } else {
        m
    }
}

/// A job handed to a worker, with the ticket it got when it was submitted.
pub struct Dispatch<T> {
    pub ticket: u64,
    pub job: T,
}

/// What a worker does after looking at the queue.
pub enum WorkerStep<T> {
    /// Run this job, outside the queue's lock.
    Run(Dispatch<T>),
    /// Nothing is pending: block until a job is submitted.
    Wait,
    /// Nothing is pending and nothing more can come: leave the loop.
    Exit,
}

/// The queue that a pool shares between its submitters and its workers.
/// Jobs leave in the order they came in, and each leaves once.
pub struct JobQueue<T> {
    pending: VecDeque<T>,
    submitted: u64,
    taken: u64,
    open: bool,
    receivers: usize,
}

impl<T> View for JobQueue<T> {
    type V = QueueModel<T>;

    closed spec fn view(&self) -> QueueModel<T> {
        QueueModel {
            pending: self.pending@,
            submitted: self.submitted as nat,
            taken: self.taken as nat,
            open: self.open,
            receivers: self.receivers as nat,
        }
    }
}

impl<T> JobQueue<T> {
    /// Every accepted job is either pending or was taken, never both.
    pub open spec fn wf(&self) -> bool {
        self@.submitted == self@.taken + self@.pending.len()
    }

    /// An empty, open queue drained by `receivers` workers.
    pub fn new(receivers: usize) -> (q: Self)
        ensures
            q.wf(),
            q@ == (QueueModel::<T> {
                pending: Seq::empty(),
                submitted: 0,
                taken: 0,
                open: true,
                receivers: receivers as nat,
            }),
    {
        JobQueue { pending: VecDeque::new(), submitted: 0, taken: 0, open: true, receivers }
    }

    /// How many jobs were ever accepted.
    pub fn tickets_issued(&self) -> (r: u64)
        ensures
            r == self@.submitted,
    {
        self.submitted
    }

    /// How many jobs wait for a worker.
    pub fn pending_len(&self) -> (r: usize)
        ensures
            r == self@.pending.len(),
    {
        self.pending.len()
    }

    /// How many workers still drain the queue.
    pub fn receivers(&self) -> (r: usize)
        ensures
            r == self@.receivers,
    {
        self.receivers
    }

    /// Whether the submitting side is still there.
    pub fn is_open(&self) -> (r: bool)
        ensures
            r == self@.open,
    {
        self.open
    }

    /// Appends `job` and returns its ticket, the number of jobs accepted
    /// before it. Once the submitting side is closed, or every worker is
    /// gone, the job is refused and handed back.
    pub fn submit(&mut self, job: T) -> (r: Result<u64, T>)
        requires
            old(self).wf(),
            old(self)@.submitted < u64::MAX,
        ensures
            final(self).wf(),
            final(self)@ == submit_step(old(self)@, job),
            accepts(old(self)@) <==> r is Ok,
            r matches Ok(t) ==> t == old(self)@.submitted,
            r matches Err(j) ==> j == job,
    {
        if self.open && self.receivers > 0 {
            let ticket = self.submitted;
            self.pending.push_back(job);
            self.submitted = self.submitted + 1;
            Ok(ticket)
        } else {
            Err(job)
        }
    }

    /// Hands out the oldest pending job with its ticket, or nothing when no
    /// job is pending.
    pub fn take(&mut self) -> (r: Option<Dispatch<T>>)
        requires
            old(self).wf(),
        ensures
            final(self).wf(),
            final(self)@ == take_step(old(self)@),
            old(self)@.pending.len() > 0 <==> r is Some,
            r matches Some(d) ==> d.job == old(self)@.pending[0] && d.ticket
                == old(self)@.taken,
    {
        match self.pending.pop_front() {
            Some(job) => {
                let ticket = self.taken;
                self.taken = self.taken + 1;
                Some(Dispatch { ticket, job })
            },
            None => None,
        }
    }

    /// The step a worker takes on the queue: run the oldest pending job;
    /// with none pending, wait while submitters remain, else exit.
    pub fn next_step(&mut self) -> (r: WorkerStep<T>)
        requires
            old(self).wf(),
        ensures
            final(self).wf(),
            final(self)@ == take_step(old(self)@),
            old(self)@.pending.len() > 0 ==> (r matches WorkerStep::Run(d) && d.job
                == old(self)@.pending[0] && d.ticket == old(self)@.taken),
            old(self)@.pending.len() == 0 && old(self)@.open ==> r is Wait,
            old(self)@.pending.len() == 0 && !old(self)@.open ==> r is Exit,
    {
        match self.take() {
            Some(d) => WorkerStep::Run(d),
            None => {
                if self.open {
                    WorkerStep::Wait
                } else {
                    WorkerStep::Exit
                }
            },
        }
    }

    /// The submitting side is gone: no job is accepted from now on; pending
    /// jobs are still handed out.
    pub fn close(&mut self)
        requires
            old(self).wf(),
        ensures
            final(self).wf(),
            final(self)@ == (QueueModel { open: false, ..old(self)@ }),
    {
        self.open = false;
    }

    /// A worker has stopped draining the queue.
    pub fn release_receiver(&mut self)
        requires
            old(self).wf(),
            old(self)@.receivers > 0,
        ensures
            final(self).wf(),
            final(self)@ == (QueueModel { receivers: (old(self)@.receivers - 1) as nat, ..old(self)@ }),
    {
        self.receivers = self.receivers - 1;
    }
}

} // verus!
