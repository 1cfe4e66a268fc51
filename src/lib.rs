//! A fixed-size worker pool: the pool's sizing rules, the shared FIFO job
//! queue that workers drain, and the decision each worker takes when it
//! looks at the queue. Threads, locks and job bodies live with the caller.
pub mod history;
pub mod plan;
pub mod queue;

pub use history::QueueOp;
pub use plan::{plan_workers, PoolError};
pub use queue::{Dispatch, JobQueue, QueueModel, WorkerStep};
