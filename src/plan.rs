use vstd::prelude::*;

verus! {

/// Why a pool could not be set up.
#[derive(Debug, Clone, Copy, PartialEq, Eq, Structural)]
pub enum PoolError {
    /// A pool needs at least one worker.
    ZeroSize,
}

/// The identifiers of a pool of `size` workers: `0, 1, ..., size - 1`.
pub open spec fn worker_ids_spec(size: nat) -> Seq<usize> {
    Seq::new(size, |i: int| i as usize)
}

/// Lays out the workers of a pool of `size` threads: one identifier per
/// worker, numbered from zero in spawn order. A pool of no workers is refused.
pub fn plan_workers(size: usize) -> (r: Result<Vec<usize>, PoolError>)
    ensures
        size == 0 <==> r == Err::<Vec<usize>, PoolError>(PoolError::ZeroSize),
        r matches Ok(ids) ==> ids@ == worker_ids_spec(size as nat),
{
    if size == 0 {
        return Err(PoolError::ZeroSize);
    }
    let mut ids: Vec<usize> = Vec::with_capacity(size);
    let mut id: usize = 0;
    while id < size
        invariant
            id <= size,
            ids@ == worker_ids_spec(id as nat),
        decreases size - id,
    {
        ids.push(id);
        id = id + 1;
        assert(ids@ =~= worker_ids_spec(id as nat));
    }
    Ok(ids)
}

} // verus!
