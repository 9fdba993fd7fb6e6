//! The lifecycle of a process-shared memory region, as the steps a driver
//! performs on the operating system.
//!
//! Allocation creates an anonymous shareable object, sizes it and maps it;
//! a failed step closes the handle before the error is reported. Resizing
//! sizes the object anew and maps it again; the old mapping is dropped only
//! once the new one exists.
use vstd::prelude::*;

verus! {

/// Why a region could not be had.
#[derive(Clone, Copy, Debug, PartialEq, Eq, Structural)]
pub enum ShmError {
    /// A zero-length region was asked for.
    InvalidArgument,
    /// A step of the operating system failed.
    AllocationFailed,
}

/// A step for the driver to perform on the operating system.
#[derive(Clone, Copy, Debug, PartialEq, Eq, Structural)]
pub enum ShmOp {
    /// Create an anonymous shareable object; report its handle.
    Create,
    /// Set the object's size to `length` bytes.
    Truncate { length: usize },
    /// Map `length` bytes of the object read-write and shared, as the newest mapping.
    MapShared { length: usize },
    /// Drop the mapping of `length` bytes that the newest mapping replaced.
    UnmapPrevious { length: usize },
    /// Drop the newest mapping, of `length` bytes.
    Unmap { length: usize },
    /// Close the object's handle.
    Close,
}

/// What the driver reports after a step.
#[derive(Clone, Copy, Debug, PartialEq, Eq, Structural)]
pub enum StepResult {
    Failed,
    Succeeded,
    /// The object was created with this handle.
    Created { fd: i32 },
}

/// Whether `res` reports success of a step other than creation.
pub open spec fn succeeded(res: StepResult) -> bool {
    !(res is Failed)
}

/// A mapped region: the object's handle and the length of its mapping.
#[derive(Clone, Copy, Debug, PartialEq, Eq, Structural)]
pub struct Shm {
    pub fd: i32,
    pub length: usize,
}

impl Shm {
    pub open spec fn wf(self) -> bool {
        self.fd >= 0 && self.length > 0
    }

    /// Starts allocating a region of `length` bytes; a zero length fails at
    /// once, before any step.
    pub fn new(length: usize) -> (r: Allocation)
        ensures
            r == Allocation::start(length),
    {
        if length == 0 {
            Allocation::Done { result: Err(ShmError::InvalidArgument) }
        } else {
            Allocation::Creating { length }
        }
    }

    /// The handle of the object, for the compositor to map the same bytes.
    pub fn get_raw_fd(&self) -> (r: i32)
        ensures
            r == self.fd,
    {
        self.fd
    }

    /// The number of mapped bytes that may be read and written.
    pub fn len(&self) -> (r: usize)
        ensures
            r == self.length,
    {
        self.length
    }

    /// Starts resizing the region to `length` bytes; a zero length fails at
    /// once, before any step.
    pub fn resize(self, length: usize) -> (r: Resizing)
        requires
            self.wf(),
        ensures
            r == Resizing::start(self, length),
    {
        if length == 0 {
            Resizing::Done { region: self, result: Err(ShmError::InvalidArgument) }
        } else {
            Resizing::Truncating { region: self, length }
        }
    }

    /// The steps that release the region: its mapping, then its handle.
    pub fn release(self) -> (r: Vec<ShmOp>)
        ensures
            r@ == seq![ShmOp::Unmap { length: self.length }, ShmOp::Close],
    {
        vec![ShmOp::Unmap { length: self.length }, ShmOp::Close]
    }
}

/// An allocation in progress.
#[derive(Clone, Copy, Debug)]
pub enum Allocation {
    Creating { length: usize },
    Truncating { fd: i32, length: usize },
    Mapping { fd: i32, length: usize },
    /// A step failed after the object was created: its handle is closed first.
    Closing { fd: i32 },
    Done { result: Result<Shm, ShmError> },
}

impl Allocation {
    pub open spec fn start(length: usize) -> Allocation {
        if length == 0 {
            Allocation::Done { result: Err(ShmError::InvalidArgument) }
        } else {
            Allocation::Creating { length }
        }
    }

    pub open spec fn wf(self) -> bool {
        match self {
            Allocation::Creating { length } => length > 0,
            Allocation::Truncating { fd, length } => fd >= 0 && length > 0,
            Allocation::Mapping { fd, length } => fd >= 0 && length > 0,
            Allocation::Closing { fd } => fd >= 0,
            Allocation::Done { result } => result matches Ok(r) ==> r.wf(),
        }
    }

    /// The step the driver performs next; `None` once done.
    pub open spec fn op(self) -> Option<ShmOp> {
        match self {
            Allocation::Creating { .. } => Some(ShmOp::Create),
            Allocation::Truncating { length, .. } => Some(ShmOp::Truncate { length }),
            Allocation::Mapping { length, .. } => Some(ShmOp::MapShared { length }),
            Allocation::Closing { .. } => Some(ShmOp::Close),
            Allocation::Done { .. } => None,
        }
    }

    /// The state after the driver reports `res` for the current step.
    pub open spec fn step(self, res: StepResult) -> Allocation {
        match self {
            Allocation::Creating { length } => match res {
                StepResult::Created { fd } => if fd >= 0 {
                    Allocation::Truncating { fd, length }
                } else {
                    Allocation::Done { result: Err(ShmError::AllocationFailed) }
                },
                _ => Allocation::Done { result: Err(ShmError::AllocationFailed) },
            },
            Allocation::Truncating { fd, length } => if succeeded(res) {
                Allocation::Mapping { fd, length }
            } else {
                Allocation::Closing { fd }
            },
            Allocation::Mapping { fd, length } => if succeeded(res) {
                Allocation::Done { result: Ok(Shm { fd, length }) }
            } else {
                Allocation::Closing { fd }
            },
            Allocation::Closing { .. } => Allocation::Done { result: Err(ShmError::AllocationFailed) },
            Allocation::Done { .. } => self,
        }
    }

    /// The state after the driver reports each of `results` in turn.
    pub open spec fn run(self, results: Seq<StepResult>) -> Allocation
        decreases results.len(),
    {
        if results.len() == 0 {
            self
        } else {
            self.step(results[0]).run(results.drop_first())
        }
    }

    pub fn next_op(&self) -> (r: Option<ShmOp>)
        ensures
            r == self.op(),
    {
        match *self {
            Allocation::Creating { .. } => Some(ShmOp::Create),
            Allocation::Truncating { length, .. } => Some(ShmOp::Truncate { length }),
            Allocation::Mapping { length, .. } => Some(ShmOp::MapShared { length }),
            Allocation::Closing { .. } => Some(ShmOp::Close),
            Allocation::Done { .. } => None,
        }
    }

    pub fn advance(&mut self, res: StepResult)
        requires
            old(self).wf(),
        ensures
            final(self).wf(),
            *final(self) == old(self).step(res),
    {
        let next = match *self {
            Allocation::Creating { length } => match res {
                StepResult::Created { fd } => if fd >= 0 {
                    Allocation::Truncating { fd, length }
                } else {
                    Allocation::Done { result: Err(ShmError::AllocationFailed) }
                },
                _ => Allocation::Done { result: Err(ShmError::AllocationFailed) },
            },
            Allocation::Truncating { fd, length } => if !matches!(res, StepResult::Failed) {
                Allocation::Mapping { fd, length }
            } else {
                Allocation::Closing { fd }
            },
            Allocation::Mapping { fd, length } => if !matches!(res, StepResult::Failed) {
                Allocation::Done { result: Ok(Shm { fd, length }) }
            } else {
                Allocation::Closing { fd }
            },
            Allocation::Closing { .. } => Allocation::Done { result: Err(ShmError::AllocationFailed) },
            Allocation::Done { result } => Allocation::Done { result },
        };
        *self = next;
    }

    /// The region or the error, once done.
    pub fn outcome(&self) -> (r: Option<Result<Shm, ShmError>>)
        ensures
            r == (match *self {
                Allocation::Done { result } => Some(result),
                _ => None,
            }),
    {
        match *self {
            Allocation::Done { result } => Some(result),
            _ => None,
        }
    }
}

/// A resize in progress.
#[derive(Clone, Copy, Debug)]
pub enum Resizing {
    Truncating { region: Shm, length: usize },
    Mapping { region: Shm, length: usize },
    /// The new mapping failed: the object is sized back to the old length.
    Restoring { region: Shm, length: usize },
    /// The new mapping exists: the old one is dropped.
    Unmapping { region: Shm, length: usize },
    /// `region` is the region as it now stands.
    Done { region: Shm, result: Result<(), ShmError> },
}

impl Resizing {
    pub open spec fn start(region: Shm, length: usize) -> Resizing {
        if length == 0 {
            Resizing::Done { region, result: Err(ShmError::InvalidArgument) }
        } else {
            Resizing::Truncating { region, length }
        }
    }

    pub open spec fn wf(self) -> bool {
        match self {
            Resizing::Truncating { region, length } => region.wf() && length > 0,
            Resizing::Mapping { region, length } => region.wf() && length > 0,
            Resizing::Restoring { region, length } => region.wf() && length > 0,
            Resizing::Unmapping { region, length } => region.wf() && length > 0,
            Resizing::Done { region, .. } => region.wf(),
        }
    }

    pub open spec fn op(self) -> Option<ShmOp> {
        match self {
            Resizing::Truncating { length, .. } => Some(ShmOp::Truncate { length }),
            Resizing::Mapping { length, .. } => Some(ShmOp::MapShared { length }),
            Resizing::Restoring { region, .. } => Some(ShmOp::Truncate { length: region.length }),
            Resizing::Unmapping { region, .. } => Some(ShmOp::UnmapPrevious { length: region.length }),
            Resizing::Done { .. } => None,
        }
    }

    /// The state after the driver reports `res` for the current step. If
    /// even the old size cannot be restored, only the bytes that the object
    /// still backs stay usable.
    pub open spec fn step(self, res: StepResult) -> Resizing {
        match self {
            Resizing::Truncating { region, length } => if succeeded(res) {
                Resizing::Mapping { region, length }
            } else {
                Resizing::Done { region, result: Err(ShmError::AllocationFailed) }
            },
            Resizing::Mapping { region, length } => if succeeded(res) {
                Resizing::Unmapping { region, length }
            } else {
                Resizing::Restoring { region, length }
            },
            Resizing::Restoring { region, length } => if succeeded(res) || region.length <= length {
                Resizing::Done { region, result: Err(ShmError::AllocationFailed) }
            } else {
                Resizing::Done {
                    region: Shm { length, ..region },
                    result: Err(ShmError::AllocationFailed),
                }
            },
            Resizing::Unmapping { region, length } => Resizing::Done {
                region: Shm { length, ..region },
                result: Ok(()),
            },
            Resizing::Done { .. } => self,
        }
    }

    pub open spec fn run(self, results: Seq<StepResult>) -> Resizing
        decreases results.len(),
    {
        if results.len() == 0 {
            self
        } else {
            self.step(results[0]).run(results.drop_first())
        }
    }

    pub fn next_op(&self) -> (r: Option<ShmOp>)
        ensures
            r == self.op(),
    {
        match *self {
            Resizing::Truncating { length, .. } => Some(ShmOp::Truncate { length }),
            Resizing::Mapping { length, .. } => Some(ShmOp::MapShared { length }),
            Resizing::Restoring { region, .. } => Some(ShmOp::Truncate { length: region.length }),
            Resizing::Unmapping { region, .. } => Some(ShmOp::UnmapPrevious { length: region.length }),
            Resizing::Done { .. } => None,
        }
    }

    pub fn advance(&mut self, res: StepResult)
        requires
            old(self).wf(),
        ensures
            final(self).wf(),
            *final(self) == old(self).step(res),
    {
        let ok = !matches!(res, StepResult::Failed);
        let next = match *self {
            Resizing::Truncating { region, length } => if ok {
                Resizing::Mapping { region, length }
            } else {
                Resizing::Done { region, result: Err(ShmError::AllocationFailed) }
            },
            Resizing::Mapping { region, length } => if ok {
                Resizing::Unmapping { region, length }
            } else {
                Resizing::Restoring { region, length }
            },
            Resizing::Restoring { region, length } => if ok || region.length <= length {
                Resizing::Done { region, result: Err(ShmError::AllocationFailed) }
            } else {
                Resizing::Done {
                    region: Shm { fd: region.fd, length },
                    result: Err(ShmError::AllocationFailed),
                }
            },
            Resizing::Unmapping { region, length } => Resizing::Done {
                region: Shm { fd: region.fd, length },
                result: Ok(()),
            },
            Resizing::Done { region, result } => Resizing::Done { region, result },
        };
        *self = next;
    }

    /// The region as it now stands and the result, once done.
    pub fn outcome(&self) -> (r: Option<(Shm, Result<(), ShmError>)>)
        ensures
            r == (match *self {
                Resizing::Done { region, result } => Some((region, result)),
                _ => None,
            }),
    {
        match *self {
            Resizing::Done { region, result } => Some((region, result)),
            _ => None,
        }
    }
}

/// An allocation of a positive length whose steps all succeed asks for
/// creation, sizing to `length` and mapping `length` bytes, in that order,
/// and yields a region of exactly `length` bytes on the created handle.
pub proof fn lemma_allocation_succeeds(length: usize, fd: i32)
    requires
        length > 0,
        fd >= 0,
    ensures
        ({
            let s0 = Allocation::start(length);
            let s1 = s0.step(StepResult::Created { fd });
            let s2 = s1.step(StepResult::Succeeded);
            let s3 = s2.step(StepResult::Succeeded);
            &&& s0.op() == Some(ShmOp::Create)
            &&& s1.op() == Some(ShmOp::Truncate { length })
            &&& s2.op() == Some(ShmOp::MapShared { length })
            &&& s3 == Allocation::Done { result: Ok(Shm { fd, length }) }
            &&& s3.op() is None
        }),
{
}

/// A zero-length allocation fails with `InvalidArgument` before any step.
pub proof fn lemma_allocation_of_zero_fails()
    ensures
        Allocation::start(0) == (Allocation::Done { result: Err(ShmError::InvalidArgument) }),
        Allocation::start(0).op() is None,
{
}

/// A failure after the object was created closes its handle before the
/// error is reported.
pub proof fn lemma_allocation_failure_closes(fd: i32, length: usize)
    requires
        fd >= 0,
        length > 0,
    ensures
        (Allocation::Truncating { fd, length }).step(StepResult::Failed) == (Allocation::Closing { fd }),
        (Allocation::Mapping { fd, length }).step(StepResult::Failed) == (Allocation::Closing { fd }),
        (Allocation::Closing { fd }).op() == Some(ShmOp::Close),
        forall|res: StepResult|
            (#[trigger] (Allocation::Closing { fd }).step(res)) == (Allocation::Done {
                result: Err(ShmError::AllocationFailed),
            }),
{
}

/// Whatever the driver reports, an allocation that ends in a region ends in
/// one of exactly the asked length.
pub proof fn lemma_allocation_length(length: usize, results: Seq<StepResult>)
    ensures
        Allocation::start(length).run(results) matches Allocation::Done { result: Ok(r) } ==> r.length == length,
{
    lemma_allocation_run_keeps(Allocation::start(length), length, results);
}

/// Every state from a start of `length` only ever carries `length`.
pub open spec fn allocation_carries(s: Allocation, length: usize) -> bool {
    match s {
        Allocation::Creating { length: l } => l == length,
        Allocation::Truncating { length: l, .. } => l == length,
        Allocation::Mapping { length: l, .. } => l == length,
        Allocation::Closing { .. } => true,
        Allocation::Done { result } => result matches Ok(r) ==> r.length == length,
    }
}

proof fn lemma_allocation_run_keeps(s: Allocation, length: usize, results: Seq<StepResult>)
    requires
        allocation_carries(s, length),
    ensures
        allocation_carries(s.run(results), length),
    decreases results.len(),
{
    if results.len() > 0 {
        lemma_allocation_run_keeps(s.step(results[0]), length, results.drop_first());
    }
}

/// What a resize of `region` to `length` leaves at each point: before the
/// end the region is untouched; a success holds the same handle at the new
/// length; a failure the same handle at the old length, or at the smaller
/// length where even restoring the size failed.
pub open spec fn resize_tracks(s: Resizing, region: Shm, length: usize) -> bool {
    match s {
        Resizing::Truncating { region: r, length: l } => r == region && l == length,
        Resizing::Mapping { region: r, length: l } => r == region && l == length,
        Resizing::Restoring { region: r, length: l } => r == region && l == length,
        Resizing::Unmapping { region: r, length: l } => r == region && l == length,
        Resizing::Done { region: r, result } => {
            &&& r.fd == region.fd
            &&& result is Ok ==> r.length == length
            &&& result is Err ==> (r.length == region.length || r.length == length)
        },
    }
}

proof fn lemma_resize_run_tracks(s: Resizing, region: Shm, length: usize, results: Seq<StepResult>)
    requires
        resize_tracks(s, region, length),
    ensures
        resize_tracks(s.run(results), region, length),
    decreases results.len(),
{
    if results.len() > 0 {
        lemma_resize_run_tracks(s.step(results[0]), region, length, results.drop_first());
    }
}

/// Whatever the driver reports, a resize that succeeds leaves the same
/// handle mapped at exactly the new length, and one that fails leaves the
/// same handle, at the old length unless even restoring it failed.
pub proof fn lemma_resize_outcome(region: Shm, length: usize, results: Seq<StepResult>)
    requires
        region.wf(),
    ensures
        Resizing::start(region, length).run(results) matches Resizing::Done { region: r, result } ==> {
            &&& r.fd == region.fd
            &&& result is Ok ==> r.length == length
            &&& result is Err ==> (r.length == region.length || r.length == length)
        },
{
    lemma_resize_run_tracks(Resizing::start(region, length), region, length, results);
}

/// A resize to a positive length whose steps all succeed sizes, maps, drops
/// the old mapping, and ends with the same handle at the new length.
pub proof fn lemma_resize_succeeds(region: Shm, length: usize)
    requires
        region.wf(),
        length > 0,
    ensures
        ({
            let s0 = Resizing::start(region, length);
            let s1 = s0.step(StepResult::Succeeded);
            let s2 = s1.step(StepResult::Succeeded);
            let s3 = s2.step(StepResult::Succeeded);
            &&& s0.op() == Some(ShmOp::Truncate { length })
            &&& s1.op() == Some(ShmOp::MapShared { length })
            &&& s2.op() == Some(ShmOp::UnmapPrevious { length: region.length })
            &&& s3 == Resizing::Done { region: Shm { fd: region.fd, length }, result: Ok(()) }
        }),
{
}

} // verus!
