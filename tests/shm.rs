use dwr::shm::{Allocation, Resizing, Shm, ShmError, ShmOp, StepResult};

/// Runs an allocation against an operating system whose every step succeeds
/// and whose handles count up from `first_fd`.
fn allocate_ok(length: usize, first_fd: i32) -> Result<Shm, ShmError> {
    let mut task = Shm::new(length);
    let mut ops = Vec::new();
    while let Some(op) = task.next_op() {
        ops.push(op);
        let res = match op {
            ShmOp::Create => StepResult::Created { fd: first_fd },
            _ => StepResult::Succeeded,
        };
        task.advance(res);
    }
    task.outcome().expect("allocation finished")
}

/// Runs an allocation whose step number `fail_at` fails, recording the steps asked for.
fn allocate_failing(length: usize, fail_at: usize) -> (Result<Shm, ShmError>, Vec<ShmOp>) {
    let mut task = Shm::new(length);
    let mut ops = Vec::new();
    while let Some(op) = task.next_op() {
        let res = if ops.len() == fail_at {
            StepResult::Failed
        } else if op == ShmOp::Create {
            StepResult::Created { fd: 9 }
        } else {
            StepResult::Succeeded
        };
        ops.push(op);
        task.advance(res);
    }
    (task.outcome().expect("allocation finished"), ops)
}

fn resize_with(region: Shm, length: usize, results: &[StepResult]) -> (Shm, Result<(), ShmError>, Vec<ShmOp>) {
    let mut task: Resizing = region.resize(length);
    let mut ops = Vec::new();
    let mut k = 0;
    while let Some(op) = task.next_op() {
        ops.push(op);
        task.advance(results[k]);
        k += 1;
    }
    let (r, res) = task.outcome().expect("resize finished");
    (r, res, ops)
}

#[test]
fn invoke_single() {
    allocate_ok(1024, 3).expect("Failed simple");
}

#[test]
fn invoke_a_lot() {
    for i in 0..500 {
        allocate_ok(1024, 3 + i).expect(&format!("Failed at {i}"));
    }
}

#[test]
#[should_panic]
fn alloc_zero() {
    allocate_ok(0, 3).expect("Zero byte allocations should be fail");
}

#[test]
fn alloc_4kb() {
    allocate_ok(4 * 1024, 3).expect("Failed 4kb");
}

#[test]
fn alloc_2mb() {
    allocate_ok(2 * 1024 * 1024, 3).expect("Failed 2mb");
}

#[test]
fn alloc_gb() {
    allocate_ok(1024 * 1024 * 1024, 3).expect("Failed 1gb");
}

#[test]
fn allocation_has_exact_length_and_handle() {
    let region = allocate_ok(1_800_000, 7).unwrap();
    assert_eq!(region.len(), 1_800_000);
    assert_eq!(region.get_raw_fd(), 7);
}

#[test]
fn allocation_steps_in_order() {
    let mut task = Shm::new(64);
    assert_eq!(task.next_op(), Some(ShmOp::Create));
    task.advance(StepResult::Created { fd: 4 });
    assert_eq!(task.next_op(), Some(ShmOp::Truncate { length: 64 }));
    task.advance(StepResult::Succeeded);
    assert_eq!(task.next_op(), Some(ShmOp::MapShared { length: 64 }));
    task.advance(StepResult::Succeeded);
    assert_eq!(task.next_op(), None);
    assert_eq!(task.outcome(), Some(Ok(Shm { fd: 4, length: 64 })));
}

#[test]
fn zero_allocation_is_invalid_argument_without_steps() {
    let task = Shm::new(0);
    assert_eq!(task.next_op(), None);
    assert_eq!(task.outcome(), Some(Err(ShmError::InvalidArgument)));
}

#[test]
fn failed_create_reports_allocation_failed() {
    let (r, ops) = allocate_failing(64, 0);
    assert_eq!(r, Err(ShmError::AllocationFailed));
    assert_eq!(ops, vec![ShmOp::Create]);
}

#[test]
fn negative_handle_counts_as_failed_create() {
    let mut task = Shm::new(64);
    task.advance(StepResult::Created { fd: -1 });
    assert!(matches!(task, Allocation::Done { result: Err(ShmError::AllocationFailed) }));
}

#[test]
fn failed_truncate_closes_handle() {
    let (r, ops) = allocate_failing(64, 1);
    assert_eq!(r, Err(ShmError::AllocationFailed));
    assert_eq!(ops, vec![ShmOp::Create, ShmOp::Truncate { length: 64 }, ShmOp::Close]);
}

#[test]
fn failed_map_closes_handle() {
    let (r, ops) = allocate_failing(64, 2);
    assert_eq!(r, Err(ShmError::AllocationFailed));
    assert_eq!(
        ops,
        vec![ShmOp::Create, ShmOp::Truncate { length: 64 }, ShmOp::MapShared { length: 64 }, ShmOp::Close]
    );
}

#[test]
fn resize_keeps_handle_and_takes_new_length() {
    let region = Shm { fd: 5, length: 1_800_000 };
    let ok = [StepResult::Succeeded; 3];
    let (r, res, ops) = resize_with(region, 2_880_000, &ok);
    assert_eq!(res, Ok(()));
    assert_eq!(r.len(), 2_880_000);
    assert_eq!(r.get_raw_fd(), 5);
    assert_eq!(
        ops,
        vec![
            ShmOp::Truncate { length: 2_880_000 },
            ShmOp::MapShared { length: 2_880_000 },
            ShmOp::UnmapPrevious { length: 1_800_000 },
        ]
    );
}

#[test]
fn resize_with_failed_truncate_is_unchanged() {
    let region = Shm { fd: 5, length: 100 };
    let (r, res, ops) = resize_with(region, 200, &[StepResult::Failed]);
    assert_eq!(res, Err(ShmError::AllocationFailed));
    assert_eq!(r, region);
    assert_eq!(ops, vec![ShmOp::Truncate { length: 200 }]);
}

#[test]
fn resize_with_failed_map_restores_length() {
    let region = Shm { fd: 5, length: 100 };
    let (r, res, ops) =
        resize_with(region, 50, &[StepResult::Succeeded, StepResult::Failed, StepResult::Succeeded]);
    assert_eq!(res, Err(ShmError::AllocationFailed));
    assert_eq!(r, region);
    assert_eq!(
        ops,
        vec![ShmOp::Truncate { length: 50 }, ShmOp::MapShared { length: 50 }, ShmOp::Truncate { length: 100 }]
    );
}

#[test]
fn resize_with_failed_restore_keeps_backed_bytes_only() {
    let region = Shm { fd: 5, length: 100 };
    let (r, res, _) =
        resize_with(region, 50, &[StepResult::Succeeded, StepResult::Failed, StepResult::Failed]);
    assert_eq!(res, Err(ShmError::AllocationFailed));
    assert_eq!(r, Shm { fd: 5, length: 50 });
}

#[test]
fn resize_to_zero_is_invalid_argument() {
    let region = Shm { fd: 5, length: 100 };
    let (r, res, ops) = resize_with(region, 0, &[]);
    assert_eq!(res, Err(ShmError::InvalidArgument));
    assert_eq!(r, region);
    assert!(ops.is_empty());
}

#[test]
fn release_unmaps_then_closes() {
    let region = Shm { fd: 5, length: 100 };
    assert_eq!(region.release(), vec![ShmOp::Unmap { length: 100 }, ShmOp::Close]);
}
