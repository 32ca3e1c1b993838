use weighted_semaphore::AcquireError;
use weighted_semaphore::Acquired;
use weighted_semaphore::Semaphore;

fn grant(sem: &mut Semaphore, weight: usize) -> Acquired {
    sem.acquire(weight)
        .expect("weight within capacity")
        .expect("capacity available")
}

#[test]
fn new_semaphore_is_empty() {
    let sem = Semaphore::new(3);
    assert_eq!(sem.capacity(), 3);
    assert_eq!(sem.outstanding(), 0);
}

#[test]
fn acquire_reserves_its_weight() {
    let mut sem = Semaphore::new(10);
    let handle = grant(&mut sem, 4);
    assert_eq!(handle.weight(), 4);
    assert_eq!(sem.outstanding(), 4);
    assert_eq!(sem.capacity(), 10);
}

#[test]
fn acquire_of_whole_capacity_succeeds() {
    let mut sem = Semaphore::new(3);
    let handle = grant(&mut sem, 3);
    assert_eq!(handle.weight(), 3);
    assert_eq!(sem.outstanding(), 3);
}

#[test]
fn over_capacity_request_fails_fast() {
    let mut sem = Semaphore::new(3);
    let r = sem.acquire(5);
    assert_eq!(r, Err(AcquireError::OverCapacityRequest));
    assert_eq!(sem.outstanding(), 0);
    // The semaphore is untouched and still serves sound requests.
    let handle = grant(&mut sem, 3);
    assert_eq!(sem.outstanding(), 3);
    sem.release(handle);
}

#[test]
fn over_capacity_request_fails_for_smallest_capacity() {
    let mut sem = Semaphore::new(1);
    assert_eq!(sem.acquire(2), Err(AcquireError::OverCapacityRequest));
    assert_eq!(sem.outstanding(), 0);
}

#[test]
fn full_semaphore_defers_sound_requests() {
    // Capacity 3: a single acquire of 3 succeeds; a concurrent acquire of 1
    // waits (the decision step answers Ok(None)) until the first handle is
    // released, then succeeds.
    let mut sem = Semaphore::new(3);
    let first = grant(&mut sem, 3);
    assert_eq!(sem.outstanding(), 3);
    assert_eq!(sem.acquire(1), Ok(None));
    assert_eq!(sem.outstanding(), 3);
    sem.release(first);
    assert_eq!(sem.outstanding(), 0);
    let second = grant(&mut sem, 1);
    assert_eq!(sem.outstanding(), 1);
    sem.release(second);
}

#[test]
fn three_units_fill_then_fourth_waits() {
    // Capacity 3: three acquires of weight 1 all succeed; a fourth waits;
    // releasing one of the first three lets it in; after all four are
    // released nothing is outstanding.
    let mut sem = Semaphore::new(3);
    let a = grant(&mut sem, 1);
    let b = grant(&mut sem, 1);
    let c = grant(&mut sem, 1);
    assert_eq!(sem.outstanding(), 3);
    assert_eq!(sem.acquire(1), Ok(None));
    sem.release(a);
    assert_eq!(sem.outstanding(), 2);
    let d = grant(&mut sem, 1);
    assert_eq!(sem.outstanding(), 3);
    sem.release(b);
    sem.release(c);
    sem.release(d);
    assert_eq!(sem.outstanding(), 0);
}

#[test]
fn release_returns_exactly_the_handle_weight() {
    let mut sem = Semaphore::new(10);
    let small = grant(&mut sem, 2);
    let large = grant(&mut sem, 5);
    assert_eq!(sem.outstanding(), 7);
    sem.release(small);
    assert_eq!(sem.outstanding(), 5);
    sem.release(large);
    assert_eq!(sem.outstanding(), 0);
}

#[test]
fn outstanding_never_exceeds_capacity() {
    // A mixed run of grants, refusals and releases: at every step the
    // outstanding weight stays within the capacity bound.
    let mut sem = Semaphore::new(4);
    let mut held: Vec<Acquired> = Vec::new();
    for weight in [2usize, 1, 3, 1, 2] {
        match sem.acquire(weight) {
            Ok(Some(handle)) => held.push(handle),
            Ok(None) => {
                let returned = held.remove(0);
                sem.release(returned);
            }
            Err(e) => panic!("sound request refused: {:?}", e),
        }
        assert!(sem.outstanding() <= sem.capacity());
    }
    while let Some(handle) = held.pop() {
        sem.release(handle);
        assert!(sem.outstanding() <= sem.capacity());
    }
    assert_eq!(sem.outstanding(), 0);
}

#[test]
fn exact_fit_succeeds_and_one_more_waits() {
    let mut sem = Semaphore::new(5);
    let a = grant(&mut sem, 2);
    let b = grant(&mut sem, 3);
    assert_eq!(sem.outstanding(), 5);
    assert_eq!(sem.acquire(1), Ok(None));
    sem.release(a);
    sem.release(b);
}
