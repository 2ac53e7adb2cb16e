use amdu::batch::{BatchProgress, BatchRun};
use amdu::presets::Mod;
use amdu::reconcile::compute_removal_set;

fn mk(id: u64, name: &str) -> Mod {
    Mod {
        tags: vec![],
        url: String::new(),
        id,
        name: name.to_string(),
        local_filesize: 0,
    }
}

#[test]
fn batch_with_one_remote_failure_attempts_everything() {
    // Three selected items; the removal of item 2 fails remotely. The
    // counter still ends at 3 and the summary reports exactly one failure.
    let mut run = BatchRun::start(vec![1, 2, 3]);
    assert_eq!(run.progress().completed, 0);
    assert_eq!(run.progress().total, 3);

    // The simulated service: item 2 refuses to go away.
    let mut subscribed: Vec<u64> = vec![1, 2, 3];
    while let Some(id) = run.take_next() {
        let ok = id != 2;
        if ok {
            subscribed.retain(|s| *s != id);
        }
        run.record_outcome(ok);
    }
    assert!(run.is_done());
    assert_eq!(run.progress().completed, 3);
    assert_eq!(run.progress().total, 3);

    let err = run.summary().unwrap_err();
    assert_eq!(err.failed, vec![2]);

    // The refreshed universe still holds item 2 but not items 1 and 3.
    assert_eq!(subscribed, vec![2]);
}

#[test]
fn batch_of_all_successes_summarises_ok() {
    let mut run = BatchRun::start(vec![10, 20]);
    while let Some(_id) = run.take_next() {
        run.record_outcome(true);
    }
    assert!(run.is_done());
    assert!(run.summary().is_ok());
    assert_eq!(run.progress().completed, 2);
}

#[test]
fn empty_batch_is_immediately_done() {
    let mut run = BatchRun::start(vec![]);
    assert!(run.is_done());
    assert_eq!(run.take_next(), None);
    assert!(run.is_done());
    assert_eq!(run.progress().completed, 0);
    assert_eq!(run.progress().total, 0);
    assert!(run.summary().is_ok());
}

#[test]
fn counter_steps_before_the_removal_is_issued() {
    let mut run = BatchRun::start(vec![5, 6]);
    let id = run.take_next().unwrap();
    assert_eq!(id, 5);
    // While the first removal is in flight a reader already sees 1 of 2.
    assert_eq!(run.progress().completed, 1);
    assert_eq!(run.progress().total, 2);
    run.record_outcome(true);
    assert_eq!(run.progress().completed, 1);
    let id = run.take_next().unwrap();
    assert_eq!(id, 6);
    assert_eq!(run.progress().completed, 2);
    run.record_outcome(false);
    assert_eq!(run.summary().unwrap_err().failed, vec![6]);
}

#[test]
fn failures_keep_batch_order() {
    let mut run = BatchRun::start(vec![4, 3, 2, 1]);
    while let Some(id) = run.take_next() {
        run.record_outcome(id % 2 == 0);
    }
    assert_eq!(run.summary().unwrap_err().failed, vec![3, 1]);
    assert_eq!(run.progress().completed, 4);
}

#[test]
fn progress_packs_into_one_word_and_back() {
    let p = BatchProgress {
        completed: 7,
        total: 19,
    };
    let q = BatchProgress::unpack(p.pack());
    assert_eq!(q, p);

    let z = BatchProgress::begin(0);
    assert_eq!(BatchProgress::unpack(z.pack()), z);

    let big = BatchProgress {
        completed: u32::MAX,
        total: u32::MAX,
    };
    assert_eq!(BatchProgress::unpack(big.pack()), big);
}

#[test]
fn begin_resets_the_pair_as_one_snapshot() {
    let p = BatchProgress::begin(42);
    assert_eq!(p.completed, 0);
    assert_eq!(p.total, 42);
    // The packed word a writer publishes at batch start never shows the new
    // total beside a stale counter.
    assert_eq!(BatchProgress::unpack(p.pack()).completed, 0);
    assert_eq!(BatchProgress::unpack(p.pack()).total, 42);
}

#[test]
fn failed_batch_leaves_items_for_the_next_refresh() {
    // After a batch with failures, recomputing the removal set over the
    // refreshed universe offers the failed item again.
    let mut run = BatchRun::start(vec![1, 2]);
    let mut subscribed = vec![mk(1, "a"), mk(2, "b"), mk(3, "kept")];
    while let Some(id) = run.take_next() {
        let ok = id != 2;
        if ok {
            subscribed.retain(|m| m.id != id);
        }
        run.record_outcome(ok);
    }
    assert_eq!(run.summary().unwrap_err().failed, vec![2]);
    let again = compute_removal_set(&subscribed, &vec![], &vec![]);
    let ids: Vec<u64> = again.iter().map(|m| m.id).collect();
    assert_eq!(ids, vec![2, 3]);
}
