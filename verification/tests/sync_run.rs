use treesync::bucket::Bucket;
use treesync::sched::{aggregate, Scheduler, UploadOutcome, UploadResult};
use treesync::walker::{plan_root, FaultKind, FsTree, RootEntry, WalkItem};

fn file(name: &str, content: &str) -> FsTree {
    FsTree::File { name: name.to_string(), content: content.as_bytes().to_vec() }
}

fn dir(name: &str, entries: Vec<FsTree>) -> FsTree {
    FsTree::Dir { name: name.to_string(), readable: true, entries }
}

fn unreadable_dir(name: &str) -> FsTree {
    FsTree::Dir { name: name.to_string(), readable: false, entries: Vec::new() }
}

fn unreadable_file(name: &str) -> FsTree {
    FsTree::UnreadableFile { name: name.to_string() }
}

fn target_count(items: &[WalkItem]) -> usize {
    items.iter().filter(|i| matches!(i, WalkItem::Target(_))).count()
}

/// Runs every planned upload to completion, asking the backend model
/// to reject the given keys.
fn run_all(items: Vec<WalkItem>, limit: usize, bucket: &mut Bucket, reject: &[&str]) -> Vec<UploadResult> {
    let mut sched = Scheduler::seed(items, limit);
    loop {
        match sched.start_next() {
            Some(target) => {
                assert!(sched.flying_count() <= limit);
                if reject.contains(&target.key.as_str()) {
                    sched.complete(0, UploadOutcome::RejectedStorage("rejected".to_string()));
                } else {
                    bucket.put(target.key, target.content);
                    sched.complete(0, UploadOutcome::Accepted);
                }
            }
            None => {
                if sched.is_done() {
                    break;
                }
            }
        }
    }
    sched.into_results()
}

#[test]
fn coverage_counts_every_file_once() {
    let tree = dir(
        "data",
        vec![
            file("a.txt", "one"),
            file("b.txt", "two"),
            dir("sub", vec![file("c.txt", "three"), dir("deeper", vec![file("d.txt", "four")])]),
        ],
    );
    let items = plan_root(&RootEntry::Node(tree)).unwrap();
    assert_eq!(items.len(), 4);
    assert_eq!(target_count(&items), 4);
    let keys: Vec<&str> = items
        .iter()
        .filter_map(|i| match i {
            WalkItem::Target(t) => Some(t.key.as_str()),
            WalkItem::Fault(_) => None,
        })
        .collect();
    assert_eq!(keys, vec!["a.txt", "b.txt", "c.txt", "d.txt"]);

    let mut bucket = Bucket::new();
    let results = run_all(items, 2, &mut bucket, &[]);
    assert_eq!(results.len(), 4);
    let report = aggregate(&results, false);
    assert_eq!(report.uploaded, 4);
    assert_eq!(report.failures.len(), 0);
    assert!(!report.is_failed());
}

#[test]
fn single_file_root_uploads_once() {
    let items = plan_root(&RootEntry::Node(file("solo.txt", "payload"))).unwrap();
    assert_eq!(items.len(), 1);
    match &items[0] {
        WalkItem::Target(t) => {
            assert_eq!(t.key, "solo.txt");
            assert_eq!(t.path, vec!["solo.txt".to_string()]);
            assert_eq!(t.content, b"payload".to_vec());
        }
        WalkItem::Fault(_) => panic!("a file root must plan an upload"),
    }
}

#[test]
fn one_failure_leaves_siblings_untouched() {
    let tree = dir(
        "data",
        vec![file("a.txt", "a"), file("bad.txt", "b"), file("c.txt", "c")],
    );
    let items = plan_root(&RootEntry::Node(tree)).unwrap();
    let mut bucket = Bucket::new();
    let results = run_all(items, 1, &mut bucket, &["bad.txt"]);
    assert_eq!(results.len(), 3);
    let report = aggregate(&results, false);
    assert_eq!(report.uploaded, 2);
    assert_eq!(report.failures.len(), 1);
    assert!(report.is_failed());
    match &report.failures[0] {
        UploadResult::Failure { kind, path, .. } => {
            assert_eq!(*kind, FaultKind::Storage);
            assert_eq!(path.last().unwrap(), "bad.txt");
        }
        UploadResult::Success { .. } => panic!("the failure list held a success"),
    }
    assert!(bucket.get(&"a.txt".to_string()).is_some());
    assert!(bucket.get(&"bad.txt".to_string()).is_none());
    assert!(bucket.get(&"c.txt".to_string()).is_some());
}

#[test]
fn identical_base_names_collide_and_the_second_wins() {
    let tree = dir(
        "data",
        vec![
            dir("sub1", vec![file("name.txt", "first")]),
            dir("sub2", vec![file("name.txt", "second")]),
        ],
    );
    let items = plan_root(&RootEntry::Node(tree)).unwrap();
    let keys: Vec<&str> = items
        .iter()
        .filter_map(|i| match i {
            WalkItem::Target(t) => Some(t.key.as_str()),
            WalkItem::Fault(_) => None,
        })
        .collect();
    assert_eq!(keys, vec!["name.txt", "name.txt"]);

    let mut bucket = Bucket::new();
    for item in items {
        if let WalkItem::Target(t) = item {
            bucket.put(t.key, t.content);
        }
    }
    assert_eq!(bucket.get(&"name.txt".to_string()).unwrap(), &b"second".to_vec());
}

#[test]
fn missing_root_is_a_single_precondition_fault() {
    match plan_root(&RootEntry::Missing) {
        Err(k) => assert_eq!(k, FaultKind::Precondition),
        Ok(_) => panic!("a missing root must not plan any upload"),
    }
    match plan_root(&RootEntry::Special) {
        Err(k) => assert_eq!(k, FaultKind::Precondition),
        Ok(_) => panic!("a special root must not plan any upload"),
    }
}

#[test]
fn in_flight_uploads_never_exceed_the_bound() {
    let tree = dir(
        "data",
        vec![
            file("1", "x"),
            file("2", "x"),
            file("3", "x"),
            file("4", "x"),
            file("5", "x"),
        ],
    );
    let items = plan_root(&RootEntry::Node(tree)).unwrap();
    let mut sched = Scheduler::seed(items, 2);

    let first = sched.start_next();
    assert!(first.is_some());
    let second = sched.start_next();
    assert!(second.is_some());
    assert_eq!(sched.flying_count(), 2);
    assert!(sched.start_next().is_none(), "the bound of 2 must hold");

    sched.complete(0, UploadOutcome::Accepted);
    assert_eq!(sched.flying_count(), 1);
    assert!(sched.start_next().is_some());
    assert_eq!(sched.flying_count(), 2);

    while !sched.is_done() {
        if sched.flying_count() > 0 {
            sched.complete(0, UploadOutcome::Accepted);
        } else {
            let started = sched.start_next();
            assert!(started.is_some());
            assert!(sched.flying_count() <= 2);
        }
    }
    let results = sched.into_results();
    assert_eq!(results.len(), 5);
}

#[test]
fn example_scenario_two_uploads_one_io_fault() {
    let tree = dir(
        "data",
        vec![
            file("a.txt", "hi"),
            dir("sub", vec![file("b.txt", "yo")]),
            unreadable_dir("sub2"),
        ],
    );
    let items = plan_root(&RootEntry::Node(tree)).unwrap();
    assert_eq!(items.len(), 3);

    let mut bucket = Bucket::new();
    let results = run_all(items, 4, &mut bucket, &[]);
    assert_eq!(results.len(), 3);
    let report = aggregate(&results, false);
    assert_eq!(report.uploaded, 2);
    assert_eq!(report.failures.len(), 1);
    assert!(report.is_failed());
    match &report.failures[0] {
        UploadResult::Failure { kind, path, .. } => {
            assert_eq!(*kind, FaultKind::Io);
            assert_eq!(path, &vec!["data".to_string(), "sub2".to_string()]);
        }
        UploadResult::Success { .. } => panic!("the failure list held a success"),
    }
    assert_eq!(bucket.get(&"a.txt".to_string()).unwrap(), &b"hi".to_vec());
    assert_eq!(bucket.get(&"b.txt".to_string()).unwrap(), &b"yo".to_vec());
}

#[test]
fn unreadable_file_is_an_isolated_io_fault() {
    let tree = dir(
        "data",
        vec![file("ok.txt", "fine"), unreadable_file("locked.txt"), file("also.txt", "fine")],
    );
    let items = plan_root(&RootEntry::Node(tree)).unwrap();
    assert_eq!(items.len(), 3);
    assert_eq!(target_count(&items), 2);

    let mut bucket = Bucket::new();
    let results = run_all(items, 2, &mut bucket, &[]);
    assert_eq!(results.len(), 3);
    let report = aggregate(&results, false);
    assert_eq!(report.uploaded, 2);
    assert_eq!(report.failures.len(), 1);
    match &report.failures[0] {
        UploadResult::Failure { kind, path, .. } => {
            assert_eq!(*kind, FaultKind::Io);
            assert_eq!(path, &vec!["data".to_string(), "locked.txt".to_string()]);
        }
        UploadResult::Success { .. } => panic!("the failure list held a success"),
    }
    assert!(bucket.get(&"ok.txt".to_string()).is_some());
    assert!(bucket.get(&"locked.txt".to_string()).is_none());
}

#[test]
fn cancel_drops_unfinished_work_at_once() {
    let tree = dir("data", vec![file("a", "x"), file("b", "x"), file("c", "x")]);
    let items = plan_root(&RootEntry::Node(tree)).unwrap();
    let mut sched = Scheduler::seed(items, 2);
    let started = sched.start_next();
    assert!(started.is_some());
    sched.complete(0, UploadOutcome::Accepted);
    sched.cancel();
    assert!(sched.is_done());
    let results = sched.into_results();
    assert_eq!(results.len(), 1);
    let report = aggregate(&results, true);
    assert!(report.cancelled);
    assert!(report.is_failed());
    assert_eq!(report.uploaded, 1);
}

#[test]
fn bucket_put_overwrites_and_get_misses_absent_keys() {
    let mut bucket = Bucket::new();
    assert!(bucket.get(&"k".to_string()).is_none());
    bucket.put("k".to_string(), vec![1, 2]);
    assert_eq!(bucket.get(&"k".to_string()).unwrap(), &vec![1, 2]);
    bucket.put("k".to_string(), vec![3]);
    assert_eq!(bucket.get(&"k".to_string()).unwrap(), &vec![3]);
    bucket.put("other".to_string(), vec![9]);
    assert_eq!(bucket.get(&"k".to_string()).unwrap(), &vec![3]);
}

#[test]
fn io_outcome_is_reported_in_its_own_domain() {
    let tree = dir("data", vec![file("gone.txt", "x")]);
    let items = plan_root(&RootEntry::Node(tree)).unwrap();
    let mut sched = Scheduler::seed(items, 1);
    let started = sched.start_next();
    assert!(started.is_some());
    sched.complete(0, UploadOutcome::FailedIo("vanished".to_string()));
    let results = sched.into_results();
    match &results[0] {
        UploadResult::Failure { kind, detail, .. } => {
            assert_eq!(*kind, FaultKind::Io);
            assert_eq!(detail, "vanished");
        }
        UploadResult::Success { .. } => panic!("a failed read must not report success"),
    }
}
