use integrity::{split_for_prune, Action, Event, Orchestrator, Phase, TrackedFile};

fn file(i: u64) -> TrackedFile {
    TrackedFile { path: format!("f{}", i), size: 100 + i }
}

#[test]
fn prune_five_files() {
    let mut files: Vec<TrackedFile> = (0..5).map(file).collect();
    let pruned = split_for_prune(&mut files);
    let pruned_paths: Vec<&str> = pruned.iter().map(|f| f.path.as_str()).collect();
    let kept_paths: Vec<&str> = files.iter().map(|f| f.path.as_str()).collect();
    assert_eq!(pruned_paths, vec!["f4", "f2", "f0"]);
    assert_eq!(kept_paths, vec!["f1", "f3"]);
}

#[test]
fn prune_small_lists() {
    let mut none: Vec<TrackedFile> = Vec::new();
    assert!(split_for_prune(&mut none).is_empty());
    assert!(none.is_empty());
    let mut one = vec![file(0)];
    let pruned = split_for_prune(&mut one);
    assert_eq!(pruned.len(), 1);
    assert!(one.is_empty());
    let mut four: Vec<TrackedFile> = (0..4).map(file).collect();
    let pruned = split_for_prune(&mut four);
    assert_eq!(pruned.iter().map(|f| f.size).collect::<Vec<_>>(), vec![102, 100]);
    assert_eq!(four.iter().map(|f| f.size).collect::<Vec<_>>(), vec![101, 103]);
}

#[test]
fn run_cycle_drains_even_indices() {
    let mut o = Orchestrator::new();
    assert_eq!(o.phase(), Phase::Filling);
    for i in 0..5 {
        let a = o.step(Event::Created(format!("f{}", i), 10), false);
        assert!(matches!(a, Action::Create));
    }
    assert_eq!(o.counters().files_created, 5);
    assert_eq!(o.counters().total_bytes, 50);
    assert!(matches!(o.step(Event::NoRoom, false), Action::VerifyAll));
    assert_eq!(o.phase(), Phase::Draining);
    assert_eq!(o.files().len(), 5);
    match o.step(Event::AllVerified, false) {
        Action::DeleteAll(v) => {
            let p: Vec<&str> = v.iter().map(|f| f.path.as_str()).collect();
            assert_eq!(p, vec!["f4", "f2", "f0"]);
        }
        _ => panic!("expected deletions"),
    }
    let kept: Vec<&str> = o.files().iter().map(|f| f.path.as_str()).collect();
    assert_eq!(kept, vec!["f1", "f3"]);
    assert_eq!(o.phase(), Phase::Pruning);
    assert!(matches!(o.step(Event::Deleted, false), Action::Create));
    assert_eq!(o.phase(), Phase::Filling);
    assert_eq!(o.counters().files_created, 5);
}

#[test]
fn cancel_stops_after_unit() {
    let mut o = Orchestrator::new();
    assert!(matches!(o.step(Event::Created(String::from("a"), 1), true), Action::Stop));
    assert_eq!(o.phase(), Phase::Stopped);
    assert_eq!(o.counters().files_created, 1);
    assert!(!o.expects(&Event::NoRoom));

    let mut o = Orchestrator::new();
    assert!(matches!(o.step(Event::NoRoom, true), Action::VerifyAll));
    assert!(matches!(o.step(Event::AllVerified, true), Action::DeleteAll(_)));
    assert!(matches!(o.step(Event::Deleted, true), Action::Stop));
}

#[test]
fn failures_abort() {
    let mut o = Orchestrator::new();
    assert!(matches!(o.step(Event::CreateFailed, false), Action::Abort));
    assert_eq!(o.phase(), Phase::Aborted);

    let mut o = Orchestrator::new();
    o.step(Event::Created(String::from("a"), 3), false);
    o.step(Event::NoRoom, false);
    assert!(o.expects(&Event::VerifyFailed));
    assert!(!o.expects(&Event::Deleted));
    assert!(matches!(o.step(Event::VerifyFailed, false), Action::Abort));
    assert_eq!(o.phase(), Phase::Aborted);
    assert_eq!(o.files().len(), 1);
}

#[test]
fn counters_saturate() {
    let mut o = Orchestrator::new();
    o.step(Event::Created(String::from("a"), u64::MAX), false);
    o.step(Event::Created(String::from("b"), 5), false);
    assert_eq!(o.counters().total_bytes, u64::MAX);
    assert_eq!(o.counters().files_created, 2);
}
