use python_package_manager::{
    batch_status, merge_outcomes, plan_batch, render_summary, run_batch, InstallEvent,
    InstallationOutcome, Package, PackageError, PackageRegistry,
};
use rayon::iter::{IndexedParallelIterator, IntoParallelRefIterator, ParallelIterator};

fn success(name: &str, version: &str) -> InstallationOutcome {
    InstallationOutcome::Success { name: name.to_string(), version: version.to_string() }
}

fn failure(name: &str, reason: &str) -> InstallationOutcome {
    InstallationOutcome::Failure { name: name.to_string(), reason: reason.to_string() }
}

#[test]
fn empty_batch_is_a_no_op() {
    let mut registry = PackageRegistry::new();
    registry.add_package(Package::new("kept".to_string(), "1.0".to_string()));
    let specs: Vec<String> = Vec::new();
    let events: Vec<InstallEvent> = Vec::new();
    let report = run_batch(&specs, &events, &mut registry);
    assert_eq!(report.succeeded, 0);
    assert_eq!(report.failed, 0);
    assert!(report.failures.is_empty());
    assert_eq!(registry.count(), 1);
    assert_eq!(registry.get_package("kept").unwrap().version, "1.0");
    assert!(batch_status(&report).is_ok());
}

#[test]
fn merge_adds_exactly_the_successes() {
    let mut registry = PackageRegistry::new();
    registry.add_package(Package::new("old".to_string(), "0.1".to_string()));
    let outcomes = vec![
        success("a", "1.0"),
        failure("b", "boom"),
        success("c", "3.0"),
        failure("d", "bust"),
    ];
    let report = merge_outcomes(&outcomes, &mut registry);
    assert_eq!(report.succeeded, 2);
    assert_eq!(report.failed, 2);
    assert_eq!(
        report.failures,
        vec![
            ("b".to_string(), "boom".to_string()),
            ("d".to_string(), "bust".to_string()),
        ]
    );
    assert_eq!(registry.count(), 3);
    assert_eq!(registry.get_package("old").unwrap().version, "0.1");
    assert_eq!(registry.get_package("a").unwrap().version, "1.0");
    assert_eq!(registry.get_package("c").unwrap().version, "3.0");
    assert_eq!(registry.get_package("b"), None);
    assert_eq!(registry.get_package("d"), None);
}

#[test]
fn merge_upserts_over_existing_entry() {
    let mut registry = PackageRegistry::new();
    registry.add_package(Package::new("a".to_string(), "0.9".to_string()));
    let outcomes = vec![success("a", "1.0")];
    let report = merge_outcomes(&outcomes, &mut registry);
    assert_eq!(report.succeeded, 1);
    assert_eq!(registry.count(), 1);
    assert_eq!(registry.get_package("a").unwrap().version, "1.0");
}

#[test]
fn merge_order_does_not_change_registry() {
    let outcomes_one =
        vec![success("a", "1.0"), failure("x", "nope"), success("b", "2.0"), success("c", "3.0")];
    let outcomes_two =
        vec![success("c", "3.0"), success("b", "2.0"), success("a", "1.0"), failure("x", "nope")];

    let mut registry_one = PackageRegistry::new();
    let mut registry_two = PackageRegistry::new();
    let report_one = merge_outcomes(&outcomes_one, &mut registry_one);
    let report_two = merge_outcomes(&outcomes_two, &mut registry_two);

    assert_eq!(report_one.succeeded, report_two.succeeded);
    assert_eq!(report_one.failed, report_two.failed);
    for name in ["a", "b", "c"] {
        assert_eq!(
            registry_one.get_package(name).unwrap().version,
            registry_two.get_package(name).unwrap().version
        );
    }
    assert_eq!(registry_one.count(), registry_two.count());
}

#[test]
fn run_batch_pairs_events_in_input_order() {
    let specs: Vec<String> = vec!["a==1.0".to_string(), "b".to_string()];
    let events = vec![
        InstallEvent::Success { queried_version: None },
        InstallEvent::Success { queried_version: Some("2.5".to_string()) },
    ];
    let mut registry = PackageRegistry::new();
    let report = run_batch(&specs, &events, &mut registry);
    assert_eq!(report.succeeded, 2);
    assert_eq!(report.failed, 0);
    assert_eq!(registry.get_package("a").unwrap().version, "1.0");
    assert_eq!(registry.get_package("b").unwrap().version, "2.5");
}

#[test]
fn run_batch_records_unknown_version_when_query_fails() {
    let specs: Vec<String> = vec!["b".to_string()];
    let events = vec![InstallEvent::Success { queried_version: None }];
    let mut registry = PackageRegistry::new();
    let report = run_batch(&specs, &events, &mut registry);
    assert_eq!(report.succeeded, 1);
    assert_eq!(registry.get_package("b").unwrap().version, "unknown");
}

#[test]
fn end_to_end_batch_with_malformed_token() {
    let specs: Vec<String> =
        vec!["a==1.0".to_string(), "b".to_string(), "bad spec with space".to_string()];
    // Only the two well-formed tokens are dispatched, so two events.
    let events = vec![
        InstallEvent::Success { queried_version: None },
        InstallEvent::Success { queried_version: Some("4.2".to_string()) },
    ];
    let mut registry = PackageRegistry::new();
    let report = run_batch(&specs, &events, &mut registry);
    assert_eq!(report.succeeded, 2);
    assert_eq!(report.failed, 1);
    assert_eq!(report.failures.len(), 1);
    assert_eq!(report.failures[0].0, "bad spec with space");
    assert_eq!(registry.count(), 2);
    assert_eq!(registry.get_package("a").unwrap().version, "1.0");
    assert_eq!(registry.get_package("b").unwrap().version, "4.2");
    match batch_status(&report) {
        Err(PackageError::InstallationFailed(m)) => {
            assert_eq!(m, "1 packages failed to install");
        }
        other => panic!("unexpected status: {:?}", other),
    }
}

#[test]
fn run_batch_keeps_failure_reasons() {
    let specs: Vec<String> = vec!["a".to_string(), "b".to_string()];
    let events = vec![
        InstallEvent::Failure { message: "no network".to_string() },
        InstallEvent::Success { queried_version: Some("1.1".to_string()) },
    ];
    let mut registry = PackageRegistry::new();
    let report = run_batch(&specs, &events, &mut registry);
    assert_eq!(report.succeeded, 1);
    assert_eq!(report.failed, 1);
    assert_eq!(report.failures, vec![("a".to_string(), "no network".to_string())]);
    assert_eq!(registry.get_package("a"), None);
    assert_eq!(registry.get_package("b").unwrap().version, "1.1");
}

#[test]
fn large_batch_loses_and_duplicates_nothing() {
    let mut specs: Vec<String> = Vec::new();
    let mut events: Vec<InstallEvent> = Vec::new();
    for i in 0..100 {
        specs.push(format!("pkg{}==1.{}", i, i));
        if i % 3 == 0 {
            events.push(InstallEvent::Failure { message: format!("err{}", i) });
        } else {
            events.push(InstallEvent::Success { queried_version: None });
        }
    }
    let mut registry = PackageRegistry::new();
    let report = run_batch(&specs, &events, &mut registry);
    let expected_failures = (0..100).filter(|i| i % 3 == 0).count();
    assert_eq!(report.failed, expected_failures);
    assert_eq!(report.succeeded, 100 - expected_failures);
    assert_eq!(registry.count(), 100 - expected_failures);
    for i in 0..100 {
        let name = format!("pkg{}", i);
        if i % 3 == 0 {
            assert_eq!(registry.get_package(&name), None);
        } else {
            assert_eq!(registry.get_package(&name).unwrap().version, format!("1.{}", i));
        }
    }
}

#[test]
fn parallel_workers_lose_and_duplicate_nothing() {
    // Each simulated worker reports a distinct outcome; completions race
    // across the pool, but the collected events stand in input order and
    // the merge commits exactly the successes.
    let specs: Vec<String> = (0..100).map(|i| format!("pkg{}", i)).collect();
    let jobs = plan_batch(&specs);
    assert_eq!(jobs.len(), 100);
    let events: Vec<InstallEvent> = jobs
        .par_iter()
        .enumerate()
        .map(|(i, job)| {
            if i % 4 == 0 {
                InstallEvent::Failure { message: format!("worker refused {}", job.name) }
            } else {
                InstallEvent::Success { queried_version: Some(format!("0.{}", i)) }
            }
        })
        .collect();
    let mut registry = PackageRegistry::new();
    let report = run_batch(&specs, &events, &mut registry);
    assert_eq!(report.failed, 25);
    assert_eq!(report.succeeded, 75);
    assert_eq!(registry.count(), 75);
    for i in 0..100 {
        let name = format!("pkg{}", i);
        if i % 4 == 0 {
            assert_eq!(registry.get_package(&name), None);
            assert_eq!(
                report.failures[i / 4],
                (name.clone(), format!("worker refused {}", name))
            );
        } else {
            assert_eq!(registry.get_package(&name).unwrap().version, format!("0.{}", i));
        }
    }
}

#[test]
fn plan_batch_keeps_only_parseable_tokens() {
    let specs: Vec<String> =
        vec!["a==1.0".to_string(), "not a token".to_string(), "b".to_string()];
    let jobs = plan_batch(&specs);
    assert_eq!(jobs.len(), 2);
    assert_eq!(jobs[0].name, "a");
    assert_eq!(jobs[0].version, Some("1.0".to_string()));
    assert_eq!(jobs[1].name, "b");
    assert_eq!(jobs[1].version, None);
}

#[test]
fn summary_line_counts() {
    let specs: Vec<String> = vec!["a==1.0".to_string(), "b c d".to_string()];
    let events = vec![InstallEvent::Success { queried_version: None }];
    let mut registry = PackageRegistry::new();
    let report = run_batch(&specs, &events, &mut registry);
    assert_eq!(render_summary(&report), "Installation summary: 1 succeeded, 1 failed");
}
