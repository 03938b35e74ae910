use discodigg::discord::{InviteInfo, ServerProfile};
use discodigg::pipeline::{FailurePolicy, FetchFailure, FetchOutcome, Pipeline};
use discodigg::printer::sort_by_member_count;
use discodigg::stats::{stat_from_invite, stats_for_batch};

fn info(code: &str, members: usize) -> InviteInfo {
    InviteInfo {
        code: code.to_string(),
        profile: ServerProfile { id: format!("id-{}", code), name: format!("server {}", code) },
        approximate_member_count: members,
        approximate_presence_count: members / 2,
    }
}

fn failure(code: &str) -> FetchOutcome {
    FetchOutcome::Failure(FetchFailure { code: code.to_string(), detail: "timeout".to_string() })
}

#[test]
fn never_more_than_limit_in_flight() {
    let mut p = Pipeline::new(5, 2, FailurePolicy::FailSoft);
    assert_eq!(p.start_next(), Some(0));
    assert_eq!(p.start_next(), Some(1));
    assert_eq!(p.start_next(), None);
    p.complete(1, FetchOutcome::Record(info("b", 1)));
    assert!(!p.is_running(1));
    assert!(p.is_running(0));
    assert_eq!(p.start_next(), Some(2));
    assert_eq!(p.start_next(), None);
}

#[test]
fn fail_soft_keeps_one_outcome_per_invite() {
    let k = 6;
    let mut p = Pipeline::new(k, 3, FailurePolicy::FailSoft);
    let mut running = Vec::new();
    while !p.is_finished() {
        while let Some(i) = p.start_next() {
            running.push(i);
        }
        let i = running.remove(running.len() - 1);
        if i % 3 == 0 {
            p.complete(i, failure(&i.to_string()));
        } else {
            p.complete(i, FetchOutcome::Record(info(&i.to_string(), i)));
        }
    }
    let report = p.finish().unwrap();
    assert_eq!(report.records.len() + report.failures.len(), k);
    let codes: Vec<&str> = report.records.iter().map(|r| r.code.as_str()).collect();
    assert_eq!(codes, vec!["1", "2", "4", "5"]);
    let failed: Vec<&str> = report.failures.iter().map(|f| f.code.as_str()).collect();
    assert_eq!(failed, vec!["0", "3"]);
}

#[test]
fn fail_fast_returns_first_failure_and_stops() {
    let mut p = Pipeline::new(5, 2, FailurePolicy::FailFast);
    assert_eq!(p.start_next(), Some(0));
    assert_eq!(p.start_next(), Some(1));
    p.complete(0, FetchOutcome::Record(info("0", 1)));
    assert_eq!(p.start_next(), Some(2));
    p.complete(2, failure("third"));
    assert!(p.is_finished());
    assert!(p.is_running(1));
    assert_eq!(p.start_next(), None);
    let err = p.finish().unwrap_err();
    assert_eq!(err.code, "third");
    assert_eq!(err.detail, "timeout");
}

#[test]
fn fail_fast_without_failure_returns_all_records() {
    let mut p = Pipeline::new(3, 1, FailurePolicy::FailFast);
    for i in 0..3 {
        assert_eq!(p.start_next(), Some(i));
        assert_eq!(p.start_next(), None);
        p.complete(i, FetchOutcome::Record(info(&i.to_string(), i)));
    }
    assert!(p.is_finished());
    let report = p.finish().unwrap();
    assert_eq!(report.records.len(), 3);
    assert!(report.failures.is_empty());
}

#[test]
fn empty_batch_is_finished_at_once() {
    let mut p = Pipeline::new(0, 3, FailurePolicy::FailSoft);
    assert!(p.is_finished());
    assert_eq!(p.start_next(), None);
    let report = p.finish().unwrap();
    assert!(report.records.is_empty() && report.failures.is_empty());
}

#[test]
fn sorted_by_member_count_descending() {
    let sorted = sort_by_member_count(vec![info("a", 10), info("b", 50), info("c", 3)]);
    let counts: Vec<usize> = sorted.iter().map(|r| r.approximate_member_count).collect();
    assert_eq!(counts, vec![50, 10, 3]);
}

#[test]
fn sort_keeps_order_of_equal_counts() {
    let sorted = sort_by_member_count(vec![info("a", 7), info("b", 9), info("c", 7), info("d", 7)]);
    let codes: Vec<&str> = sorted.iter().map(|r| r.code.as_str()).collect();
    assert_eq!(codes, vec!["b", "a", "c", "d"]);
    assert!(sort_by_member_count(Vec::new()).is_empty());
}

#[test]
fn stats_rows_carry_batch_time() {
    let row = stat_from_invite(&info("a", 10), 1_700_000_000_000);
    assert_eq!(row.channel_name, "server a");
    assert_eq!(row.approximate_member_count, 10);
    assert_eq!(row.approximate_presence_count, 5);
    assert_eq!(row.collected_at_ms_utc, 1_700_000_000_000);
    let rows = stats_for_batch(&vec![info("a", 10), info("b", 4)], 42);
    assert_eq!(rows.len(), 2);
    assert_eq!(rows[1].channel_name, "server b");
    assert!(rows.iter().all(|r| r.collected_at_ms_utc == 42));
}
