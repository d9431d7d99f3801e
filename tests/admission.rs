use aptos_faucet_core::checker::{Checker, RefererBlocklistChecker};
use aptos_faucet_core::checker_data::CheckerData;
use aptos_faucet_core::list_manager::{
    parse_entries, ListManager, ListManagerConfig, ListSource, MatchMode, Snapshot,
};
use aptos_faucet_core::pipeline::{execution_order, FailurePolicy, Pipeline, Registration, RunMode, Verdict};
use aptos_faucet_core::rejection::RejectionReasonCode;

fn strings(items: &[&str]) -> Vec<String> {
    items.iter().map(|s| s.to_string()).collect()
}

fn config(case_sensitive: bool, match_mode: MatchMode) -> ListManagerConfig {
    ListManagerConfig {
        source: ListSource::File("blocklist.txt".to_string()),
        refresh_interval_secs: Some(60),
        case_sensitive,
        match_mode,
    }
}

fn request(headers: &[(&str, &str)]) -> CheckerData {
    CheckerData {
        headers: headers
            .iter()
            .map(|(n, v)| (n.to_string(), v.to_string()))
            .collect(),
        source_address: "127.0.0.1".to_string(),
        requested_amount: Some(100),
        time_request_received_secs: 1000,
    }
}

fn blocklist(entries: &[&str], match_mode: MatchMode) -> RefererBlocklistChecker {
    match RefererBlocklistChecker::new(config(true, match_mode), Ok(strings(entries)), 0) {
        Ok(c) => c,
        Err(_) => panic!("a fetched list loads"),
    }
}

fn manager(entries: &[&str], case_sensitive: bool, match_mode: MatchMode) -> ListManager {
    match ListManager::new(config(case_sensitive, match_mode), Ok(strings(entries)), 0) {
        Ok(m) => m,
        Err(_) => panic!("a fetched list loads"),
    }
}

#[test]
fn loaded_entries_are_listed() {
    let m = manager(&["alpha", "beta", "alpha"], true, MatchMode::Exact);
    assert!(m.contains("alpha"));
    assert!(m.contains("beta"));
    assert!(!m.contains("gamma"));
    assert!(!m.contains("alph"));
    assert_eq!(m.num_items(), 2);
}

#[test]
fn refresh_that_keeps_an_entry_keeps_it_listed() {
    let mut m = manager(&["alpha", "beta"], true, MatchMode::Exact);
    assert!(m.begin_refresh());
    assert!(m.finish_refresh(Ok(strings(&["alpha", "delta"])), 70));
    assert!(m.contains("alpha"));
    assert!(m.contains("delta"));
    assert!(!m.contains("beta"));
    assert_eq!(m.num_items(), 2);
}

#[test]
fn refresh_replaces_the_whole_snapshot() {
    let mut m = manager(&["a", "b", "c"], true, MatchMode::Exact);
    let before: Vec<bool> = ["a", "b", "c", "x"].iter().map(|v| m.contains(v)).collect();
    assert_eq!(before, vec![true, true, true, false]);
    m.begin_refresh();
    m.finish_refresh(Ok(strings(&["x"])), 5);
    let after: Vec<bool> = ["a", "b", "c", "x"].iter().map(|v| m.contains(v)).collect();
    assert_eq!(after, vec![false, false, false, true]);
    let record = m.last_refresh().unwrap();
    assert_eq!(record.at_secs, 5);
    assert!(record.succeeded);
}

#[test]
fn concurrent_trigger_is_coalesced() {
    let mut m = manager(&["a"], true, MatchMode::Exact);
    assert!(m.begin_refresh());
    assert!(!m.begin_refresh());
    assert!(!m.refresh_due(1_000));
    m.finish_refresh(Ok(strings(&["a"])), 10);
    assert!(m.begin_refresh());
}

#[test]
fn refresh_is_due_after_the_interval() {
    let m = manager(&["a"], true, MatchMode::Exact);
    assert!(!m.refresh_due(59));
    assert!(m.refresh_due(60));
    let mut cfg = config(true, MatchMode::Exact);
    cfg.refresh_interval_secs = None;
    let fixed = match ListManager::new(cfg, Ok(strings(&["a"])), 0) {
        Ok(m) => m,
        Err(_) => panic!("a fetched list loads"),
    };
    assert!(!fixed.refresh_due(1_000_000));
}

#[test]
fn unreachable_source_fails_construction() {
    let r = ListManager::new(config(true, MatchMode::Exact), Err("connection refused".to_string()), 0);
    match r {
        Err(e) => assert_eq!(e.message, "connection refused"),
        Ok(_) => panic!("an unreachable source must fail construction"),
    }
    let c = RefererBlocklistChecker::new(config(true, MatchMode::Exact), Err("timeout".to_string()), 0);
    assert!(c.is_err());
}

#[test]
fn failed_refresh_keeps_previous_list() {
    let mut m = manager(&["bad.example.com", "worse.example.com"], true, MatchMode::Exact);
    assert!(m.begin_refresh());
    assert!(!m.finish_refresh(Err("unreachable".to_string()), 90));
    assert!(m.contains("bad.example.com"));
    assert!(m.contains("worse.example.com"));
    assert!(!m.contains("good.example.com"));
    assert_eq!(m.num_items(), 2);
    assert_eq!(m.failed_refreshes(), 1);
    let record = m.last_refresh().unwrap();
    assert_eq!(record.at_secs, 90);
    assert!(!record.succeeded);
}

#[test]
fn case_insensitive_list_folds_case() {
    let m = manager(&["Bad.Example.COM"], false, MatchMode::Exact);
    assert!(m.contains("bad.example.com"));
    assert!(m.contains("BAD.EXAMPLE.COM"));
    let strict = manager(&["Bad.Example.COM"], true, MatchMode::Exact);
    assert!(!strict.contains("bad.example.com"));
    assert!(strict.contains("Bad.Example.COM"));
}

#[test]
fn domain_mode_matches_host_and_subdomains() {
    let m = manager(&["bad.example.com"], true, MatchMode::Domain);
    assert!(m.contains("bad.example.com"));
    assert!(m.contains("https://bad.example.com"));
    assert!(m.contains("https://bad.example.com/path?q=1"));
    assert!(m.contains("http://cdn.bad.example.com:8080/x"));
    assert!(!m.contains("https://notbad.example.com/"));
    assert!(!m.contains("https://good.example.com"));
    assert!(!m.contains("https://example.com/bad.example.com"));
}

#[test]
fn snapshot_build_dedups() {
    let s = Snapshot::build(&strings(&["x", "y", "x", "y", "z"]), true, MatchMode::Exact);
    assert_eq!(s.num_items(), 3);
    assert!(s.contains("z"));
    assert!(s.case_sensitive());
    assert_eq!(s.match_mode(), MatchMode::Exact);
}

#[test]
fn missing_referer_abstains() {
    let c = blocklist(&["bad.example.com"], MatchMode::Domain);
    let data = request(&[("user-agent", "curl")]);
    let r = c.check(&data, false).ok().unwrap();
    assert!(r.is_empty());
    let empty = blocklist(&[], MatchMode::Exact);
    assert!(empty.check(&request(&[]), true).ok().unwrap().is_empty());
}

#[test]
fn listed_referer_gives_one_reason() {
    let c = blocklist(&["https://bad.example.com"], MatchMode::Exact);
    let data = request(&[("referer", "https://bad.example.com")]);
    let r = c.check(&data, false).ok().unwrap();
    assert_eq!(r.len(), 1);
    assert_eq!(r[0].code, RejectionReasonCode::RefererBlocklisted);
    assert_eq!(
        r[0].message,
        "The provided referrer is not allowed by the server: https://bad.example.com"
    );
    assert_eq!(c.cost(), 2);
}

#[test]
fn first_referer_header_is_the_one_checked() {
    let c = blocklist(&["bad"], MatchMode::Exact);
    let data = request(&[("referer", "good"), ("referer", "bad")]);
    assert!(c.check(&data, false).ok().unwrap().is_empty());
    assert_eq!(data.header("referer").unwrap(), "good");
}

#[test]
fn execution_order_is_by_cost() {
    assert_eq!(execution_order(&vec![5, 2, 8]), vec![1, 0, 2]);
}

#[test]
fn execution_order_ties_keep_registration_order() {
    assert_eq!(execution_order(&vec![3, 1, 3, 1, 0]), vec![4, 1, 3, 0, 2]);
    assert_eq!(execution_order(&vec![]), Vec::<usize>::new());
    assert_eq!(execution_order(&vec![255, 0, 255]), vec![1, 0, 2]);
}

fn two_blocklists() -> Pipeline<RefererBlocklistChecker> {
    Pipeline::new(vec![
        Registration {
            checker: blocklist(&["bad.example.com"], MatchMode::Domain),
            on_error: FailurePolicy::FailClosed,
        },
        Registration {
            checker: blocklist(&["https://bad.example.com/path"], MatchMode::Exact),
            on_error: FailurePolicy::FailOpen,
        },
    ])
}

fn reason_count(v: &Verdict) -> usize {
    match v {
        Verdict::Accepted => 0,
        Verdict::Rejected(rs) => rs.len(),
    }
}

#[test]
fn short_circuit_stops_at_first_rejection() {
    let p = two_blocklists();
    assert_eq!(p.order(), &vec![0, 1]);
    let data = request(&[("referer", "https://bad.example.com/path")]);
    assert_eq!(reason_count(&p.run(&data, RunMode::ShortCircuit, false)), 1);
    assert_eq!(reason_count(&p.run(&data, RunMode::FullDiagnostic, false)), 2);
    assert_eq!(reason_count(&p.run(&data, RunMode::ShortCircuit, true)), 2);
}

#[test]
fn same_request_same_verdict() {
    let p = two_blocklists();
    let data = request(&[("referer", "https://bad.example.com/path")]);
    let first = p.run(&data, RunMode::FullDiagnostic, false);
    let second = p.run(&data, RunMode::FullDiagnostic, false);
    match (first, second) {
        (Verdict::Rejected(a), Verdict::Rejected(b)) => {
            assert_eq!(a.len(), b.len());
            for (x, y) in a.iter().zip(b.iter()) {
                assert_eq!(x.message, y.message);
                assert_eq!(x.code, y.code);
            }
        }
        _ => panic!("both runs reject"),
    }
    let ok = request(&[]);
    assert!(matches!(p.run(&ok, RunMode::ShortCircuit, false), Verdict::Accepted));
    assert!(matches!(p.run(&ok, RunMode::ShortCircuit, false), Verdict::Accepted));
}

#[test]
fn end_to_end_referer_blocklist() {
    let p = Pipeline::new(vec![Registration {
        checker: blocklist(&["bad.example.com"], MatchMode::Exact),
        on_error: FailurePolicy::FailClosed,
    }]);
    let bad = request(&[("referer", "https://bad.example.com/path")]);
    match p.run(&bad, RunMode::FullDiagnostic, false) {
        Verdict::Rejected(rs) => {
            assert_eq!(rs.len(), 1);
            assert_eq!(rs[0].code, RejectionReasonCode::RefererBlocklisted);
            assert_eq!(
                rs[0].message,
                "The provided referrer is not allowed by the server: https://bad.example.com/path"
            );
        }
        Verdict::Accepted => panic!("a blocklisted referer is rejected"),
    }
    let good = request(&[("referer", "https://good.example.com")]);
    assert!(matches!(p.run(&good, RunMode::FullDiagnostic, false), Verdict::Accepted));
    let none = request(&[]);
    assert!(matches!(p.run(&none, RunMode::FullDiagnostic, false), Verdict::Accepted));
}

#[test]
fn exact_mode_matches_the_referer_or_its_host() {
    let c = blocklist(&["bad.example.com"], MatchMode::Exact);
    let data = request(&[("referer", "https://bad.example.com/path")]);
    assert_eq!(c.check(&data, false).ok().unwrap().len(), 1);
    let data = request(&[("referer", "bad.example.com")]);
    assert_eq!(c.check(&data, false).ok().unwrap().len(), 1);
    let data = request(&[("referer", "https://sub.bad.example.com/path")]);
    assert!(c.check(&data, false).ok().unwrap().is_empty());
    let m = manager(&["bad.example.com"], true, MatchMode::Exact);
    assert!(!m.contains("https://bad.example.com/path"));
}

#[test]
fn referer_header_name_ignores_ascii_case() {
    let c = blocklist(&["bad.example.com"], MatchMode::Exact);
    let data = request(&[("Referer", "https://bad.example.com")]);
    assert_eq!(c.check(&data, false).ok().unwrap().len(), 1);
    let data = request(&[("REFERER", "bad.example.com")]);
    assert_eq!(c.check(&data, false).ok().unwrap().len(), 1);
    let data = request(&[("referrer", "bad.example.com")]);
    assert!(c.check(&data, false).ok().unwrap().is_empty());
}

#[test]
fn domain_mode_lists_entries_with_paths_and_their_sub_paths() {
    let m = manager(&["a/b", "host:8080", ""], true, MatchMode::Domain);
    assert!(m.contains("a/b"));
    assert!(m.contains("a/b/x"));
    assert!(!m.contains("a/bc"));
    assert!(m.contains("host:8080"));
    assert!(m.contains(""));
    let exact = manager(&["a/b", "host:8080"], true, MatchMode::Exact);
    for v in ["a/b", "host:8080", "a/b/x", "zzz"] {
        if exact.contains(v) {
            assert!(m.contains(v));
        }
    }
}

#[test]
fn list_document_parsing() {
    let text = "# blocked referers\nbad.example.com\r\n\n  \nworse.example.com\n#tail";
    assert_eq!(
        parse_entries(text),
        vec!["bad.example.com".to_string(), "  ".to_string(), "worse.example.com".to_string()]
    );
    assert_eq!(parse_entries(""), Vec::<String>::new());
    assert_eq!(parse_entries("one"), vec!["one".to_string()]);
    assert_eq!(parse_entries("a\nb\n"), vec!["a".to_string(), "b".to_string()]);
}
