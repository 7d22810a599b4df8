use codex_router::profile::ProfileSummary;
use codex_router::quota::QuotaInfo;
use codex_router::router::{first_success, no_candidates_error, RouteStep, RouteWalk};
use codex_router::select::select_candidates;

fn mock_profile(name: &str, used_req: u64, used_tok: u64) -> ProfileSummary {
    ProfileSummary {
        name: name.to_string(),
        email: None,
        is_current: false,
        is_valid: true,
        quota: Some(QuotaInfo {
            account_id: "id".to_string(),
            email: "email".to_string(),
            plan_type: "plan".to_string(),
            used_requests: Some(used_req),
            total_requests: Some(100),
            used_tokens: Some(used_tok),
            total_tokens: Some(100),
            reset_date: None,
            secondary_reset_date: None,
        }),
    }
}

#[test]
fn test_select_candidates_tier1_constraint() {
    let p1 = mock_profile("p1", 96, 10);
    let p2 = mock_profile("p2", 95, 10);

    let candidates = select_candidates(vec![p1, p2]);
    assert_eq!(candidates.len(), 1);
    assert_eq!(candidates[0].name, "p2");
}

#[test]
fn test_select_candidates_tier2_priority() {
    let p1 = mock_profile("p1", 50, 10);
    let p2 = mock_profile("p2", 50, 90);

    let candidates = select_candidates(vec![p1, p2]);
    assert_eq!(candidates.len(), 2);
    assert_eq!(candidates[0].name, "p2");
    assert_eq!(candidates[1].name, "p1");
}

#[test]
fn test_select_candidates_excludes_exhausted_tier2() {
    let p1 = mock_profile("p1", 50, 99);
    let p2 = mock_profile("p2", 50, 100);

    let candidates = select_candidates(vec![p1, p2]);
    assert_eq!(candidates.len(), 1);
    assert_eq!(candidates[0].name, "p1");
}

#[test]
fn selection_is_order_independent_on_equal_keys() {
    let a = mock_profile("alpha", 10, 40);
    let b = mock_profile("beta", 10, 40);
    let first = select_candidates(vec![a.clone(), b.clone()]);
    let second = select_candidates(vec![b, a]);
    let first_names: Vec<&str> = first.iter().map(|p| p.name.as_str()).collect();
    let second_names: Vec<&str> = second.iter().map(|p| p.name.as_str()).collect();
    assert_eq!(first_names, vec!["alpha", "beta"]);
    assert_eq!(first_names, second_names);
}

#[test]
fn profile_without_snapshot_is_never_selected() {
    let lonely = ProfileSummary {
        name: "lonely".to_string(),
        email: None,
        is_current: true,
        is_valid: true,
        quota: None,
    };
    let candidates = select_candidates(vec![lonely]);
    assert!(candidates.is_empty());

    let err = no_candidates_error(1);
    assert_eq!(err.error, "No available accounts with quota");
    assert_eq!(
        err.hint.as_deref(),
        Some("Some profiles are missing quota. Refresh quotas (or re-login) and try again.")
    );
    assert_eq!(err.profiles_missing_quota, Some(1));

    let bare = no_candidates_error(0);
    assert_eq!(bare.error, "No available accounts with quota");
    assert!(bare.hint.is_none());
    assert!(bare.profiles_missing_quota.is_none());
}

#[test]
fn invalid_profile_is_never_selected() {
    let mut p = mock_profile("p1", 10, 10);
    p.is_valid = false;
    let candidates = select_candidates(vec![p]);
    assert!(candidates.is_empty());
}

#[test]
fn routing_fails_over_to_next_candidate() {
    // The higher-usage account is selected first; its upstream call
    // fails, the second account answers.  Exactly one attempt hits the
    // first account.
    let p1 = mock_profile("p1", 0, 10);
    let p2 = mock_profile("p2", 0, 90);
    let candidates = select_candidates(vec![p1, p2]);
    assert_eq!(candidates[0].name, "p2");
    assert_eq!(candidates[1].name, "p1");

    let mut walk = RouteWalk::start();
    let mut attempts: Vec<usize> = Vec::new();
    let outcomes = [false, true];
    let mut answered: Option<usize> = None;
    loop {
        match walk.next_step(candidates.len()) {
            RouteStep::Attempt(i) => {
                attempts.push(i);
                if outcomes[i] {
                    answered = Some(i);
                    break;
                }
            }
            RouteStep::Exhausted => break,
        }
    }
    assert_eq!(attempts, vec![0, 1]);
    assert_eq!(answered, Some(1));
    assert_eq!(candidates[answered.unwrap()].name, "p1");
    assert_eq!(first_success(&vec![false, true]), Some(1));
    assert_eq!(first_success(&vec![false, false]), None);
}
