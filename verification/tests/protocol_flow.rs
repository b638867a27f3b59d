use named_mutex::{
    acquire_grant, acquire_poll, check_status, clamp_timeout, compute_deadline, owner_token_for,
    release_with_token,
    AcquireStep, LockTable, ReleaseError, ReleaseOutcome,
};

#[test]
fn timeout_defaults_and_clamps() {
    assert_eq!(clamp_timeout(None, 300), 60);
    assert_eq!(clamp_timeout(None, 30), 30);
    assert_eq!(clamp_timeout(Some(10), 300), 10);
    assert_eq!(clamp_timeout(Some(0), 300), 0);
    assert_eq!(clamp_timeout(Some(300), 300), 300);
    assert_eq!(clamp_timeout(Some(400), 300), 300);
}

#[test]
fn deadline_is_start_plus_timeout() {
    assert_eq!(compute_deadline(0, 0), 0);
    assert_eq!(compute_deadline(100, 60), 160);
}

#[test]
fn zero_timeout_on_free_name_succeeds_at_once() {
    let mut t = LockTable::new(300);
    let timeout = clamp_timeout(Some(0), 300);
    let deadline = compute_deadline(0, timeout);
    let step = acquire_poll(&mut t, "free", 0, deadline);
    assert_eq!(step, AcquireStep::Acquired { token: owner_token_for("free") });
    assert!(t.is_locked("free"));
}

#[test]
fn held_name_waits_then_times_out() {
    let mut t = LockTable::new(300);
    assert!(t.try_acquire("busy", 1));
    let deadline = compute_deadline(0, 5);
    // Up to and at the deadline the attempt keeps waiting.
    assert_eq!(acquire_poll(&mut t, "busy", 0, deadline), AcquireStep::Wait);
    assert_eq!(acquire_poll(&mut t, "busy", 5, deadline), AcquireStep::Wait);
    // Strictly past the deadline it reports the timeout; the lock is untouched.
    assert_eq!(acquire_poll(&mut t, "busy", 6, deadline), AcquireStep::TimedOut);
    assert!(t.is_locked("busy"));
}

#[test]
fn token_matches_version_five_uuid() {
    let expected = uuid::Uuid::new_v5(&uuid::Uuid::NAMESPACE_OID, "report-batch".as_bytes());
    assert_eq!(owner_token_for("report-batch"), expected.as_u128());
    assert_ne!(owner_token_for("report-batch"), owner_token_for("other-name"));
}

#[test]
fn grant_renders_token_as_hyphenated_uuid() {
    let token = owner_token_for("render-me");
    let grant = acquire_grant("render-me", token);
    assert_eq!(grant.name, "render-me");
    assert!(grant.is_locked);
    assert_eq!(grant.token.len(), 36);
    assert_eq!(grant.token, uuid::Uuid::from_u128(token).to_string());
}

#[test]
fn release_by_text_needs_a_parsable_token() {
    let mut t = LockTable::new(300);
    assert!(t.try_acquire("guarded", owner_token_for("guarded")));
    let r = release_with_token(&mut t, "guarded", "not-a-uuid");
    assert!(matches!(r, Err(ReleaseError::MalformedToken { .. })));
    assert!(t.is_locked("guarded"));
}

#[test]
fn release_by_text_full_outcomes() {
    let mut t = LockTable::new(300);
    let token = owner_token_for("shared");
    assert!(t.try_acquire("shared", token));
    let wrong = uuid::Uuid::from_u128(token.wrapping_add(1)).to_string();
    let r = release_with_token(&mut t, "shared", &wrong);
    assert!(matches!(r, Err(ReleaseError::OwnerMismatch)));
    assert!(t.is_locked("shared"));
    let missing = release_with_token(&mut t, "absent", &wrong);
    assert!(matches!(missing, Err(ReleaseError::NotFound)));
    let right = uuid::Uuid::from_u128(token).to_string();
    let ok = release_with_token(&mut t, "shared", &right).unwrap();
    assert_eq!(ok.name, "shared");
    assert!(!ok.is_locked);
    assert!(!t.is_locked("shared"));
}

#[test]
fn scenario_db_migration_lifecycle() {
    let mut t = LockTable::new(300);
    let timeout = clamp_timeout(None, 300);
    let deadline = compute_deadline(0, timeout);
    let step = acquire_poll(&mut t, "db-migration", 0, deadline);
    let token = match step {
        AcquireStep::Acquired { token } => token,
        other => panic!("expected an immediate acquisition, got {:?}", other),
    };
    let grant = acquire_grant("db-migration", token);
    assert!(grant.is_locked);
    let status = check_status(&t, "db-migration");
    assert_eq!(status.name, "db-migration");
    assert!(status.is_locked);
    let wrong = uuid::Uuid::from_u128(token.wrapping_add(1)).to_string();
    let refused = release_with_token(&mut t, "db-migration", &wrong);
    assert!(matches!(refused, Err(ReleaseError::OwnerMismatch)));
    assert!(check_status(&t, "db-migration").is_locked);
    let freed = release_with_token(&mut t, "db-migration", &grant.token)
        .unwrap();
    assert!(!freed.is_locked);
    assert!(!check_status(&t, "db-migration").is_locked);
}

#[test]
fn scenario_two_waiters_one_wins() {
    // Two attempts for the same name, each with a five-second timeout starting
    // at time zero; a third party holds the lock and releases it at second 2.
    let mut t = LockTable::new(300);
    assert!(t.try_acquire("contended", 99));
    let deadline_a = compute_deadline(0, 5);
    let deadline_b = compute_deadline(0, 5);
    assert_eq!(acquire_poll(&mut t, "contended", 0, deadline_a), AcquireStep::Wait);
    assert_eq!(acquire_poll(&mut t, "contended", 0, deadline_b), AcquireStep::Wait);
    assert_eq!(acquire_poll(&mut t, "contended", 1, deadline_a), AcquireStep::Wait);
    assert_eq!(acquire_poll(&mut t, "contended", 1, deadline_b), AcquireStep::Wait);
    assert_eq!(t.release("contended", 99), ReleaseOutcome::Released);
    // Whichever attempt polls first after the release wins.
    let step_a = acquire_poll(&mut t, "contended", 3, deadline_a);
    let token = owner_token_for("contended");
    assert_eq!(step_a, AcquireStep::Acquired { token });
    // The loser keeps waiting within its deadline and times out past it.
    assert_eq!(acquire_poll(&mut t, "contended", 4, deadline_b), AcquireStep::Wait);
    assert_eq!(acquire_poll(&mut t, "contended", 6, deadline_b), AcquireStep::TimedOut);
    // Had the winner released in time, a retry within the deadline succeeds.
    assert_eq!(t.release("contended", token), ReleaseOutcome::Released);
    assert_eq!(acquire_poll(&mut t, "contended", 5, deadline_b), AcquireStep::Acquired { token });
}
