use loadtest_worker::registry::{
    after_attempt, bearer, registration, reply_of_status, RegistrationReply, RegistrationStep,
    MAX_REGISTRATION_ATTEMPTS,
};

#[test]
fn statuses_from_200_to_299_are_accepted() {
    assert_eq!(reply_of_status(200), RegistrationReply::Accepted);
    assert_eq!(reply_of_status(201), RegistrationReply::Accepted);
    assert_eq!(reply_of_status(299), RegistrationReply::Accepted);
    assert_eq!(reply_of_status(199), RegistrationReply::Rejected(199));
    assert_eq!(reply_of_status(300), RegistrationReply::Rejected(300));
    assert_eq!(reply_of_status(401), RegistrationReply::Rejected(401));
    assert_eq!(reply_of_status(500), RegistrationReply::Rejected(500));
}

#[test]
fn acceptance_ends_the_loop() {
    for attempt in 0..8 {
        assert_eq!(after_attempt(attempt, RegistrationReply::Accepted), RegistrationStep::Registered);
    }
}

#[test]
fn refused_credentials_are_not_retried() {
    for attempt in 0..8 {
        let unauthorized = after_attempt(attempt, RegistrationReply::Rejected(401));
        assert_eq!(unauthorized, RegistrationStep::Unauthorized);
        let forbidden = after_attempt(attempt, RegistrationReply::Rejected(403));
        assert_eq!(forbidden, RegistrationStep::Unauthorized);
    }
}

#[test]
fn other_failures_are_retried_with_doubling_waits() {
    let replies = [
        RegistrationReply::Unreachable,
        RegistrationReply::Rejected(500),
        RegistrationReply::Rejected(404),
    ];
    for reply in replies {
        assert_eq!(after_attempt(1, reply), RegistrationStep::RetryAfter(2));
        assert_eq!(after_attempt(2, reply), RegistrationStep::RetryAfter(4));
        assert_eq!(after_attempt(3, reply), RegistrationStep::RetryAfter(8));
        assert_eq!(after_attempt(4, reply), RegistrationStep::RetryAfter(16));
        assert_eq!(after_attempt(5, reply), RegistrationStep::GiveUp);
        assert_eq!(after_attempt(6, reply), RegistrationStep::GiveUp);
        assert_eq!(after_attempt(u32::MAX, reply), RegistrationStep::GiveUp);
        assert_eq!(after_attempt(0, reply), RegistrationStep::RetryAfter(2));
    }
    assert_eq!(MAX_REGISTRATION_ATTEMPTS, 5);
}

#[test]
fn registration_payload() {
    let r = registration("w-7", "1.2.3", 4, 1000);
    assert_eq!(r.worker_id, "w-7");
    assert_eq!(r.version, "1.2.3");
    assert_eq!(r.capacity, 4);
    assert_eq!(r.max_rps, 1000);
    assert_eq!(r.capabilities, vec!["http".to_string(), "https".to_string(), "http2".to_string()]);
}

#[test]
fn announced_rate_stops_at_the_largest_u32() {
    assert_eq!(registration("w", "v", 1, usize::MAX).max_rps, u32::MAX);
    assert_eq!(registration("w", "v", 1, u32::MAX as usize).max_rps, u32::MAX);
    assert_eq!(registration("w", "v", 1, 0).max_rps, 0);
}

#[test]
fn bearer_header() {
    assert_eq!(bearer(&Some("abc123".to_string())), "Bearer abc123");
    assert_eq!(bearer(&None), "Bearer ");
    assert_eq!(bearer(&Some(String::new())), "Bearer ");
}
