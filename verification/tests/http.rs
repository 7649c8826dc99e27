//! Polite HTTP.

use homeward::error::ConnectorError;
use homeward::http::{
    classify_status, host, judge_reply, judge_robots, read_reply, unexpected_status, GetStep,
    Politeness, RobotsStep, StatusClass, BACKOFF_BASE, HOMEWARD_USER_AGENT, MAX_RETRIES,
    ROBOTS_TTL,
};
use url::Url;

const ROBOTS: &str = "User-agent: *\nDisallow: /private\n";

const SECOND: u128 = 1_000_000_000;

fn address(text: &str) -> Url {
    Url::parse(text).expect("url")
}

#[test]
fn robots_are_obeyed() {
    assert_eq!(judge_robots(ROBOTS, &address("https://h/public?x=1")), Ok(()));
    assert_eq!(
        judge_robots(ROBOTS, &address("https://h/private/a?x=1")),
        Err(ConnectorError::RobotsDisallowed {
            path: "/private/a".to_owned(),
            user_agent: HOMEWARD_USER_AGENT.to_owned(),
        })
    );
    assert_eq!(judge_robots("", &address("https://h/private")), Ok(()));
}

#[test]
fn robots_are_fetched_once_an_hour() {
    let mut state = Politeness::new(SECOND);
    let page = address("https://h.org:8443/private");
    match state.begin_robots(&page, 0) {
        RobotsStep::Fetch(robots) => assert_eq!(robots, "https://h.org:8443/robots.txt"),
        other => panic!("expected a fetch, got {other:?}"),
    }
    assert!(state.end_robots(&page, Some(ROBOTS.to_owned()), 10).is_err());
    match state.begin_robots(&address("https://h.org/open"), 9 + ROBOTS_TTL) {
        RobotsStep::Decided(verdict) => assert_eq!(verdict, Ok(())),
        other => panic!("expected a decision, got {other:?}"),
    }
    assert!(matches!(state.begin_robots(&page, 10 + ROBOTS_TTL), RobotsStep::Fetch(_)));
    assert!(matches!(state.begin_robots(&page, 11), RobotsStep::Fetch(_)));
}

#[test]
fn absent_robots_allow_everything() {
    let mut state = Politeness::new(SECOND);
    let page = address("https://h.org/private");
    assert!(state.end_robots(&page, None, 0).is_ok());
    assert!(matches!(state.begin_robots(&page, 1), RobotsStep::Fetch(_)));
}

#[test]
fn requests_to_a_host_are_spaced() {
    let mut state = Politeness::new(2 * SECOND);
    assert_eq!(state.wait_rate_limit("h", 5), 0);
    assert_eq!(state.take_reply("h", 200, 0, None, 100), GetStep::Accept);
    assert_eq!(state.wait_rate_limit("h", 100), 2 * SECOND);
    assert_eq!(state.wait_rate_limit("h", 100 + SECOND), SECOND);
    assert_eq!(state.wait_rate_limit("h", 100 + 3 * SECOND), 0);
    assert_eq!(state.wait_rate_limit("other", 100), 0);
}

#[test]
fn busy_hosts_are_left_alone() {
    let mut state = Politeness::new(SECOND);
    let step = state.take_reply("h", 429, 0, Some("7"), 0);
    assert_eq!(step, GetStep::Retry { wait: 7 * SECOND });
    assert_eq!(state.wait_rate_limit("h", 0), 7 * SECOND);
    assert_eq!(
        state.take_reply("g", 500, 1, None, 0),
        GetStep::Retry { wait: 2 * BACKOFF_BASE }
    );
    assert_eq!(state.wait_rate_limit("g", 0), 0);
}

#[test]
fn retries_end() {
    for attempt in 0..MAX_RETRIES {
        let wait = BACKOFF_BASE << attempt;
        assert_eq!(judge_reply(503, attempt, None), GetStep::Retry { wait });
        assert_eq!(judge_reply(503, attempt, Some("soon")), GetStep::Retry { wait });
        assert_eq!(judge_reply(502, attempt, Some("9")), GetStep::Retry { wait });
    }
    assert_eq!(judge_reply(503, MAX_RETRIES, None), GetStep::RateLimited);
    assert_eq!(judge_reply(502, MAX_RETRIES, None), GetStep::Unexpected);
    assert_eq!(judge_reply(404, 0, None), GetStep::Unexpected);
    assert_eq!(judge_reply(304, 0, None), GetStep::Accept);
    assert_eq!(judge_reply(204, 0, None), GetStep::Accept);
}

#[test]
fn statuses_are_classified() {
    assert_eq!(classify_status(304), StatusClass::NotModified);
    assert_eq!(classify_status(299), StatusClass::Success);
    assert_eq!(classify_status(300), StatusClass::Failure);
    assert_eq!(classify_status(199), StatusClass::Failure);
}

#[test]
fn bodies_of_errors_are_cut() {
    let body = "é".repeat(300);
    assert_eq!(
        unexpected_status(500, &body),
        ConnectorError::UnexpectedStatus { status: 500, body: "é".repeat(256) }
    );
    assert_eq!(read_reply(200, Ok("x".to_owned())), Ok("x".to_owned()));
    assert_eq!(
        read_reply(200, Err("cut".to_owned())),
        Err(ConnectorError::Http("cut".to_owned()))
    );
    assert_eq!(
        read_reply(403, Err("cut".to_owned())),
        Err(ConnectorError::UnexpectedStatus { status: 403, body: String::new() })
    );
}

#[test]
fn hosts_are_read_from_addresses() {
    assert_eq!(host(&address("https://User@Data.Example.org:81/x")), "data.example.org");
    assert_eq!(host(&address("mailto:a@b")), "");
}
