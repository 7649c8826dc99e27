//! The sidecar client: configuration, requests, replies.

use std::time::Duration;

use homeward::embed::{
    check_status, is_healthy, EmbedClientConfig, EmbedClientError, EnrollRequest, QueryRequest,
};
use ulid::Ulid;

#[test]
fn default_local_config_has_expected_url() {
    let cfg = EmbedClientConfig::default_local();
    assert_eq!(cfg.base_url, "http://127.0.0.1:8741");
    assert_eq!(cfg.timeout, Duration::from_secs(10));
}

#[test]
fn default_local_config_base_url_matches_env_format() {
    let url = EmbedClientConfig::base_url_for("127.0.0.1", 8741_u16);
    assert_eq!(url, "http://127.0.0.1:8741");
    let unset = EmbedClientConfig::from_env(None, None, None);
    assert_eq!(unset, EmbedClientConfig::default_local());
}

#[test]
fn base_url_format_with_custom_host_and_port() {
    let host = "10.0.0.1";
    let port: u16 = 9999;
    let url = EmbedClientConfig::base_url_for(host, port);
    assert_eq!(url, "http://10.0.0.1:9999");
    let set = EmbedClientConfig::from_env(
        Some(host.to_owned()),
        Some("9999".to_owned()),
        Some("3".to_owned()),
    );
    assert_eq!(set.base_url, "http://10.0.0.1:9999");
    assert_eq!(set.timeout, Duration::from_secs(3));
}

#[test]
fn settings_that_are_no_numbers_fall_back() {
    let cfg = EmbedClientConfig::from_env(
        None,
        Some("70000".to_owned()),
        Some("soon".to_owned()),
    );
    assert_eq!(cfg, EmbedClientConfig::default_local());
    let plus = EmbedClientConfig::from_env(None, Some("+80".to_owned()), None);
    assert_eq!(plus.base_url, "http://127.0.0.1:80");
}

#[test]
fn addresses_of_the_sidecar() {
    let cfg = EmbedClientConfig::default_local();
    assert_eq!(cfg.enroll_url(), "http://127.0.0.1:8741/enroll");
    assert_eq!(cfg.query_url(), "http://127.0.0.1:8741/query");
    assert_eq!(cfg.health_url(), "http://127.0.0.1:8741/health");
    assert_eq!(cfg.clone(), cfg);
}

#[test]
fn enroll_request_new_formats_ulid() {
    let id = Ulid::new();
    let req = EnrollRequest::new(id.0, "https://example.com/dog.jpg", Some("dog"));
    assert_eq!(req.canonical_id, id.to_string());
    assert_eq!(req.image_url, "https://example.com/dog.jpg");
    assert_eq!(req.species, Some("dog".to_owned()));
}

#[test]
fn identifiers_are_written_in_base_32() {
    let req = EnrollRequest::new(0x4141_4141_4141_4141_4141_4141_4141_4141, "u", None);
    assert_eq!(req.canonical_id, "21850M2GA1850M2GA1850M2GA1");
    let zero = EnrollRequest::new(0, "u", None);
    assert_eq!(zero.canonical_id, "00000000000000000000000000");
}

#[test]
fn enroll_request_species_none_omitted_in_json() {
    let id = Ulid::new();
    let req = EnrollRequest::new(id.0, "https://example.com/cat.jpg", None);
    let json = serde_json::to_string(&req.to_json()).expect("serialize");
    assert!(!json.contains("species"), "species present in JSON: {json}");
    let given = EnrollRequest::new(id.0, "https://example.com/cat.jpg", Some("cat"));
    let body = given.to_json();
    assert_eq!(body["species"], "cat");
    assert_eq!(body["image_url"], "https://example.com/cat.jpg");
    assert_eq!(body["canonical_id"], id.to_string());
}

#[test]
fn query_request_url_only_serialises_correctly() {
    let req = QueryRequest {
        image_url: Some("https://example.com/q.jpg".into()),
        image_b64: None,
        k: 10,
        species_filter: None,
    };
    let json = serde_json::to_string(&req.to_json()).expect("serialize");
    assert!(json.contains("image_url"));
    assert!(!json.contains("image_b64"));
    assert!(!json.contains("species_filter"));
    assert_eq!(req.to_json()["k"], 10);
}

#[test]
fn query_request_b64_only_serialises_correctly() {
    let req = QueryRequest {
        image_url: None,
        image_b64: Some("AAAA".into()),
        k: 3,
        species_filter: Some("cat".into()),
    };
    let json = serde_json::to_string(&req.to_json()).expect("serialize");
    assert!(!json.contains("image_url"));
    assert!(json.contains("image_b64"));
    assert!(json.contains("species_filter"));
}

#[test]
fn embed_client_error_status_display() {
    let err = EmbedClientError::Status { status: 422, body: "unprocessable".to_owned() };
    let msg = err.message();
    assert!(msg.contains("422"), "status code in message: {msg}");
    assert!(msg.contains("unprocessable"), "body in message: {msg}");
    assert_eq!(msg, "embed sidecar returned HTTP 422: unprocessable");
    assert_eq!(
        EmbedClientError::Build("x".to_owned()).message(),
        "failed to build HTTP client: x"
    );
    assert_eq!(
        EmbedClientError::Transport("x".to_owned()).message(),
        "transport error calling embed sidecar: x"
    );
    assert_eq!(
        EmbedClientError::Decode("x".to_owned()).message(),
        "could not decode embed sidecar response: x"
    );
}

#[test]
fn replies_other_than_success_are_errors() {
    assert_eq!(check_status(200, None), Ok(()));
    assert_eq!(check_status(299, Some("ok".to_owned())), Ok(()));
    assert_eq!(
        check_status(300, Some("moved".to_owned())),
        Err(EmbedClientError::Status { status: 300, body: "moved".to_owned() })
    );
    assert_eq!(
        check_status(500, None),
        Err(EmbedClientError::Status { status: 500, body: "<unreadable body>".to_owned() })
    );
    assert!(is_healthy(Some(204)));
    assert!(!is_healthy(Some(503)));
    assert!(!is_healthy(None));
}
