use logsnag::models::InsightValue;
use logsnag::response::{
    evaluate_outcome, should_read_body, SnagError, TransportOutcome,
};
use logsnag::{Logsnag, INSIGHT_API_URL, PUBLISH_API_URL};

#[test]
fn test_publish() {
    let logsnag = Logsnag::new("my-api-token", "my-project");

    let builder = logsnag
        .event("test", "Test Event")
        .with_description("A description here")
        .with_icon("❤️")
        .with_notify(true)
        .with_tag("guild-id", "test-guild-id")
        .with_tag("User_Name", "test-username-id");
    let request = builder.request();

    assert_eq!(request.url, PUBLISH_API_URL);
    assert_eq!(request.api_token, "my-api-token");
    let parsed: serde_json::Value = serde_json::from_str(&request.body).unwrap();
    let object = parsed.as_object().unwrap();
    assert_eq!(object.get("project").unwrap().as_str(), Some("my-project"));
    assert_eq!(object.get("channel").unwrap().as_str(), Some("test"));
    assert_eq!(object.get("event").unwrap().as_str(), Some("Test Event"));
    assert_eq!(object.get("description").unwrap().as_str(), Some("A description here"));
    assert_eq!(object.get("notify").unwrap().as_bool(), Some(true));
    let tags = object.get("tags").unwrap().as_object().unwrap();
    assert_eq!(tags.get("guild-id").unwrap().as_str(), Some("test-guild-id"));
    assert_eq!(tags.get("username").unwrap().as_str(), Some("test-username-id"));

    // a transport answering 200 makes the publish succeed
    let publish_result = evaluate_outcome(TransportOutcome::Responded {
        status: 200,
        body: Ok(String::new()),
    });
    assert!(publish_result.is_ok());
    assert_eq!(publish_result.unwrap().status, 200);
}

#[test]
fn test_insight() {
    let logsnag = Logsnag::new("my-api-token", "my-project");

    let request = logsnag.insight_request("Insight Title", InsightValue::Int(32), Some("❤️"));

    assert_eq!(request.url, INSIGHT_API_URL);
    assert_eq!(request.api_token, "my-api-token");
    let parsed: serde_json::Value = serde_json::from_str(&request.body).unwrap();
    let object = parsed.as_object().unwrap();
    assert_eq!(object.get("project").unwrap().as_str(), Some("my-project"));
    assert_eq!(object.get("title").unwrap().as_str(), Some("Insight Title"));
    assert_eq!(object.get("value").unwrap().as_i64(), Some(32));
    assert_eq!(object.get("icon").unwrap().as_str(), Some("❤️"));

    let insight_result = evaluate_outcome(TransportOutcome::Responded {
        status: 200,
        body: Ok(String::new()),
    });
    assert!(insight_result.is_ok());
}

#[test]
fn builder_chaining_overwrites_repeated_tag_key() {
    let logsnag = Logsnag::new("token", "p");
    let request = logsnag
        .event("c", "e")
        .with_tag("User_Name", "first")
        .with_tag("username", "second")
        .request();
    assert_eq!(
        request.body,
        "{\"project\":\"p\",\"channel\":\"c\",\"event\":\"e\",\"tags\":{\"username\":\"second\"}}"
    );
}

#[test]
fn non_200_status_is_an_api_error_carrying_the_body() {
    let result = evaluate_outcome(TransportOutcome::Responded {
        status: 500,
        body: Ok(String::from("bad token")),
    });
    let error = result.unwrap_err();
    match &error {
        SnagError::Api { status, body } => {
            assert_eq!(*status, 500);
            assert_eq!(body, "bad token");
        }
        other => panic!("expected an api error, got {:?}", other),
    }
    let message = error.message();
    assert!(message.contains("bad token"));
    assert_eq!(message, "api error: status 500, body: bad token");
}

#[test]
fn unreadable_body_is_reported_with_a_placeholder() {
    let result = evaluate_outcome(TransportOutcome::Responded {
        status: 502,
        body: Err(String::from("connection reset")),
    });
    match result.unwrap_err() {
        SnagError::Api { status, body } => {
            assert_eq!(status, 502);
            assert_eq!(body, "failed to read response body: connection reset");
        }
        other => panic!("expected an api error, got {:?}", other),
    }
}

#[test]
fn connection_failure_is_a_transport_error() {
    let result = evaluate_outcome(TransportOutcome::Failed {
        reason: String::from("connection refused"),
    });
    let error = result.unwrap_err();
    assert!(matches!(error, SnagError::Transport { .. }));
    assert!(!matches!(error, SnagError::Api { .. }));
    assert_eq!(error.message(), "transport error: connection refused");
}

#[test]
fn only_non_200_responses_need_their_body_read() {
    assert!(!should_read_body(200));
    assert!(should_read_body(404));
    assert!(should_read_body(500));
}
