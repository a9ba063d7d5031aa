use gpt_copy_v5_backend::error::AppError;
use gpt_copy_v5_backend::models::{
    CreateConversationRequest, HealthResponse, MessageRole, SendMessageRequest,
};

#[test]
fn health_returns_ok() {
    let health = HealthResponse::healthy("0.1.0");
    assert!(health.ok);
    assert_eq!(health.service, "gpt-copy-v5-backend");
    assert_eq!(health.version, "0.1.0");
}

#[test]
fn validation_errors_are_structured() {
    let long_title = "x".repeat(121);
    let request = CreateConversationRequest { title: Some(long_title) };
    let error = request.validated_title().unwrap_err();
    assert_eq!(error.status(), 400);
    assert_eq!(error.code(), "validation_error");
    assert!(error.message().contains("title"));
}

#[test]
fn title_defaults_and_trims() {
    let none = CreateConversationRequest { title: None };
    assert_eq!(none.validated_title().unwrap(), "New chat");
    let blank = CreateConversationRequest { title: Some("   ".to_owned()) };
    assert_eq!(blank.validated_title().unwrap(), "New chat");
    let padded = CreateConversationRequest { title: Some("  Test  ".to_owned()) };
    assert_eq!(padded.validated_title().unwrap(), "Test");
    let limit = CreateConversationRequest { title: Some("é".repeat(120)) };
    assert_eq!(limit.validated_title().unwrap(), "é".repeat(120));
}

#[test]
fn content_is_trimmed_and_bounded() {
    let ok = SendMessageRequest { content: "  Hello model \n".to_owned() };
    assert_eq!(ok.validated_content().unwrap(), "Hello model");
    let empty = SendMessageRequest { content: " \t ".to_owned() };
    assert_eq!(
        empty.validated_content().unwrap_err(),
        AppError::Validation { message: "content is required".to_owned() }
    );
    let limit = SendMessageRequest { content: "y".repeat(16000) };
    assert_eq!(limit.validated_content().unwrap().len(), 16000);
    let long = SendMessageRequest { content: "y".repeat(16001) };
    assert_eq!(
        long.validated_content().unwrap_err(),
        AppError::Validation { message: "content must be 16000 characters or fewer".to_owned() }
    );
}

#[test]
fn roles_round_trip_through_their_names() {
    for role in [MessageRole::System, MessageRole::User, MessageRole::Assistant] {
        assert_eq!(MessageRole::from_db(role.as_str()).unwrap(), role);
    }
    assert_eq!(MessageRole::User.as_str(), "user");
    let error = MessageRole::from_db("moderator").unwrap_err();
    assert_eq!(error.message(), "message role is invalid");
    assert_eq!(error.status(), 400);
}

#[test]
fn error_codes_and_statuses() {
    let missing = AppError::not_found("conversation".to_owned());
    assert_eq!(missing.status(), 404);
    assert_eq!(missing.code(), "not_found");
    assert_eq!(missing.message(), "conversation not found");
    let db = AppError::Database { detail: "disk full".to_owned() };
    assert_eq!(db.status(), 500);
    assert_eq!(db.message(), "database error: disk full");
}
