use gpt_copy_v5_backend::error::AppError;
use gpt_copy_v5_backend::openrouter::{
    api_key, assistant_reply, completions_url, delta_text, is_success_status, status_line_text,
    status_line_with,
    OpenRouterError, OPENROUTER_BASE_URL,
};

#[test]
fn status_codes_of_provider_errors() {
    assert_eq!(OpenRouterError::MissingApiKey.status_code(), 500);
    assert_eq!(OpenRouterError::Transport("reset".to_owned()).status_code(), 502);
    assert_eq!(OpenRouterError::BadStatus { status: 429, body: String::new() }.status_code(), 502);
    assert_eq!(OpenRouterError::InvalidResponse("x".to_owned()).status_code(), 502);
    let upstream = AppError::Upstream { source: OpenRouterError::MissingApiKey };
    assert_eq!(upstream.status(), 500);
}

#[test]
fn provider_error_messages() {
    assert_eq!(OpenRouterError::MissingApiKey.message(), "OPENROUTER_API_KEY is not configured");
    assert_eq!(
        OpenRouterError::BadStatus { status: 502, body: "oops".to_owned() }.message(),
        "OpenRouter returned 502 Bad Gateway: oops"
    );
    assert_eq!(
        OpenRouterError::InvalidResponse("missing assistant content".to_owned()).message(),
        "OpenRouter response was invalid: missing assistant content"
    );
    assert_eq!(
        OpenRouterError::Transport("timed out".to_owned()).message(),
        "OpenRouter transport failed: timed out"
    );
}

#[test]
fn status_lines_follow_http() {
    assert_eq!(status_line_text(404), "404 Not Found");
    assert_eq!(status_line_text(799), "799 <unknown status code>");
    assert!(is_success_status(200));
    assert!(is_success_status(299));
    assert!(!is_success_status(300));
    assert!(!is_success_status(199));
}

#[test]
fn api_key_must_be_configured() {
    assert_eq!(api_key(&Some("sk".to_owned())).unwrap(), "sk");
    assert_eq!(api_key(&None).unwrap_err(), OpenRouterError::MissingApiKey);
}

#[test]
fn completions_endpoint() {
    assert_eq!(
        completions_url(OPENROUTER_BASE_URL),
        "https://openrouter.ai/api/v1/chat/completions"
    );
}

#[test]
fn reply_is_first_non_blank_choice() {
    assert_eq!(
        assistant_reply(vec!["Hi there".to_owned(), "other".to_owned()]).unwrap(),
        "Hi there"
    );
    let missing = OpenRouterError::InvalidResponse("missing assistant content".to_owned());
    assert_eq!(assistant_reply(vec![]).unwrap_err(), missing);
    assert_eq!(assistant_reply(vec!["  \n".to_owned(), "x".to_owned()]).unwrap_err(), missing);
}

#[test]
fn delta_is_first_non_empty_choice() {
    assert_eq!(delta_text(vec![Some("Mock ".to_owned())]), Some("Mock ".to_owned()));
    assert_eq!(delta_text(vec![Some(String::new())]), None);
    assert_eq!(delta_text(vec![None, Some("x".to_owned())]), None);
    assert_eq!(delta_text(vec![]), None);
}

#[test]
fn status_line_from_a_given_reason() {
    assert_eq!(status_line_with(418, Some("I'm a teapot")), "418 I'm a teapot");
    assert_eq!(status_line_with(520, None), "520 <unknown status code>");
}
