use ses_sender::auth::{check_api_key, API_KEY_HEADER};
use ses_sender::bucket::TokenBucket;
use ses_sender::config::{get_environments, EnvValues};
use ses_sender::error::{AppError, AppResult};
use ses_sender::events::TRACKING_PIXEL;
use ses_sender::sender::SendEmailError;

fn unset_env() -> EnvValues {
    EnvValues {
        server_port: None,
        server_url: None,
        api_key: None,
        aws_region: None,
        aws_ses_from_email: None,
        max_send_per_second: None,
        sentry_dsn: None,
    }
}

#[test]
fn test_get_environments_returns_config() {
    let config = get_environments(&unset_env());
    assert!(!config.server_port.is_empty());
}

#[test]
fn test_app_config_global_same_instance() {
    let port1 = get_environments(&unset_env()).server_port.clone();
    let port2 = get_environments(&unset_env()).server_port.clone();
    assert_eq!(port1, port2);
}

#[test]
fn test_tracking_pixel_is_valid_png() {
    // PNG signature check
    assert_eq!(
        &TRACKING_PIXEL[0..8],
        &[0x89, 0x50, 0x4E, 0x47, 0x0D, 0x0A, 0x1A, 0x0A]
    );
}

#[test]
fn test_api_key_header_constant() {
    assert_eq!(API_KEY_HEADER, "X-API-KEY");
}

#[test]
fn test_send_email_error_display() {
    let err = SendEmailError::Build("test".to_string());
    assert!(err.to_string().contains("Failed to build email"));

    let err = SendEmailError::Sdk("sdk error".to_string());
    assert!(err.to_string().contains("SES SDK error"));

    let err = SendEmailError::MaxRetriesExceeded("timeout".to_string());
    assert!(err.to_string().contains("Max retries exceeded"));
}

#[test]
fn test_token_bucket_new() {
    let bucket = TokenBucket::new(10);
    assert_eq!(bucket.tokens, 10);
    assert_eq!(bucket.max_per_sec, 10);
}

#[test]
fn test_token_bucket_try_acquire() {
    let mut bucket = TokenBucket::new(2);

    assert!(bucket.try_acquire());
    assert_eq!(bucket.tokens, 1);

    assert!(bucket.try_acquire());
    assert_eq!(bucket.tokens, 0);

    assert!(!bucket.try_acquire());
    assert_eq!(bucket.tokens, 0);
}

#[test]
fn test_token_bucket_refill() {
    let mut bucket = TokenBucket::new(10);

    // Consume all tokens
    for _ in 0..10 {
        bucket.try_acquire();
    }
    assert_eq!(bucket.tokens, 0);

    // Refill 3
    bucket.refill(3);
    assert_eq!(bucket.tokens, 3);

    // Refill beyond max
    bucket.refill(20);
    assert_eq!(bucket.tokens, 10);
}

#[test]
fn test_token_bucket_reset() {
    let mut bucket = TokenBucket::new(10);

    // Consume all
    for _ in 0..10 {
        bucket.try_acquire();
    }
    assert_eq!(bucket.tokens, 0);

    bucket.reset();
    assert_eq!(bucket.tokens, 10);
}

#[test]
fn test_token_bucket_try_acquire_atomic() {
    let mut bucket = TokenBucket::new(1);

    // First try should succeed
    assert!(bucket.try_acquire());
    assert_eq!(bucket.tokens, 0);

    // Second try should fail
    assert!(!bucket.try_acquire());
    assert_eq!(bucket.tokens, 0);
}

#[test]
fn test_app_error_bad_request_display() {
    let error = AppError::BadRequest("잘못된 요청".to_string());
    assert_eq!(error.to_string(), "Bad request: 잘못된 요청");
}

#[test]
fn test_app_error_unauthorized_display() {
    let error = AppError::Unauthorized("인증 실패".to_string());
    assert_eq!(error.to_string(), "Unauthorized: 인증 실패");
}

#[test]
fn test_app_error_not_found_display() {
    let error = AppError::NotFound("리소스를 찾을 수 없음".to_string());
    assert_eq!(error.to_string(), "Not found: 리소스를 찾을 수 없음");
}

#[test]
fn test_app_error_validation_display() {
    let error = AppError::Validation("유효성 검사 실패".to_string());
    assert_eq!(error.to_string(), "Validation error: 유효성 검사 실패");
}

#[test]
fn test_app_error_internal_display() {
    let error = AppError::Internal("내부 오류".to_string());
    assert_eq!(error.to_string(), "Internal server error: 내부 오류");
}

#[test]
fn test_app_error_email_display() {
    let error = AppError::Email("발송 실패".to_string());
    assert_eq!(error.to_string(), "Email error: 발송 실패");
}

#[test]
fn test_app_error_channel_closed_display() {
    let error = AppError::ChannelClosed;
    assert_eq!(error.to_string(), "Channel closed");
}

#[test]
fn test_app_error_debug_format() {
    let error = AppError::BadRequest("test".to_string());
    let debug_str = format!("{error:?}");
    assert!(debug_str.contains("BadRequest"));
    assert!(debug_str.contains("test"));
}

#[test]
fn test_app_result_ok() {
    let value = 42;
    let result: AppResult<i32> = Ok(value);
    assert!(result.is_ok());
    assert_eq!(result.ok(), Some(value));
}

#[test]
fn test_app_result_err() {
    let result: AppResult<i32> = Err(AppError::NotFound("테스트".to_string()));
    assert!(result.is_err());
}

#[test]
fn test_error_empty_message() {
    let error = AppError::BadRequest(String::new());
    assert_eq!(error.to_string(), "Bad request: ");
}

#[test]
fn test_error_unicode_message() {
    let error = AppError::NotFound("🔍 찾을 수 없습니다".to_string());
    assert!(error.to_string().contains("🔍"));
}

#[test]
fn error_statuses_and_public_messages() {
    assert_eq!(AppError::BadRequest("b".to_string()).status_code(), 400);
    assert_eq!(AppError::Validation("v".to_string()).status_code(), 400);
    assert_eq!(AppError::Unauthorized("u".to_string()).status_code(), 401);
    assert_eq!(AppError::NotFound("n".to_string()).status_code(), 404);
    assert_eq!(AppError::Internal("i".to_string()).status_code(), 500);
    assert_eq!(AppError::ChannelClosed.status_code(), 500);
    assert_eq!(AppError::BadRequest("bad".to_string()).public_message(), "bad");
    assert_eq!(
        AppError::Database("disk I/O".to_string()).public_message(),
        "Database error occurred"
    );
    assert_eq!(AppError::Email("x".to_string()).public_message(), "Email sending error");
    assert_eq!(
        AppError::Internal("secret detail".to_string()).public_message(),
        "Internal server error"
    );
    assert_eq!(AppError::Validation("v".to_string()).public_message(), "v");
    assert_eq!(AppError::Unauthorized("u".to_string()).public_message(), "u");
    assert_eq!(AppError::NotFound("n".to_string()).public_message(), "n");
    assert!(AppError::ChannelClosed.is_server_error());
    assert!(!AppError::NotFound("n".to_string()).is_server_error());
}

#[test]
fn api_key_checks() {
    assert_eq!(check_api_key(None, "k"), Err("Missing X-API-KEY header".to_string()));
    assert_eq!(check_api_key(Some(""), "k"), Err("Empty API Key".to_string()));
    assert_eq!(check_api_key(Some("x"), "k"), Err("Invalid API Key".to_string()));
    assert_eq!(check_api_key(Some("k"), ""), Err("Invalid API Key".to_string()));
    assert_eq!(check_api_key(Some("k"), "k"), Ok(()));
}

#[test]
fn environment_defaults_and_values() {
    let env = get_environments(&unset_env());
    assert_eq!(env.server_port, "8080");
    assert_eq!(env.aws_region, "ap-northeast-2");
    assert_eq!(env.max_send_per_second, 24);
    assert_eq!(env.api_key, "");
    let mut vars = unset_env();
    vars.server_port = Some("9000".to_string());
    vars.max_send_per_second = Some("50".to_string());
    assert_eq!(get_environments(&vars).server_port, "9000");
    assert_eq!(get_environments(&vars).max_send_per_second, 50);
    vars.max_send_per_second = Some("fast".to_string());
    assert_eq!(get_environments(&vars).max_send_per_second, 24);
}
