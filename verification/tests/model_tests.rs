//! The data model: request and response shapes, their conversions, and the
//! records of the authentication and health surfaces.

use email_sanitizer::auth::{ApiKey, AuthGuard, Claims, User};
use email_sanitizer::health::{Health, HealthQuery, HealthResponse};
use email_sanitizer::outcome::{
    BulkEmailRequest, BulkEmailValidationResponse, BulkEmailValidationResult,
    CachedValidationResponse, EmailRequest, EmailValidationError, EmailValidationResponse,
    ValidationQuery,
};

#[test]
fn test_email_request_struct() {
    let req = EmailRequest {
        email: "test@example.com".to_string(),
    };
    assert_eq!(req.email, "test@example.com");
}

#[test]
fn test_bulk_email_request_struct() {
    let req = BulkEmailRequest {
        emails: vec!["test1@example.com".to_string(), "test2@example.com".to_string()],
    };
    assert_eq!(req.emails.len(), 2);
    assert_eq!(req.emails[0], "test1@example.com");
}

#[test]
fn test_email_validation_error_struct() {
    let error = EmailValidationError {
        code: "INVALID_SYNTAX".to_string(),
        message: "Invalid email format".to_string(),
    };
    assert_eq!(error.code, "INVALID_SYNTAX");
    assert_eq!(error.message, "Invalid email format");
}

#[test]
fn test_email_validation_response_valid() {
    let response = EmailValidationResponse {
        is_valid: true,
        status: Some("VALID".to_string()),
        error: None,
    };
    assert!(response.is_valid);
    assert_eq!(response.status.unwrap(), "VALID");
    assert!(response.error.is_none());
}

#[test]
fn test_email_validation_response_invalid() {
    let response = EmailValidationResponse {
        is_valid: false,
        status: None,
        error: Some(EmailValidationError {
            code: "INVALID_SYNTAX".to_string(),
            message: "Bad format".to_string(),
        }),
    };
    assert!(!response.is_valid);
    assert!(response.status.is_none());
    assert!(response.error.is_some());
}

#[test]
fn test_bulk_email_validation_result() {
    let result = BulkEmailValidationResult {
        email: "test@example.com".to_string(),
        validation: EmailValidationResponse {
            is_valid: true,
            status: Some("VALID".to_string()),
            error: None,
        },
    };
    assert_eq!(result.email, "test@example.com");
    assert!(result.validation.is_valid);
}

#[test]
fn test_bulk_email_validation_response() {
    let response = BulkEmailValidationResponse {
        results: vec![],
        valid_count: 5,
        invalid_count: 3,
    };
    assert_eq!(response.valid_count, 5);
    assert_eq!(response.invalid_count, 3);
    assert_eq!(response.results.len(), 0);
}

#[test]
fn test_validation_query_default() {
    let query = ValidationQuery {
        check_role_based: false,
    };
    assert!(!query.check_role_based);
}

#[test]
fn test_validation_query_enabled() {
    let query = ValidationQuery {
        check_role_based: true,
    };
    assert!(query.check_role_based);
}

#[test]
fn test_bulk_email_request_empty() {
    let req = BulkEmailRequest {
        emails: vec![],
    };
    assert_eq!(req.emails.len(), 0);
}

#[test]
fn test_bulk_email_request_single_email() {
    let req = BulkEmailRequest {
        emails: vec!["single@example.com".to_string()],
    };
    assert_eq!(req.emails.len(), 1);
    assert_eq!(req.emails[0], "single@example.com");
}

#[test]
fn test_email_validation_error_different_codes() {
    let codes = vec![
        "INVALID_SYNTAX",
        "INVALID_DOMAIN",
        "ROLE_BASED_EMAIL",
        "DISPOSABLE_EMAIL",
        "DATABASE_ERROR"
    ];

    for code in codes {
        let error = EmailValidationError {
            code: code.to_string(),
            message: format!("Error for {}", code),
        };
        assert_eq!(error.code, code);
    }
}

#[test]
fn email_test_test_email_validation_error_struct() {
    let error = EmailValidationError {
        code: "TEST_CODE".to_string(),
        message: "Test message".to_string(),
    };
    assert_eq!(error.code, "TEST_CODE");
    assert_eq!(error.message, "Test message");
}

#[test]
fn email_test_test_email_validation_response_valid() {
    let response = EmailValidationResponse {
        is_valid: true,
        status: Some("VALID".to_string()),
        error: None,
    };
    assert!(response.is_valid);
    assert_eq!(response.status.as_ref().unwrap(), "VALID");
    assert!(response.error.is_none());
}

#[test]
fn email_test_test_email_validation_response_invalid() {
    let response = EmailValidationResponse {
        is_valid: false,
        status: None,
        error: Some(EmailValidationError {
            code: "INVALID_SYNTAX".to_string(),
            message: "Invalid format".to_string(),
        }),
    };
    assert!(!response.is_valid);
    assert!(response.status.is_none());
    assert!(response.error.is_some());
}

#[test]
fn email_test_test_bulk_email_validation_result() {
    let result = BulkEmailValidationResult {
        email: "test@example.com".to_string(),
        validation: EmailValidationResponse {
            is_valid: true,
            status: Some("VALID".to_string()),
            error: None,
        },
    };
    assert_eq!(result.email, "test@example.com");
    assert!(result.validation.is_valid);
}

#[test]
fn email_test_test_bulk_email_validation_response() {
    let response = BulkEmailValidationResponse {
        results: vec![],
        valid_count: 10,
        invalid_count: 5,
    };
    assert_eq!(response.valid_count, 10);
    assert_eq!(response.invalid_count, 5);
    assert!(response.results.is_empty());
}

#[test]
fn email_test_test_cached_validation_response_conversion() {
    let original = EmailValidationResponse {
        is_valid: true,
        status: Some("VALID".to_string()),
        error: None,
    };

    let cached: CachedValidationResponse = original.clone().into();
    assert_eq!(cached.is_valid, original.is_valid);
    assert_eq!(cached.status, original.status);
    assert!(cached.error.is_none());

    let converted: EmailValidationResponse = cached.into();
    assert_eq!(converted.is_valid, original.is_valid);
    assert_eq!(converted.status, original.status);
    assert!(converted.error.is_none());
}

#[test]
fn email_test_test_cached_validation_response_with_error() {
    let original = EmailValidationResponse {
        is_valid: false,
        status: None,
        error: Some(EmailValidationError {
            code: "TEST_ERROR".to_string(),
            message: "Test error message".to_string(),
        }),
    };

    let cached: CachedValidationResponse = original.clone().into();
    let converted: EmailValidationResponse = cached.into();

    assert_eq!(converted.is_valid, original.is_valid);
    assert_eq!(converted.status, original.status);
    assert!(converted.error.is_some());
    assert_eq!(
        converted.error.as_ref().unwrap().code,
        original.error.as_ref().unwrap().code
    );
}

#[test]
fn test_email_validation_error_codes() {
    let error_codes = vec![
        "INVALID_SYNTAX",
        "INVALID_DOMAIN",
        "ROLE_BASED_EMAIL",
        "DISPOSABLE_EMAIL",
        "DATABASE_ERROR",
        "PROCESSING_ERROR"
    ];

    for code in error_codes {
        let error = EmailValidationError {
            code: code.to_string(),
            message: format!("Message for {}", code),
        };
        assert_eq!(error.code, code);
        assert!(error.message.contains(code));
    }
}

#[test]
fn test_bulk_validation_response_mixed_results() {
    let results = vec![
        BulkEmailValidationResult {
            email: "valid@example.com".to_string(),
            validation: EmailValidationResponse {
                is_valid: true,
                status: Some("VALID".to_string()),
                error: None,
            },
        },
        BulkEmailValidationResult {
            email: "invalid-email".to_string(),
            validation: EmailValidationResponse {
                is_valid: false,
                status: None,
                error: Some(EmailValidationError {
                    code: "INVALID_SYNTAX".to_string(),
                    message: "Invalid syntax".to_string(),
                }),
            },
        },
    ];

    let response = BulkEmailValidationResponse {
        results,
        valid_count: 1,
        invalid_count: 1,
    };

    assert_eq!(response.results.len(), 2);
    assert_eq!(response.valid_count, 1);
    assert_eq!(response.invalid_count, 1);

    // Check first result (valid)
    assert!(response.results[0].validation.is_valid);
    assert_eq!(response.results[0].email, "valid@example.com");

    // Check second result (invalid)
    assert!(!response.results[1].validation.is_valid);
    assert_eq!(response.results[1].email, "invalid-email");
}

#[test]
fn test_email_validation_response_edge_cases() {
    // Response with empty status string
    let response1 = EmailValidationResponse {
        is_valid: true,
        status: Some("".to_string()),
        error: None,
    };
    assert!(response1.is_valid);
    assert_eq!(response1.status.as_ref().unwrap(), "");

    // Response with both status and error (unusual but possible)
    let response2 = EmailValidationResponse {
        is_valid: false,
        status: Some("INVALID".to_string()),
        error: Some(EmailValidationError {
            code: "TEST".to_string(),
            message: "Test".to_string(),
        }),
    };
    assert!(!response2.is_valid);
    assert!(response2.status.is_some());
    assert!(response2.error.is_some());
}

#[test]
fn test_email_validation_error_message_variations() {
    let messages = vec![
        "",
        "Short message",
        "A very long error message that contains multiple sentences and provides detailed information about what went wrong during the validation process.",
        "Message with special characters: !@#$%^&*()",
        "Message with unicode: 测试消息 🚀",
    ];

    for message in messages {
        let error = EmailValidationError {
            code: "TEST_CODE".to_string(),
            message: message.to_string(),
        };
        assert_eq!(error.message, message);
    }
}

#[test]
fn test_email_validation_error_clone() {
    let original = EmailValidationError {
        code: "TEST".to_string(),
        message: "Test message".to_string(),
    };
    let cloned = original.clone();
    assert_eq!(original.code, cloned.code);
    assert_eq!(original.message, cloned.message);
}

#[test]
fn test_email_validation_response_clone() {
    let original = EmailValidationResponse {
        is_valid: true,
        status: Some("VALID".to_string()),
        error: None,
    };
    let cloned = original.clone();
    assert_eq!(original.is_valid, cloned.is_valid);
    assert_eq!(original.status, cloned.status);
}

#[test]
fn test_email_validation_error_debug() {
    let error = EmailValidationError {
        code: "TEST".to_string(),
        message: "Test".to_string(),
    };
    let debug_str = format!("{:?}", error);
    assert!(debug_str.contains("TEST"));
}

#[test]
fn test_api_key_struct() {
    let api_key = ApiKey {
        key: "test-key".to_string(),
        active: true,
    };

    assert_eq!(api_key.key, "test-key");
    assert_eq!(api_key.active, true);
}

#[test]
fn test_user_struct() {
    let user = User {
        email: "test@example.com".to_string(),
        password_hash: "hashed-password".to_string(),
        active: true,
    };

    assert_eq!(user.email, "test@example.com");
    assert_eq!(user.password_hash, "hashed-password");
    assert_eq!(user.active, true);
}

#[test]
fn test_claims_struct() {
    let claims = Claims {
        email: "test@example.com".to_string(),
        exp: 1234567890,
    };

    assert_eq!(claims.email, "test@example.com");
    assert_eq!(claims.exp, 1234567890);
}

#[test]
fn test_user_struct_creation() {
    let user = User {
        email: "test@example.com".to_string(),
        password_hash: "hashed_password".to_string(),
        active: true,
    };

    assert_eq!(user.email, "test@example.com");
    assert_eq!(user.password_hash, "hashed_password");
    assert_eq!(user.active, true);
}

#[test]
fn test_api_key_struct_creation() {
    let api_key = ApiKey {
        key: "test-key".to_string(),
        active: true,
    };

    assert_eq!(api_key.key, "test-key");
    assert_eq!(api_key.active, true);
}

#[test]
fn test_claims_struct_creation() {
    let claims = Claims {
        email: "test@example.com".to_string(),
        exp: 1234567890,
    };

    assert_eq!(claims.email, "test@example.com");
    assert_eq!(claims.exp, 1234567890);
}

#[test]
fn test_edge_cases() {
    // Test with empty strings
    let user = User {
        email: "".to_string(),
        password_hash: "".to_string(),
        active: false,
    };

    assert_eq!(user.email, "");
    assert_eq!(user.password_hash, "");
    assert_eq!(user.active, false);

    // Test with Unicode
    let user_unicode = User {
        email: "tëst@exämple.com".to_string(),
        password_hash: "üñíçødé".to_string(),
        active: true,
    };

    assert_eq!(user_unicode.email, "tëst@exämple.com");
    assert_eq!(user_unicode.password_hash, "üñíçødé");
}

#[test]
fn test_auth_guard_creation() {
    let _guard = AuthGuard;
    // Just test that AuthGuard can be instantiated
    assert!(true);
}

#[test]
fn test_health_query_default() {
    let health_query = HealthQuery::default();
    // Simply verify we can create a default instance
    assert!(matches!(health_query, HealthQuery));
}

#[test]
fn test_health_struct_properties() {
    // Create a Health object directly
    let status = "UP".to_string();
    let timestamp = "2025-04-19T12:00:00Z".to_string();

    let health = Health {
        status: status.clone(),
        timestamp: timestamp.clone(),
    };

    // Verify the fields are accessible
    assert_eq!(health.status, status);
    assert_eq!(health.timestamp, timestamp);
}

#[test]
fn test_health_from_health_response() {
    // Create a test HealthResponse
    let status = "UP".to_string();
    let timestamp = chrono::Utc::now().to_rfc3339();
    let health_response = HealthResponse {
        status: status.clone(),
        timestamp: timestamp.clone(),
    };

    // Convert to Health
    let health = Health::from(health_response);

    // Verify fields are correctly mapped
    assert_eq!(health.status, status);
    assert_eq!(health.timestamp, timestamp);
}

#[test]
fn test_health_response_up() {
    let response = HealthResponse::up();

    // Verify status
    assert_eq!(response.status, "UP");

    // Verify timestamp is valid ISO 8601 format
    let parsed_time = chrono::DateTime::parse_from_rfc3339(&response.timestamp);
    assert!(
        parsed_time.is_ok(),
        "Timestamp should be valid RFC3339 format"
    );
}

#[test]
fn test_health_response_reports_up() {
    let response = HealthResponse::up();
    assert_eq!(response.status, "UP");
    assert!(!response.timestamp.is_empty());
}

#[test]
fn test_health_query_answers_up() {
    let health = HealthQuery.health();
    assert_eq!(health.status, "UP");
}

#[test]
fn test_graphql_modules_exist() {
    // The query surface's entry points are reachable
    assert!(true);
}

#[test]
fn test_health_module_exists() {
    // The health module is accessible
    assert!(true);
}

#[test]
fn test_validation_module_exists() {
    // The validation modules are accessible
    assert!(true);
}

#[test]
fn test_validation_modules_exist() {
    // All validation modules are accessible
    assert!(true);
}
