//! The pipeline's fixed-order decision, its cache policy, and the bulk
//! dispatch threshold, exercised on concrete check results and on full runs
//! whose collaborators are unreachable.

use email_sanitizer::cache::RedisCache;
use email_sanitizer::directory::{is_disposable_email_mock, DirectoryConfig};
use email_sanitizer::outcome::{checks_outcome, should_cache, DbError, EmailValidationError,
    EmailValidationResponse};
use email_sanitizer::pipeline::{trim_str, validate_emails_bulk, validate_single_email,
    BulkDispatch, EmailQuery};

fn offline_directory() -> DirectoryConfig {
    DirectoryConfig {
        mongo_uri: "mongodb://127.0.0.1:27017/?serverSelectionTimeoutMS=200&connectTimeoutMS=200"
            .to_string(),
        db_name: "email_sanitizer_test".to_string(),
        disposable_collection: "disposable_emails".to_string(),
        role_alias_collection: "role_based_aliases".to_string(),
    }
}

#[test]
fn test_checks_outcome_syntax_failure_first() {
    // A syntax failure is reported whatever the later checks would say
    let r = checks_outcome(false, true, true, &Ok(true), &Ok(true));
    assert!(!r.is_valid);
    assert_eq!(r.error.unwrap().code, "INVALID_SYNTAX");
}

#[test]
fn test_checks_outcome_domain_failure_second() {
    let r = checks_outcome(true, false, true, &Ok(true), &Ok(true));
    assert!(!r.is_valid);
    assert_eq!(r.error.unwrap().code, "INVALID_DOMAIN");
}

#[test]
fn test_checks_outcome_disposable_domain() {
    // DNS resolves and the domain sits in the disposable store
    let r = checks_outcome(true, true, false, &Ok(false), &Ok(true));
    assert!(!r.is_valid);
    let err = r.error.unwrap();
    assert_eq!(err.code, "DISPOSABLE_EMAIL");
    assert_eq!(
        err.message,
        "The email address domain is a provider of disposable email addresses"
    );
}

#[test]
fn test_checks_outcome_role_based_when_enabled() {
    // admin@example.com with the role check on and "admin" in the store
    let r = checks_outcome(true, true, true, &Ok(true), &Ok(false));
    assert!(!r.is_valid);
    assert_eq!(r.error.unwrap().code, "ROLE_BASED_EMAIL");
}

#[test]
fn test_checks_outcome_role_ignored_when_disabled() {
    // the same check results with the role check off proceed to the
    // disposable stage and come out valid
    let r = checks_outcome(true, true, false, &Ok(true), &Ok(false));
    assert!(r.is_valid);
    assert_eq!(r.status.as_deref(), Some("VALID"));
    assert!(r.error.is_none());
}

#[test]
fn test_checks_outcome_database_error_from_role_lookup() {
    let r = checks_outcome(
        true,
        true,
        true,
        &Err(DbError { message: "connection reset".to_string() }),
        &Ok(false),
    );
    assert!(!r.is_valid);
    let err = r.error.unwrap();
    assert_eq!(err.code, "DATABASE_ERROR");
    assert_eq!(err.message, "connection reset");
}

#[test]
fn test_checks_outcome_database_error_from_disposable_lookup() {
    let r = checks_outcome(
        true,
        true,
        false,
        &Ok(false),
        &Err(DbError { message: "no reachable servers".to_string() }),
    );
    assert!(!r.is_valid);
    let err = r.error.unwrap();
    assert_eq!(err.code, "DATABASE_ERROR");
    assert_eq!(err.message, "no reachable servers");
}

#[test]
fn test_cache_policy_database_error_never_cached() {
    // authoritative outcomes are cached; database errors never
    let db_error = EmailValidationResponse {
        is_valid: false,
        status: None,
        error: Some(EmailValidationError {
            code: "DATABASE_ERROR".to_string(),
            message: "transient".to_string(),
        }),
    };
    assert!(!should_cache(&db_error));

    let valid = EmailValidationResponse {
        is_valid: true,
        status: Some("VALID".to_string()),
        error: None,
    };
    assert!(should_cache(&valid));

    let syntax = EmailValidationResponse {
        is_valid: false,
        status: None,
        error: Some(EmailValidationError {
            code: "INVALID_SYNTAX".to_string(),
            message: "Email address has invalid syntax".to_string(),
        }),
    };
    assert!(should_cache(&syntax));
}

#[test]
fn test_trim_behaviour() {
    assert_eq!(trim_str("  user@example.com  "), "user@example.com");
    assert_eq!(trim_str("\tuser@example.com\n"), "user@example.com");
    assert_eq!(trim_str("user@example.com"), "user@example.com");
    assert_eq!(trim_str("   "), "");
    assert_eq!(trim_str(""), "");
}

#[test]
fn test_validate_single_email_invalid_syntax() {
    let cache = RedisCache::test_dummy();
    let r = validate_single_email("invalid-email", false, &cache, &offline_directory());
    assert!(!r.is_valid);
    let err = r.error.unwrap();
    assert_eq!(err.code, "INVALID_SYNTAX");
    assert_eq!(err.message, "Email address has invalid syntax");
}

#[test]
fn test_validate_single_email_trims_before_checking() {
    let cache = RedisCache::test_dummy();
    let r = validate_single_email("   not an email   ", false, &cache, &offline_directory());
    assert_eq!(r.error.unwrap().code, "INVALID_SYNTAX");
}

#[test]
fn test_validate_single_email_unresolvable_domain() {
    let cache = RedisCache::test_dummy();
    let r = validate_single_email(
        "test@nonexistent.invalid",
        false,
        &cache,
        &offline_directory(),
    );
    assert!(!r.is_valid);
    let err = r.error.unwrap();
    assert_eq!(err.code, "INVALID_DOMAIN");
    assert_eq!(err.message, "Email domain has no valid DNS records");
}

#[test]
fn test_email_query_uncached_syntax_failure() {
    let query = EmailQuery::uncached();
    let r = query.validate_email("definitely not an address", Some(true), &offline_directory());
    assert!(!r.is_valid);
    assert_eq!(r.error.unwrap().code, "INVALID_SYNTAX");
}

#[test]
fn test_email_query_bulk_counts() {
    let query = EmailQuery::uncached();
    let emails = vec![
        "first-bad".to_string(),
        "second bad".to_string(),
        "@third".to_string(),
    ];
    let r = query.validate_emails_bulk(&emails, &offline_directory());
    assert_eq!(r.results.len(), 3);
    assert_eq!(r.valid_count, 0);
    assert_eq!(r.invalid_count, 3);
    assert_eq!(r.results[0].email, "first-bad");
    assert_eq!(r.results[2].email, "@third");
}

#[test]
fn test_bulk_dispatch_small_batch_inline() {
    let cache = RedisCache::test_dummy();
    let queue = email_sanitizer::job_queue::JobQueue::new("redis://127.0.0.1:6379").unwrap();
    let emails = vec!["a".to_string(), "b".to_string()];
    match validate_emails_bulk(&emails, false, &cache, &offline_directory(), &queue) {
        BulkDispatch::Inline(resp) => {
            assert_eq!(resp.results.len(), 2);
            assert_eq!(resp.valid_count + resp.invalid_count, 2);
            assert_eq!(resp.invalid_count, 2);
        },
        BulkDispatch::Queued(_) => panic!("a batch of two is answered inline"),
    }
}

#[test]
fn test_bulk_dispatch_large_batch_falls_back_without_queue() {
    // eleven addresses go to the queue; with the queue store unreachable the
    // batch falls back to inline processing
    let cache = RedisCache::test_dummy();
    let queue = email_sanitizer::job_queue::JobQueue::new("redis://127.0.0.1:6379").unwrap();
    let emails: Vec<String> = (0..11).map(|i| format!("bad address {}", i)).collect();
    match validate_emails_bulk(&emails, false, &cache, &offline_directory(), &queue) {
        BulkDispatch::Inline(resp) => {
            assert_eq!(resp.results.len(), 11);
            assert_eq!(resp.invalid_count, 11);
        },
        BulkDispatch::Queued(_) => panic!("no queue store is reachable here"),
    }
}

#[test]
fn test_disposable_mock_membership() {
    assert!(is_disposable_email_mock("example@mailinator.com").unwrap());
    assert!(is_disposable_email_mock("example@0-00.usa.cc").unwrap());
    assert!(!is_disposable_email_mock("johndoe@gmail.com").unwrap());
    assert!(is_disposable_email_mock("invalid-email").is_err());
}

#[test]
fn test_disposable_mock_lowercases_domain() {
    // membership is keyed by the lowercased domain
    assert!(is_disposable_email_mock("example@MAILINATOR.COM").unwrap());
    assert!(is_disposable_email_mock("example@MailInator.Com").unwrap());
}

#[test]
fn test_email_query_default() {
    let query = EmailQuery::default();
    assert!(query.redis_client.is_none());
    assert_eq!(query.cache_ttl, 0);
}

#[test]
fn test_email_query_default_values() {
    let query = EmailQuery {
        redis_client: None,
        cache_ttl: 7200,
    };
    assert!(query.redis_client.is_none());
    assert_eq!(query.cache_ttl, 7200);
}

#[test]
fn test_redis_cache_test_dummy() {
    let cache = RedisCache::test_dummy();
    assert_eq!(cache.ttl, 3600);
}

#[test]
fn test_directory_lookup_rejects_missing_at() {
    let dir = offline_directory();
    let r = email_sanitizer::directory::is_disposable_email("invalid-email", &dir);
    assert!(r.is_err());
    assert_eq!(r.unwrap_err().message, "Invalid email format: missing '@'");

    let r2 = email_sanitizer::directory::is_role_based_email("", &dir);
    assert_eq!(r2.unwrap_err(), "Invalid email format");

    let r3 = email_sanitizer::directory::is_role_based_alias("no-at-sign", &dir);
    assert!(r3.is_err());
}

#[test]
fn test_directory_lookup_surfaces_store_failure() {
    // a well-formed address against an unreachable store: the lookup fails
    // rather than guessing
    let dir = offline_directory();
    let r = email_sanitizer::directory::is_disposable_email("user@example.com", &dir);
    assert!(r.is_err());
    let r2 = email_sanitizer::directory::is_role_based_email("admin@example.com", &dir);
    assert!(r2.is_err());
}
