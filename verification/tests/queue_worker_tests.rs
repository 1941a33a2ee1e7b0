//! The job queue's client behaviour without a reachable store, the worker's
//! polling decisions, and the cache client's construction and best-effort
//! operations.

use email_sanitizer::cache::{dns_value_decode, RedisCache};
use email_sanitizer::directory::DirectoryConfig;
use email_sanitizer::job_queue::{BulkValidationJob, JobQueue, JobStatus};
use email_sanitizer::worker::{worker_transition, ValidationWorker, WorkerAction};

fn offline_directory() -> DirectoryConfig {
    DirectoryConfig {
        mongo_uri: "mongodb://127.0.0.1:27017/?serverSelectionTimeoutMS=200&connectTimeoutMS=200"
            .to_string(),
        db_name: "email_sanitizer_test".to_string(),
        disposable_collection: "disposable_emails".to_string(),
        role_alias_collection: "role_based_aliases".to_string(),
    }
}

#[test]
fn test_job_queue_new() {
    let result = JobQueue::new("redis://127.0.0.1:6379");
    assert!(result.is_ok());
    let bad = JobQueue::new("not a url");
    assert!(bad.is_err());
}

#[test]
fn test_enqueue_fails_without_store() {
    let queue = JobQueue::new("redis://127.0.0.1:6379").unwrap();
    let emails = vec!["test@example.com".to_string()];
    assert!(queue.enqueue_bulk_validation(emails, false).is_err());
}

#[test]
fn test_get_job_status_fails_without_store() {
    let queue = JobQueue::new("redis://127.0.0.1:6379").unwrap();
    assert!(queue.get_job_status("test-job-id").is_err());
}

#[test]
fn test_update_job_status_fails_without_store() {
    let queue = JobQueue::new("redis://127.0.0.1:6379").unwrap();
    assert!(queue.update_job_status("test-job-id", JobStatus::Completed).is_err());
}

#[test]
fn test_get_next_job_fails_without_store() {
    let queue = JobQueue::new("redis://127.0.0.1:6379").unwrap();
    assert!(queue.get_next_job(1).is_err());
}

#[test]
fn test_worker_transition_decisions() {
    // a dequeued job is processed; an empty poll waits the short idle
    // second; a store error backs off for five
    let job = BulkValidationJob {
        id: "j".to_string(),
        emails: vec![],
        check_role_based: false,
        status: JobStatus::Pending,
        created_at: 0,
    };
    assert_eq!(worker_transition(&Ok(Some(job))), WorkerAction::Processed);
    assert_eq!(worker_transition(&Ok(None)), WorkerAction::WaitIdle);

    let queue = JobQueue::new("redis://127.0.0.1:6379").unwrap();
    let err = queue.get_next_job(1).unwrap_err();
    assert_eq!(worker_transition(&Err(err)), WorkerAction::WaitBackoff);
}

#[test]
fn test_wait_seconds_per_action() {
    assert_eq!(WorkerAction::Processed.wait_seconds(), 0);
    assert_eq!(WorkerAction::WaitIdle.wait_seconds(), 1);
    assert_eq!(WorkerAction::WaitBackoff.wait_seconds(), 5);
}

#[test]
fn test_poll_once_backs_off_without_store() {
    let worker = ValidationWorker::new(
        JobQueue::new("redis://127.0.0.1:6379").unwrap(),
        RedisCache::test_dummy(),
        offline_directory(),
    );
    assert_eq!(worker.poll_once(1), WorkerAction::WaitBackoff);
}

#[test]
fn test_process_bulk_validation_survives_missing_stores() {
    // nothing is reachable: every pipeline run fails fast and the final
    // status update is swallowed, without a panic
    let queue = JobQueue::new("redis://127.0.0.1:6379").unwrap();
    let job = BulkValidationJob {
        id: "test-job".to_string(),
        emails: vec!["definitely not an address".to_string()],
        check_role_based: false,
        status: JobStatus::Pending,
        created_at: 1234567890,
    };
    ValidationWorker::process_bulk_validation(
        job,
        &RedisCache::test_dummy(),
        &offline_directory(),
        &queue,
    );
}

#[test]
fn test_redis_cache_new() {
    // Test with valid Redis URL
    let result = RedisCache::new("redis://127.0.0.1:6379", 3600);
    assert!(result.is_ok() || result.is_err()); // Either works or fails gracefully

    // Test with invalid Redis URL
    let result = RedisCache::new("invalid://url", 3600);
    assert!(result.is_err());
}

#[test]
fn test_redis_cache_ttl_is_kept() {
    let cache = RedisCache::new("redis://127.0.0.1:6379", 86400).unwrap();
    assert_eq!(cache.ttl, 86400);
    assert_eq!(RedisCache::test_dummy().ttl, 3600);
}

#[test]
fn test_dns_value_decode() {
    // exactly the two well-formed payloads count; anything else is a miss
    assert_eq!(dns_value_decode(b"valid"), Some(true));
    assert_eq!(dns_value_decode(b"invalid"), Some(false));
    assert_eq!(dns_value_decode(b""), None);
    assert_eq!(dns_value_decode(b"VALID"), None);
    assert_eq!(dns_value_decode(b"valid "), None);
    assert_eq!(dns_value_decode(b"yes"), None);
}

#[test]
fn test_dns_cache_operations_fail_without_store() {
    let cache = RedisCache::test_dummy();
    assert!(cache.get_dns_validation("example.com").is_err());
    assert!(cache.set_dns_validation("example.com", true).is_err());
}
