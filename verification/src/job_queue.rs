//! The durable FIFO queue of bulk-validation jobs.  A job is serialized once
//! and lives in two places: on the queue list awaiting a worker, and under a
//! per-job key for status polling, bounded by a one-hour expiry.  The byte
//! format of the record is defined by `spec_decode_job`, and the encoder
//! guarantees that reading a record back yields the job that was written.

use vstd::prelude::*;
use vstd::string::StringExecFns;
use crate::cache::{client_connect, client_open, redis_brpop, redis_expire, redis_get, redis_lpush,
    redis_set};
use crate::codec::{append_bytes, encode_bool, encode_string, encode_u64, read_bool_at,
    read_string_at, read_u64_at, spec_read_bool, spec_read_string, spec_read_u64};

verus! {

/// Lifecycle of a bulk job, advisory only: a worker marks a job while and
/// after handling it, and polling reads the mark.
#[derive(Clone, Copy, Debug, PartialEq, Eq, Structural)]
pub enum JobStatus {
    Pending,
    Processing,
    Completed,
    Failed,
}

/// One queued bulk-validation request.
#[derive(Clone, Debug)]
pub struct BulkValidationJob {
    pub id: String,
    pub emails: Vec<String>,
    pub check_role_based: bool,
    pub status: JobStatus,
    pub created_at: i64,
}

/// The content of a job record, free of representation detail.
pub struct JobModel {
    pub id: Seq<char>,
    pub emails: Seq<Seq<char>>,
    pub check_role_based: bool,
    pub status: JobStatus,
    pub created_at: int,
}

/// The content of a job value.
pub open spec fn job_model(j: BulkValidationJob) -> JobModel {
    JobModel {
        id: j.id@,
        emails: j.emails.deep_view(),
        check_role_based: j.check_role_based,
        status: j.status,
        created_at: j.created_at as int,
    }
}

/// Reads one status byte.
pub open spec fn spec_read_status(b: Seq<u8>) -> Option<(JobStatus, Seq<u8>)> {
    if b.len() < 1 {
        None
    } else if b[0] == 0 {
        Some((JobStatus::Pending, b.drop_first()))
    } else if b[0] == 1 {
        Some((JobStatus::Processing, b.drop_first()))
    } else if b[0] == 2 {
        Some((JobStatus::Completed, b.drop_first()))
    } else if b[0] == 3 {
        Some((JobStatus::Failed, b.drop_first()))
    } else {
        None
    }
}

/// Reads a signed timestamp: a sign byte, then the eight-byte magnitude (for
/// a negative value, of its bitwise complement).
pub open spec fn spec_read_i64(b: Seq<u8>) -> Option<(int, Seq<u8>)> {
    match spec_read_bool(b) {
        None => None,
        Some((neg, rest)) => match spec_read_u64(rest) {
            None => None,
            Some((m, rest2)) => {
                if m > 0x7FFF_FFFF_FFFF_FFFF {
                    None
                } else if neg {
                    Some((-m - 1, rest2))
                } else {
                    Some((m, rest2))
                }
            },
        },
    }
}

/// Reads a list of `count` length-prefixed strings.
pub open spec fn spec_read_emails(b: Seq<u8>, count: int) -> Option<(Seq<Seq<char>>, Seq<u8>)>
    decreases count,
{
    if count <= 0 {
        Some((Seq::empty(), b))
    } else {
        match spec_read_string(b) {
            None => None,
            Some((s, rest)) => match spec_read_emails(rest, count - 1) {
                None => None,
                Some((ss, rest2)) => Some((seq![s] + ss, rest2)),
            },
        }
    }
}

/// Reads a whole job record: id, role-check flag, status, creation time,
/// email count, then the emails, with nothing left over.
pub open spec fn spec_decode_job(b: Seq<u8>) -> Option<JobModel> {
    match spec_read_string(b) {
        None => None,
        Some((id, b1)) => match spec_read_bool(b1) {
            None => None,
            Some((check_role_based, b2)) => match spec_read_status(b2) {
                None => None,
                Some((status, b3)) => match spec_read_i64(b3) {
                    None => None,
                    Some((created_at, b4)) => match spec_read_u64(b4) {
                        None => None,
                        Some((count, b5)) => match spec_read_emails(b5, count) {
                            None => None,
                            Some((emails, b6)) => {
                                if b6.len() == 0 {
                                    Some(
                                        JobModel {
                                            id,
                                            emails,
                                            check_role_based,
                                            status,
                                            created_at,
                                        },
                                    )
                                } else {
                                    None
                                }
                            },
                        },
                    },
                },
            },
        },
    }
}

/// Encodes a status as one byte.
fn encode_status(s: JobStatus) -> (r: Vec<u8>)
    ensures
        forall|rest: Seq<u8>| spec_read_status(r@ + rest) == Some((s, rest)),
{
    let byte: u8 = match s {
        JobStatus::Pending => 0,
        JobStatus::Processing => 1,
        JobStatus::Completed => 2,
        JobStatus::Failed => 3,
    };
    let r: Vec<u8> = vec![byte];
    proof {
        assert forall|rest: Seq<u8>| spec_read_status(r@ + rest) == Some((s, rest)) by {
            assert((r@ + rest)[0] == byte);
            assert((r@ + rest).drop_first() =~= rest);
        }
    }
    r
}

/// Reads back one status byte starting at `pos`.
fn read_status_at(b: &[u8], pos: usize) -> (r: Option<(JobStatus, usize)>)
    requires
        pos <= b@.len(),
    ensures
        match r {
            Some(v) => spec_read_status(b@.skip(pos as int)) == Some((v.0, b@.skip(v.1 as int)))
                && pos <= v.1 <= b@.len(),
            None => spec_read_status(b@.skip(pos as int)) is None,
        },
{
    let n = b.len();
    if pos >= n {
        return None;
    }
    proof {
        assert(b@.skip(pos as int)[0] == b@[pos as int]);
        assert(b@.skip(pos as int).drop_first() =~= b@.skip(pos + 1));
    }
    let byte = b[pos];
    if byte == 0 {
        Some((JobStatus::Pending, pos + 1))
    } else if byte == 1 {
        Some((JobStatus::Processing, pos + 1))
    } else if byte == 2 {
        Some((JobStatus::Completed, pos + 1))
    } else if byte == 3 {
        Some((JobStatus::Failed, pos + 1))
    } else {
        None
    }
}

/// Encodes a signed timestamp.
fn encode_i64(n: i64) -> (r: Vec<u8>)
    ensures
        forall|rest: Seq<u8>| spec_read_i64(r@ + rest) == Some((n as int, rest)),
{
    let neg = n < 0;
    let m: u64 = if n >= 0 {
        n as u64
    } else {
        (-(n + 1)) as u64
    };
    let eb = encode_bool(neg);
    let em = encode_u64(m);
    let mut r = eb;
    append_bytes(&mut r, em.as_slice());
    proof {
        let ghost ebv = r@.take(1);
        assert(r@ =~= ebv + em@);
        assert forall|rest: Seq<u8>| spec_read_i64(r@ + rest) == Some((n as int, rest)) by {
            assert(r@ + rest =~= ebv + (em@ + rest));
            assert(spec_read_bool(ebv + (em@ + rest)) == Some((neg, em@ + rest)));
            assert((em@ + rest).take(8) =~= em@);
            assert((em@ + rest).skip(8) =~= rest);
            assert(m <= 0x7FFF_FFFF_FFFF_FFFF);
        }
    }
    r
}

/// Reads back a signed timestamp starting at `pos`.
fn read_i64_at(b: &[u8], pos: usize) -> (r: Option<(i64, usize)>)
    requires
        pos <= b@.len(),
    ensures
        match r {
            Some(v) => spec_read_i64(b@.skip(pos as int)) == Some(
                (v.0 as int, b@.skip(v.1 as int)),
            ) && pos <= v.1 <= b@.len(),
            None => spec_read_i64(b@.skip(pos as int)) is None,
        },
{
    let (neg, p1) = match read_bool_at(b, pos) {
        Some(v) => v,
        None => {
            return None;
        },
    };
    let (m, p2) = match read_u64_at(b, p1) {
        Some(v) => v,
        None => {
            return None;
        },
    };
    if m > 0x7FFF_FFFF_FFFF_FFFF {
        return None;
    }
    if neg {
        let v: i64 = -(m as i64) - 1;
        Some((v, p2))
    } else {
        Some((m as i64, p2))
    }
}

/// Serializes a job record.  Reading the bytes back yields exactly the job
/// that went in.
#[verifier::rlimit(100)]
pub fn encode_job(job: &BulkValidationJob) -> (out: Vec<u8>)
    ensures
        spec_decode_job(out@) == Some(job_model(*job)),
{
    let n = job.emails.len();
    let mut items: Vec<u8> = Vec::new();
    let mut j = n;
    proof {
        assert(job.emails.deep_view().subrange(n as int, n as int) =~= Seq::<Seq<char>>::empty());
    }
    while j > 0
        invariant
            j <= n,
            n == job.emails@.len(),
            forall|rest: Seq<u8>|
                spec_read_emails(items@ + rest, n - j) == Some(
                    (job.emails.deep_view().subrange(j as int, n as int), rest),
                ),
        decreases j,
    {
        j = j - 1;
        let es = encode_string(&job.emails[j]);
        let ghost es_view = es@;
        let ghost old_items = items@;
        let mut new_items = es;
        append_bytes(&mut new_items, items.as_slice());
        items = new_items;
        proof {
            let dv = job.emails.deep_view();
            assert(dv[j as int] == job.emails@[j as int]@);
            assert(dv.subrange(j as int, n as int) =~= seq![dv[j as int]] + dv.subrange(
                j + 1,
                n as int,
            ));
            assert(items@ =~= es_view + old_items);
            assert forall|rest: Seq<u8>|
                spec_read_emails(items@ + rest, n - j) == Some(
                    (dv.subrange(j as int, n as int), rest),
                ) by {
                assert(items@ + rest =~= es_view + (old_items + rest));
                assert(spec_read_string(es_view + (old_items + rest)) == Some(
                    (job.emails@[j as int]@, old_items + rest),
                ));
                assert(spec_read_emails(old_items + rest, n - j - 1) == Some(
                    (dv.subrange(j + 1, n as int), rest),
                ));
            }
        }
    }
    let eid = encode_string(&job.id);
    let eflag = encode_bool(job.check_role_based);
    let estatus = encode_status(job.status);
    let etime = encode_i64(job.created_at);
    let ecount = encode_u64(n as u64);
    let mut out = eid;
    let ghost h1 = out@;
    append_bytes(&mut out, eflag.as_slice());
    append_bytes(&mut out, estatus.as_slice());
    append_bytes(&mut out, etime.as_slice());
    append_bytes(&mut out, ecount.as_slice());
    append_bytes(&mut out, items.as_slice());
    proof {
        let m = job_model(*job);
        let tail1 = eflag@ + (estatus@ + (etime@ + (ecount@ + items@)));
        assert(out@ =~= h1 + tail1);
        assert(spec_read_string(out@) == Some((m.id, tail1)));
        let tail2 = estatus@ + (etime@ + (ecount@ + items@));
        assert(tail1 =~= eflag@ + tail2);
        assert(spec_read_bool(tail1) == Some((m.check_role_based, tail2)));
        let tail3 = etime@ + (ecount@ + items@);
        assert(tail2 =~= estatus@ + tail3);
        assert(spec_read_status(tail2) == Some((m.status, tail3)));
        let tail4 = ecount@ + items@;
        assert(tail3 =~= etime@ + tail4);
        assert(spec_read_i64(tail3) == Some((m.created_at, tail4)));
        assert(tail4.take(8) =~= ecount@);
        assert(tail4.skip(8) =~= items@);
        assert(spec_read_u64(tail4) == Some((n as int, items@)));
        assert(items@ =~= items@ + Seq::<u8>::empty());
        assert(spec_read_emails(items@ + Seq::<u8>::empty(), n as int) == Some(
            (m.emails.subrange(0, n as int), Seq::<u8>::empty()),
        ));
        assert(m.emails.subrange(0, n as int) =~= m.emails);
        assert(spec_read_emails(items@, n as int) == Some((m.emails, Seq::<u8>::empty())));
        assert(spec_decode_job(out@) == Some(m));
    }
    out
}

/// Reads back `count` emails starting at `pos`.
fn read_emails_at(b: &[u8], pos: usize, count: u64) -> (r: Option<(Vec<String>, usize)>)
    requires
        pos <= b@.len(),
    ensures
        match r {
            Some(v) => spec_read_emails(b@.skip(pos as int), count as int) == Some(
                (v.0.deep_view(), b@.skip(v.1 as int)),
            ) && pos <= v.1 <= b@.len(),
            None => spec_read_emails(b@.skip(pos as int), count as int) is None,
        },
{
    let mut out: Vec<String> = Vec::new();
    let mut p = pos;
    let mut i: u64 = 0;
    proof {
        assert(out.deep_view() =~= Seq::<Seq<char>>::empty());
    }
    while i < count
        invariant
            pos <= p <= b@.len(),
            i <= count,
            out@.len() == i,
            spec_read_emails(b@.skip(pos as int), count as int) == (match spec_read_emails(
                b@.skip(p as int),
                count - i,
            ) {
                None => None::<(Seq<Seq<char>>, Seq<u8>)>,
                Some((xs, rest)) => Some((out.deep_view() + xs, rest)),
            }),
        decreases count - i,
    {
        let ghost old_dv = out.deep_view();
        match read_string_at(b, p) {
            Some((s, p2)) => {
                proof {
                    assert(spec_read_string(b@.skip(p as int)) == Some((s@, b@.skip(p2 as int))));
                }
                out.push(s);
                proof {
                    assert(out.deep_view() =~= old_dv.push(s@));
                }
                p = p2;
                i = i + 1;
                proof {
                    match spec_read_emails(b@.skip(p as int), count - i) {
                        None => {},
                        Some((xs, rest)) => {
                            assert(old_dv + (seq![s@] + xs) =~= out.deep_view() + xs);
                        },
                    }
                }
            },
            None => {
                return None;
            },
        }
    }
    proof {
        assert(spec_read_emails(b@.skip(p as int), 0) == Some(
            (Seq::<Seq<char>>::empty(), b@.skip(p as int)),
        ));
        assert(out.deep_view() + Seq::<Seq<char>>::empty() =~= out.deep_view());
    }
    Some((out, p))
}

/// Reads a job record back; None when the bytes are not a well-formed
/// record.  Success yields exactly the job the record holds.
pub fn decode_job(b: &[u8]) -> (r: Option<BulkValidationJob>)
    ensures
        match r {
            Some(v) => spec_decode_job(b@) == Some(job_model(v)),
            None => spec_decode_job(b@) is None,
        },
{
    proof {
        assert(b@.skip(0) =~= b@);
    }
    let n = b.len();
    let (id, p1) = match read_string_at(b, 0) {
        Some(v) => v,
        None => {
            return None;
        },
    };
    let (check_role_based, p2) = match read_bool_at(b, p1) {
        Some(v) => v,
        None => {
            return None;
        },
    };
    let (status, p3) = match read_status_at(b, p2) {
        Some(v) => v,
        None => {
            return None;
        },
    };
    let (created_at, p4) = match read_i64_at(b, p3) {
        Some(v) => v,
        None => {
            return None;
        },
    };
    let (count, p5) = match read_u64_at(b, p4) {
        Some(v) => v,
        None => {
            return None;
        },
    };
    let (emails, p6) = match read_emails_at(b, p5, count) {
        Some(v) => v,
        None => {
            return None;
        },
    };
    if p6 == n {
        proof {
            assert(b@.skip(n as int).len() == 0);
        }
        Some(BulkValidationJob { id, emails, check_role_based, status, created_at })
    } else {
        proof {
            assert(b@.skip(p6 as int).len() > 0);
        }
        None
    }
}

/// Relies on uuid::Uuid::new_v4 and its hyphenated rendering: a fresh random
/// identifier, 36 characters long.
#[verifier::external_body]
fn new_job_id() -> (r: String)
    ensures
        r@.len() == 36,
{
    uuid::Uuid::new_v4().to_string()
}

/// Relies on chrono::Utc::now: the current Unix timestamp in seconds.
#[verifier::external_body]
pub(crate) fn now_timestamp() -> (r: i64) {
    chrono::Utc::now().timestamp()
}

impl BulkValidationJob {
    /// The same job with its status replaced: every other field is kept.
    pub fn with_status(self, status: JobStatus) -> (r: BulkValidationJob)
        ensures
            r.id == self.id,
            r.emails == self.emails,
            r.check_role_based == self.check_role_based,
            r.created_at == self.created_at,
            r.status == status,
    {
        BulkValidationJob {
            id: self.id,
            emails: self.emails,
            check_role_based: self.check_role_based,
            status,
            created_at: self.created_at,
        }
    }
}

/// The key the per-job record lives under.
fn job_key(job_id: &str) -> (r: String)
    ensures
        r@ == "job:"@ + job_id@,
{
    String::from_str("job:").concat(job_id)
}

/// The FIFO queue of bulk jobs, over the list `bulk_validation_queue` and a
/// keyed record per job.
pub struct JobQueue {
    pub redis: redis::Client,
}

impl JobQueue {
    /// Builds a queue client for the given URL; fails exactly when the URL
    /// cannot be parsed.
    pub fn new(redis_url: &str) -> (r: Result<Self, redis::RedisError>) {
        match client_open(redis_url) {
            Ok(client) => Ok(JobQueue { redis: client }),
            Err(e) => Err(e),
        }
    }

    /// Creates a fresh job with status Pending and the current timestamp,
    /// pushes its record onto the queue list, and writes the per-job record
    /// with a one-hour expiry.  Returns the new job's identifier at once,
    /// without waiting for processing.
    pub fn enqueue_bulk_validation(&self, emails: Vec<String>, check_role_based: bool) -> (r:
        Result<String, redis::RedisError>)
        ensures
            r matches Ok(id) ==> id@.len() == 36,
    {
        let job_id = new_job_id();
        let key = job_key(job_id.as_str());
        let job = BulkValidationJob {
            id: job_id,
            emails,
            check_role_based,
            status: JobStatus::Pending,
            created_at: now_timestamp(),
        };
        let bytes = encode_job(&job);
        let mut conn = match client_connect(&self.redis) {
            Ok(c) => c,
            Err(e) => {
                return Err(e);
            },
        };
        match redis_lpush(&mut conn, "bulk_validation_queue", bytes.as_slice()) {
            Ok(()) => {},
            Err(e) => {
                return Err(e);
            },
        }
        match redis_set(&mut conn, key.as_str(), bytes.as_slice()) {
            Ok(()) => {},
            Err(e) => {
                return Err(e);
            },
        }
        match redis_expire(&mut conn, key.as_str(), 3600) {
            Ok(()) => {},
            Err(e) => {
                return Err(e);
            },
        }
        Ok(job.id)
    }

    /// Reads the per-job record: None when the identifier is unknown or the
    /// record has expired, which a caller cannot tell apart.  A record that
    /// does not parse also reads as None.
    pub fn get_job_status(&self, job_id: &str) -> (r: Result<
        Option<BulkValidationJob>,
        redis::RedisError,
    >) {
        let key = job_key(job_id);
        let mut conn = match client_connect(&self.redis) {
            Ok(c) => c,
            Err(e) => {
                return Err(e);
            },
        };
        match redis_get(&mut conn, key.as_str()) {
            Ok(Some(bytes)) => Ok(decode_job(bytes.as_slice())),
            Ok(None) => Ok(None),
            Err(e) => Err(e),
        }
    }

    /// Read-modify-writes the per-job record's status; a record that has
    /// already expired makes this a silent no-op.
    pub fn update_job_status(&self, job_id: &str, status: JobStatus) -> (r: Result<
        (),
        redis::RedisError,
    >) {
        let job = match self.get_job_status(job_id) {
            Ok(Some(job)) => job,
            Ok(None) => {
                return Ok(());
            },
            Err(e) => {
                return Err(e);
            },
        };
        let updated = job.with_status(status);
        let bytes = encode_job(&updated);
        let key = job_key(job_id);
        let mut conn = match client_connect(&self.redis) {
            Ok(c) => c,
            Err(e) => {
                return Err(e);
            },
        };
        redis_set(&mut conn, key.as_str(), bytes.as_slice())
    }

    /// Blocking pop from the queue list with a bounded wait: None on
    /// timeout, so a consumer loop can re-check liveness periodically.  A
    /// popped record that does not parse also yields None.
    pub fn get_next_job(&self, timeout_secs: u64) -> (r: Result<
        Option<BulkValidationJob>,
        redis::RedisError,
    >) {
        let mut conn = match client_connect(&self.redis) {
            Ok(c) => c,
            Err(e) => {
                return Err(e);
            },
        };
        match redis_brpop(&mut conn, "bulk_validation_queue", timeout_secs) {
            Ok(Some(bytes)) => Ok(decode_job(bytes.as_slice())),
            Ok(None) => Ok(None),
            Err(e) => Err(e),
        }
    }
}

} // verus!
