//! The validation pipeline: a fixed-order, short-circuiting run of the
//! syntax check, the cached DNS verdict, the optional role-based-alias
//! lookup and the disposable-domain lookup — plus the cached variant that
//! consults and fills the whole-response cache, and the bulk entry point
//! that dispatches large batches to the job queue.

use vstd::prelude::*;
use vstd::string::{StrSliceExecFns, StringExecFns};
use crate::cache::{client_connect, redis_get, redis_set_ex, RedisCache};
use crate::codec::{decode_response, encode_response};
use crate::directory::{is_disposable_email, is_role_based_email, DirectoryConfig};
use crate::dns::validate_email_dns;
use crate::job_queue::JobQueue;
use crate::outcome::{checks_outcome, is_error_response, is_valid_response, response_wf,
    should_cache, spec_authoritative, spec_code, BulkEmailValidationResponse,
    BulkEmailValidationResult, CachedValidationResponse, DbError, EmailValidationResponse,
    ErrorKind};
use crate::syntax::{is_valid_email, spec_is_valid_email};
use crate::text::{char_whitespace, spec_char_whitespace};

verus! {

/// Length of the run of whitespace that opens the sequence.
pub open spec fn ws_prefix(s: Seq<char>) -> int
    decreases s.len(),
{
    if s.len() > 0 && spec_char_whitespace(s[0]) {
        1 + ws_prefix(s.drop_first())
    } else {
        0
    }
}

/// Length of the run of whitespace that closes the sequence.
pub open spec fn ws_suffix(s: Seq<char>) -> int
    decreases s.len(),
{
    if s.len() > 0 && spec_char_whitespace(s.last()) {
        1 + ws_suffix(s.drop_last())
    } else {
        0
    }
}

/// The sequence with its leading and trailing whitespace removed.
pub open spec fn spec_trim(s: Seq<char>) -> Seq<char> {
    if ws_prefix(s) == s.len() {
        Seq::empty()
    } else {
        s.subrange(ws_prefix(s), s.len() - ws_suffix(s))
    }
}

/// The opening whitespace run is exactly the first `k` positions.
proof fn lemma_ws_prefix_from(s: Seq<char>, k: int)
    requires
        0 <= k <= s.len(),
        forall|i: int| 0 <= i < k ==> spec_char_whitespace(#[trigger] s[i]),
        k == s.len() || !spec_char_whitespace(s[k]),
    ensures
        ws_prefix(s) == k,
    decreases s.len(),
{
    if s.len() > 0 && spec_char_whitespace(s[0]) {
        assert(k >= 1) by {
            if k == 0 {
                assert(!spec_char_whitespace(s[0]));
            }
        }
        let t = s.drop_first();
        assert forall|i: int| 0 <= i < k - 1 implies spec_char_whitespace(#[trigger] t[i]) by {
            assert(t[i] == s[i + 1]);
        }
        if k - 1 < t.len() {
            assert(t[k - 1] == s[k]);
        }
        lemma_ws_prefix_from(t, k - 1);
    } else {
        assert(k == 0) by {
            if k > 0 {
                assert(spec_char_whitespace(s[0]));
            }
        }
    }
}

/// The closing whitespace run is exactly the last `k` positions.
proof fn lemma_ws_suffix_from(s: Seq<char>, k: int)
    requires
        0 <= k <= s.len(),
        forall|i: int| s.len() - k <= i < s.len() ==> spec_char_whitespace(#[trigger] s[i]),
        k == s.len() || !spec_char_whitespace(s[s.len() - k - 1]),
    ensures
        ws_suffix(s) == k,
    decreases s.len(),
{
    if s.len() > 0 && spec_char_whitespace(s.last()) {
        assert(k >= 1) by {
            if k == 0 {
                assert(!spec_char_whitespace(s[s.len() - 1]));
            }
        }
        let t = s.drop_last();
        assert forall|i: int| t.len() - (k - 1) <= i < t.len() implies spec_char_whitespace(
            #[trigger] t[i],
        ) by {
            assert(t[i] == s[i]);
        }
        if k - 1 < t.len() {
            assert(t[t.len() - (k - 1) - 1] == s[s.len() - k - 1]);
        }
        lemma_ws_suffix_from(t, k - 1);
    } else {
        assert(k == 0) by {
            if k > 0 {
                assert(spec_char_whitespace(s[s.len() - 1]));
            }
        }
    }
}

/// Removes leading and trailing whitespace.
pub fn trim_str(s: &str) -> (r: &str)
    ensures
        r@ == spec_trim(s@),
{
    let n = s.unicode_len();
    let mut start: usize = 0;
    while start < n && char_whitespace(s.get_char(start))
        invariant
            n == s@.len(),
            start <= n,
            forall|i: int| 0 <= i < start ==> spec_char_whitespace(#[trigger] s@[i]),
        decreases n - start,
    {
        start = start + 1;
    }
    proof {
        lemma_ws_prefix_from(s@, start as int);
    }
    if start == n {
        let r = s.substring_char(n, n);
        proof {
            assert(r@ =~= Seq::<char>::empty());
        }
        return r;
    }
    let mut end: usize = n;
    while end > start && char_whitespace(s.get_char(end - 1))
        invariant
            n == s@.len(),
            start < end <= n,
            start < n,
            !spec_char_whitespace(s@[start as int]),
            forall|i: int| end <= i < n ==> spec_char_whitespace(#[trigger] s@[i]),
        decreases end,
    {
        end = end - 1;
    }
    proof {
        lemma_ws_suffix_from(s@, n - end);
    }
    s.substring_char(start, end)
}

/// No two error kinds render the same code string.
pub proof fn lemma_codes_distinct(k1: ErrorKind, k2: ErrorKind)
    requires
        k1 != k2,
    ensures
        spec_code(k1) != spec_code(k2),
{
    reveal_strlit("INVALID_SYNTAX");
    reveal_strlit("INVALID_DOMAIN");
    reveal_strlit("ROLE_BASED_EMAIL");
    reveal_strlit("DISPOSABLE_EMAIL");
    reveal_strlit("DATABASE_ERROR");
    reveal_strlit("PROCESSING_ERROR");
    assert("INVALID_SYNTAX"@ != "INVALID_DOMAIN"@) by {
        assert("INVALID_SYNTAX"@[8] != "INVALID_DOMAIN"@[8]);
    }
    assert("INVALID_SYNTAX"@ != "ROLE_BASED_EMAIL"@) by {
        assert("INVALID_SYNTAX"@.len() != "ROLE_BASED_EMAIL"@.len());
    }
    assert("INVALID_SYNTAX"@ != "DISPOSABLE_EMAIL"@) by {
        assert("INVALID_SYNTAX"@.len() != "DISPOSABLE_EMAIL"@.len());
    }
    assert("INVALID_SYNTAX"@ != "DATABASE_ERROR"@) by {
        assert("INVALID_SYNTAX"@[0] != "DATABASE_ERROR"@[0]);
    }
    assert("INVALID_SYNTAX"@ != "PROCESSING_ERROR"@) by {
        assert("INVALID_SYNTAX"@.len() != "PROCESSING_ERROR"@.len());
    }
    assert("INVALID_DOMAIN"@ != "ROLE_BASED_EMAIL"@) by {
        assert("INVALID_DOMAIN"@.len() != "ROLE_BASED_EMAIL"@.len());
    }
    assert("INVALID_DOMAIN"@ != "DISPOSABLE_EMAIL"@) by {
        assert("INVALID_DOMAIN"@.len() != "DISPOSABLE_EMAIL"@.len());
    }
    assert("INVALID_DOMAIN"@ != "DATABASE_ERROR"@) by {
        assert("INVALID_DOMAIN"@[0] != "DATABASE_ERROR"@[0]);
    }
    assert("INVALID_DOMAIN"@ != "PROCESSING_ERROR"@) by {
        assert("INVALID_DOMAIN"@.len() != "PROCESSING_ERROR"@.len());
    }
    assert("ROLE_BASED_EMAIL"@ != "DISPOSABLE_EMAIL"@) by {
        assert("ROLE_BASED_EMAIL"@[0] != "DISPOSABLE_EMAIL"@[0]);
    }
    assert("ROLE_BASED_EMAIL"@ != "DATABASE_ERROR"@) by {
        assert("ROLE_BASED_EMAIL"@.len() != "DATABASE_ERROR"@.len());
    }
    assert("ROLE_BASED_EMAIL"@ != "PROCESSING_ERROR"@) by {
        assert("ROLE_BASED_EMAIL"@[0] != "PROCESSING_ERROR"@[0]);
    }
    assert("DISPOSABLE_EMAIL"@ != "DATABASE_ERROR"@) by {
        assert("DISPOSABLE_EMAIL"@.len() != "DATABASE_ERROR"@.len());
    }
    assert("DISPOSABLE_EMAIL"@ != "PROCESSING_ERROR"@) by {
        assert("DISPOSABLE_EMAIL"@[0] != "PROCESSING_ERROR"@[0]);
    }
    assert("DATABASE_ERROR"@ != "PROCESSING_ERROR"@) by {
        assert("DATABASE_ERROR"@.len() != "PROCESSING_ERROR"@.len());
    }
}

/// A response never reports two different kinds at once.
pub proof fn lemma_error_kind_unique(r: EmailValidationResponse, k1: ErrorKind, k2: ErrorKind)
    requires
        is_error_response(r, k1),
        is_error_response(r, k2),
    ensures
        k1 == k2,
{
    if k1 != k2 {
        lemma_codes_distinct(k1, k2);
    }
}

/// Every well-formed outcome that may not be cached is a database error:
/// the cache policy shuts out transient infrastructure failures and nothing
/// else.
pub proof fn lemma_unauthoritative_is_database_error(r: EmailValidationResponse)
    requires
        response_wf(r),
        !spec_authoritative(r),
    ensures
        is_error_response(r, ErrorKind::DatabaseError),
{
    assert(!is_valid_response(r));
    let k = choose|k: ErrorKind| is_error_response(r, k);
    if k != ErrorKind::DatabaseError {
        lemma_codes_distinct(k, ErrorKind::DatabaseError);
    }
}

/// The second dot-free segment of the address under `@`-splitting: the text
/// between the first `@` and the second, or to the end.  This is the domain
/// handed to the DNS-verdict cache.
fn second_at_segment<'a>(s: &'a str) -> (r: &'a str)
    requires
        s@.len() <= 0x1000,
{
    let n = s.unicode_len();
    let mut first: usize = n;
    let mut i: usize = 0;
    while i < n
        invariant
            i <= n,
            n == s@.len(),
            first <= n,
        decreases n - i,
    {
        if s.get_char(i) == '@' {
            first = i;
            i = n;
        } else {
            i = i + 1;
        }
    }
    if first == n {
        return s.substring_char(n, n);
    }
    let mut end: usize = first + 1;
    while end < n && s.get_char(end) != '@'
        invariant
            first + 1 <= end <= n,
            n == s@.len(),
        decreases n - end,
    {
        end = end + 1;
    }
    s.substring_char(first + 1, end)
}

/// One full pipeline run without the whole-response cache: trim, syntax,
/// DNS verdict (consulting and filling the DNS cache), the optional
/// role-based lookup, then the disposable-domain lookup, stopping at the
/// first failure.  Cache trouble is treated as a miss and never surfaces.
pub fn validate_single_email(
    email: &str,
    check_role_based: bool,
    redis_cache: &RedisCache,
    directory: &DirectoryConfig,
) -> (r: EmailValidationResponse)
    ensures
        response_wf(r),
        is_error_response(r, ErrorKind::InvalidSyntax) <==> !spec_is_valid_email(
            spec_trim(email@),
        ),
        r.is_valid ==> spec_is_valid_email(spec_trim(email@)),
        is_error_response(r, ErrorKind::InvalidDomain) ==> spec_is_valid_email(spec_trim(email@)),
        !check_role_based ==> !is_error_response(r, ErrorKind::RoleBasedEmail),
        !is_error_response(r, ErrorKind::ProcessingError),
{
    let trimmed = trim_str(email);
    if !is_valid_email(trimmed) {
        let r = checks_outcome(false, false, check_role_based, &Ok(false), &Ok(false));
        proof {
            lemma_distinct_kinds(r, ErrorKind::InvalidSyntax, ErrorKind::RoleBasedEmail);
            lemma_distinct_kinds(r, ErrorKind::InvalidSyntax, ErrorKind::InvalidDomain);
            lemma_distinct_kinds(r, ErrorKind::InvalidSyntax, ErrorKind::ProcessingError);
        }
        return r;
    }
    proof {
        crate::text::lemma_byte_len_bounds(trimmed@);
    }
    let domain = second_at_segment(trimmed);
    let dns_valid = match redis_cache.get_dns_validation(domain) {
        Ok(Some(cached)) => cached,
        _ => {
            let fresh = validate_email_dns(trimmed);
            let _ = redis_cache.set_dns_validation(domain, fresh);
            fresh
        },
    };
    if !dns_valid {
        let r = checks_outcome(true, false, check_role_based, &Ok(false), &Ok(false));
        proof {
            lemma_distinct_kinds(r, ErrorKind::InvalidDomain, ErrorKind::RoleBasedEmail);
            lemma_distinct_kinds(r, ErrorKind::InvalidDomain, ErrorKind::InvalidSyntax);
            lemma_distinct_kinds(r, ErrorKind::InvalidDomain, ErrorKind::ProcessingError);
        }
        return r;
    }
    if check_role_based {
        match is_role_based_email(trimmed, directory) {
            Ok(true) => {
                let r = checks_outcome(true, true, true, &Ok(true), &Ok(false));
                proof {
                    lemma_distinct_kinds(r, ErrorKind::RoleBasedEmail, ErrorKind::InvalidSyntax);
                    lemma_distinct_kinds(r, ErrorKind::RoleBasedEmail, ErrorKind::InvalidDomain);
                    lemma_distinct_kinds(r, ErrorKind::RoleBasedEmail, ErrorKind::ProcessingError);
                }
                return r;
            },
            Ok(false) => {},
            Err(message) => {
                let r = checks_outcome(true, true, true, &Err(DbError { message }), &Ok(false));
                proof {
                    lemma_distinct_kinds(r, ErrorKind::DatabaseError, ErrorKind::InvalidSyntax);
                    lemma_distinct_kinds(r, ErrorKind::DatabaseError, ErrorKind::InvalidDomain);
                    lemma_distinct_kinds(r, ErrorKind::DatabaseError, ErrorKind::ProcessingError);
                }
                return r;
            },
        }
    }
    let disposable = is_disposable_email(trimmed, directory);
    let r = checks_outcome(true, true, false, &Ok(false), &disposable);
    proof {
        match disposable {
            Ok(true) => {
                lemma_distinct_kinds(r, ErrorKind::DisposableEmail, ErrorKind::RoleBasedEmail);
                lemma_distinct_kinds(r, ErrorKind::DisposableEmail, ErrorKind::InvalidSyntax);
                lemma_distinct_kinds(r, ErrorKind::DisposableEmail, ErrorKind::InvalidDomain);
                lemma_distinct_kinds(r, ErrorKind::DisposableEmail, ErrorKind::ProcessingError);
            },
            Ok(false) => assert(is_valid_response(r)),
            Err(_) => {
                lemma_distinct_kinds(r, ErrorKind::DatabaseError, ErrorKind::RoleBasedEmail);
                lemma_distinct_kinds(r, ErrorKind::DatabaseError, ErrorKind::InvalidSyntax);
                lemma_distinct_kinds(r, ErrorKind::DatabaseError, ErrorKind::InvalidDomain);
                lemma_distinct_kinds(r, ErrorKind::DatabaseError, ErrorKind::ProcessingError);
            },
        }
    }
    r
}

/// An outcome of one kind is an outcome of no other kind.
proof fn lemma_distinct_kinds(r: EmailValidationResponse, k: ErrorKind, other: ErrorKind)
    requires
        is_error_response(r, k),
        k != other,
    ensures
        !is_error_response(r, other),
{
    if is_error_response(r, other) {
        lemma_codes_distinct(k, other);
    }
}

/// The cached pipeline of the query API: the whole-response cache first,
/// then a full pipeline run, then a cache write for every authoritative
/// outcome.  A cache hit is returned verbatim, whatever role-check flag the
/// caller passed.
pub struct EmailQuery {
    pub redis_client: Option<RedisCache>,
    pub cache_ttl: u64,
}

impl EmailQuery {
    /// Builds a query handle whose caches live at the given URL, with the
    /// given response expiry in seconds.
    pub fn new(redis_url: &str, cache_ttl: u64) -> (r: Result<Self, redis::RedisError>)
        ensures
            r matches Ok(q) ==> q.cache_ttl == cache_ttl && q.redis_client is Some,
    {
        match RedisCache::new(redis_url, cache_ttl) {
            Ok(cache) => Ok(EmailQuery { redis_client: Some(cache), cache_ttl }),
            Err(e) => Err(e),
        }
    }

    /// A query handle with no cache at all: every lookup misses and no
    /// outcome is stored.
    pub fn uncached() -> (r: Self)
        ensures
            r.redis_client is None,
            r.cache_ttl == 0,
    {
        EmailQuery { redis_client: None, cache_ttl: 0 }
    }

    /// Reads the response expiry this handle stores outcomes with.
    pub fn cache_ttl(&self) -> (r: u64)
        ensures
            r == self.cache_ttl,
    {
        self.cache_ttl
    }

    /// Reads the whole-response cache: a miss and a record that does not
    /// parse both read as None, and cache trouble never surfaces.  A handle
    /// without a cache never answers.
    pub fn get_cached_result(&self, email: &str) -> (r: Option<EmailValidationResponse>)
        ensures
            self.redis_client is None ==> r is None,
    {
        let cache = match &self.redis_client {
            Some(c) => c,
            None => {
                return None;
            },
        };
        let key = String::from_str("email:validation:").concat(email);
        let mut conn = match client_connect(&cache.client) {
            Ok(c) => c,
            Err(_) => {
                return None;
            },
        };
        match redis_get(&mut conn, key.as_str()) {
            Ok(Some(bytes)) => match decode_response(bytes.as_slice()) {
                Some(cached) => Some(EmailValidationResponse::from(cached)),
                None => None,
            },
            _ => None,
        }
    }

    /// Writes an outcome to the whole-response cache with this handle's
    /// expiry; failure to write is swallowed.
    pub fn cache_result(&self, email: &str, result: &EmailValidationResponse) {
        let cache = match &self.redis_client {
            Some(c) => c,
            None => {
                return ;
            },
        };
        let cached = CachedValidationResponse::from(result.clone());
        let bytes = encode_response(&cached);
        let key = String::from_str("email:validation:").concat(email);
        let mut conn = match client_connect(&cache.client) {
            Ok(c) => c,
            Err(_) => {
                return ;
            },
        };
        let _ = redis_set_ex(&mut conn, key.as_str(), bytes.as_slice(), self.cache_ttl);
    }

    /// One full pipeline run, without consulting the response cache.
    pub fn perform_validation(
        &self,
        email: &str,
        check_role_based: bool,
        directory: &DirectoryConfig,
    ) -> (r: EmailValidationResponse)
        ensures
            response_wf(r),
            is_error_response(r, ErrorKind::InvalidSyntax) <==> !spec_is_valid_email(
                spec_trim(email@),
            ),
            r.is_valid ==> spec_is_valid_email(spec_trim(email@)),
            !check_role_based ==> !is_error_response(r, ErrorKind::RoleBasedEmail),
            !is_error_response(r, ErrorKind::ProcessingError),
    {
        match &self.redis_client {
            Some(cache) => validate_single_email(email, check_role_based, cache, directory),
            None => {
                let no_cache = RedisCache::test_dummy();
                validate_single_email(email, check_role_based, &no_cache, directory)
            },
        }
    }

    /// Validates one address through the response cache: a hit is returned
    /// at once, a miss runs the pipeline and stores the outcome — unless it
    /// is a database error, which is never cached.  A hit's content is
    /// whatever the store holds, so the pipeline's postconditions are owed
    /// only where no cache exists to consult.
    pub fn validate_email(
        &self,
        email: &str,
        check_role_based: Option<bool>,
        directory: &DirectoryConfig,
    ) -> (r: EmailValidationResponse)
        ensures
            self.redis_client is None ==> {
                &&& response_wf(r)
                &&& (is_error_response(r, ErrorKind::InvalidSyntax) <==> !spec_is_valid_email(
                    spec_trim(email@),
                ))
                &&& (r.is_valid ==> spec_is_valid_email(spec_trim(email@)))
                &&& (check_role_based != Some(true) ==> !is_error_response(
                    r,
                    ErrorKind::RoleBasedEmail,
                ))
                &&& !is_error_response(r, ErrorKind::ProcessingError)
            },
    {
        let trimmed = trim_str(email);
        if let Some(cached) = self.get_cached_result(trimmed) {
            return cached;
        }
        let role = match check_role_based {
            Some(b) => b,
            None => false,
        };
        let result = self.perform_validation(email, role, directory);
        if should_cache(&result) {
            self.cache_result(trimmed, &result);
        }
        result
    }

    /// Validates a whole batch inline through the cached pipeline,
    /// correlating each outcome with its address and counting both verdicts.
    pub fn validate_emails_bulk(&self, emails: &Vec<String>, directory: &DirectoryConfig) -> (r:
        BulkEmailValidationResponse)
        requires
            emails@.len() <= 0x7FFF_FFFF,
        ensures
            r.results@.len() == emails@.len(),
            r.valid_count + r.invalid_count == emails@.len(),
            r.valid_count == count_valid(r.results@),
            forall|i: int|
                0 <= i < emails@.len() ==> (#[trigger] r.results@[i]).email@ == emails@[i]@,
            self.redis_client is None ==> forall|i: int|
                0 <= i < emails@.len() ==> pipeline_outcome_for(
                    (#[trigger] r.results@[i]).validation,
                    emails@[i]@,
                ),
    {
        let n = emails.len();
        let mut results: Vec<BulkEmailValidationResult> = Vec::with_capacity(n);
        let mut valid_count: i32 = 0;
        let mut invalid_count: i32 = 0;
        for i in 0..n
            invariant
                n == emails@.len(),
                n <= 0x7FFF_FFFF,
                results@.len() == i,
                valid_count + invalid_count == i,
                0 <= valid_count <= i,
                0 <= invalid_count <= i,
                valid_count == count_valid(results@),
                forall|j: int|
                    0 <= j < i ==> (#[trigger] results@[j]).email@ == emails@[j]@,
                self.redis_client is None ==> forall|j: int|
                    0 <= j < i ==> pipeline_outcome_for(
                        (#[trigger] results@[j]).validation,
                        emails@[j]@,
                    ),
        {
            let email = &emails[i];
            let validation = self.validate_email(email.as_str(), None, directory);
            if validation.is_valid {
                valid_count = valid_count + 1;
            } else {
                invalid_count = invalid_count + 1;
            }
            let entry = BulkEmailValidationResult { email: email.clone(), validation };
            proof {
                lemma_count_valid_push(results@, entry);
            }
            results.push(entry);
        }
        BulkEmailValidationResponse { results, valid_count, invalid_count }
    }
}

impl Default for EmailQuery {
    /// The cache-less handle.
    fn default() -> (r: Self)
        ensures
            r.redis_client is None,
            r.cache_ttl == 0,
    {
        EmailQuery { redis_client: None, cache_ttl: 0 }
    }
}

/// What every pipeline run owes for one address, whatever the stores said:
/// a well-formed outcome whose syntax verdict is exact and that never
/// carries a processing error.
pub open spec fn pipeline_outcome_for(v: EmailValidationResponse, email: Seq<char>) -> bool {
    &&& response_wf(v)
    &&& (is_error_response(v, ErrorKind::InvalidSyntax) <==> !spec_is_valid_email(
        spec_trim(email),
    ))
    &&& (v.is_valid ==> spec_is_valid_email(spec_trim(email)))
    &&& !is_error_response(v, ErrorKind::ProcessingError)
}

/// How many results of the batch report a valid address.
pub open spec fn count_valid(results: Seq<BulkEmailValidationResult>) -> int
    decreases results.len(),
{
    if results.len() == 0 {
        0
    } else {
        count_valid(results.drop_last()) + if results.last().validation.is_valid {
            1int
        } else {
            0int
        }
    }
}

/// Appending one result adds one to the matching count.
proof fn lemma_count_valid_push(results: Seq<BulkEmailValidationResult>, r: BulkEmailValidationResult)
    ensures
        count_valid(results.push(r)) == count_valid(results) + if r.validation.is_valid {
            1int
        } else {
            0int
        },
{
    assert(results.push(r).drop_last() =~= results);
    assert(results.push(r).last() == r);
}

/// Where a bulk request went: either queued under a job identifier, or
/// answered inline.
pub enum BulkDispatch {
    Queued(String),
    Inline(BulkEmailValidationResponse),
}

/// The bulk entry point: batches over the ten-address threshold go to the
/// job queue and are answered with the new job's identifier; smaller
/// batches — and any batch the queue could not accept — are validated
/// inline through the plain pipeline.
pub fn validate_emails_bulk(
    emails: &Vec<String>,
    check_role_based: bool,
    redis_cache: &RedisCache,
    directory: &DirectoryConfig,
    job_queue: &JobQueue,
) -> (r: BulkDispatch)
    requires
        emails@.len() <= 0x7FFF_FFFF,
    ensures
        emails@.len() <= 10 ==> r is Inline,
        r matches BulkDispatch::Queued(id) ==> emails@.len() > 10 && id@.len() == 36,
        r matches BulkDispatch::Inline(resp) ==> {
            &&& resp.results@.len() == emails@.len()
            &&& resp.valid_count + resp.invalid_count == emails@.len()
            &&& resp.valid_count == count_valid(resp.results@)
            &&& forall|i: int|
                0 <= i < emails@.len() ==> (#[trigger] resp.results@[i]).email@ == emails@[i]@
            &&& forall|i: int|
                0 <= i < emails@.len() ==> pipeline_outcome_for(
                    (#[trigger] resp.results@[i]).validation,
                    emails@[i]@,
                )
        },
{
    if emails.len() > 10 {
        match job_queue.enqueue_bulk_validation(emails.clone(), check_role_based) {
            Ok(job_id) => {
                return BulkDispatch::Queued(job_id);
            },
            Err(_) => {
                // the queue is unreachable: fall back to inline processing
            },
        }
    }
    let n = emails.len();
    let mut results: Vec<BulkEmailValidationResult> = Vec::with_capacity(n);
    let mut valid_count: i32 = 0;
    let mut invalid_count: i32 = 0;
    for i in 0..n
        invariant
            n == emails@.len(),
            n <= 0x7FFF_FFFF,
            results@.len() == i,
            valid_count + invalid_count == i,
            0 <= valid_count <= i,
            0 <= invalid_count <= i,
            valid_count == count_valid(results@),
            forall|j: int| 0 <= j < i ==> (#[trigger] results@[j]).email@ == emails@[j]@,
            forall|j: int|
                0 <= j < i ==> pipeline_outcome_for(
                    (#[trigger] results@[j]).validation,
                    emails@[j]@,
                ),
    {
        let email = &emails[i];
        let validation = validate_single_email(
            email.as_str(),
            check_role_based,
            redis_cache,
            directory,
        );
        if validation.is_valid {
            valid_count = valid_count + 1;
        } else {
            invalid_count = invalid_count + 1;
        }
        let entry = BulkEmailValidationResult { email: email.clone(), validation };
        proof {
            lemma_count_valid_push(results@, entry);
        }
        results.push(entry);
    }
    BulkDispatch::Inline(BulkEmailValidationResponse { results, valid_count, invalid_count })
}

} // verus!
