//! The key-value cache client and its two namespaces: DNS verdicts under
//! `dns_mx::<domain>` and whole validation responses under
//! `email:validation:<email>`.  Every cache operation is best-effort: callers
//! treat a failed read as a miss and swallow a failed write.

use vstd::prelude::*;
use vstd::string::StringExecFns;

verus! {

#[verifier::external_type_specification]
#[verifier::external_body]
pub struct ExRedisClient(redis::Client);

#[verifier::external_type_specification]
#[verifier::external_body]
pub struct ExRedisConnection(redis::Connection);

#[verifier::external_type_specification]
#[verifier::external_body]
pub struct ExRedisError(redis::RedisError);

/// Relies on redis::Client::open: parses the connection URL without touching
/// the network; fails exactly on malformed connection info.
#[verifier::external_body]
pub(crate) fn client_open(url: &str) -> (r: Result<redis::Client, redis::RedisError>) {
    redis::Client::open(url)
}

/// Relies on Client::get_connection: opens a connection to the store.  The
/// outcome depends on the network.
#[verifier::external_body]
pub(crate) fn client_connect(client: &redis::Client) -> (r: Result<
    redis::Connection,
    redis::RedisError,
>) {
    client.get_connection()
}

/// Relies on Commands::get: the value stored under the key, if any.  The
/// outcome depends on the store.
#[verifier::external_body]
pub(crate) fn redis_get(conn: &mut redis::Connection, key: &str) -> (r: Result<
    Option<Vec<u8>>,
    redis::RedisError,
>) {
    redis::Commands::get(conn, key)
}

/// Relies on Commands::set: stores the value under the key, clearing any
/// expiry the key had.
#[verifier::external_body]
pub(crate) fn redis_set(conn: &mut redis::Connection, key: &str, value: &[u8]) -> (r: Result<
    (),
    redis::RedisError,
>) {
    redis::Commands::set(conn, key, value)
}

/// Relies on Commands::set_ex: stores the value under the key with an expiry
/// of the given number of seconds.
#[verifier::external_body]
pub(crate) fn redis_set_ex(conn: &mut redis::Connection, key: &str, value: &[u8], seconds: u64) -> (r:
    Result<(), redis::RedisError>) {
    redis::Commands::set_ex(conn, key, value, seconds)
}

/// Relies on Commands::expire: sets the key's expiry to the given number of
/// seconds.
#[verifier::external_body]
pub(crate) fn redis_expire(conn: &mut redis::Connection, key: &str, seconds: i64) -> (r: Result<
    (),
    redis::RedisError,
>) {
    let r: redis::RedisResult<bool> = redis::Commands::expire(conn, key, seconds);
    match r {
        Ok(_) => Ok(()),
        Err(e) => Err(e),
    }
}

/// Relies on Commands::lpush: pushes the value onto the head of the list
/// stored under the key.
#[verifier::external_body]
pub(crate) fn redis_lpush(conn: &mut redis::Connection, key: &str, value: &[u8]) -> (r: Result<
    (),
    redis::RedisError,
>) {
    let r: redis::RedisResult<usize> = redis::Commands::lpush(conn, key, value);
    match r {
        Ok(_) => Ok(()),
        Err(e) => Err(e),
    }
}

/// Relies on the BRPOP command: pops the tail of the list stored under the
/// key, waiting up to the given number of seconds; None on timeout.  The
/// outcome depends on the store.
#[verifier::external_body]
pub(crate) fn redis_brpop(conn: &mut redis::Connection, key: &str, timeout_secs: u64) -> (r: Result<
    Option<Vec<u8>>,
    redis::RedisError,
>) {
    let popped: Option<(String, Vec<u8>)> = redis::cmd("BRPOP").arg(key).arg(timeout_secs).query(
        conn,
    )?;
    Ok(popped.map(|kv| kv.1))
}

/// The value recorded in the DNS-verdict cache: the UTF-8 bytes of `valid`
/// or of `invalid`.
pub open spec fn spec_dns_value(is_valid: bool) -> Seq<u8> {
    if is_valid {
        seq![118u8, 97u8, 108u8, 105u8, 100u8]
    } else {
        seq![105u8, 110u8, 118u8, 97u8, 108u8, 105u8, 100u8]
    }
}

/// Renders the DNS-verdict cache value.
fn dns_value(is_valid: bool) -> (r: Vec<u8>)
    ensures
        r@ == spec_dns_value(is_valid),
{
    if is_valid {
        let v: Vec<u8> = vec![118u8, 97u8, 108u8, 105u8, 100u8];
        v
    } else {
        let v: Vec<u8> = vec![105u8, 110u8, 118u8, 97u8, 108u8, 105u8, 100u8];
        v
    }
}

/// Decodes a stored DNS-verdict payload: exactly the `valid` and `invalid`
/// byte strings count; anything else is malformed and reads as a miss.
pub fn dns_value_decode(bytes: &[u8]) -> (r: Option<bool>)
    ensures
        bytes@ == spec_dns_value(true) ==> r == Some(true),
        bytes@ == spec_dns_value(false) ==> r == Some(false),
        bytes@ != spec_dns_value(true) && bytes@ != spec_dns_value(false) ==> r is None,
{
    let yes = dns_value(true);
    if bytes_eq(bytes, yes.as_slice()) {
        return Some(true);
    }
    let no = dns_value(false);
    if bytes_eq(bytes, no.as_slice()) {
        return Some(false);
    }
    None
}

/// Byte-for-byte equality of two byte strings.
pub fn bytes_eq(a: &[u8], b: &[u8]) -> (r: bool)
    ensures
        r == (a@ == b@),
{
    let n = a.len();
    if n != b.len() {
        proof {
            assert(a@.len() != b@.len());
        }
        return false;
    }
    for i in 0..n
        invariant
            n == a@.len() == b@.len(),
            forall|j: int| 0 <= j < i ==> a@[j] == b@[j],
    {
        if a[i] != b[i] {
            return false;
        }
    }
    proof {
        assert(a@ =~= b@);
    }
    true
}

/// The cache client: a connection handle plus the expiry, in seconds, that
/// DNS verdicts are stored with.
pub struct RedisCache {
    pub client: redis::Client,
    pub ttl: u64,
}

impl RedisCache {
    /// Builds a cache client for the given URL; fails exactly when the URL
    /// cannot be parsed.
    pub fn new(redis_url: &str, ttl: u64) -> (r: Result<Self, redis::RedisError>)
        ensures
            r matches Ok(c) ==> c.ttl == ttl,
    {
        match client_open(redis_url) {
            Ok(client) => Ok(RedisCache { client, ttl }),
            Err(e) => Err(e),
        }
    }

    /// A cache client pointed at the conventional local store, for use where
    /// no cache is reachable: every operation on it simply fails and is
    /// treated as a miss.
    pub fn test_dummy() -> (r: Self)
        ensures
            r.ttl == 3600,
    {
        RedisCache { client: dummy_client(), ttl: 3600 }
    }

    /// Reads the cached DNS verdict for a domain: `Ok(Some(v))` when the
    /// store holds a well-formed verdict; a missing key and a malformed
    /// payload both read as `Ok(None)`, a miss.
    pub fn get_dns_validation(&self, email_domain: &str) -> (r: Result<
        Option<bool>,
        redis::RedisError,
    >) {
        let key = String::from_str("dns_mx::").concat(email_domain);
        let mut conn = match client_connect(&self.client) {
            Ok(c) => c,
            Err(e) => {
                return Err(e);
            },
        };
        match redis_get(&mut conn, key.as_str()) {
            Ok(Some(value)) => Ok(dns_value_decode(value.as_slice())),
            Ok(None) => Ok(None),
            Err(e) => Err(e),
        }
    }

    /// Stores a DNS verdict for a domain with this cache's expiry.
    pub fn set_dns_validation(&self, email_domain: &str, is_valid: bool) -> (r: Result<
        (),
        redis::RedisError,
    >) {
        let key = String::from_str("dns_mx::").concat(email_domain);
        let value = dns_value(is_valid);
        let mut conn = match client_connect(&self.client) {
            Ok(c) => c,
            Err(e) => {
                return Err(e);
            },
        };
        match redis_set(&mut conn, key.as_str(), value.as_slice()) {
            Ok(()) => {},
            Err(e) => {
                return Err(e);
            },
        }
        let ttl = if self.ttl > 0x7FFF_FFFF_FFFF_FFFF {
            0x7FFF_FFFF_FFFF_FFFFu64
        } else {
            self.ttl
        };
        match redis_expire(&mut conn, key.as_str(), ttl as i64) {
            Ok(()) => Ok(()),
            Err(e) => Err(e),
        }
    }
}

/// Relies on redis::Client::open with a well-formed constant URL, which
/// cannot fail: no connection is attempted.
#[verifier::external_body]
fn dummy_client() -> (r: redis::Client) {
    redis::Client::open("redis://127.0.0.1:6379").unwrap()
}

} // verus!
