//! Domain resolution: wraps DNS lookups into a boolean verdict.  MX records
//! are consulted first; when the MX lookup fails or finds nothing, A and
//! AAAA records serve as a fallback.  Lookup errors and timeouts count as
//! "no record", never as a fatal error.

use vstd::prelude::*;
use vstd::string::StrSliceExecFns;

verus! {

#[verifier::external_type_specification]
#[verifier::external_body]
pub struct ExResolver(trust_dns_resolver::Resolver);

#[verifier::external_type_specification]
#[verifier::external_body]
pub struct ExResolveError(trust_dns_resolver::error::ResolveError);

/// Relies on trust_dns_resolver::Resolver::new with the crate's built-in
/// default server configuration, the given per-request timeout in seconds,
/// and the given number of attempts.  None when the resolver runtime cannot
/// be built.
#[verifier::external_body]
fn resolver_with(timeout_secs: u64, attempts: usize) -> (r: Option<trust_dns_resolver::Resolver>) {
    let mut opts = trust_dns_resolver::config::ResolverOpts::default();
    opts.timeout = std::time::Duration::from_secs(timeout_secs);
    opts.attempts = attempts;
    trust_dns_resolver::Resolver::new(trust_dns_resolver::config::ResolverConfig::default(), opts)
        .ok()
}

/// Relies on Resolver::mx_lookup: the number of MX records the lookup
/// returned, or the resolution error.  The outcome depends on the network.
#[verifier::external_body]
fn mx_record_count(resolver: &trust_dns_resolver::Resolver, domain: &str) -> (r: Result<
    usize,
    trust_dns_resolver::error::ResolveError,
>) {
    match resolver.mx_lookup(domain) {
        Ok(records) => Ok(records.iter().count()),
        Err(e) => Err(e),
    }
}

/// Relies on Resolver::lookup for A or AAAA records: the number of records
/// the lookup returned, or the resolution error.  The outcome depends on the
/// network.
#[verifier::external_body]
fn addr_record_count(resolver: &trust_dns_resolver::Resolver, domain: &str, ipv6: bool) -> (r:
    Result<usize, trust_dns_resolver::error::ResolveError>) {
    let record_type = if ipv6 {
        trust_dns_resolver::proto::rr::RecordType::AAAA
    } else {
        trust_dns_resolver::proto::rr::RecordType::A
    };
    match resolver.lookup(domain, record_type) {
        Ok(records) => Ok(records.iter().count()),
        Err(e) => Err(e),
    }
}

/// Builds the resolver the domain checks use: a 2-second timeout and 2
/// attempts per lookup.
fn create_resolver() -> (r: Option<trust_dns_resolver::Resolver>) {
    resolver_with(2, 2)
}

/// The verdict drawn from the record counts, with None standing for a failed
/// lookup: at least one MX record settles the domain as valid; with the MX
/// lookup failed or empty, at least one A or AAAA record does; and a failed
/// fallback lookup counts as no record, never as a fatal error.
pub fn records_verdict(mx: Option<usize>, a: Option<usize>, aaaa: Option<usize>) -> (r: bool)
    ensures
        (mx matches Some(n) && n > 0) ==> r == true,
        !(mx matches Some(n) && n > 0) ==> r == ((a matches Some(n) && n > 0) || (
        aaaa matches Some(n) && n > 0)),
{
    match mx {
        Some(n) if n > 0 => true,
        _ => {
            let a_records: usize = match a {
                Some(n) => n,
                None => 0,
            };
            let aaaa_records: usize = match aaaa {
                Some(n) => n,
                None => 0,
            };
            a_records > 0 || aaaa_records > 0
        },
    }
}

/// Runs the lookups in the fallback order and hands their outcomes to
/// `records_verdict`: MX first, and only when that settles nothing, A and
/// AAAA.
fn check_mx_or_a_records(resolver: &trust_dns_resolver::Resolver, domain: &str) -> (r: bool) {
    let mx: Option<usize> = match mx_record_count(resolver, domain) {
        Ok(n) => Some(n),
        Err(_) => None,
    };
    if let Some(n) = mx {
        if n > 0 {
            return records_verdict(mx, None, None);
        }
    }
    let a: Option<usize> = match addr_record_count(resolver, domain, false) {
        Ok(n) => Some(n),
        Err(_) => None,
    };
    let aaaa: Option<usize> = match addr_record_count(resolver, domain, true) {
        Ok(n) => Some(n),
        Err(_) => None,
    };
    records_verdict(mx, a, aaaa)
}

/// Some position of `s` holds an `@`.
pub open spec fn spec_has_at(s: Seq<char>) -> bool {
    exists|i: int| 0 <= i < s.len() && s[i] == '@'
}

/// Finds the position of the last `@`, if any.
fn find_last_at(s: &str) -> (r: Option<usize>)
    ensures
        match r {
            Some(i) => i < s@.len() && s@[i as int] == '@' && (forall|j: int|
                i < j < s@.len() ==> s@[j] != '@'),
            None => !spec_has_at(s@),
        },
{
    let n = s.unicode_len();
    let mut found = false;
    let mut last: usize = 0;
    for i in 0..n
        invariant
            n == s@.len(),
            found ==> last < i && s@[last as int] == '@' && (forall|j: int|
                last < j < i ==> s@[j] != '@'),
            !found ==> forall|j: int| 0 <= j < i ==> s@[j] != '@',
    {
        if s.get_char(i) == '@' {
            found = true;
            last = i;
        }
    }
    if found {
        Some(last)
    } else {
        None
    }
}

/// Resolves the domain behind the last `@` of the address: `true` only when
/// the MX-then-A/AAAA record order supports it.  An address without an `@`,
/// a resolver that cannot be built, and every lookup failure all yield
/// `false`, never an error.
pub fn validate_email_dns(email: &str) -> (r: bool)
    ensures
        !spec_has_at(email@) ==> r == false,
{
    let n = email.unicode_len();
    let at = match find_last_at(email) {
        Some(i) => i,
        None => {
            return false;
        },
    };
    let domain = email.substring_char(at + 1, n);
    let resolver = match create_resolver() {
        Some(r) => r,
        None => {
            return false;
        },
    };
    check_mx_or_a_records(&resolver, domain)
}

} // verus!
