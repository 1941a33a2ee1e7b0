//! Directory lookups against the document store: disposable-domain
//! membership and role-based-alias membership.  Each is a single point lookup
//! by equality on a lowercased key; any connectivity or configuration failure
//! surfaces as an error, and no retry is attempted here.

use vstd::prelude::*;
use vstd::string::{StrSliceExecFns, StringExecFns};
use crate::dns::spec_has_at;
use crate::outcome::{string_eq, DbError};
use crate::text::{lower_of, to_lowercase};

verus! {

#[verifier::external_type_specification]
#[verifier::external_body]
pub struct ExMongoClient(mongodb::sync::Client);

#[verifier::external_type_specification]
#[verifier::external_body]
pub struct ExMongoError(mongodb::error::Error);

/// Relies on mongodb::sync::Client::with_uri_str: parses the URI and builds
/// a lazily connecting client; no query is made yet.
#[verifier::external_body]
fn mongo_connect(uri: &str) -> (r: Result<mongodb::sync::Client, mongodb::error::Error>) {
    mongodb::sync::Client::with_uri_str(uri)
}

/// Relies on Collection::find_one: whether some document of the collection
/// has `value` in `field`.  The outcome depends on the store.
#[verifier::external_body]
fn mongo_exists(
    client: &mongodb::sync::Client,
    db: &str,
    coll: &str,
    field: &str,
    value: &str,
) -> (r: Result<bool, mongodb::error::Error>) {
    let mut filter = mongodb::bson::Document::new();
    filter.insert(field, value);
    let collection: mongodb::sync::Collection<mongodb::bson::Document> = client.database(
        db,
    ).collection(coll);
    match collection.find_one(filter).run() {
        Ok(found) => Ok(found.is_some()),
        Err(e) => Err(e),
    }
}

/// Relies on the error's Display rendering: its text depends on the error
/// value alone.
#[verifier::external_body]
fn mongo_error_text(e: &mongodb::error::Error) -> (r: String) {
    e.to_string()
}

/// Where the document store lives: connection URI, database, and the two
/// collections the lookups read.
#[derive(Clone, Debug)]
pub struct DirectoryConfig {
    pub mongo_uri: String,
    pub db_name: String,
    pub disposable_collection: String,
    pub role_alias_collection: String,
}

/// Position `i` holds the first `@` of `s`.
pub open spec fn is_first_at(s: Seq<char>, i: int) -> bool {
    &&& 0 <= i < s.len()
    &&& s[i] == '@'
    &&& forall|j: int| 0 <= j < i ==> s[j] != '@'
}

/// The lowercased domain is one of the fixed disposable providers the
/// store-free check recognises.
pub open spec fn spec_mock_disposable(domain: Seq<char>) -> bool {
    ||| domain == "mailinator.com"@
    ||| domain == "0-00.usa.cc"@
    ||| domain == "10minutemail.com"@
    ||| domain == "guerrillamail.com"@
    ||| domain == "tempmail.org"@
}

/// Finds the position of the first `@`, if any.
fn find_first_at(s: &str) -> (r: Option<usize>)
    ensures
        match r {
            Some(i) => is_first_at(s@, i as int),
            None => !spec_has_at(s@),
        },
{
    let n = s.unicode_len();
    for i in 0..n
        invariant
            n == s@.len(),
            forall|j: int| 0 <= j < i ==> s@[j] != '@',
    {
        if s.get_char(i) == '@' {
            return Some(i);
        }
    }
    None
}

/// There is at most one first `@`.
proof fn lemma_first_at_unique(s: Seq<char>, i: int, j: int)
    requires
        is_first_at(s, i),
        is_first_at(s, j),
    ensures
        i == j,
{
}

/// Looks the email's domain up in the disposable-domain collection, after
/// lowercasing it.  An address without an `@` is rejected before any store
/// access; a store failure surfaces as the error.
pub fn is_disposable_email(email: &str, config: &DirectoryConfig) -> (r: Result<bool, DbError>)
    ensures
        !spec_has_at(email@) ==> (r matches Err(e) && e.message@
            == "Invalid email format: missing '@'"@),
{
    let n = email.unicode_len();
    let at = match find_first_at(email) {
        Some(i) => i,
        None => {
            return Err(
                DbError { message: String::from_str("Invalid email format: missing '@'") },
            );
        },
    };
    let domain = to_lowercase(email.substring_char(at + 1, n));
    lookup_exists(
        config,
        config.disposable_collection.as_str(),
        "domain",
        domain.as_str(),
    )
}

/// Looks the email's local part up in the role-based-alias collection, after
/// lowercasing it.
pub fn is_role_based_alias(email: &str, config: &DirectoryConfig) -> (r: Result<bool, DbError>)
    ensures
        !spec_has_at(email@) ==> (r matches Err(e) && e.message@
            == "Invalid email format: missing '@'"@),
{
    let at = match find_first_at(email) {
        Some(i) => i,
        None => {
            return Err(
                DbError { message: String::from_str("Invalid email format: missing '@'") },
            );
        },
    };
    let alias = to_lowercase(email.substring_char(0, at));
    lookup_exists(
        config,
        config.role_alias_collection.as_str(),
        "alias",
        alias.as_str(),
    )
}

/// Looks the email's local part up in the role-based collection keyed by
/// `prefix`, reporting failures as plain text.
pub fn is_role_based_email(email: &str, config: &DirectoryConfig) -> (r: Result<bool, String>)
    ensures
        !spec_has_at(email@) ==> (r matches Err(m) && m@ == "Invalid email format"@),
{
    let at = match find_first_at(email) {
        Some(i) => i,
        None => {
            return Err(String::from_str("Invalid email format"));
        },
    };
    let local = to_lowercase(email.substring_char(0, at));
    let client = match mongo_connect(config.mongo_uri.as_str()) {
        Ok(c) => c,
        Err(e) => {
            let text = mongo_error_text(&e);
            return Err(
                String::from_str("Failed to connect to MongoDB: ").concat(text.as_str()),
            );
        },
    };
    match mongo_exists(
        &client,
        config.db_name.as_str(),
        "role_based_emails",
        "prefix",
        local.as_str(),
    ) {
        Ok(found) => Ok(found),
        Err(e) => {
            let text = mongo_error_text(&e);
            Err(String::from_str("Database query failed: ").concat(text.as_str()))
        },
    }
}

/// Shared tail of the two collection lookups: connect, then ask whether the
/// key is present.
fn lookup_exists(config: &DirectoryConfig, coll: &str, field: &str, value: &str) -> (r: Result<
    bool,
    DbError,
>) {
    let client = match mongo_connect(config.mongo_uri.as_str()) {
        Ok(c) => c,
        Err(e) => {
            return Err(DbError { message: mongo_error_text(&e) });
        },
    };
    match mongo_exists(&client, config.db_name.as_str(), coll, field, value) {
        Ok(found) => Ok(found),
        Err(e) => Err(DbError { message: mongo_error_text(&e) }),
    }
}

/// The fixed list of disposable domains the store-free check recognises, for
/// exercising the pipeline without a document store.
pub fn is_disposable_email_mock(email: &str) -> (r: Result<bool, DbError>)
    ensures
        r is Err <==> !spec_has_at(email@),
        forall|i: int|
            is_first_at(email@, i) ==> r == Ok::<bool, DbError>(
                spec_mock_disposable(lower_of(email@.skip(i + 1))),
            ),
{
    let n = email.unicode_len();
    let at = match find_first_at(email) {
        Some(i) => i,
        None => {
            return Err(
                DbError { message: String::from_str("Invalid email format: missing '@'") },
            );
        },
    };
    proof {
        assert forall|i: int| is_first_at(email@, i) implies i == at as int by {
            lemma_first_at_unique(email@, i, at as int);
        }
    }
    let domain = to_lowercase(email.substring_char(at + 1, n));
    Ok(
        string_eq(&domain, &String::from_str("mailinator.com")) || string_eq(
            &domain,
            &String::from_str("0-00.usa.cc"),
        ) || string_eq(&domain, &String::from_str("10minutemail.com")) || string_eq(
            &domain,
            &String::from_str("guerrillamail.com"),
        ) || string_eq(&domain, &String::from_str("tempmail.org")),
    )
}

} // verus!
