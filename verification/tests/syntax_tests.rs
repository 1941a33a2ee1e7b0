//! Lexical validation of addresses: the standard forms, quoting, domain
//! literals, internationalized names, and the byte-length limits.

use email_sanitizer::syntax::is_valid_email;

#[test]
fn valid_standard_emails() {
    assert!(is_valid_email("simple@example.com"));
    assert!(is_valid_email("very.common@example.com"));
    assert!(is_valid_email("x@example.com")); // Short local
    assert!(is_valid_email("a.b@example.com"));
}

#[test]
fn valid_special_chars() {
    assert!(is_valid_email("!#$%&'*+-/=?^_`{}|~@example.com"));
    assert!(is_valid_email("\"quoted@local\"@example.com"));
    assert!(is_valid_email("\"escaped\\\"quote\"@example.com"));
    assert!(is_valid_email("\"with space\"@example.com"));
}

#[test]
fn valid_domain_literals() {
    assert!(is_valid_email("user@[192.168.0.1]"));
    assert!(is_valid_email("user@[IPv6:2001:db8::1]")); // Compressed format
    assert!(is_valid_email(
        "user@[IPv6:2001:0db8:85a3:0000:0000:ac1f:8001:1234]"
    )); // 8 hextets
}

#[test]
fn valid_international() {
    assert!(is_valid_email("Pelé@exämple.中国"));
    assert!(is_valid_email("用户@例子.中国"));
    assert!(is_valid_email("ἀρχαῖα@δόκιμη.κπ"));
}

#[test]
fn valid_edge_cases() {
    // Max length local part
    let max_local = "a".repeat(64);
    assert!(is_valid_email(&format!("{}@example.com", max_local)));

    // Max length email (254 chars) with valid domain labels
    let local = "a".repeat(64);
    let label = "b".repeat(63); // Max label length
    let domain = format!("{}.{}.{}", label, label, "c".repeat(61)); // 63 + 63 + 61 + 2 dots = 189
    assert_eq!(local.len() + 1 + domain.len(), 254);
    assert!(is_valid_email(&format!("{}@{}", local, domain)));
}

#[test]
fn invalid_missing_at() {
    assert!(!is_valid_email("missing.example.com"));
    assert!(!is_valid_email("missing@"));
    assert!(!is_valid_email("@missing.com"));
}

#[test]
fn invalid_lengths() {
    // Local part too long
    let long_local = "a".repeat(65);
    assert!(!is_valid_email(&format!("{}@example.com", long_local)));

    // Email too long
    let local = "a".repeat(64);
    let domain = "b".repeat(190); // 64 + 1 + 190 = 255
    assert!(!is_valid_email(&format!("{}@{}", local, domain)));
}

#[test]
fn invalid_local_parts() {
    assert!(!is_valid_email("no..dots@example.com"));
    assert!(!is_valid_email(".leading@example.com"));
    assert!(!is_valid_email("trailing.@example.com"));
    assert!(!is_valid_email("un\"quoted@example.com"));
    assert!(!is_valid_email("\"unclosed@example.com"));
    assert!(!is_valid_email("spaces unquoted@example.com"));
}

#[test]
fn invalid_domains() {
    assert!(!is_valid_email("user@-hyphenstart.com"));
    assert!(!is_valid_email("user@hyphenend-.com"));
    assert!(!is_valid_email("user@.leadingdot.com"));
    assert!(!is_valid_email("user@double..dot.com"));
    assert!(!is_valid_email("user@_invalidchar.com"));
}

#[test]
fn invalid_domain_literals() {
    assert!(!is_valid_email("user@[invalid.ip]"));
    assert!(!is_valid_email("user@[IPv6:2001:db8:::1]"));
    assert!(!is_valid_email("user@[192.168.0.256]"));
    assert!(!is_valid_email("user@[missing.bracket"));
}

#[test]
fn invalid_quoting() {
    assert!(!is_valid_email("\"invalid\\escape\"@example.com"));
    assert!(!is_valid_email("\"unbalanced@example.com"));
    assert!(!is_valid_email("quote\"in@middle.example.com"));
}

#[test]
fn invalid_special_cases() {
    assert!(!is_valid_email(""));
    assert!(!is_valid_email("   "));
    assert!(!is_valid_email("null@"));
    assert!(!is_valid_email("@"));
}

#[test]
fn case_handling() {
    // Domain should be case-insensitive (valid regardless of case)
    assert!(is_valid_email("USER@EXAMPLE.COM"));
    assert!(is_valid_email("User@Example.com"));

    // Local part case sensitivity (preserved but still valid)
    assert!(is_valid_email("CaseSensitive@example.com"));
}

#[test]
fn test_edge_case_quoted_strings() {
    // Test various quoted string edge cases
    assert!(is_valid_email("\"test\"@example.com"));
    assert!(is_valid_email("\"test.test\"@example.com"));
    assert!(is_valid_email("\"test@test\"@example.com"));
    assert!(is_valid_email("\"test\\\"test\"@example.com"));
    assert!(is_valid_email("\"test\\\\test\"@example.com"));

    // Invalid quoted strings
    assert!(!is_valid_email("\"test@example.com"));
    assert!(!is_valid_email("test\"@example.com"));
    assert!(!is_valid_email("\"test\\\"@example.com"));
    assert!(!is_valid_email("\"test\\\\\"@example.com"));
}

#[test]
fn test_domain_literal_edge_cases() {
    // Valid IPv4 addresses
    assert!(is_valid_email("user@[127.0.0.1]"));
    assert!(is_valid_email("user@[0.0.0.0]"));
    assert!(is_valid_email("user@[255.255.255.255]"));

    // Valid IPv6 addresses
    assert!(is_valid_email("user@[IPv6:::1]"));
    assert!(is_valid_email("user@[IPv6:fe80::1]"));
    assert!(is_valid_email("user@[IPv6:2001:db8:85a3::8a2e:370:7334]"));

    // Invalid domain literals
    assert!(!is_valid_email("user@[300.0.0.1]"));
    assert!(!is_valid_email("user@[IPv6:invalid]"));
    assert!(!is_valid_email("user@[not.an.ip]"));
    assert!(!is_valid_email("user@[192.168.1]"));
}

#[test]
fn test_local_part_special_characters() {
    // Valid special characters in local part
    assert!(is_valid_email("!@example.com"));
    assert!(is_valid_email("#@example.com"));
    assert!(is_valid_email("$@example.com"));
    assert!(is_valid_email("%@example.com"));
    assert!(is_valid_email("&@example.com"));
    assert!(is_valid_email("'@example.com"));
    assert!(is_valid_email("*@example.com"));
    assert!(is_valid_email("+@example.com"));
    assert!(is_valid_email("-@example.com"));
    assert!(is_valid_email("/@example.com"));
    assert!(is_valid_email("=@example.com"));
    assert!(is_valid_email("?@example.com"));
    assert!(is_valid_email("^@example.com"));
    assert!(is_valid_email("_@example.com"));
    assert!(is_valid_email("`@example.com"));
    assert!(is_valid_email("{@example.com"));
    assert!(is_valid_email("|@example.com"));
    assert!(is_valid_email("}@example.com"));
    assert!(is_valid_email("~@example.com"));
}

#[test]
fn test_domain_hyphen_rules() {
    // Valid hyphen usage
    assert!(is_valid_email("user@sub-domain.example.com"));
    assert!(is_valid_email("user@a-b-c.example.com"));

    // Invalid hyphen usage
    assert!(!is_valid_email("user@-subdomain.example.com"));
    assert!(!is_valid_email("user@subdomain-.example.com"));
    // Note: consecutive hyphens might be valid in some contexts
}

#[test]
fn test_length_boundaries() {
    // Test exactly at boundaries
    let local_63 = "a".repeat(63);
    let local_64 = "a".repeat(64);
    let local_65 = "a".repeat(65);

    assert!(is_valid_email(&format!("{}@example.com", local_63)));
    assert!(is_valid_email(&format!("{}@example.com", local_64)));
    assert!(!is_valid_email(&format!("{}@example.com", local_65)));

    // Test domain label length (63 chars max)
    let label_63 = "b".repeat(63);

    assert!(is_valid_email(&format!("user@{}.com", label_63)));
    // Note: Some implementations may allow longer labels
}

#[test]
fn test_multiple_at_symbols() {
    // Only one @ should be allowed outside quotes
    assert!(!is_valid_email("user@@example.com"));
    assert!(!is_valid_email("user@example@com"));
    assert!(!is_valid_email("@user@example.com"));

    // @ inside quotes should be fine
    assert!(is_valid_email("\"user@domain\"@example.com"));
}

#[test]
fn test_empty_parts() {
    assert!(!is_valid_email("@"));
    assert!(!is_valid_email("@example.com"));
    assert!(!is_valid_email("user@"));
    assert!(!is_valid_email("user@.com"));
    assert!(!is_valid_email("user@example."));
    assert!(!is_valid_email(".user@example.com"));
    assert!(!is_valid_email("user.@example.com"));
}

#[test]
fn test_consecutive_dots() {
    assert!(!is_valid_email("user..name@example.com"));
    assert!(!is_valid_email("user@example..com"));
    assert!(!is_valid_email("user@.example.com"));
    assert!(!is_valid_email("user@example.com."));
}

#[test]
fn test_whitespace_handling() {
    // Unquoted whitespace should be invalid
    assert!(!is_valid_email("user name@example.com"));
    assert!(!is_valid_email("user@example .com"));
    assert!(!is_valid_email(" user@example.com"));
    assert!(!is_valid_email("user@example.com "));

    // Quoted whitespace should be valid
    assert!(is_valid_email("\"user name\"@example.com"));
    assert!(is_valid_email("\" user \"@example.com"));
}

#[test]
fn test_international_domains() {
    // Test various international characters
    assert!(is_valid_email("user@münchen.de"));
    assert!(is_valid_email("user@москва.рф"));
    assert!(is_valid_email("user@北京.中国"));
    assert!(is_valid_email("user@العربية.مصر"));
}

#[test]
fn test_case_sensitivity() {
    // These should all be valid (case doesn't affect validity)
    assert!(is_valid_email("User@Example.Com"));
    assert!(is_valid_email("USER@EXAMPLE.COM"));
    assert!(is_valid_email("user@EXAMPLE.com"));
    assert!(is_valid_email("User.Name@Example.Com"));
}

#[test]
fn test_numeric_domains() {
    assert!(is_valid_email("user@123.com"));
    assert!(is_valid_email("user@123.456.com"));
    assert!(is_valid_email("user@1a2b.com"));
    // Note: Single label domains might be valid in some contexts
}

#[test]
fn test_single_character_parts() {
    assert!(is_valid_email("a@b.co"));
    assert!(is_valid_email("1@2.co"));
    assert!(is_valid_email("x@y.museum"));
}

#[test]
fn test_maximum_email_length() {
    // Test exactly 254 characters (maximum allowed)
    let local = "a".repeat(64);
    let domain_part = format!("{}.{}.{}", "b".repeat(61), "c".repeat(61), "d".repeat(61));
    let email = format!("{}@{}", local, domain_part);

    if email.len() == 254 {
        assert!(is_valid_email(&email));
    }

    // Test 255 characters (should fail)
    let long_email = format!("{}@{}.extra", local, domain_part);
    if long_email.len() > 254 {
        assert!(!is_valid_email(&long_email));
    }
}

#[test]
fn test_tagged_address_and_literals() {
    assert!(is_valid_email("user.name+tag@example.com"));
    assert!(!is_valid_email("user@[300.0.0.1]"));
    assert!(is_valid_email("\"quoted@local\"@example.com"));
}

#[test]
fn test_strings_without_unquoted_at_rejected() {
    // No unquoted separator anywhere: never valid, whatever else the text holds
    assert!(!is_valid_email("plain-text"));
    assert!(!is_valid_email("\"admin@example.com\""));
    assert!(!is_valid_email("\"a@b"));
    assert!(!is_valid_email("dot.atom.only"));
    assert!(!is_valid_email("\"quoted stays open@everything.is.quoted"));
}
