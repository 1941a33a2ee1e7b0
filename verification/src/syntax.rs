//! RFC 5322/6531-style lexical validation of email addresses: quoted-string
//! and dot-atom local parts, domain names with hyphen and label-length rules,
//! and bracketed IP-address domain literals.  Unicode code points are accepted
//! as literal UTF-8 in both halves; length limits are byte counts.

use vstd::prelude::*;
use vstd::slice::slice_subrange;
use crate::ip_literal::{is_valid_domain_literal, spec_valid_domain_literal};
use crate::text::{
    byte_len, byte_len_at_most, char_alphanumeric, chars_vec, lemma_byte_len_bounds,
    lemma_byte_len_push, spec_char_alphanumeric,
};

verus! {

/// One step of the quote-aware scan that looks for the separator between the
/// local part and the domain.  The state is (inside a quoted string, the last
/// character opened a backslash escape).
pub open spec fn scan_step(state: (bool, bool), c: char) -> (bool, bool) {
    if c == '"' && !state.1 {
        (!state.0, false)
    } else if c == '\\' && state.0 {
        (state.0, true)
    } else {
        (state.0, false)
    }
}

/// The scan state after reading all of `s`, starting outside quotes.
pub open spec fn scan_state(s: Seq<char>) -> (bool, bool)
    decreases s.len(),
{
    if s.len() == 0 {
        (false, false)
    } else {
        scan_step(scan_state(s.drop_last()), s.last())
    }
}

/// Position `i` holds an `@` that stands outside any quoted string.
pub open spec fn is_unquoted_at(s: Seq<char>, i: int) -> bool {
    &&& 0 <= i < s.len()
    &&& s[i] == '@'
    &&& !scan_state(s.take(i)).0
}

/// The sequence holds an unquoted `@` somewhere.
pub open spec fn has_unquoted_at(s: Seq<char>) -> bool {
    exists|i: int| is_unquoted_at(s, i)
}

/// Position `i` holds the first unquoted `@`: the separator the scan finds.
pub open spec fn is_first_unquoted_at(s: Seq<char>, i: int) -> bool {
    &&& is_unquoted_at(s, i)
    &&& forall|j: int| 0 <= j < i ==> !is_unquoted_at(s, j)
}

/// The printable ASCII symbols a dot-atom local part may use besides
/// alphanumerics (the hyphen is handled on its own).
pub open spec fn spec_local_symbol(c: char) -> bool {
    ||| c == '!'
    ||| c == '#'
    ||| c == '$'
    ||| c == '%'
    ||| c == '&'
    ||| c == '\''
    ||| c == '*'
    ||| c == '+'
    ||| c == '/'
    ||| c == '='
    ||| c == '?'
    ||| c == '^'
    ||| c == '_'
    ||| c == '`'
    ||| c == '{'
    ||| c == '|'
    ||| c == '}'
    ||| c == '~'
}

/// Decides membership in the dot-atom symbol set.
fn is_local_symbol(c: char) -> (r: bool)
    ensures
        r == spec_local_symbol(c),
{
    c == '!' || c == '#' || c == '$' || c == '%' || c == '&' || c == '\'' || c == '*' || c == '+'
        || c == '/' || c == '=' || c == '?' || c == '^' || c == '_' || c == '`' || c == '{' || c
        == '|' || c == '}' || c == '~'
}

/// Position `i` opens a dot-separated token: it is the start of the sequence
/// or follows a dot.
pub open spec fn token_start(s: Seq<char>, i: int) -> bool {
    i == 0 || s[i - 1] == '.'
}

/// Position `i` closes a dot-separated token: it is the end of the sequence
/// or a dot follows.
pub open spec fn token_end(s: Seq<char>, i: int) -> bool {
    i == s.len() - 1 || s[i + 1] == '.'
}

/// The character at a non-dot position is acceptable for a dot-atom.  In a
/// domain, only alphanumerics and interior hyphens; in a local part, also the
/// symbol set, with hyphens unrestricted.
pub open spec fn dot_atom_char_ok(s: Seq<char>, i: int, is_domain: bool) -> bool {
    if s[i] == '-' {
        !is_domain || (!token_start(s, i) && !token_end(s, i))
    } else if is_domain {
        spec_char_alphanumeric(s[i])
    } else {
        spec_char_alphanumeric(s[i]) || spec_local_symbol(s[i])
    }
}

/// Dot-atom shape: non-empty, no empty tokens between dots, and every
/// character acceptable for its position.
pub open spec fn spec_valid_dot_atom(s: Seq<char>, is_domain: bool) -> bool {
    &&& s.len() > 0
    &&& s[0] != '.'
    &&& s[s.len() - 1] != '.'
    &&& forall|i: int| 0 <= i < s.len() - 1 ==> !((#[trigger] s[i]) == '.' && s[i + 1] == '.')
    &&& forall|i: int| 0 <= i < s.len() && s[i] != '.' ==> dot_atom_char_ok(s, i, is_domain)
}

/// Checks the dot-atom shape.
fn is_valid_dot_atom(s: &[char], is_domain: bool) -> (r: bool)
    ensures
        r == spec_valid_dot_atom(s@, is_domain),
{
    let n = s.len();
    if n == 0 {
        return false;
    }
    if s[0] == '.' || s[n - 1] == '.' {
        return false;
    }
    for i in 0..n
        invariant
            n == s@.len(),
            forall|j: int| 0 <= j < i && j < n - 1 ==> !((#[trigger] s@[j]) == '.' && s@[j + 1]
                == '.'),
            forall|j: int| 0 <= j < i && s@[j] != '.' ==> dot_atom_char_ok(s@, j, is_domain),
    {
        let c = s[i];
        if c == '.' {
            if i + 1 < n && s[i + 1] == '.' {
                return false;
            }
        } else {
            let ok = if c == '-' {
                if is_domain {
                    let starts = i == 0 || s[i - 1] == '.';
                    let ends = i == n - 1 || s[i + 1] == '.';
                    !starts && !ends
                } else {
                    true
                }
            } else if is_domain {
                char_alphanumeric(c)
            } else {
                char_alphanumeric(c) || is_local_symbol(c)
            };
            if !ok {
                return false;
            }
        }
    }
    true
}

/// Interior of a quoted string read from the front: an escape may only cover
/// a backslash or a quote, a bare quote is forbidden, and no escape may dangle
/// at the end.
pub open spec fn spec_quoted_tail(content: Seq<char>, escape: bool) -> bool
    decreases content.len(),
{
    if content.len() == 0 {
        !escape
    } else if escape {
        (content[0] == '\\' || content[0] == '"') && spec_quoted_tail(content.drop_first(), false)
    } else if content[0] == '\\' {
        spec_quoted_tail(content.drop_first(), true)
    } else if content[0] == '"' {
        false
    } else {
        spec_quoted_tail(content.drop_first(), false)
    }
}

/// A quoted-string local part: surrounding quotes with a well-formed interior.
pub open spec fn spec_valid_quoted(l: Seq<char>) -> bool {
    spec_quoted_tail(l.subrange(1, l.len() - 1), false)
}

/// Checks the interior of a quoted-string local part.
fn is_valid_quoted_string(q: &[char]) -> (r: bool)
    requires
        q@.len() >= 2,
    ensures
        r == spec_valid_quoted(q@),
{
    let ghost content = q@.subrange(1, q@.len() - 1);
    let n = q.len();
    let mut escape = false;
    proof {
        assert(content.skip(0) =~= content);
    }
    for i in 1..(n - 1)
        invariant
            n == q@.len(),
            n >= 2,
            content == q@.subrange(1, n - 1),
            spec_quoted_tail(content, false) == spec_quoted_tail(
                content.skip(i - 1),
                escape,
            ),
    {
        let c = q[i];
        proof {
            assert(content.skip(i - 1).len() > 0);
            assert(content.skip(i - 1)[0] == q@[i as int]);
            assert(content.skip(i - 1).drop_first() =~= content.skip(i as int));
        }
        if escape {
            if !(c == '\\' || c == '"') {
                return false;
            }
            escape = false;
        } else if c == '\\' {
            escape = true;
        } else if c == '"' {
            return false;
        }
    }
    proof {
        assert(content.skip(n - 2).len() == 0);
    }
    !escape
}

/// A valid local part: a quoted string when it is wrapped in quotes, a
/// dot-atom otherwise.
pub open spec fn spec_valid_local_part(l: Seq<char>) -> bool {
    if l.len() >= 2 && l[0] == '"' && l[l.len() - 1] == '"' {
        spec_valid_quoted(l)
    } else {
        spec_valid_dot_atom(l, false)
    }
}

/// Checks the local part.
fn is_valid_local_part(l: &[char]) -> (r: bool)
    ensures
        r == spec_valid_local_part(l@),
{
    let n = l.len();
    if n >= 2 && l[0] == '"' && l[n - 1] == '"' {
        is_valid_quoted_string(l)
    } else {
        is_valid_dot_atom(l, false)
    }
}

/// Positions `a..b` span one whole dot-separated label of `s`.
pub open spec fn is_label_span(s: Seq<char>, a: int, b: int) -> bool {
    crate::ip_literal::is_sep_span(s, '.', a, b)
}

/// Every dot-separated label fits in 63 bytes.
pub open spec fn spec_labels_within_63(s: Seq<char>) -> bool {
    forall|a: int, b: int| is_label_span(s, a, b) ==> byte_len(s.subrange(a, b)) <= 63
}

/// Checks the 63-byte limit on every label.
fn labels_within_63(s: &[char]) -> (r: bool)
    requires
        s@.len() <= 0x2000,
    ensures
        r == spec_labels_within_63(s@),
{
    let n = s.len();
    let mut start: usize = 0;
    let mut acc: u64 = 0;
    let mut ok = true;
    for i in 0..n
        invariant
            n == s@.len(),
            n <= 0x2000,
            start <= i <= n,
            start == 0 || (1 <= start && s@[start as int - 1] == '.'),
            forall|k: int| start <= k < i ==> s@[k] != '.',
            acc as int == byte_len(s@.subrange(start as int, i as int)),
            acc <= 4 * (i as u64),
            ok == (forall|a: int, b: int|
                is_label_span(s@, a, b) && b < i ==> byte_len(s@.subrange(a, b)) <= 63),
    {
        if s[i] == '.' {
            proof {
                assert(is_label_span(s@, start as int, i as int));
                assert forall|a: int, b: int| is_label_span(s@, a, b) && b == i implies a
                    == start as int by {
                    crate::ip_literal::lemma_span_start_unique(s@, '.', start as int, a, b);
                }
                assert(s@.subrange(i + 1, i + 1) =~= Seq::<char>::empty());
                assert(byte_len(Seq::<char>::empty()) == 0);
            }
            ok = ok && acc <= 63;
            start = i + 1;
            acc = 0;
        } else {
            proof {
                assert(s@.subrange(start as int, i + 1) =~= s@.subrange(
                    start as int,
                    i as int,
                ).push(s@[i as int]));
                lemma_byte_len_push(s@.subrange(start as int, i as int), s@[i as int]);
            }
            let w = crate::text::char_width(s[i]);
            acc = acc + w as u64;
        }
    }
    proof {
        assert(is_label_span(s@, start as int, n as int));
        assert forall|a: int, b: int| is_label_span(s@, a, b) && b == n as int implies a
            == start as int by {
            crate::ip_literal::lemma_span_start_unique(s@, '.', start as int, a, b);
        }
    }
    ok && acc <= 63
}

/// A valid domain name: dot-atom shape under the domain rules, with every
/// label at most 63 bytes.
pub open spec fn spec_valid_domain_name(s: Seq<char>) -> bool {
    &&& spec_valid_dot_atom(s, true)
    &&& spec_labels_within_63(s)
}

/// Checks a domain name.
fn is_valid_domain_name(s: &[char]) -> (r: bool)
    requires
        s@.len() <= 0x2000,
    ensures
        r == spec_valid_domain_name(s@),
{
    is_valid_dot_atom(s, true) && labels_within_63(s)
}

/// A valid domain part: a bracketed IP-address literal, or a domain name.
pub open spec fn spec_valid_domain_part(s: Seq<char>) -> bool {
    if s.len() >= 2 && s[0] == '[' && s[s.len() - 1] == ']' {
        spec_valid_domain_literal(s.subrange(1, s.len() - 1))
    } else {
        spec_valid_domain_name(s)
    }
}

/// Checks the domain part.
fn is_valid_domain_part(s: &[char]) -> (r: bool)
    requires
        s@.len() <= 0x2000,
    ensures
        r == spec_valid_domain_part(s@),
{
    let n = s.len();
    if n >= 2 && s[0] == '[' && s[n - 1] == ']' {
        is_valid_domain_literal(slice_subrange(s, 1, n - 1))
    } else {
        is_valid_domain_name(s)
    }
}

/// Finds the first unquoted `@`.
fn find_split_at(s: &[char]) -> (r: Option<usize>)
    ensures
        match r {
            Some(i) => is_first_unquoted_at(s@, i as int),
            None => !has_unquoted_at(s@),
        },
{
    let n = s.len();
    let mut in_quotes = false;
    let mut escape = false;
    for i in 0..n
        invariant
            n == s@.len(),
            (in_quotes, escape) == scan_state(s@.take(i as int)),
            forall|j: int| 0 <= j < i ==> !is_unquoted_at(s@, j),
    {
        let c = s[i];
        proof {
            assert(s@.take(i + 1).drop_last() =~= s@.take(i as int));
            assert(s@.take(i + 1).last() == s@[i as int]);
        }
        if c == '"' && !escape {
            in_quotes = !in_quotes;
        } else if c == '\\' && in_quotes {
            escape = true;
        } else if c == '@' && !in_quotes {
            return Some(i);
        } else {
            escape = false;
        }
    }
    None
}

/// Every syntax rule together: at most 254 bytes in all, a separating
/// unquoted `@`, a local part of at most 64 bytes in a valid quoted-string or
/// dot-atom shape, and a valid domain part.
pub open spec fn spec_is_valid_email(s: Seq<char>) -> bool {
    &&& byte_len(s) <= 254
    &&& has_unquoted_at(s)
    &&& forall|i: int|
        is_first_unquoted_at(s, i) ==> {
            &&& byte_len(s.take(i)) <= 64
            &&& spec_valid_local_part(s.take(i))
            &&& spec_valid_domain_part(s.skip(i + 1))
        }
}

/// Validates an email address: overall and local-part byte-length limits, the
/// quote-aware search for the separating `@`, then the local-part and
/// domain-part shapes.  Pure, and total on every string, including the empty
/// one and arbitrary Unicode.
pub fn is_valid_email(email: &str) -> (r: bool)
    ensures
        r == spec_is_valid_email(email@),
{
    let chars = chars_vec(email);
    let s: &[char] = chars.as_slice();
    if !byte_len_at_most(s, 254) {
        return false;
    }
    proof {
        lemma_byte_len_bounds(s@);
    }
    let n = s.len();
    match find_split_at(s) {
        None => false,
        Some(i) => {
            let local = slice_subrange(s, 0, i);
            let domain = slice_subrange(s, i + 1, n);
            proof {
                assert(local@ =~= s@.take(i as int));
                assert(domain@ =~= s@.skip(i as int + 1));
            }
            if !byte_len_at_most(local, 64) {
                return false;
            }
            if !is_valid_local_part(local) {
                return false;
            }
            proof {
                lemma_byte_len_bounds(domain@);
                assert(s@ =~= s@.take(i as int) + s@.skip(i as int));
                crate::text::lemma_byte_len_concat(s@.take(i as int), s@.skip(i as int));
                lemma_byte_len_bounds(s@.take(i as int));
            }
            is_valid_domain_part(domain)
        },
    }
}

/// A string without an unquoted `@` is never a valid address.
pub proof fn lemma_no_unquoted_at_invalid(s: Seq<char>)
    requires
        !has_unquoted_at(s),
    ensures
        !spec_is_valid_email(s),
{
}

/// A string longer than 254 UTF-8 bytes is never a valid address.
pub proof fn lemma_overlong_invalid(s: Seq<char>)
    requires
        byte_len(s) > 254,
    ensures
        !spec_is_valid_email(s),
{
}

} // verus!
