//! Bracketed domain literals: IPv4 dotted quads and IPv6 addresses, with the
//! optional `IPv6:` tag.  The grammar is the usual textual one: four decimal
//! octets up to 255 without leading zeros; hexadecimal groups of one to four
//! digits separated by colons, eight in all, one `::` standing for one or
//! more zero groups, and an embedded dotted quad allowed in the last place,
//! counting as two groups.

use vstd::prelude::*;
use vstd::slice::slice_subrange;

verus! {

/// How often `ch` occurs in `s`.
pub open spec fn count_char(s: Seq<char>, ch: char) -> int
    decreases s.len(),
{
    if s.len() == 0 {
        0
    } else {
        count_char(s.drop_last(), ch) + if s.last() == ch {
            1int
        } else {
            0int
        }
    }
}

/// A count of occurrences is never negative.
proof fn lemma_count_char_nonneg(s: Seq<char>, ch: char)
    ensures
        count_char(s, ch) >= 0,
    decreases s.len(),
{
    if s.len() > 0 {
        lemma_count_char_nonneg(s.drop_last(), ch);
    }
}

/// Positions `a..b` span one whole `sep`-separated token of `s`.
pub open spec fn is_sep_span(s: Seq<char>, sep: char, a: int, b: int) -> bool {
    &&& 0 <= a <= b <= s.len()
    &&& (a == 0 || s[a - 1] == sep)
    &&& (b == s.len() || s[b] == sep)
    &&& forall|k: int| a <= k < b ==> s[k] != sep
}

/// A span's start is determined by its end: it is the position after the
/// nearest separator.
pub proof fn lemma_span_start_unique(s: Seq<char>, sep: char, start: int, a: int, b: int)
    requires
        0 <= start <= b <= s.len(),
        start == 0 || s[start - 1] == sep,
        forall|k: int| start <= k < b ==> s[k] != sep,
        is_sep_span(s, sep, a, b),
    ensures
        a == start,
{
    if a < start {
        assert(s[start - 1] == sep);
        assert(a <= start - 1 < b);
    }
    if a > start {
        assert(s[a - 1] == sep);
        assert(start <= a - 1 < b);
    }
}

/// An ASCII decimal digit.
pub open spec fn spec_digit(c: char) -> bool {
    '0' as u32 <= c as u32 <= '9' as u32
}

/// Decides whether a character is an ASCII decimal digit.
fn is_digit(c: char) -> (r: bool)
    ensures
        r == spec_digit(c),
{
    let u = c as u32;
    '0' as u32 <= u && u <= '9' as u32
}

/// Numeric value of a decimal digit.
pub open spec fn digit_val(c: char) -> int {
    c as u32 - '0' as u32
}

/// Value of a sequence of decimal digits.
pub open spec fn dec_val(s: Seq<char>) -> int
    decreases s.len(),
{
    if s.len() == 0 {
        0
    } else {
        dec_val(s.drop_last()) * 10 + digit_val(s.last())
    }
}

/// An ASCII hexadecimal digit, either case.
pub open spec fn spec_hex_digit(c: char) -> bool {
    ||| spec_digit(c)
    ||| 'a' as u32 <= c as u32 <= 'f' as u32
    ||| 'A' as u32 <= c as u32 <= 'F' as u32
}

/// Decides whether a character is a hexadecimal digit.
fn is_hex_digit(c: char) -> (r: bool)
    ensures
        r == spec_hex_digit(c),
{
    let u = c as u32;
    ('0' as u32 <= u && u <= '9' as u32) || ('a' as u32 <= u && u <= 'f' as u32) || ('A' as u32
        <= u && u <= 'F' as u32)
}

/// One octet of a dotted quad: one to three digits, no leading zero unless
/// the octet is exactly `0`, value at most 255.
pub open spec fn ipv4_octet_ok(t: Seq<char>) -> bool {
    &&& 1 <= t.len() <= 3
    &&& forall|k: int| 0 <= k < t.len() ==> spec_digit(t[k])
    &&& (t.len() == 1 || t[0] != '0')
    &&& dec_val(t) <= 255
}

/// A dotted-quad IPv4 literal: exactly four octet tokens.
pub open spec fn spec_ipv4(s: Seq<char>) -> bool {
    &&& count_char(s, '.') == 3
    &&& forall|a: int, b: int| is_sep_span(s, '.', a, b) ==> ipv4_octet_ok(s.subrange(a, b))
}

/// Unfolds the value of a sequence of up to three digits.
proof fn lemma_dec_val_small(t: Seq<char>)
    requires
        1 <= t.len() <= 3,
    ensures
        t.len() == 1 ==> dec_val(t) == digit_val(t[0]),
        t.len() == 2 ==> dec_val(t) == digit_val(t[0]) * 10 + digit_val(t[1]),
        t.len() == 3 ==> dec_val(t) == (digit_val(t[0]) * 10 + digit_val(t[1])) * 10 + digit_val(
            t[2],
        ),
    decreases t.len(),
{
    if t.len() == 1 {
        assert(t.drop_last() =~= Seq::<char>::empty());
        assert(dec_val(Seq::<char>::empty()) == 0);
    } else if t.len() == 2 {
        lemma_dec_val_small(t.drop_last());
        assert(t.drop_last()[0] == t[0]);
    } else {
        lemma_dec_val_small(t.drop_last());
        assert(t.drop_last()[0] == t[0]);
        assert(t.drop_last()[1] == t[1]);
    }
}

/// Checks one octet token at `s[a..b]`.
fn ipv4_octet_check(s: &[char], a: usize, b: usize) -> (r: bool)
    requires
        a <= b <= s@.len(),
    ensures
        r == ipv4_octet_ok(s@.subrange(a as int, b as int)),
{
    let ghost t = s@.subrange(a as int, b as int);
    let len = b - a;
    if len < 1 || len > 3 {
        return false;
    }
    for k in a..b
        invariant
            a <= k <= b <= s@.len(),
            t == s@.subrange(a as int, b as int),
            forall|j: int| 0 <= j < k - a ==> spec_digit(t[j]),
    {
        if !is_digit(s[k]) {
            proof {
                assert(t[k - a] == s@[k as int]);
            }
            return false;
        }
    }
    if len >= 2 && s[a] == '0' {
        proof {
            assert(t[0] == s@[a as int]);
        }
        return false;
    }
    proof {
        lemma_dec_val_small(t);
        assert(t[0] == s@[a as int]);
        if len >= 2 {
            assert(t[1] == s@[a + 1]);
        }
        if len == 3 {
            assert(t[2] == s@[a + 2]);
        }
    }
    let v: u32 = if len == 1 {
        s[a] as u32 - '0' as u32
    } else if len == 2 {
        (s[a] as u32 - '0' as u32) * 10 + (s[a + 1] as u32 - '0' as u32)
    } else {
        ((s[a] as u32 - '0' as u32) * 10 + (s[a + 1] as u32 - '0' as u32)) * 10 + (s[a + 2] as u32
            - '0' as u32)
    };
    v <= 255
}

/// Checks a dotted-quad IPv4 literal.
pub fn is_ipv4(s: &[char]) -> (r: bool)
    ensures
        r == spec_ipv4(s@),
{
    let n = s.len();
    let mut dots: usize = 0;
    for i in 0..n
        invariant
            n == s@.len(),
            dots <= i,
            dots as int == count_char(s@.take(i as int), '.'),
    {
        proof {
            assert(s@.take(i + 1).drop_last() =~= s@.take(i as int));
            assert(s@.take(i + 1).last() == s@[i as int]);
        }
        if s[i] == '.' {
            dots = dots + 1;
        }
    }
    proof {
        assert(s@.take(n as int) =~= s@);
    }
    if dots != 3 {
        return false;
    }
    let mut start: usize = 0;
    let mut ok = true;
    for i in 0..n
        invariant
            n == s@.len(),
            start <= i <= n,
            start == 0 || (1 <= start && s@[start as int - 1] == '.'),
            forall|k: int| start <= k < i ==> s@[k] != '.',
            ok == (forall|a: int, b: int|
                is_sep_span(s@, '.', a, b) && b < i ==> ipv4_octet_ok(s@.subrange(a, b))),
    {
        if s[i] == '.' {
            let t_ok = ipv4_octet_check(s, start, i);
            proof {
                assert(is_sep_span(s@, '.', start as int, i as int));
                assert forall|a: int, b: int| is_sep_span(s@, '.', a, b) && b == i implies a
                    == start as int by {
                    lemma_span_start_unique(s@, '.', start as int, a, b);
                }
            }
            ok = ok && t_ok;
            start = i + 1;
        }
    }
    let t_ok = ipv4_octet_check(s, start, n);
    proof {
        assert forall|a: int, b: int| is_sep_span(s@, '.', a, b) && b == n as int implies a
            == start as int by {
            lemma_span_start_unique(s@, '.', start as int, a, b);
        }
        assert(is_sep_span(s@, '.', start as int, n as int));
    }
    ok && t_ok
}

/// One hexadecimal group of an IPv6 address: one to four hex digits.
pub open spec fn hex_group_ok(t: Seq<char>) -> bool {
    &&& 1 <= t.len() <= 4
    &&& forall|k: int| 0 <= k < t.len() ==> spec_hex_digit(t[k])
}

/// Every colon-separated token of `s` is a hexadecimal group.
pub open spec fn hex_groups_ok(s: Seq<char>) -> bool {
    forall|a: int, b: int| is_sep_span(s, ':', a, b) ==> hex_group_ok(s.subrange(a, b))
}

/// Every colon-separated token is a hexadecimal group, except that the last
/// may instead be an embedded dotted quad.
pub open spec fn tail_groups_ok(s: Seq<char>) -> bool {
    forall|a: int, b: int|
        is_sep_span(s, ':', a, b) ==> (hex_group_ok(s.subrange(a, b)) || (b == s.len()
            && spec_ipv4(s.subrange(a, b))))
}

/// Number of colon-separated tokens.
pub open spec fn group_count(s: Seq<char>) -> int {
    if s.len() == 0 {
        0
    } else {
        count_char(s, ':') + 1
    }
}

/// The last token is an embedded dotted quad.
pub open spec fn ipv4_last_token(s: Seq<char>) -> bool {
    exists|a: int| is_sep_span(s, ':', a, s.len() as int) && spec_ipv4(s.subrange(a, s.len() as int))
}

/// Tokens counted toward the eight groups: an embedded dotted quad stands for
/// two.
pub open spec fn tail_group_count(s: Seq<char>) -> int {
    group_count(s) + if ipv4_last_token(s) {
        1int
    } else {
        0int
    }
}

/// A double colon starts at position `i`.
pub open spec fn is_double_colon_at(s: Seq<char>, i: int) -> bool {
    &&& 0 <= i < s.len() - 1
    &&& s[i] == ':'
    &&& s[i + 1] == ':'
}

/// The sequence holds a double colon somewhere.
pub open spec fn has_double_colon(s: Seq<char>) -> bool {
    exists|i: int| is_double_colon_at(s, i)
}

/// Position `i` holds the first double colon.
pub open spec fn is_first_double_colon(s: Seq<char>, i: int) -> bool {
    &&& is_double_colon_at(s, i)
    &&& forall|j: int| 0 <= j < i ==> !is_double_colon_at(s, j)
}

/// An IPv6 literal.  With a `::`, the groups before and after it together
/// leave at least one group compressed; without one, the tokens make exactly
/// eight groups.
pub open spec fn spec_ipv6(s: Seq<char>) -> bool {
    if has_double_colon(s) {
        forall|i: int|
            is_first_double_colon(s, i) ==> {
                let head = s.take(i);
                let tail = s.skip(i + 2);
                &&& (head.len() == 0 || hex_groups_ok(head))
                &&& (tail.len() == 0 || tail_groups_ok(tail))
                &&& group_count(head) + tail_group_count(tail) <= 7
            }
    } else {
        tail_groups_ok(s) && group_count(s) + (if ipv4_last_token(s) {
            1int
        } else {
            0int
        }) == 8
    }
}

/// Checks one hexadecimal group token at `s[a..b]`.
fn hex_group_check(s: &[char], a: usize, b: usize) -> (r: bool)
    requires
        a <= b <= s@.len(),
    ensures
        r == hex_group_ok(s@.subrange(a as int, b as int)),
{
    let ghost t = s@.subrange(a as int, b as int);
    let len = b - a;
    if len < 1 || len > 4 {
        return false;
    }
    for k in a..b
        invariant
            a <= k <= b <= s@.len(),
            t == s@.subrange(a as int, b as int),
            forall|j: int| 0 <= j < k - a ==> spec_hex_digit(t[j]),
    {
        if !is_hex_digit(s[k]) {
            proof {
                assert(t[k - a] == s@[k as int]);
            }
            return false;
        }
    }
    true
}

/// Walks the colon-separated tokens of `s`: returns whether every token but
/// possibly the last is a hexadecimal group (the last may be an embedded
/// dotted quad), and whether the last token is such a quad.
fn tail_groups_check(s: &[char]) -> (r: (bool, bool))
    ensures
        r.0 == tail_groups_ok(s@),
        r.1 == ipv4_last_token(s@),
{
    let n = s.len();
    let mut start: usize = 0;
    let mut ok = true;
    for i in 0..n
        invariant
            n == s@.len(),
            start <= i <= n,
            start == 0 || (1 <= start && s@[start as int - 1] == ':'),
            forall|k: int| start <= k < i ==> s@[k] != ':',
            ok == (forall|a: int, b: int|
                is_sep_span(s@, ':', a, b) && b < i ==> hex_group_ok(s@.subrange(a, b))),
    {
        if s[i] == ':' {
            let t_ok = hex_group_check(s, start, i);
            proof {
                assert(is_sep_span(s@, ':', start as int, i as int));
                assert forall|a: int, b: int| is_sep_span(s@, ':', a, b) && b == i implies a
                    == start as int by {
                    lemma_span_start_unique(s@, ':', start as int, a, b);
                }
            }
            ok = ok && t_ok;
            start = i + 1;
        }
    }
    let last_hex = hex_group_check(s, start, n);
    let last_ipv4 = is_ipv4(slice_subrange(s, start, n));
    proof {
        assert forall|a: int, b: int| is_sep_span(s@, ':', a, b) && b == n as int implies a
            == start as int by {
            lemma_span_start_unique(s@, ':', start as int, a, b);
        }
        assert(is_sep_span(s@, ':', start as int, n as int));
    }
    (ok && (last_hex || last_ipv4), last_ipv4)
}

/// Number of colons in `s`.
fn count_colons(s: &[char]) -> (r: usize)
    ensures
        r as int == count_char(s@, ':'),
{
    let n = s.len();
    let mut cnt: usize = 0;
    for i in 0..n
        invariant
            n == s@.len(),
            cnt <= i,
            cnt as int == count_char(s@.take(i as int), ':'),
    {
        proof {
            assert(s@.take(i + 1).drop_last() =~= s@.take(i as int));
            assert(s@.take(i + 1).last() == s@[i as int]);
        }
        if s[i] == ':' {
            cnt = cnt + 1;
        }
    }
    proof {
        assert(s@.take(n as int) =~= s@);
    }
    cnt
}

/// Checks an IPv6 literal.
pub fn is_ipv6(s: &[char]) -> (r: bool)
    ensures
        r == spec_ipv6(s@),
{
    let n = s.len();
    let mut dc_found = false;
    let mut dc_idx: usize = 0;
    for i in 0..n
        invariant
            n == s@.len(),
            dc_found ==> is_first_double_colon(s@, dc_idx as int),
            dc_found ==> dc_idx < n,
            !dc_found ==> forall|j: int| 0 <= j < i ==> !is_double_colon_at(s@, j),
    {
        if !dc_found && i + 1 < n && s[i] == ':' && s[i + 1] == ':' {
            dc_found = true;
            dc_idx = i;
        }
    }
    if dc_found {
        let head = slice_subrange(s, 0, dc_idx);
        let tail = slice_subrange(s, dc_idx + 2, n);
        proof {
            assert(head@ =~= s@.take(dc_idx as int));
            assert(tail@ =~= s@.skip(dc_idx as int + 2));
        }
        let head_ok = if head.len() == 0 {
            true
        } else {
            let (h, _) = hex_head_check(head);
            h
        };
        let (tail_ok, tail_ipv4) = if tail.len() == 0 {
            (true, false)
        } else {
            tail_groups_check(tail)
        };
        let hc = count_colons(head);
        let tc = count_colons(tail);
        let bonus: usize = if tail_ipv4 {
            1
        } else {
            0
        };
        let r = if hc > 7 || tc > 7 {
            proof {
                lemma_count_char_nonneg(head@, ':');
                lemma_count_char_nonneg(tail@, ':');
            }
            false
        } else {
            let head_cnt: usize = if head.len() == 0 {
                0
            } else {
                hc + 1
            };
            let tail_cnt: usize = if tail.len() == 0 {
                0
            } else {
                tc + 1
            };
            head_ok && tail_ok && head_cnt + tail_cnt + bonus <= 7
        };
        proof {
            assert forall|i: int| is_first_double_colon(s@, i) implies i == dc_idx as int by {
                if i < dc_idx {
                    assert(is_double_colon_at(s@, i));
                }
                if i > dc_idx {
                    assert(is_double_colon_at(s@, dc_idx as int));
                }
            }
        }
        r
    } else {
        proof {
            assert(!has_double_colon(s@));
        }
        if n == 0 {
            proof {
                assert(is_sep_span(s@, ':', 0, 0));
                assert(s@.subrange(0, 0).len() == 0);
            }
            return false;
        }
        let (t_ok, last_ipv4) = tail_groups_check(s);
        let cnt = count_colons(s);
        let bonus: usize = if last_ipv4 {
            1
        } else {
            0
        };
        proof {
            lemma_count_char_nonneg(s@, ':');
        }
        t_ok && cnt <= 7 && cnt + 1 + bonus == 8
    }
}

/// Checks that every token of a head (no embedded quad allowed) is a
/// hexadecimal group.  The second component is unused and mirrors the tail
/// walk's shape.
fn hex_head_check(s: &[char]) -> (r: (bool, bool))
    ensures
        r.0 == hex_groups_ok(s@),
{
    let n = s.len();
    let mut start: usize = 0;
    let mut ok = true;
    for i in 0..n
        invariant
            n == s@.len(),
            start <= i <= n,
            start == 0 || (1 <= start && s@[start as int - 1] == ':'),
            forall|k: int| start <= k < i ==> s@[k] != ':',
            ok == (forall|a: int, b: int|
                is_sep_span(s@, ':', a, b) && b < i ==> hex_group_ok(s@.subrange(a, b))),
    {
        if s[i] == ':' {
            let t_ok = hex_group_check(s, start, i);
            proof {
                assert(is_sep_span(s@, ':', start as int, i as int));
                assert forall|a: int, b: int| is_sep_span(s@, ':', a, b) && b == i implies a
                    == start as int by {
                    lemma_span_start_unique(s@, ':', start as int, a, b);
                }
            }
            ok = ok && t_ok;
            start = i + 1;
        }
    }
    let last_ok = hex_group_check(s, start, n);
    proof {
        assert forall|a: int, b: int| is_sep_span(s@, ':', a, b) && b == n as int implies a
            == start as int by {
            lemma_span_start_unique(s@, ':', start as int, a, b);
        }
        assert(is_sep_span(s@, ':', start as int, n as int));
    }
    (ok && last_ok, false)
}

/// A bracketed domain literal's interior: an IPv4 literal, an IPv6 literal,
/// or an IPv6 literal behind the `IPv6:` tag.
pub open spec fn spec_valid_domain_literal(lit: Seq<char>) -> bool {
    ||| spec_ipv4(lit)
    ||| spec_ipv6(lit)
    ||| (lit.len() >= 5 && lit[0] == 'I' && lit[1] == 'P' && lit[2] == 'v' && lit[3] == '6'
        && lit[4] == ':' && spec_ipv6(lit.skip(5)))
}

/// Checks a domain literal's interior.
pub fn is_valid_domain_literal(lit: &[char]) -> (r: bool)
    ensures
        r == spec_valid_domain_literal(lit@),
{
    let n = lit.len();
    if is_ipv4(lit) {
        return true;
    }
    if is_ipv6(lit) {
        return true;
    }
    if n >= 5 && lit[0] == 'I' && lit[1] == 'P' && lit[2] == 'v' && lit[3] == '6' && lit[4] == ':' {
        let rest = slice_subrange(lit, 5, n);
        proof {
            assert(rest@ =~= lit@.skip(5));
        }
        is_ipv6(rest)
    } else {
        false
    }
}

} // verus!
