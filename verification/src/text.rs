//! Character-level groundwork for the validators: collecting a string's
//! characters, UTF-8 byte lengths, and the Unicode character classes the
//! syntax check relies on.

use vstd::prelude::*;
use vstd::string::StrSliceExecFns;

verus! {

/// Whether Unicode classes the character as alphanumeric.  The result depends
/// on the character alone.
pub uninterp spec fn spec_char_alphanumeric(c: char) -> bool;

/// Relies on char::is_alphanumeric: true exactly for characters with the
/// Unicode Alphabetic property or in a Numeric general category.  Every
/// ASCII letter and digit is among them; no ASCII control, space,
/// punctuation or symbol character is.
#[verifier::external_body]
pub fn char_alphanumeric(c: char) -> (r: bool)
    ensures
        r == spec_char_alphanumeric(c),
        ('a' as u32 <= c as u32 <= 'z' as u32 || 'A' as u32 <= c as u32 <= 'Z' as u32 || '0'
            as u32 <= c as u32 <= '9' as u32) ==> r,
        ((c as u32) < ('0' as u32) || (('9' as u32) < (c as u32) && (c as u32) < ('A' as u32))
            || (('Z' as u32) < (c as u32) && (c as u32) < ('a' as u32)) || (('z' as u32) < (
        c as u32) && c as u32 <= 0x7F)) ==> !r,
{
    c.is_alphanumeric()
}

/// Whether Unicode classes the character as whitespace.  The result depends
/// on the character alone.
pub uninterp spec fn spec_char_whitespace(c: char) -> bool;

/// Relies on char::is_whitespace: true exactly for characters with the
/// Unicode White_Space property; space, tab, line feed and carriage return
/// are among them.
#[verifier::external_body]
pub fn char_whitespace(c: char) -> (r: bool)
    ensures
        r == spec_char_whitespace(c),
        (c == ' ' || c == '\t' || c == '\n' || c == '\r') ==> r,
{
    c.is_whitespace()
}

/// What str::to_lowercase maps a string to.  The result depends on the
/// characters alone.
pub uninterp spec fn lower_of(s: Seq<char>) -> Seq<char>;

/// Relies on str::to_lowercase: the Unicode lowercase mapping of the string,
/// a function of its characters alone.
#[verifier::external_body]
pub fn to_lowercase(s: &str) -> (r: String)
    ensures
        r@ == lower_of(s@),
{
    s.to_lowercase()
}

/// Number of bytes the character occupies in UTF-8.
pub open spec fn spec_char_width(c: char) -> int {
    if (c as u32) < 0x80 {
        1
    } else if (c as u32) < 0x800 {
        2
    } else if (c as u32) < 0x10000 {
        3
    } else {
        4
    }
}

/// Computes the UTF-8 width of a character.
pub fn char_width(c: char) -> (w: u8)
    ensures
        w as int == spec_char_width(c),
{
    let u = c as u32;
    if u < 0x80 {
        1
    } else if u < 0x800 {
        2
    } else if u < 0x10000 {
        3
    } else {
        4
    }
}

/// UTF-8 byte length of a character sequence.
pub open spec fn byte_len(s: Seq<char>) -> int
    decreases s.len(),
{
    if s.len() == 0 {
        0
    } else {
        spec_char_width(s[0]) + byte_len(s.drop_first())
    }
}

/// The byte length of a concatenation is the sum of the byte lengths.
pub proof fn lemma_byte_len_concat(a: Seq<char>, b: Seq<char>)
    ensures
        byte_len(a + b) == byte_len(a) + byte_len(b),
    decreases a.len(),
{
    if a.len() == 0 {
        assert(a + b =~= b);
    } else {
        assert((a + b).drop_first() =~= a.drop_first() + b);
        lemma_byte_len_concat(a.drop_first(), b);
    }
}

/// A sequence occupies at least one byte per character and at most four.
pub proof fn lemma_byte_len_bounds(s: Seq<char>)
    ensures
        s.len() <= byte_len(s) <= 4 * s.len(),
    decreases s.len(),
{
    if s.len() > 0 {
        lemma_byte_len_bounds(s.drop_first());
    }
}

/// Appending one character adds that character's width.
pub proof fn lemma_byte_len_push(s: Seq<char>, c: char)
    ensures
        byte_len(s.push(c)) == byte_len(s) + spec_char_width(c),
{
    assert(s.push(c) =~= s + seq![c]);
    lemma_byte_len_concat(s, seq![c]);
    assert(seq![c].drop_first() =~= Seq::<char>::empty());
    assert(byte_len(Seq::<char>::empty()) == 0);
    assert(seq![c][0] == c);
}

/// Collects the characters of a string into a vector.
pub fn chars_vec(s: &str) -> (r: Vec<char>)
    ensures
        r@ == s@,
{
    let n = s.unicode_len();
    let mut r: Vec<char> = Vec::with_capacity(n);
    for i in 0..n
        invariant
            n == s@.len(),
            r@ =~= s@.take(i as int),
    {
        r.push(s.get_char(i));
        proof {
            assert(s@.take(i + 1) =~= s@.take(i as int).push(s@[i as int]));
        }
    }
    proof {
        assert(s@.take(n as int) =~= s@);
    }
    r
}

/// Decides whether a character sequence fits in `limit` UTF-8 bytes.
pub fn byte_len_at_most(s: &[char], limit: u64) -> (r: bool)
    requires
        limit <= 0xFFFF,
    ensures
        r == (byte_len(s@) <= limit),
{
    let n = s.len();
    let mut acc: u64 = 0;
    for i in 0..n
        invariant
            n == s@.len(),
            limit <= 0xFFFF,
            acc as int == byte_len(s@.take(i as int)),
            acc <= limit,
    {
        let w = char_width(s[i]);
        proof {
            assert(s@.take(i + 1) =~= s@.take(i as int).push(s@[i as int]));
            lemma_byte_len_push(s@.take(i as int), s@[i as int]);
        }
        acc = acc + w as u64;
        if acc > limit {
            proof {
                assert(s@ =~= s@.take(i + 1) + s@.skip(i + 1));
                lemma_byte_len_concat(s@.take(i + 1), s@.skip(i + 1));
                lemma_byte_len_bounds(s@.skip(i + 1));
            }
            return false;
        }
    }
    proof {
        assert(s@.take(n as int) =~= s@);
    }
    true
}

} // verus!
