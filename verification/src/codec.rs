//! The byte format of everything the library puts into the key-value store:
//! cached validation responses and queued bulk jobs.  Strings are
//! length-prefixed UTF-8, numbers are eight big-endian bytes, and every
//! record must be consumed exactly.  The spec-level readers here define the
//! format; the encoders guarantee that reading what they wrote yields the
//! value that went in.

use vstd::prelude::*;
use vstd::slice::{slice_subrange, slice_to_vec};
use vstd::string::StrSliceExecFns;
use vstd::utf8::{decode_utf8, encode_utf8, valid_utf8};
use crate::outcome::{CachedValidationResponse, EmailValidationError};

verus! {

broadcast use vstd::utf8::encode_utf8_valid_utf8, vstd::utf8::encode_utf8_decode_utf8;

/// Big-endian value of a byte sequence.
pub open spec fn spec_be_val(b: Seq<u8>) -> int
    decreases b.len(),
{
    if b.len() == 0 {
        0
    } else {
        spec_be_val(b.drop_last()) * 256 + b.last()
    }
}

/// Reads an eight-byte big-endian number.
pub open spec fn spec_read_u64(b: Seq<u8>) -> Option<(int, Seq<u8>)> {
    if b.len() < 8 {
        None
    } else {
        Some((spec_be_val(b.take(8)), b.skip(8)))
    }
}

/// Reads one boolean byte: exactly 0 or 1.
pub open spec fn spec_read_bool(b: Seq<u8>) -> Option<(bool, Seq<u8>)> {
    if b.len() < 1 {
        None
    } else if b[0] == 1 {
        Some((true, b.drop_first()))
    } else if b[0] == 0 {
        Some((false, b.drop_first()))
    } else {
        None
    }
}

/// Reads a length-prefixed UTF-8 string.
pub open spec fn spec_read_string(b: Seq<u8>) -> Option<(Seq<char>, Seq<u8>)> {
    match spec_read_u64(b) {
        None => None,
        Some((n, rest)) => {
            if rest.len() < n {
                None
            } else if valid_utf8(rest.take(n)) {
                Some((decode_utf8(rest.take(n)), rest.skip(n)))
            } else {
                None
            }
        },
    }
}

/// Reads an optional length-prefixed string: a presence byte, then the
/// string when present.
pub open spec fn spec_read_opt_string(b: Seq<u8>) -> Option<(Option<Seq<char>>, Seq<u8>)> {
    match spec_read_bool(b) {
        None => None,
        Some((present, rest)) => {
            if present {
                match spec_read_string(rest) {
                    None => None,
                    Some((s, rest2)) => Some((Some(s), rest2)),
                }
            } else {
                Some((None, rest))
            }
        },
    }
}

/// Encodes a number as eight big-endian bytes.
pub fn encode_u64(n: u64) -> (r: Vec<u8>)
    ensures
        r@.len() == 8,
        spec_be_val(r@) == n,
{
    let b7 = (n % 256) as u8;
    let q1 = n / 256;
    let b6 = (q1 % 256) as u8;
    let q2 = q1 / 256;
    let b5 = (q2 % 256) as u8;
    let q3 = q2 / 256;
    let b4 = (q3 % 256) as u8;
    let q4 = q3 / 256;
    let b3 = (q4 % 256) as u8;
    let q5 = q4 / 256;
    let b2 = (q5 % 256) as u8;
    let q6 = q5 / 256;
    let b1 = (q6 % 256) as u8;
    let q7 = q6 / 256;
    let b0 = (q7 % 256) as u8;
    let r: Vec<u8> = vec![b0, b1, b2, b3, b4, b5, b6, b7];
    proof {
        let s = r@;
        let s7 = s.drop_last();
        let s6 = s7.drop_last();
        let s5 = s6.drop_last();
        let s4 = s5.drop_last();
        let s3 = s4.drop_last();
        let s2 = s3.drop_last();
        let s1 = s2.drop_last();
        assert(s1.drop_last() =~= Seq::<u8>::empty());
        assert(spec_be_val(Seq::<u8>::empty()) == 0);
        assert(q7 < 256);
        assert(b0 == q7);
        assert(s.len() == 8);
        assert(s1[0] == b0 && s2[1] == b1 && s3[2] == b2 && s4[3] == b3 && s5[4] == b4 && s6[5]
            == b5 && s7[6] == b6 && s[7] == b7);
        assert(n == q1 * 256 + b7);
        assert(q1 == q2 * 256 + b6);
        assert(q2 == q3 * 256 + b5);
        assert(q3 == q4 * 256 + b4);
        assert(q4 == q5 * 256 + b3);
        assert(q5 == q6 * 256 + b2);
        assert(q6 == q7 * 256 + b1);
        assert(spec_be_val(s1) == q7);
        assert(spec_be_val(s2) == q6);
        assert(spec_be_val(s3) == q5);
        assert(spec_be_val(s4) == q4);
        assert(spec_be_val(s5) == q3);
        assert(spec_be_val(s6) == q2);
        assert(spec_be_val(s7) == q1);
        assert(spec_be_val(s) == n);
    }
    r
}

/// Reads back eight big-endian bytes starting at `pos`.
pub(crate) fn read_u64_at(b: &[u8], pos: usize) -> (r: Option<(u64, usize)>)
    requires
        pos <= b@.len(),
    ensures
        match r {
            Some(v) => spec_read_u64(b@.skip(pos as int)) == Some(
                (v.0 as int, b@.skip(v.1 as int)),
            ) && pos <= v.1 <= b@.len(),
            None => spec_read_u64(b@.skip(pos as int)) is None,
        },
{
    let n = b.len();
    if n - pos < 8 {
        return None;
    }
    let v0: u64 = b[pos] as u64;
    let v1: u64 = v0 * 256 + b[pos + 1] as u64;
    let v2: u64 = v1 * 256 + b[pos + 2] as u64;
    let v3: u64 = v2 * 256 + b[pos + 3] as u64;
    let v4: u64 = v3 * 256 + b[pos + 4] as u64;
    let v5: u64 = v4 * 256 + b[pos + 5] as u64;
    let v6: u64 = v5 * 256 + b[pos + 6] as u64;
    let v7: u64 = v6 * 256 + b[pos + 7] as u64;
    proof {
        let w = b@.skip(pos as int).take(8);
        assert(w.len() == 8);
        assert forall|k: int| 0 <= k < 8 implies w[k] == b@[pos + k] by {}
        assert(w.drop_last() =~= b@.subrange(pos as int, pos + 7));
        assert(spec_be_val(w) == spec_be_val(w.drop_last()) * 256 + w[7]);
        let w6 = w.drop_last();
        let w5 = w6.drop_last();
        let w4 = w5.drop_last();
        let w3 = w4.drop_last();
        let w2 = w3.drop_last();
        let w1 = w2.drop_last();
        let w0 = w1.drop_last();
        assert(w0.drop_last() =~= Seq::<u8>::empty());
        assert(spec_be_val(Seq::<u8>::empty()) == 0);
        assert(w0[0] == b@[pos as int]);
        assert(w1[1] == b@[pos + 1]);
        assert(w2[2] == b@[pos + 2]);
        assert(w3[3] == b@[pos + 3]);
        assert(w4[4] == b@[pos + 4]);
        assert(w5[5] == b@[pos + 5]);
        assert(w6[6] == b@[pos + 6]);
        assert(w[7] == b@[pos + 7]);
        assert(spec_be_val(w0) == v0);
        assert(spec_be_val(w1) == v1);
        assert(spec_be_val(w2) == v2);
        assert(spec_be_val(w3) == v3);
        assert(spec_be_val(w4) == v4);
        assert(spec_be_val(w5) == v5);
        assert(spec_be_val(w6) == v6);
        assert(spec_be_val(w) == v7);
        assert(b@.skip(pos as int).skip(8) =~= b@.skip(pos + 8));
    }
    Some((v7, pos + 8))
}

/// Encodes a boolean as one byte.
pub(crate) fn encode_bool(v: bool) -> (r: Vec<u8>)
    ensures
        r@.len() == 1,
        forall|rest: Seq<u8>| spec_read_bool(r@ + rest) == Some((v, rest)),
{
    let r: Vec<u8> = if v {
        vec![1u8]
    } else {
        vec![0u8]
    };
    proof {
        assert forall|rest: Seq<u8>| spec_read_bool(r@ + rest) == Some((v, rest)) by {
            assert((r@ + rest)[0] == r@[0]);
            assert((r@ + rest).drop_first() =~= rest);
        }
    }
    r
}

/// Reads back one boolean byte starting at `pos`.
pub(crate) fn read_bool_at(b: &[u8], pos: usize) -> (r: Option<(bool, usize)>)
    requires
        pos <= b@.len(),
    ensures
        match r {
            Some(v) => spec_read_bool(b@.skip(pos as int)) == Some((v.0, b@.skip(v.1 as int)))
                && pos <= v.1 <= b@.len(),
            None => spec_read_bool(b@.skip(pos as int)) is None,
        },
{
    let n = b.len();
    if pos >= n {
        return None;
    }
    proof {
        assert(b@.skip(pos as int)[0] == b@[pos as int]);
        assert(b@.skip(pos as int).drop_first() =~= b@.skip(pos + 1));
    }
    let byte = b[pos];
    if byte == 1 {
        Some((true, pos + 1))
    } else if byte == 0 {
        Some((false, pos + 1))
    } else {
        None
    }
}

/// Encodes a string as its length-prefixed UTF-8 bytes.
pub(crate) fn encode_string(s: &String) -> (r: Vec<u8>)
    ensures
        forall|rest: Seq<u8>| spec_read_string(r@ + rest) == Some((s@, rest)),
{
    let data: Vec<u8> = s.as_str().as_bytes_vec();
    let mut r = encode_u64(data.len() as u64);
    let ghost lenbytes = r@;
    append_bytes(&mut r, data.as_slice());
    proof {
        assert(r@ =~= lenbytes + data@);
        assert forall|rest: Seq<u8>| spec_read_string(r@ + rest) == Some((s@, rest)) by {
            let b = r@ + rest;
            assert(b.take(8) =~= lenbytes);
            assert(b.skip(8) =~= data@ + rest);
            let n = data@.len() as int;
            assert(spec_be_val(b.take(8)) == n);
            assert((data@ + rest).take(n) =~= data@);
            assert((data@ + rest).skip(n) =~= rest);
            assert(data@ == encode_utf8(s@));
            assert(valid_utf8(data@));
            assert(decode_utf8(data@) == s@);
        }
    }
    r
}

/// Appends a byte slice to a vector.
pub(crate) fn append_bytes(out: &mut Vec<u8>, add: &[u8])
    ensures
        final(out)@ == old(out)@ + add@,
{
    let n = add.len();
    for i in 0..n
        invariant
            n == add@.len(),
            out@ =~= old(out)@ + add@.take(i as int),
    {
        out.push(add[i]);
        proof {
            assert(add@.take(i + 1) =~= add@.take(i as int).push(add@[i as int]));
        }
    }
    proof {
        assert(add@.take(n as int) =~= add@);
    }
}

/// Relies on String::from_utf8: succeeds exactly on valid UTF-8, and the
/// returned string's bytes are the input.
#[verifier::external_body]
pub(crate) fn bytes_to_string(v: Vec<u8>) -> (r: Option<String>)
    ensures
        match r {
            Some(s) => encode_utf8(s@) == v@,
            None => !valid_utf8(v@),
        },
{
    String::from_utf8(v).ok()
}

/// Reads back a length-prefixed UTF-8 string starting at `pos`.
pub(crate) fn read_string_at(b: &[u8], pos: usize) -> (r: Option<(String, usize)>)
    requires
        pos <= b@.len(),
    ensures
        match r {
            Some(v) => spec_read_string(b@.skip(pos as int)) == Some(
                (v.0@, b@.skip(v.1 as int)),
            ) && pos <= v.1 <= b@.len(),
            None => spec_read_string(b@.skip(pos as int)) is None,
        },
{
    let (len, p2) = match read_u64_at(b, pos) {
        Some(v) => v,
        None => {
            return None;
        },
    };
    let n = b.len();
    let avail: u64 = (n - p2) as u64;
    if avail < len {
        proof {
            assert(b@.skip(pos as int).skip(8) =~= b@.skip(p2 as int));
        }
        return None;
    }
    let end = p2 + (len as usize);
    let data: Vec<u8> = slice_to_vec(slice_subrange(b, p2, end));
    proof {
        assert(b@.skip(pos as int).skip(8) =~= b@.skip(p2 as int));
        assert(b@.skip(p2 as int).take(len as int) =~= b@.subrange(p2 as int, end as int));
        assert(b@.skip(p2 as int).skip(len as int) =~= b@.skip(end as int));
    }
    match bytes_to_string(data) {
        Some(s) => {
            proof {
                assert(valid_utf8(b@.skip(p2 as int).take(len as int)));
                assert(decode_utf8(encode_utf8(s@)) == s@);
            }
            Some((s, end))
        },
        None => None,
    }
}

/// The content of a cached response, free of representation detail: what a
/// reader of the cache learns.
pub struct ResponseModel {
    pub is_valid: bool,
    pub status: Option<Seq<char>>,
    pub error: Option<(Seq<char>, Seq<char>)>,
}

/// The content of a serializable response.
pub open spec fn cached_model(r: CachedValidationResponse) -> ResponseModel {
    ResponseModel {
        is_valid: r.is_valid,
        status: match r.status {
            Some(s) => Some(s@),
            None => None,
        },
        error: match r.error {
            Some(e) => Some((e.code@, e.message@)),
            None => None,
        },
    }
}

/// Reads a whole cached response: validity byte, optional status, optional
/// error of code and message, with nothing left over.
pub open spec fn spec_decode_response(b: Seq<u8>) -> Option<ResponseModel> {
    match spec_read_bool(b) {
        None => None,
        Some((is_valid, b1)) => match spec_read_opt_string(b1) {
            None => None,
            Some((status, b2)) => match spec_read_bool(b2) {
                None => None,
                Some((has_error, b3)) => {
                    if !has_error {
                        if b3.len() == 0 {
                            Some(ResponseModel { is_valid, status, error: None })
                        } else {
                            None
                        }
                    } else {
                        match spec_read_string(b3) {
                            None => None,
                            Some((code, b4)) => match spec_read_string(b4) {
                                None => None,
                                Some((message, b5)) => {
                                    if b5.len() == 0 {
                                        Some(
                                            ResponseModel {
                                                is_valid,
                                                status,
                                                error: Some((code, message)),
                                            },
                                        )
                                    } else {
                                        None
                                    }
                                },
                            },
                        }
                    }
                },
            },
        },
    }
}

/// Serializes a response for the cache.  Reading the bytes back yields
/// exactly the content that went in.
#[verifier::rlimit(100)]
pub fn encode_response(r: &CachedValidationResponse) -> (out: Vec<u8>)
    ensures
        spec_decode_response(out@) == Some(cached_model(*r)),
{
    let ghost m = cached_model(*r);
    let mut out = encode_bool(r.is_valid);
    let ghost e1 = out@;
    let ghost e2: Seq<u8>;
    match &r.status {
        None => {
            let eb = encode_bool(false);
            append_bytes(&mut out, eb.as_slice());
            proof {
                e2 = eb@;
                assert forall|rest: Seq<u8>|
                    spec_read_opt_string(e2 + rest) == Some((m.status, rest)) by {
                    assert(spec_read_bool(e2 + rest) == Some((false, rest)));
                }
            }
        },
        Some(s) => {
            let eb = encode_bool(true);
            let es = encode_string(s);
            append_bytes(&mut out, eb.as_slice());
            append_bytes(&mut out, es.as_slice());
            proof {
                e2 = eb@ + es@;
                assert forall|rest: Seq<u8>|
                    spec_read_opt_string(e2 + rest) == Some((m.status, rest)) by {
                    assert(e2 + rest =~= eb@ + (es@ + rest));
                    assert(spec_read_bool(eb@ + (es@ + rest)) == Some((true, es@ + rest)));
                    assert(spec_read_string(es@ + rest) == Some((s@, rest)));
                }
            }
        },
    }
    let ghost e3: Seq<u8>;
    match &r.error {
        None => {
            let eb = encode_bool(false);
            append_bytes(&mut out, eb.as_slice());
            proof {
                e3 = eb@;
                assert(e3 =~= e3 + Seq::<u8>::empty());
                assert(spec_read_bool(e3 + Seq::<u8>::empty()) == Some(
                    (false, Seq::<u8>::empty()),
                ));
                assert(spec_read_bool(e3) == Some((false, Seq::<u8>::empty())));
            }
        },
        Some(err) => {
            let eb = encode_bool(true);
            let ec = encode_string(&err.code);
            let em = encode_string(&err.message);
            append_bytes(&mut out, eb.as_slice());
            append_bytes(&mut out, ec.as_slice());
            append_bytes(&mut out, em.as_slice());
            proof {
                e3 = eb@ + (ec@ + em@);
                assert(spec_read_bool(eb@ + (ec@ + em@)) == Some((true, ec@ + em@)));
                assert(spec_read_bool(e3) == Some((true, ec@ + em@)));
                assert(spec_read_string(ec@ + em@) == Some((err.code@, em@)));
                assert(em@ =~= em@ + Seq::<u8>::empty());
                assert(spec_read_string(em@ + Seq::<u8>::empty()) == Some(
                    (err.message@, Seq::<u8>::empty()),
                ));
                assert(spec_read_string(em@) == Some((err.message@, Seq::<u8>::empty())));
            }
        },
    }
    proof {
        assert(out@ =~= e1 + (e2 + e3));
        assert(spec_read_bool(out@) == Some((r.is_valid, e2 + e3)));
        assert(spec_read_opt_string(e2 + e3) == Some((m.status, e3)));
        assert(spec_decode_response(out@) == Some(m));
    }
    out
}

/// Reads a cached response back; None when the bytes are not a well-formed
/// record.  Success yields exactly the content the record holds.
pub fn decode_response(b: &[u8]) -> (r: Option<CachedValidationResponse>)
    ensures
        match r {
            Some(v) => spec_decode_response(b@) == Some(cached_model(v)),
            None => spec_decode_response(b@) is None,
        },
{
    proof {
        assert(b@.skip(0) =~= b@);
    }
    let n = b.len();
    let (is_valid, p1) = match read_bool_at(b, 0) {
        Some(v) => v,
        None => {
            return None;
        },
    };
    let (status, p2) = match read_bool_at(b, p1) {
        Some((true, q)) => match read_string_at(b, q) {
            Some((s, q2)) => (Some(s), q2),
            None => {
                return None;
            },
        },
        Some((false, q)) => (None, q),
        None => {
            return None;
        },
    };
    let (has_error, p3) = match read_bool_at(b, p2) {
        Some(v) => v,
        None => {
            return None;
        },
    };
    if !has_error {
        if p3 == n {
            proof {
                assert(b@.skip(n as int).len() == 0);
            }
            Some(CachedValidationResponse { is_valid, status, error: None })
        } else {
            proof {
                assert(b@.skip(p3 as int).len() > 0);
            }
            None
        }
    } else {
        let (code, p4) = match read_string_at(b, p3) {
            Some(v) => v,
            None => {
                return None;
            },
        };
        let (message, p5) = match read_string_at(b, p4) {
            Some(v) => v,
            None => {
                return None;
            },
        };
        if p5 == n {
            proof {
                assert(b@.skip(n as int).len() == 0);
            }
            Some(
                CachedValidationResponse {
                    is_valid,
                    status,
                    error: Some(EmailValidationError { code, message }),
                },
            )
        } else {
            proof {
                assert(b@.skip(p5 as int).len() > 0);
            }
            None
        }
    }
}

} // verus!
