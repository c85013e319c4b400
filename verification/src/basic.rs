use vstd::prelude::*;

use crate::errors::Error;
use crate::table::{first_idx, lemma_first_idx, lemma_first_idx_at};
use vstd::utf8::{encode_utf8, valid_utf8};

verus! {

/// A Basic Auth credential: the identifier and the plaintext secret as they
/// arrived with one request. Transient; never persisted.
#[derive(Debug)]
pub struct BasicUser {
    pub username: String,
    pub password: String,
}

impl Clone for BasicUser {
    /// Copies the credential, preserving both parts.
    fn clone(&self) -> (r: BasicUser)
        ensures
            r == self,
    {
        BasicUser { username: self.username.clone(), password: self.password.clone() }
    }
}

/// The bytes a piece of standard base64 text denotes, or nothing for text
/// that is not valid base64; what `base64::decode` computes, a function of
/// the text alone.
pub uninterp spec fn base64_decode_of(s: Seq<char>) -> Option<Seq<u8>>;

/// The base64 crate's error type, carried through opaquely.
#[verifier::external_type_specification]
#[verifier::external_body]
pub struct ExDecodeError(base64::DecodeError);

/// Relies on base64::decode with the standard alphabet: whether the text
/// decodes, and to which bytes, depends on the text alone.
#[verifier::external_body]
fn base64_decode(s: &str) -> (r: Result<Vec<u8>, base64::DecodeError>)
    ensures
        match r {
            Ok(v) => base64_decode_of(s@) == Some(v@),
            Err(_) => base64_decode_of(s@) is None,
        },
{
    base64::decode(s)
}

/// Relies on String::from_utf8: on success the string's UTF-8 encoding is
/// exactly the input bytes, and it fails exactly when the bytes are not
/// valid UTF-8.
#[verifier::external_body]
fn string_from_utf8(bytes: Vec<u8>) -> (r: Result<String, ()>)
    ensures
        match r {
            Ok(s) => valid_utf8(bytes@) && encode_utf8(s@) == bytes@,
            Err(_) => !valid_utf8(bytes@),
        },
{
    match String::from_utf8(bytes) {
        Ok(s) => Ok(s),
        Err(_) => Err(()),
    }
}

/// Unicode whitespace, as a header separator: the characters that
/// `str::split_whitespace` splits on.
pub open spec fn is_ws(c: char) -> bool {
    ||| c as u32 == 9 || c as u32 == 10 || c as u32 == 11 || c as u32 == 12 || c as u32 == 13
    ||| c as u32 == 32 || c as u32 == 0x85 || c as u32 == 0xA0 || c as u32 == 0x1680
    ||| 0x2000 <= c as u32 <= 0x200A
    ||| c as u32 == 0x2028 || c as u32 == 0x2029 || c as u32 == 0x202F || c as u32 == 0x205F
    ||| c as u32 == 0x3000
}

/// Whether one character is whitespace.
fn char_is_ws(c: char) -> (r: bool)
    ensures
        r == is_ws(c),
{
    let x = c as u32;
    x == 9 || x == 10 || x == 11 || x == 12 || x == 13 || x == 32 || x == 0x85 || x == 0xA0
        || x == 0x1680 || (0x2000 <= x && x <= 0x200A) || x == 0x2028 || x == 0x2029 || x == 0x202F
        || x == 0x205F || x == 0x3000
}

/// The first position at or after `i` holding something other than
/// whitespace, or the end.
pub open spec fn ws_end(s: Seq<char>, i: int) -> int
    decreases s.len() - i,
{
    if 0 <= i < s.len() && is_ws(s[i]) {
        ws_end(s, i + 1)
    } else {
        i
    }
}

/// The first position at or after `i` holding whitespace, or the end.
pub open spec fn tok_end(s: Seq<char>, i: int) -> int
    decreases s.len() - i,
{
    if 0 <= i < s.len() && !is_ws(s[i]) {
        tok_end(s, i + 1)
    } else {
        i
    }
}

/// Matches a colon byte.
pub open spec fn is_colon() -> spec_fn(u8) -> bool {
    |b: u8| b == 58u8
}

/// The header consists of exactly the scheme word `Basic` and one
/// credential blob, separated and padded by whitespace; yields the blob.
pub open spec fn spec_basic_credentials(s: Seq<char>) -> Option<Seq<char>> {
    let a = ws_end(s, 0);
    let b = tok_end(s, a);
    let c = ws_end(s, b);
    let d = tok_end(s, c);
    let e = ws_end(s, d);
    if b > a && d > c && e == s.len() && s.subrange(a, b) == "Basic"@ {
        Some(s.subrange(c, d))
    } else {
        None
    }
}

/// The whole parse goes through: the header has the right shape, the blob
/// decodes as base64, the bytes hold exactly one colon, and both halves
/// are valid UTF-8.
pub open spec fn spec_parse_basic_accepts(s: Seq<char>) -> bool {
    &&& spec_basic_credentials(s) is Some
    &&& base64_decode_of(spec_basic_credentials(s).unwrap()) is Some
    &&& ({
        let bs = base64_decode_of(spec_basic_credentials(s).unwrap()).unwrap();
        let ci = first_idx(bs, is_colon());
        &&& bs.filter(is_colon()).len() == 1
        &&& valid_utf8(bs.subrange(0, ci))
        &&& valid_utf8(bs.subrange(ci + 1, bs.len() as int))
    })
}

/// The credential a well-formed header denotes: the decoded bytes split at
/// their single colon, each half read as UTF-8.
pub open spec fn spec_parse_basic_ok(s: Seq<char>, u: Seq<char>, p: Seq<char>) -> bool {
    &&& spec_parse_basic_accepts(s)
    &&& ({
        let bs = base64_decode_of(spec_basic_credentials(s).unwrap()).unwrap();
        let ci = first_idx(bs, is_colon());
        &&& encode_utf8(u) == bs.subrange(0, ci)
        &&& encode_utf8(p) == bs.subrange(ci + 1, bs.len() as int)
    })
}

/// Finds where the leading whitespace run starting at `from` ends.
fn scan_ws(auth: &str, from: usize) -> (r: usize)
    requires
        from <= auth@.len(),
        auth@.len() <= usize::MAX,
    ensures
        r == ws_end(auth@, from as int),
        from <= r <= auth@.len(),
        r < auth@.len() ==> !is_ws(auth@[r as int]),
{
    let n = auth.unicode_len();
    let mut i = from;
    while i < n
        invariant
            n == auth@.len(),
            n <= usize::MAX,
            from <= i <= n,
            ws_end(auth@, from as int) == ws_end(auth@, i as int),
        decreases n - i,
    {
        if !char_is_ws(auth.get_char(i)) {
            return i;
        }
        i = i + 1;
    }
    i
}

/// Finds where the token starting at `from` ends.
fn scan_token(auth: &str, from: usize) -> (r: usize)
    requires
        from <= auth@.len(),
        auth@.len() <= usize::MAX,
    ensures
        r == tok_end(auth@, from as int),
        from <= r <= auth@.len(),
        r < auth@.len() ==> is_ws(auth@[r as int]),
{
    let n = auth.unicode_len();
    let mut i = from;
    while i < n
        invariant
            n == auth@.len(),
            n <= usize::MAX,
            from <= i <= n,
            tok_end(auth@, from as int) == tok_end(auth@, i as int),
        decreases n - i,
    {
        if char_is_ws(auth.get_char(i)) {
            return i;
        }
        i = i + 1;
    }
    i
}

/// Reads a credential from a Basic Auth header: the scheme word `Basic`,
/// whitespace, and a base64 blob holding `identifier:secret` in UTF-8.
/// Anything else is rejected as an invalid payload.
pub fn parse_authorization(auth: &str) -> (r: Result<BasicUser, Error>)
    ensures
        r matches Ok(bu) ==> spec_parse_basic_ok(auth@, bu.username@, bu.password@),
        r is Ok <==> spec_parse_basic_accepts(auth@),
        r is Err ==> r == Err::<BasicUser, Error>(Error::InvalidPayload),
{
    let n = auth.unicode_len();
    let a = scan_ws(auth, 0);
    let b = scan_token(auth, a);
    let c = scan_ws(auth, b);
    let d = scan_token(auth, c);
    let e = scan_ws(auth, d);
    if b == a || d == c || e != n {
        return Err(Error::InvalidPayload);
    }
    let scheme = auth.substring_char(a, b);
    if !crate::strings::str_eq(scheme, "Basic") {
        return Err(Error::InvalidPayload);
    }
    let credentials = auth.substring_char(c, d);

    let decoded = match base64_decode(credentials) {
        Ok(v) => v,
        Err(_) => {
            return Err(Error::InvalidPayload);
        },
    };

    // The decoded bytes must hold exactly one colon, splitting the
    // identifier from the secret.
    let m = decoded.len();
    let mut colons: usize = 0;
    let mut colon_at: usize = 0;
    let mut i: usize = 0;
    while i < m
        invariant
            m == decoded@.len(),
            0 <= i <= m,
            colons == decoded@.take(i as int).filter(is_colon()).len(),
            colons <= i,
            colons > 0 ==> colon_at < i && decoded@[colon_at as int] == 58u8 && first_idx(
                decoded@,
                is_colon(),
            ) == colon_at as int,
            colons == 0 ==> forall|k: int| 0 <= k < i ==> decoded@[k] != 58u8,
        decreases m - i,
    {
        proof {
            reveal(Seq::filter);
            assert(decoded@.take(i + 1).drop_last() =~= decoded@.take(i as int));
            assert(decoded@.take(i + 1).last() == decoded@[i as int]);
            decoded@.take(i + 1).lemma_filter_len(is_colon());
        }
        if decoded[i] == 58u8 {
            if colons == 0 {
                colon_at = i;
                proof {
                    lemma_first_idx_at(decoded@, is_colon(), i as int);
                }
            }
            colons = colons + 1;
        }
        i = i + 1;
    }
    proof {
        assert(decoded@.take(m as int) =~= decoded@);
        if colons == 0 {
            lemma_first_idx(decoded@, is_colon());
        }
    }
    if colons != 1 {
        return Err(Error::InvalidPayload);
    }

    // Split at the colon and read both halves as UTF-8.
    let mut user_bytes: Vec<u8> = Vec::new();
    let mut k: usize = 0;
    while k < colon_at
        invariant
            colon_at < m,
            m == decoded@.len(),
            0 <= k <= colon_at,
            user_bytes@ == decoded@.subrange(0, k as int),
        decreases colon_at - k,
    {
        user_bytes.push(decoded[k]);
        proof {
            assert(user_bytes@ =~= decoded@.subrange(0, k + 1));
        }
        k = k + 1;
    }
    let mut pass_bytes: Vec<u8> = Vec::new();
    let mut k: usize = colon_at + 1;
    while k < m
        invariant
            colon_at < m,
            m == decoded@.len(),
            colon_at + 1 <= k <= m,
            pass_bytes@ == decoded@.subrange(colon_at + 1, k as int),
        decreases m - k,
    {
        pass_bytes.push(decoded[k]);
        proof {
            assert(pass_bytes@ =~= decoded@.subrange(colon_at + 1, k + 1));
        }
        k = k + 1;
    }

    let username = match string_from_utf8(user_bytes) {
        Ok(s) => s,
        Err(_) => {
            return Err(Error::InvalidPayload);
        },
    };
    let password = match string_from_utf8(pass_bytes) {
        Ok(s) => s,
        Err(_) => {
            return Err(Error::InvalidPayload);
        },
    };
    Ok(BasicUser { username, password })
}

/// Reads a credential from an optional Basic Auth header. A missing or
/// malformed header yields no credential: such a request proceeds
/// anonymously rather than failing here.
pub fn basic_optional(header: Option<&str>) -> (r: Option<BasicUser>)
    ensures
        match header {
            Option::Some(h) => match r {
                Option::Some(bu) => spec_parse_basic_ok(h@, bu.username@, bu.password@),
                Option::None => !spec_parse_basic_accepts(h@),
            },
            Option::None => r is None,
        },
{
    match header {
        Some(h) => match parse_authorization(h) {
            Ok(bu) => Some(bu),
            Err(_) => None,
        },
        None => None,
    }
}

} // verus!
