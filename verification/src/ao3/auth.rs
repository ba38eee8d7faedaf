//! Login helpers: extracting the authenticity token from the token
//! endpoint's JSON body, and checking a login response for success.
//!
//! The token endpoint answers with a small JSON object holding a single
//! string field named `token`. The extractor accepts exactly that shape —
//! optional whitespace, `{`, the quoted key, `:`, a JSON string, `}` — and
//! hands back the string's decoded bytes: the standard escapes (`\"`,
//! `\\`, `\/`, `\b`, `\f`, `\n`, `\r`, `\t` and `\uXXXX`, surrogate pairs
//! included) are decoded, and raw control bytes, which JSON forbids inside
//! strings, are rejected. The body is handed over as the response's UTF-8
//! text, so bytes outside the escapes pass through unchanged. Login success
//! is recognized by the logout link that the service renders only for a
//! signed-in account.

use vstd::prelude::*;

use crate::ao3::types::AuthenticityToken;
use crate::text::{contains_seq, find_first, matches_at};

verus! {

/// The marker whose presence in the response body shows the login
/// succeeded: the bytes of `href="/users/logout"`.
pub open spec fn logout_marker() -> Seq<u8> {
    seq!['h' as u8, 'r' as u8, 'e' as u8, 'f' as u8, '=' as u8, '"' as u8, '/' as u8, 'u' as u8, 's' as u8, 'e' as u8, 'r' as u8, 's' as u8, '/' as u8, 'l' as u8, 'o' as u8, 'g' as u8, 'o' as u8, 'u' as u8, 't' as u8, '"' as u8]
}

fn logout_marker_bytes() -> (r: Vec<u8>)
    ensures
        r@ == logout_marker(),
{
    let v: Vec<u8> = vec!['h' as u8, 'r' as u8, 'e' as u8, 'f' as u8, '=' as u8, '"' as u8, '/' as u8, 'u' as u8, 's' as u8, 'e' as u8, 'r' as u8, 's' as u8, '/' as u8, 'l' as u8, 'o' as u8, 'g' as u8, 'o' as u8, 'u' as u8, 't' as u8, '"' as u8];
    proof {
        assert(v@ =~= logout_marker());
    }
    v
}

/// The quoted key of the token field: the bytes of `"token"`.
pub open spec fn token_key() -> Seq<u8> {
    seq!['"' as u8, 't' as u8, 'o' as u8, 'k' as u8, 'e' as u8, 'n' as u8, '"' as u8]
}

fn token_key_bytes() -> (r: Vec<u8>)
    ensures
        r@ == token_key(),
{
    let v: Vec<u8> = vec!['"' as u8, 't' as u8, 'o' as u8, 'k' as u8, 'e' as u8, 'n' as u8, '"' as u8];
    proof {
        assert(v@ =~= token_key());
    }
    v
}

/// A login response shows a signed-in account: it carries the logout link.
/// Absence means the credentials were rejected (or the markup changed), and
/// the caller must treat the whole run as failed.
pub fn is_logged_in(body: &[u8]) -> (r: bool)
    ensures
        r == contains_seq(body@, logout_marker()),
{
    let marker = logout_marker_bytes();
    find_first(body, marker.as_slice()).is_some()
}

/// JSON insignificant whitespace.
pub open spec fn is_json_ws(b: u8) -> bool {
    b == 32 || b == 9 || b == 10 || b == 13
}

/// First position at or after `p` holding something other than JSON
/// whitespace, or the end of the string.
pub open spec fn spec_skip_ws(s: Seq<u8>, p: int) -> int
    decreases s.len() - p,
    when 0 <= p <= s.len()
{
    if p < s.len() && is_json_ws(s[p]) {
        spec_skip_ws(s, p + 1)
    } else {
        p
    }
}

/// The byte is an ASCII hexadecimal digit.
pub open spec fn is_hex_digit(b: u8) -> bool {
    48 <= b <= 57 || 97 <= b <= 102 || 65 <= b <= 70
}

/// Numeric value of a hexadecimal digit byte.
pub open spec fn hex_digit_val(b: u8) -> nat {
    if 48 <= b <= 57 {
        (b - 48) as nat
    } else if 97 <= b <= 102 {
        (b - 87) as nat
    } else if 65 <= b <= 70 {
        (b - 55) as nat
    } else {
        0
    }
}

/// Four hexadecimal digits stand at `p`.
pub open spec fn all_hex4(s: Seq<u8>, p: int) -> bool {
    &&& 0 <= p
    &&& p + 4 <= s.len()
    &&& is_hex_digit(s[p])
    &&& is_hex_digit(s[p + 1])
    &&& is_hex_digit(s[p + 2])
    &&& is_hex_digit(s[p + 3])
}

/// The value of the four hexadecimal digits at `p`.
pub open spec fn hex4_val(s: Seq<u8>, p: int) -> nat {
    4096 * hex_digit_val(s[p]) + 256 * hex_digit_val(s[p + 1]) + 16 * hex_digit_val(s[p + 2])
        + hex_digit_val(s[p + 3])
}

/// The UTF-8 encoding of one code point.
pub open spec fn utf8_enc(cp: nat) -> Seq<u8> {
    if cp < 0x80 {
        seq![cp as u8]
    } else if cp < 0x800 {
        seq![(0xC0 + cp / 64) as u8, (0x80 + cp % 64) as u8]
    } else if cp < 0x10000 {
        seq![(0xE0 + cp / 4096) as u8, (0x80 + (cp / 64) % 64) as u8, (0x80 + cp % 64) as u8]
    } else {
        seq![
            (0xF0 + cp / 262144) as u8,
            (0x80 + (cp / 4096) % 64) as u8,
            (0x80 + (cp / 64) % 64) as u8,
            (0x80 + cp % 64) as u8,
        ]
    }
}

/// What reading a JSON string body (after its opening quote) comes to:
/// either the position of the closing quote together with the decoded
/// bytes, or a malformed string.
pub enum JsonString {
    Done { end: int, value: Seq<u8> },
    Bad,
}

/// Prepends already-decoded bytes to the rest of a string reading.
pub open spec fn json_prepend(prefix: Seq<u8>, rest: JsonString) -> JsonString {
    match rest {
        JsonString::Bad => JsonString::Bad,
        JsonString::Done { end, value } => JsonString::Done { end, value: prefix + value },
    }
}

/// Reads a JSON string from `p` (just after the opening quote) to its
/// closing quote: the standard escapes are decoded (`\uXXXX` to UTF-8,
/// surrogate pairs combined, lone surrogates rejected), raw control bytes
/// are rejected, and every other byte stands for itself.
pub open spec fn spec_json_string(s: Seq<u8>, p: int) -> JsonString
    decreases s.len() - p,
    when 0 <= p <= s.len()
{
    if p >= s.len() {
        JsonString::Bad
    } else {
        let b = s[p];
        if b == '"' as u8 {
            JsonString::Done { end: p, value: Seq::empty() }
        } else if b == '\\' as u8 {
            if p + 1 >= s.len() {
                JsonString::Bad
            } else {
                let e = s[p + 1];
                if e == '"' as u8 || e == '\\' as u8 || e == '/' as u8 {
                    json_prepend(seq![e], spec_json_string(s, p + 2))
                } else if e == 'b' as u8 {
                    json_prepend(seq![8u8], spec_json_string(s, p + 2))
                } else if e == 'f' as u8 {
                    json_prepend(seq![12u8], spec_json_string(s, p + 2))
                } else if e == 'n' as u8 {
                    json_prepend(seq![10u8], spec_json_string(s, p + 2))
                } else if e == 'r' as u8 {
                    json_prepend(seq![13u8], spec_json_string(s, p + 2))
                } else if e == 't' as u8 {
                    json_prepend(seq![9u8], spec_json_string(s, p + 2))
                } else if e == 'u' as u8 {
                    if !all_hex4(s, p + 2) {
                        JsonString::Bad
                    } else {
                        let cp = hex4_val(s, p + 2);
                        if 0xD800 <= cp < 0xDC00 {
                            // a high surrogate: a low one must follow
                            if p + 8 <= s.len() && s[p + 6] == '\\' as u8 && s[p + 7] == 'u' as u8
                                && all_hex4(s, p + 8) {
                                let lo = hex4_val(s, p + 8);
                                if 0xDC00 <= lo < 0xE000 {
                                    json_prepend(
                                        utf8_enc(
                                            (0x10000 + (cp - 0xD800) * 0x400 + (lo
                                                - 0xDC00)) as nat,
                                        ),
                                        spec_json_string(s, p + 12),
                                    )
                                } else {
                                    JsonString::Bad
                                }
                            } else {
                                JsonString::Bad
                            }
                        } else if 0xDC00 <= cp < 0xE000 {
                            // a lone low surrogate
                            JsonString::Bad
                        } else {
                            json_prepend(utf8_enc(cp), spec_json_string(s, p + 6))
                        }
                    }
                } else {
                    JsonString::Bad
                }
            }
        } else if b < 32 {
            // JSON forbids raw control bytes inside strings
            JsonString::Bad
        } else {
            json_prepend(seq![b], spec_json_string(s, p + 1))
        }
    }
}

/// The token in a body of the accepted shape: optional whitespace around
/// `{`, the quoted key `"token"`, `:`, and a JSON string, whose decoded
/// bytes are the token. Any other body holds no token.
pub open spec fn spec_extract_token(s: Seq<u8>) -> Option<Seq<u8>> {
    let p0 = spec_skip_ws(s, 0);
    if p0 < s.len() && s[p0] == '{' as u8 {
        let p1 = spec_skip_ws(s, p0 + 1);
        if matches_at(s, token_key(), p1) {
            let p2 = spec_skip_ws(s, p1 + token_key().len());
            if p2 < s.len() && s[p2] == ':' as u8 {
                let p3 = spec_skip_ws(s, p2 + 1);
                if p3 < s.len() && s[p3] == '"' as u8 {
                    match spec_json_string(s, p3 + 1) {
                        JsonString::Bad => None,
                        JsonString::Done { end: q, value } => {
                            let p4 = spec_skip_ws(s, q + 1);
                            if p4 < s.len() && s[p4] == '}' as u8 {
                                let p5 = spec_skip_ws(s, p4 + 1);
                                if p5 == s.len() {
                                    Some(value)
                                } else {
                                    None
                                }
                            } else {
                                None
                            }
                        },
                    }
                } else {
                    None
                }
            } else {
                None
            }
        } else {
            None
        }
    } else {
        None
    }
}

/// Walks past JSON whitespace.
fn skip_ws(s: &[u8], p: usize) -> (r: usize)
    requires
        p <= s@.len(),
    ensures
        r == spec_skip_ws(s@, p as int),
        p <= r <= s@.len(),
{
    let blen = s.len();
    let mut q: usize = p;
    while q < blen
        invariant
            blen == s@.len(),
            p <= q <= blen,
            spec_skip_ws(s@, p as int) == spec_skip_ws(s@, q as int),
        decreases blen - q,
    {
        let c = s[q];
        if !(c == 32 || c == 9 || c == 10 || c == 13) {
            proof {
                assert(spec_skip_ws(s@, q as int) == q);
            }
            return q;
        }
        q = q + 1;
    }
    proof {
        assert(spec_skip_ws(s@, q as int) == q);
    }
    q
}

/// Value of one hexadecimal digit byte, if it is one.
fn hex_nibble(b: u8) -> (r: Option<u8>)
    ensures
        match r {
            Some(v) => is_hex_digit(b) && v as nat == hex_digit_val(b) && v < 16,
            None => !is_hex_digit(b),
        },
{
    if 48 <= b && b <= 57 {
        Some(b - 48)
    } else if 97 <= b && b <= 102 {
        Some(b - 87)
    } else if 65 <= b && b <= 70 {
        Some(b - 55)
    } else {
        None
    }
}

/// Reads four hexadecimal digits at `q`.
fn hex4_at(s: &[u8], q: usize) -> (r: Option<u32>)
    requires
        q <= s@.len(),
    ensures
        match r {
            Some(v) => all_hex4(s@, q as int) && v as nat == hex4_val(s@, q as int) && v <= 0xFFFF,
            None => !all_hex4(s@, q as int),
        },
{
    if s.len() - q < 4 {
        return None;
    }
    let d0 = match hex_nibble(s[q]) {
        Some(v) => v,
        None => {
            return None;
        },
    };
    let d1 = match hex_nibble(s[q + 1]) {
        Some(v) => v,
        None => {
            return None;
        },
    };
    let d2 = match hex_nibble(s[q + 2]) {
        Some(v) => v,
        None => {
            return None;
        },
    };
    let d3 = match hex_nibble(s[q + 3]) {
        Some(v) => v,
        None => {
            return None;
        },
    };
    Some(4096 * (d0 as u32) + 256 * (d1 as u32) + 16 * (d2 as u32) + (d3 as u32))
}

/// Appends the UTF-8 encoding of one code point.
fn push_utf8(out: &mut Vec<u8>, cp: u32)
    requires
        cp <= 0x10FFFF,
    ensures
        final(out)@ == old(out)@ + utf8_enc(cp as nat),
{
    if cp < 0x80 {
        out.push(cp as u8);
    } else if cp < 0x800 {
        out.push(0xC0 + (cp / 64) as u8);
        out.push(0x80 + (cp % 64) as u8);
    } else if cp < 0x10000 {
        out.push(0xE0 + (cp / 4096) as u8);
        out.push(0x80 + ((cp / 64) % 64) as u8);
        out.push(0x80 + (cp % 64) as u8);
    } else {
        out.push(0xF0 + (cp / 262144) as u8);
        out.push(0x80 + ((cp / 4096) % 64) as u8);
        out.push(0x80 + ((cp / 64) % 64) as u8);
        out.push(0x80 + (cp % 64) as u8);
    }
    proof {
        assert(out@ =~= old(out)@ + utf8_enc(cp as nat));
    }
}

/// Reads a JSON string that starts (after its opening quote) at `start`,
/// decoding it as [`spec_json_string`] describes.
fn parse_json_string(s: &[u8], start: usize) -> (r: Option<(usize, Vec<u8>)>)
    requires
        start <= s@.len(),
    ensures
        match r {
            Some(qv) => spec_json_string(s@, start as int) == (JsonString::Done {
                end: qv.0 as int,
                value: qv.1@,
            }) && start <= qv.0 < s@.len(),
            None => spec_json_string(s@, start as int) == JsonString::Bad,
        },
{
    let slen = s.len();
    let mut p: usize = start;
    let mut out: Vec<u8> = Vec::new();
    proof {
        match spec_json_string(s@, start as int) {
            JsonString::Done { end, value } => {
                assert(Seq::<u8>::empty() + value =~= value);
            },
            JsonString::Bad => {},
        }
    }
    while p < slen
        invariant
            start <= p <= slen,
            slen == s@.len(),
            spec_json_string(s@, start as int) == json_prepend(
                out@,
                spec_json_string(s@, p as int),
            ),
        decreases slen - p,
    {
        let ghost out0 = out@;
        let b = s[p];
        if b == '"' as u8 {
            proof {
                assert(out@ + Seq::<u8>::empty() =~= out@);
            }
            return Some((p, out));
        }
        if b == '\\' as u8 {
            if slen - p < 2 {
                return None;
            }
            let e = s[p + 1];
            let simple: Option<u8> = if e == '"' as u8 || e == '\\' as u8 || e == '/' as u8 {
                Some(e)
            } else if e == 'b' as u8 {
                Some(8u8)
            } else if e == 'f' as u8 {
                Some(12u8)
            } else if e == 'n' as u8 {
                Some(10u8)
            } else if e == 'r' as u8 {
                Some(13u8)
            } else if e == 't' as u8 {
                Some(9u8)
            } else {
                None
            };
            match simple {
                Some(decoded) => {
                    out.push(decoded);
                    p = p + 2;
                    proof {
                        match spec_json_string(s@, p as int) {
                            JsonString::Done { end, value } => {
                                assert(out0 + (seq![decoded] + value) =~= out@ + value);
                            },
                            JsonString::Bad => {},
                        }
                    }
                },
                None => {
                    if e != 'u' as u8 {
                        return None;
                    }
                    let cp = match hex4_at(s, p + 2) {
                        Some(v) => v,
                        None => {
                            return None;
                        },
                    };
                    if 0xD800 <= cp && cp < 0xDC00 {
                        if !(slen - p >= 12 && s[p + 6] == '\\' as u8 && s[p + 7] == 'u' as u8) {
                            return None;
                        }
                        let lo = match hex4_at(s, p + 8) {
                            Some(v) => v,
                            None => {
                                return None;
                            },
                        };
                        if !(0xDC00 <= lo && lo < 0xE000) {
                            return None;
                        }
                        let combined = 0x10000 + (cp - 0xD800) * 0x400 + (lo - 0xDC00);
                        push_utf8(&mut out, combined);
                        p = p + 12;
                        proof {
                            match spec_json_string(s@, p as int) {
                                JsonString::Done { end, value } => {
                                    assert(out0 + (utf8_enc(combined as nat) + value) =~= out@
                                        + value);
                                },
                                JsonString::Bad => {},
                            }
                        }
                    } else if 0xDC00 <= cp && cp < 0xE000 {
                        return None;
                    } else {
                        push_utf8(&mut out, cp);
                        p = p + 6;
                        proof {
                            match spec_json_string(s@, p as int) {
                                JsonString::Done { end, value } => {
                                    assert(out0 + (utf8_enc(cp as nat) + value) =~= out@ + value);
                                },
                                JsonString::Bad => {},
                            }
                        }
                    }
                },
            }
        } else if b < 32 {
            return None;
        } else {
            out.push(b);
            p = p + 1;
            proof {
                match spec_json_string(s@, p as int) {
                    JsonString::Done { end, value } => {
                        assert(out0 + (seq![b] + value) =~= out@ + value);
                    },
                    JsonString::Bad => {},
                }
            }
        }
    }
    None
}

/// Extracts the authenticity token from the token endpoint's JSON body, as
/// [`spec_extract_token`] describes. A body of any other shape yields
/// `None`, which the caller must treat as a failed login preparation.
pub fn extract_token(body: &[u8]) -> (r: Option<AuthenticityToken>)
    ensures
        match r {
            Some(t) => spec_extract_token(body@) == Some(t.token@),
            None => spec_extract_token(body@) is None,
        },
{
    let blen = body.len();
    let p0 = skip_ws(body, 0);
    if !(p0 < blen && body[p0] == '{' as u8) {
        return None;
    }
    let p1 = skip_ws(body, p0 + 1);
    let key = token_key_bytes();
    let key_ok = if blen - p1 >= 7 {
        crate::text::eq_at(body, key.as_slice(), p1)
    } else {
        false
    };
    if !key_ok {
        proof {
            assert(token_key().len() == 7);
            assert(!matches_at(body@, token_key(), p1 as int));
        }
        return None;
    }
    let p2 = skip_ws(body, p1 + 7);
    if !(p2 < blen && body[p2] == ':' as u8) {
        return None;
    }
    let p3 = skip_ws(body, p2 + 1);
    if !(p3 < blen && body[p3] == '"' as u8) {
        return None;
    }
    match parse_json_string(body, p3 + 1) {
        None => None,
        Some((q, token)) => {
            let p4 = skip_ws(body, q + 1);
            if !(p4 < blen && body[p4] == '}' as u8) {
                return None;
            }
            let p5 = skip_ws(body, p4 + 1);
            if p5 != blen {
                return None;
            }
            Some(AuthenticityToken { token })
        },
    }
}

} // verus!
