//! The credential codec: parsing an HTTP `Basic` authentication header value
//! into a username/secret pair, and building such a header value.
//!
//! The header carries `Basic ` followed by the standard base64 encoding of the
//! UTF-8 bytes of `username:secret`. The text is split at its first colon only,
//! so the secret may itself contain colons. Each malformed shape is reported
//! as its own error.

use crate::text::{chars_of, concat_strs, first_index_at, index_of_char, string_from_chars,
    take_range};
use vstd::prelude::*;
use vstd::string::StrSliceExecFns;
use vstd::string::StringSliceAdditionalSpecFns;
use vstd::utf8::{decode_utf8, encode_utf8, valid_utf8};

verus! {

broadcast use vstd::utf8::encode_utf8_valid_utf8, vstd::utf8::encode_utf8_decode_utf8;

/// The standard base64 encoding (padded, standard alphabet) of a byte
/// sequence, as produced by the base64 crate's `BASE64_STANDARD` engine.
pub uninterp spec fn base64_of(bytes: Seq<u8>) -> Seq<char>;

/// Encodes bytes in standard base64.
///
/// Relies on base64's `BASE64_STANDARD.encode`: the canonical padded
/// standard-alphabet encoding, a function of the input bytes alone.
#[verifier::external_body]
fn b64_encode(bytes: &Vec<u8>) -> (r: String)
    ensures
        r@ == base64_of(bytes@),
{
    base64::Engine::encode(&base64::prelude::BASE64_STANDARD, bytes.as_slice())
}

/// Decodes standard base64.
///
/// Relies on base64's `BASE64_STANDARD.decode`: it requires canonical padding
/// and refuses trailing bits, so it accepts exactly the canonical encodings
/// and returns the bytes whose encoding the input is.
#[verifier::external_body]
fn b64_decode(s: &str) -> (r: Option<Vec<u8>>)
    ensures
        r matches Some(v) ==> s@ == base64_of(v@),
        r matches Some(v) ==> forall|b: Seq<u8>| s@ == base64_of(b) ==> v@ == b,
        r is None ==> forall|b: Seq<u8>| s@ != base64_of(b),
{
    base64::Engine::decode(&base64::prelude::BASE64_STANDARD, s.as_bytes()).ok()
}

/// Interprets bytes as UTF-8 text.
///
/// Relies on `String::from_utf8`: it succeeds exactly on valid UTF-8 byte
/// sequences and returns the string those bytes encode.
#[verifier::external_body]
fn string_from_utf8(bytes: Vec<u8>) -> (r: Option<String>)
    ensures
        r matches Some(s) ==> encode_utf8(s@) == bytes@,
        r is Some <==> valid_utf8(bytes@),
{
    match String::from_utf8(bytes) {
        Ok(s) => Some(s),
        Err(_) => None,
    }
}

/// A username and the secret that is claimed to authenticate it. The secret is
/// held only for the duration of the credential check and is never echoed.
pub struct Credentials {
    pub username: String,
    pub password: String,
}

/// The distinct ways a `Basic` authentication header value can be malformed.
#[derive(Debug, Clone, Copy, PartialEq, Eq, Structural)]
pub enum AuthError {
    /// The value does not carry the `Basic ` scheme prefix.
    MissingScheme,
    /// The remainder after the prefix is not valid standard base64.
    MalformedEncoding,
    /// The decoded bytes are not valid UTF-8 text.
    InvalidText,
    /// The decoded text has no non-empty segment before a colon.
    MissingUsername,
    /// The decoded text has no colon, or nothing after its first colon.
    MissingSecret,
}

/// True when the header value starts with the `Basic ` scheme prefix.
pub open spec fn has_basic_prefix(h: Seq<char>) -> bool {
    h.len() >= 6 && h.subrange(0, 6) == "Basic "@
}

/// True when text `m` splits at its first colon into the non-empty username
/// `u` and the non-empty secret `p`.
pub open spec fn splits_at_colon(m: Seq<char>, u: Seq<char>, p: Seq<char>) -> bool {
    exists|i: int|
        first_index_at(m, ':', i) && 1 <= i && i + 1 < m.len() && u == m.subrange(0, i) && p
            == m.subrange(i + 1, m.len() as int)
}

/// True when the header value `h` is a well-formed `Basic` header carrying
/// exactly the username `u` and the secret `p`.
pub open spec fn decodes_to(h: Seq<char>, u: Seq<char>, p: Seq<char>) -> bool {
    exists|b: Seq<u8>|
        h == "Basic "@ + #[trigger] base64_of(b) && valid_utf8(b) && splits_at_colon(
            decode_utf8(b),
            u,
            p,
        )
}

/// The first index of a character is unique.
proof fn lemma_first_index_unique(s: Seq<char>, c: char, i: int, j: int)
    requires
        first_index_at(s, c, i),
        first_index_at(s, c, j),
    ensures
        i == j,
{
    if i < j {
        assert(s[i] == c);
    } else if j < i {
        assert(s[j] == c);
    }
}

/// Builds the `Basic` authentication header value that carries the given
/// username and secret.
pub fn encode_basic_credentials(username: &str, password: &str) -> (r: String)
    ensures
        r@ == "Basic "@ + base64_of(encode_utf8(username@ + seq![':'] + password@)),
{
    let with_colon = concat_strs(username, ":");
    let message = concat_strs(with_colon.as_str(), password);
    proof {
        reveal_strlit(":");
        assert(message@ =~= username@ + seq![':'] + password@);
    }
    let bytes = message.as_str().as_bytes_vec();
    let encoded = b64_encode(&bytes);
    concat_strs("Basic ", encoded.as_str())
}

/// Parses a `Basic` authentication header value into credentials.
///
/// Succeeds exactly on the well-formed headers, returning the username and
/// secret they carry; each malformed shape yields its own error, and the
/// round trip through `encode_basic_credentials` restores any username
/// without a colon and any non-empty secret exactly.
pub fn basic_authentication(header: &str) -> (r: Result<Credentials, AuthError>)
    ensures
        r matches Ok(c) ==> decodes_to(header@, c.username@, c.password@),
        forall|u: Seq<char>, p: Seq<char>|
            decodes_to(header@, u, p) ==> (r matches Ok(c) && c.username@ == u && c.password@
                == p),
        r == Err::<Credentials, AuthError>(AuthError::MissingScheme) <==> !has_basic_prefix(header@),
        r == Err::<Credentials, AuthError>(AuthError::MalformedEncoding) <==> (has_basic_prefix(header@) && forall|
            b: Seq<u8>,
        | header@.skip(6) != base64_of(b)),
        r == Err::<Credentials, AuthError>(AuthError::InvalidText) <==> (has_basic_prefix(header@) && exists|b: Seq<u8>|
            header@.skip(6) == #[trigger] base64_of(b) && !valid_utf8(b)),
        r == Err::<Credentials, AuthError>(AuthError::MissingUsername) <==> (has_basic_prefix(header@) && exists|b: Seq<u8>|
            header@.skip(6) == #[trigger] base64_of(b) && valid_utf8(b) && first_index_at(
                decode_utf8(b),
                ':',
                0,
            )),
        r == Err::<Credentials, AuthError>(AuthError::MissingSecret) <==> (has_basic_prefix(header@) && exists|b: Seq<u8>|
            header@.skip(6) == #[trigger] base64_of(b) && valid_utf8(b) && missing_secret_text(
                decode_utf8(b),
            )),
{
    let cs = chars_of(header);
    proof {
        reveal_strlit("Basic ");
    }
    if cs.len() < 6 || !(cs[0] == 'B' && cs[1] == 'a' && cs[2] == 's' && cs[3] == 'i' && cs[4]
        == 'c' && cs[5] == ' ') {
        proof {
            assert(!has_basic_prefix(header@)) by {
                if header@.len() >= 6 && header@.subrange(0, 6) == "Basic "@ {
                    assert(header@.subrange(0, 6)[0] == 'B');
                    assert(header@.subrange(0, 6)[1] == 'a');
                    assert(header@.subrange(0, 6)[2] == 's');
                    assert(header@.subrange(0, 6)[3] == 'i');
                    assert(header@.subrange(0, 6)[4] == 'c');
                    assert(header@.subrange(0, 6)[5] == ' ');
                }
            }
            lemma_no_prefix_no_decode(header@);
        }
        return Err(AuthError::MissingScheme);
    }
    proof {
        assert(header@.subrange(0, 6) =~= "Basic "@);
    }
    let rest = take_range(&cs, 6, cs.len());
    let rest_str = string_from_chars(&rest);
    proof {
        assert(rest_str@ == header@.skip(6));
        assert(header@ =~= "Basic "@ + header@.skip(6));
    }
    let decoded = match b64_decode(rest_str.as_str()) {
        Some(bytes) => bytes,
        None => {
            proof {
                assert forall|u: Seq<char>, p: Seq<char>| !decodes_to(header@, u, p) by {
                    lemma_prefix_body_determined(header@);
                }
            }
            return Err(AuthError::MalformedEncoding);
        },
    };
    // From here on, any base64 body of this header is exactly `decoded`.
    proof {
        lemma_prefix_body_determined(header@);
    }
    let text = match string_from_utf8(decoded) {
        Some(text) => text,
        None => {
            return Err(AuthError::InvalidText);
        },
    };
    let ghost m = decode_utf8(encode_utf8(text@));
    proof {
        assert(decode_utf8(encode_utf8(text@)) == text@);
        assert(m == text@);
    }
    let tcs = chars_of(text.as_str());
    match index_of_char(&tcs, ':') {
        None => {
            return Err(AuthError::MissingSecret);
        },
        Some(i) => {
            proof {
                assert forall|j: int| first_index_at(m, ':', j) implies j == i as int by {
                    lemma_first_index_unique(m, ':', i as int, j);
                }
            }
            if i == 0 {
                return Err(AuthError::MissingUsername);
            }
            if i + 1 >= tcs.len() {
                return Err(AuthError::MissingSecret);
            }
            let u = take_range(&tcs, 0, i);
            let p = take_range(&tcs, i + 1, tcs.len());
            let c = Credentials { username: string_from_chars(&u), password: string_from_chars(
                &p,
            ) };
            proof {
                assert(splits_at_colon(m, c.username@, c.password@));
                assert(decodes_to(header@, c.username@, c.password@));
                assert forall|u2: Seq<char>, p2: Seq<char>| decodes_to(
                    header@,
                    u2,
                    p2,
                ) implies c.username@ == u2 && c.password@ == p2 by {
                    let b2 = choose|b2: Seq<u8>|
                        header@ == "Basic "@ + #[trigger] base64_of(b2) && valid_utf8(b2)
                            && splits_at_colon(decode_utf8(b2), u2, p2);
                    assert(header@.skip(6) =~= base64_of(b2));
                    let j = choose|j: int|
                        first_index_at(m, ':', j) && 1 <= j && j + 1 < m.len() && u2 == m.subrange(
                            0,
                            j,
                        ) && p2 == m.subrange(j + 1, m.len() as int);
                    lemma_first_index_unique(m, ':', i as int, j);
                };
            }
            Ok(c)
        },
    }
}

/// True when text `m` lacks a colon entirely, or its first colon leaves a
/// non-empty username but an empty secret.
pub open spec fn missing_secret_text(m: Seq<char>) -> bool {
    ||| forall|j: int| 0 <= j < m.len() ==> m[j] != ':'
    ||| exists|i: int| #[trigger] first_index_at(m, ':', i) && 1 <= i && i + 1 == m.len()
}

/// A header without the scheme prefix decodes to nothing.
proof fn lemma_no_prefix_no_decode(h: Seq<char>)
    requires
        !has_basic_prefix(h),
    ensures
        forall|u: Seq<char>, p: Seq<char>| !decodes_to(h, u, p),
{
    reveal_strlit("Basic ");
    assert forall|u: Seq<char>, p: Seq<char>| !decodes_to(h, u, p) by {
        if decodes_to(h, u, p) {
            let b = choose|b: Seq<u8>|
                h == "Basic "@ + #[trigger] base64_of(b) && valid_utf8(b) && splits_at_colon(
                    decode_utf8(b),
                    u,
                    p,
                );
            assert(h.subrange(0, 6) =~= "Basic "@);
        }
    }
}

/// With the prefix fixed, the base64 body of a header is the skipped suffix.
proof fn lemma_prefix_body_determined(h: Seq<char>)
    requires
        has_basic_prefix(h),
    ensures
        forall|b: Seq<u8>| (h == "Basic "@ + #[trigger] base64_of(b)) ==> h.skip(6) == base64_of(
            b,
        ),
{
    reveal_strlit("Basic ");
    assert forall|b: Seq<u8>| (h == "Basic "@ + #[trigger] base64_of(b)) implies h.skip(6)
        == base64_of(b) by {
        assert(h.skip(6) =~= base64_of(b));
    }
}

/// The credential round trip: the header built from any colon-free non-empty
/// username and any non-empty secret (which may itself contain colons) is
/// well-formed and carries exactly that username and that secret. Together
/// with the contracts of `encode_basic_credentials` (which returns exactly
/// this header) and `basic_authentication` (which returns exactly the pair a
/// well-formed header carries), decoding an encoded pair restores it.
pub proof fn lemma_credentials_roundtrip(u: Seq<char>, p: Seq<char>)
    requires
        !u.contains(':'),
        u.len() > 0,
        p.len() > 0,
    ensures
        decodes_to("Basic "@ + base64_of(encode_utf8(u + seq![':'] + p)), u, p),
{
    broadcast use vstd::utf8::encode_utf8_valid_utf8, vstd::utf8::encode_utf8_decode_utf8;

    let m = u + seq![':'] + p;
    let h = "Basic "@ + base64_of(encode_utf8(m));
    reveal_strlit("Basic ");
    assert(first_index_at(m, ':', u.len() as int)) by {
        assert(forall|j: int| 0 <= j < u.len() ==> m[j] == u[j]);
    }
    assert(splits_at_colon(decode_utf8(encode_utf8(m)), u, p)) by {
        assert(decode_utf8(encode_utf8(m)) == m);
        assert(u =~= m.subrange(0, u.len() as int));
        assert(p =~= m.subrange(u.len() as int + 1, m.len() as int));
    }
    assert(decodes_to(h, u, p));
}

} // verus!

