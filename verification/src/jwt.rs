//! The compact signed form of a claims record: three dot-separated
//! base64url segments — header, payload, signature — signed with
//! HMAC-SHA-256 over the first two.
//!
//! The header is the fixed `{"typ":"JWT","alg":"HS256"}` object; the
//! payload is the claims JSON; the signature is computed by the
//! `jsonwebtoken` crate and named `spec_hmac_sig` here.  `encode_jwt` is
//! proved to produce exactly `spec_jwt_bytes`; `verify_at` accepts a
//! token, against a secret, an expected subject kind and a clock reading,
//! exactly when it is such a form with a live window and the right kind.

use vstd::prelude::*;

use base64::Engine;

verus! {

use vstd::string::StringExecFns;
use vstd::string::StringSliceAdditionalSpecFns;
use vstd::utf8::encode_utf8;

use crate::claims_json::{
    claims_json_bytes,
    parse_claims,
    spec_claims_json,
    spec_claims_json_compact,
};
use crate::codec::compare_bytes;
use crate::errors::{CredentialError, InternalFault};
use crate::game_data_token::{GameDataToken, TokenKind};

/// The base64url text of the HMAC-SHA-256 of `message` under `secret`, as
/// `jsonwebtoken` produces it.  A function of secret and message alone;
/// its value is the signer's business and is never spelled out here.
pub uninterp spec fn spec_hmac_sig(secret: Seq<u8>, message: Seq<u8>) -> Seq<u8>;

#[verifier::external_type_specification]
#[verifier::external_body]
pub struct ExJwtError(jsonwebtoken::errors::Error);

/// Relies on `jsonwebtoken`'s `crypto::sign` with `Algorithm::HS256`: the
/// base64url text of the HMAC-SHA-256 of the message under the secret,
/// a function of the two arguments alone; the source returns it without
/// fail for the HMAC algorithms.
#[verifier::external_body]
pub(crate) fn hs256_sign(secret: &[u8], message: &[u8]) -> (r: Result<
    String,
    jsonwebtoken::errors::Error,
>)
    ensures
        r is Ok,
        r is Ok ==> encode_utf8(r->Ok_0@) == spec_hmac_sig(secret@, message@),
{
    jsonwebtoken::crypto::sign(
        message,
        &jsonwebtoken::EncodingKey::from_secret(secret),
        jsonwebtoken::Algorithm::HS256,
    )
}

/// A byte of the unpadded base64url alphabet.
pub open spec fn is_b64url_byte(b: u8) -> bool {
    (65 <= b <= 90) || (97 <= b <= 122) || (48 <= b <= 57) || b == 45 || b == 95
}

/// The alphabet byte of a six-bit group.
pub open spec fn spec_b64url_char(v: u8) -> u8
    recommends
        v < 64,
{
    if v < 26 {
        (65 + v) as u8
    } else if v < 52 {
        (97 + (v - 26)) as u8
    } else if v < 62 {
        (48 + (v - 52)) as u8
    } else if v == 62 {
        45u8
    } else {
        95u8
    }
}

/// Unpadded base64url text of a byte string: three bytes at a time become
/// four alphabet bytes; a final one or two bytes become two or three.
pub open spec fn spec_b64url(b: Seq<u8>) -> Seq<u8>
    decreases b.len(),
{
    if b.len() == 0 {
        Seq::empty()
    } else if b.len() == 1 {
        seq![
            spec_b64url_char(b[0] / 4),
            spec_b64url_char(((b[0] % 4) * 16) as u8),
        ]
    } else if b.len() == 2 {
        seq![
            spec_b64url_char(b[0] / 4),
            spec_b64url_char(((b[0] % 4) * 16 + b[1] / 16) as u8),
            spec_b64url_char(((b[1] % 16) * 4) as u8),
        ]
    } else {
        seq![
            spec_b64url_char(b[0] / 4),
            spec_b64url_char(((b[0] % 4) * 16 + b[1] / 16) as u8),
            spec_b64url_char(((b[1] % 16) * 4 + b[2] / 64) as u8),
            spec_b64url_char((b[2] % 64) as u8),
        ] + spec_b64url(b.skip(3))
    }
}

/// Every byte of a base64url text is in the alphabet — in particular none
/// is a dot.
pub proof fn lemma_b64url_alphabet(b: Seq<u8>)
    ensures
        forall|i: int|
            0 <= i < spec_b64url(b).len() ==> is_b64url_byte(#[trigger] spec_b64url(b)[i]),
    decreases b.len(),
{
    if b.len() == 0 {
    } else if b.len() == 1 {
        assert forall|i: int| 0 <= i < spec_b64url(b).len() implies is_b64url_byte(
            #[trigger] spec_b64url(b)[i],
        ) by {
            lemma_b64url_char_alphabet(b[0] / 4);
            lemma_b64url_char_alphabet(((b[0] % 4) * 16) as u8);
        }
    } else if b.len() == 2 {
        assert forall|i: int| 0 <= i < spec_b64url(b).len() implies is_b64url_byte(
            #[trigger] spec_b64url(b)[i],
        ) by {
            lemma_b64url_char_alphabet(b[0] / 4);
            lemma_b64url_char_alphabet(((b[0] % 4) * 16 + b[1] / 16) as u8);
            lemma_b64url_char_alphabet(((b[1] % 16) * 4) as u8);
        }
    } else {
        lemma_b64url_alphabet(b.skip(3));
        assert forall|i: int| 0 <= i < spec_b64url(b).len() implies is_b64url_byte(
            #[trigger] spec_b64url(b)[i],
        ) by {
            lemma_b64url_char_alphabet(b[0] / 4);
            lemma_b64url_char_alphabet(((b[0] % 4) * 16 + b[1] / 16) as u8);
            lemma_b64url_char_alphabet(((b[1] % 16) * 4 + b[2] / 64) as u8);
            lemma_b64url_char_alphabet((b[2] % 64) as u8);
            if i >= 4 {
                assert(spec_b64url(b)[i] == spec_b64url(b.skip(3))[i - 4]);
                assert(is_b64url_byte(spec_b64url(b.skip(3))[i - 4]));
            }
        }
    }
}

/// Every alphabet byte the encoding can pick is in the alphabet.
proof fn lemma_b64url_char_alphabet(v: u8)
    ensures
        is_b64url_byte(spec_b64url_char(v)),
{
}

#[verifier::external_type_specification]
#[verifier::external_body]
pub struct ExDecodeError(base64::DecodeError);

/// Relies on the `base64` crate's `URL_SAFE_NO_PAD` engine: its `encode`
/// writes exactly the unpadded base64url text that `spec_b64url` lays
/// out.
#[verifier::external_body]
pub(crate) fn b64url_encode(data: &[u8]) -> (r: String)
    ensures
        encode_utf8(r@) == spec_b64url(data@),
{
    base64::engine::general_purpose::URL_SAFE_NO_PAD.encode(data)
}

/// Relies on the `base64` crate's `URL_SAFE_NO_PAD` engine: its `decode`
/// requires padding absent and rejects set trailing bits, so it accepts
/// exactly the texts `spec_b64url` produces and inverts the encoding.
#[verifier::external_body]
pub(crate) fn b64url_decode(text: &[u8]) -> (r: Result<Vec<u8>, base64::DecodeError>)
    ensures
        r is Ok ==> text@ == spec_b64url(r->Ok_0@),
        forall|d: Seq<u8>| text@ == #[trigger] spec_b64url(d) ==> r is Ok && r->Ok_0@ == d,
{
    base64::engine::general_purpose::URL_SAFE_NO_PAD.decode(text)
}

/// The fixed header object `{"typ":"JWT","alg":"HS256"}`.
pub open spec fn spec_header_json() -> Seq<u8> {
    Seq::new(27, |i: int| if i == 0 { 123u8 } else if i == 1 { 34u8 } else if i == 2 { 116u8 } else if i == 3 { 121u8 } else if i == 4 { 112u8 } else if i == 5 { 34u8 } else if i == 6 { 58u8 } else if i == 7 { 34u8 } else if i == 8 { 74u8 } else if i == 9 { 87u8 } else if i == 10 { 84u8 } else if i == 11 { 34u8 } else if i == 12 { 44u8 } else if i == 13 { 34u8 } else if i == 14 { 97u8 } else if i == 15 { 108u8 } else if i == 16 { 103u8 } else if i == 17 { 34u8 } else if i == 18 { 58u8 } else if i == 19 { 34u8 } else if i == 20 { 72u8 } else if i == 21 { 83u8 } else if i == 22 { 50u8 } else if i == 23 { 53u8 } else if i == 24 { 54u8 } else if i == 25 { 34u8 } else { 125u8 })
}

/// The text signed by the signature segment: base64url header, a dot,
/// base64url claims payload.
pub open spec fn spec_signing_input(c: GameDataToken) -> Seq<u8> {
    spec_b64url(spec_header_json()) + seq![46u8] + spec_b64url(spec_claims_json(c))
}

/// The same, for the older payload form without `is_readonly`.
pub open spec fn spec_signing_input_compact(c: GameDataToken) -> Seq<u8> {
    spec_b64url(spec_header_json()) + seq![46u8] + spec_b64url(spec_claims_json_compact(c))
}

/// The full signed token text for claims `c` under `secret`.
pub open spec fn spec_jwt_bytes(secret: Seq<u8>, c: GameDataToken) -> Seq<u8> {
    spec_signing_input(c) + seq![46u8] + spec_hmac_sig(secret, spec_signing_input(c))
}

/// The same, for the older payload form without `is_readonly`.
pub open spec fn spec_jwt_bytes_compact(secret: Seq<u8>, c: GameDataToken) -> Seq<u8> {
    spec_signing_input_compact(c) + seq![46u8] + spec_hmac_sig(
        secret,
        spec_signing_input_compact(c),
    )
}

/// UTF-8 encoding distributes over concatenation.
pub proof fn lemma_encode_utf8_concat(s1: Seq<char>, s2: Seq<char>)
    ensures
        encode_utf8(s1 + s2) == encode_utf8(s1) + encode_utf8(s2),
    decreases s1.len(),
{
    if s1.len() == 0 {
        assert(s1 + s2 =~= s2);
        assert(encode_utf8(s1) + encode_utf8(s2) =~= encode_utf8(s2));
    } else {
        assert((s1 + s2)[0] == s1[0]);
        assert((s1 + s2).drop_first() =~= s1.drop_first() + s2);
        lemma_encode_utf8_concat(s1.drop_first(), s2);
        assert(encode_utf8(s1 + s2) =~= encode_utf8(s1) + encode_utf8(s2));
    }
}

/// The UTF-8 bytes of `"."` are the single byte 46.
proof fn lemma_dot_utf8()
    ensures
        encode_utf8("."@) == seq![46u8],
{
    reveal_strlit(".");
    assert("."@.len() == 1);
    assert(vstd::utf8::is_ascii_chars("."@)) by {
        assert("."@[0] == '.');
        assert(('.' as u32) < 128);
    }
    vstd::string::is_ascii_spec_bytes(".");
    assert(".".spec_bytes() =~= seq![46u8]);
}

/// Builds the signed token text for `claims` under `secret`, exactly as
/// `spec_jwt_bytes` lays it out.  The claims carried by the result are
/// pinned down completely: a verifier holding the same secret and a clock
/// inside the validity window reads the same record back.
pub fn encode_jwt(secret: &[u8], claims: &GameDataToken) -> (r: Result<String, InternalFault>)
    ensures
        r is Ok,
        r is Ok ==> encode_utf8(r->Ok_0@) == spec_jwt_bytes(secret@, *claims),
        r is Err ==> r->Err_0 is SigningFault,
{
    let header: [u8; 27] = [123, 34, 116, 121, 112, 34, 58, 34, 74, 87, 84, 34, 44, 34, 97, 108, 103, 34, 58, 34, 72, 83, 50, 53, 54, 34, 125];
    proof {
        assert(header@ =~= spec_header_json());
        lemma_dot_utf8();
    }
    let mut token = b64url_encode(header.as_slice());
    let ghost t0 = token@;
    token.append(".");
    proof {
        lemma_encode_utf8_concat(t0, "."@);
    }
    let payload = claims_json_bytes(claims);
    let p64 = b64url_encode(payload.as_slice());
    let ghost t1 = token@;
    token.append(p64.as_str());
    proof {
        lemma_encode_utf8_concat(t1, p64@);
        assert(encode_utf8(token@) =~= spec_signing_input(*claims));
    }
    let signature = match hs256_sign(secret, token.as_str().as_bytes()) {
        Ok(s) => s,
        Err(_) => {
            return Err(InternalFault::SigningFault);
        },
    };
    let ghost t2 = token@;
    token.append(".");
    proof {
        lemma_encode_utf8_concat(t2, "."@);
    }
    let ghost t3 = token@;
    token.append(signature.as_str());
    proof {
        lemma_encode_utf8_concat(t3, signature@);
        assert(encode_utf8(token@) =~= spec_jwt_bytes(secret@, *claims));
    }
    Ok(token)
}

/// Finds the first two dots of a token text, if it has two.
fn find_two_dots(b: &[u8]) -> (r: Option<(usize, usize)>)
    ensures
        r is Some ==> ({
            let (d1, d2) = r->0;
            &&& 0 <= d1 < d2 < b@.len()
            &&& b@[d1 as int] == 46
            &&& b@[d2 as int] == 46
            &&& forall|i: int| 0 <= i < d1 ==> b@[i] != 46
            &&& forall|i: int| d1 < i < d2 ==> b@[i] != 46
        }),
        r is None ==> forall|d1: int, d2: int|
            #![trigger b@[d1], b@[d2]]
            !(0 <= d1 < d2 < b@.len() && b@[d1] == 46 && b@[d2] == 46 && (forall|i: int|
                0 <= i < d1 ==> b@[i] != 46) && (forall|i: int| d1 < i < d2 ==> b@[i] != 46)),
{
    let n = b.len();
    let mut i: usize = 0;
    while i < n && b[i] != 46
        invariant
            i <= n,
            n == b@.len(),
            forall|j: int| 0 <= j < i ==> b@[j] != 46,
        decreases n - i,
    {
        i = i + 1;
    }
    if i == n {
        return None;
    }
    let first = i;
    let mut k: usize = first + 1;
    while k < n && b[k] != 46
        invariant
            first < k <= n,
            n == b@.len(),
            b@[first as int] == 46,
            forall|j: int| 0 <= j < first ==> b@[j] != 46,
            forall|j: int| first < j < k ==> b@[j] != 46,
        decreases n - k,
    {
        k = k + 1;
    }
    if k == n {
        proof {
            assert forall|d1: int, d2: int|
                #![trigger b@[d1], b@[d2]]
                !(0 <= d1 < d2 < b@.len() && b@[d1] == 46 && b@[d2] == 46 && (forall|i: int|
                    0 <= i < d1 ==> b@[i] != 46) && (forall|i: int| d1 < i < d2 ==> b@[i] != 46))
                by {
                if 0 <= d1 < d2 < b@.len() && b@[d1] == 46 && b@[d2] == 46 && (forall|i: int|
                    0 <= i < d1 ==> b@[i] != 46) && (forall|i: int| d1 < i < d2 ==> b@[i] != 46) {
                    assert(d1 == first);
                    assert(b@[d2] != 46);
                    assert(false);
                }
            }
        }
        return None;
    }
    Some((first, k))
}

/// Checks a bearer token against a secret, an expected subject kind and a
/// clock reading.
///
/// `Ok(c)` comes back exactly when the token is the signed form of `c`
/// under `secret` — as issued, or with the older payload that omits a
/// false `is_readonly` flag — with `c.sub == expected` and `now <=
/// c.exp`.  A token that is not three well-formed segments under the
/// fixed header is malformed; one whose signature, claims or expiry fail
/// is invalid; a valid token of the other kind is the wrong subject kind.
#[verifier::rlimit(100)]
pub fn verify_at(secret: &[u8], token: &[u8], expected: TokenKind, now: u64) -> (r: Result<
    GameDataToken,
    CredentialError,
>)
    ensures
        r is Ok ==> ({
            let c = r->Ok_0;
            &&& c.sub == expected
            &&& now <= c.exp
            &&& (token@ == spec_jwt_bytes(secret@, c) || (c.is_readonly == false && token@
                == spec_jwt_bytes_compact(secret@, c)))
        }),
        forall|c: GameDataToken|
            (token@ == #[trigger] spec_jwt_bytes(secret@, c) && c.sub == expected && now <= c.exp)
                ==> r == Ok::<GameDataToken, CredentialError>(c),
        forall|c: GameDataToken|
            (token@ == #[trigger] spec_jwt_bytes(secret@, c) && now > c.exp) ==> r == Err::<
                GameDataToken,
                CredentialError,
            >(CredentialError::SignatureOrExpiryInvalid),
        forall|c: GameDataToken|
            (token@ == #[trigger] spec_jwt_bytes(secret@, c) && c.sub != expected && now <= c.exp)
                ==> r == Err::<GameDataToken, CredentialError>(CredentialError::WrongSubjectKind),
{
    let header: [u8; 27] = [123, 34, 116, 121, 112, 34, 58, 34, 74, 87, 84, 34, 44, 34, 97, 108, 103, 34, 58, 34, 72, 83, 50, 53, 54, 34, 125];
    proof {
        assert(header@ =~= spec_header_json());
    }
    let n = token.len();
    let (d1, d2) = match find_two_dots(token) {
        Some(p) => p,
        None => {
            proof {
                assert forall|c: GameDataToken| token@ != spec_jwt_bytes(secret@, c) by {
                    if token@ == spec_jwt_bytes(secret@, c) {
                        lemma_jwt_structure(token@, secret@, c);
                        assert(false);
                    }
                }
            }
            return Err(CredentialError::MalformedCredential);
        },
    };
    let h64 = b64url_encode(header.as_slice());
    if !compare_bytes(&token[0..d1], h64.as_str().as_bytes()) {
        proof {
            assert forall|c: GameDataToken| token@ != spec_jwt_bytes(secret@, c) by {
                if token@ == spec_jwt_bytes(secret@, c) {
                    lemma_jwt_structure(token@, secret@, c);
                    lemma_two_dots_pin(token@, d1 as int, d2 as int, spec_b64url(spec_header_json()).len() as int, (spec_b64url(spec_header_json()).len() + 1 + spec_b64url(spec_claims_json(c)).len()) as int);
                    assert(token@.subrange(0, d1 as int) == spec_b64url(spec_header_json()));
                    assert(false);
                }
            }
        }
        return Err(CredentialError::MalformedCredential);
    }
    let payload = match b64url_decode(&token[d1 + 1..d2]) {
        Ok(p) => p,
        Err(_) => {
            proof {
                assert forall|c: GameDataToken| token@ != spec_jwt_bytes(secret@, c) by {
                    if token@ == spec_jwt_bytes(secret@, c) {
                        lemma_jwt_structure(token@, secret@, c);
                        lemma_two_dots_pin(token@, d1 as int, d2 as int, spec_b64url(spec_header_json()).len() as int, (spec_b64url(spec_header_json()).len() + 1 + spec_b64url(spec_claims_json(c)).len()) as int);
                        assert(token@.subrange(d1 + 1, d2 as int) == spec_b64url(
                            spec_claims_json(c),
                        ));
                        assert(false);
                    }
                }
            }
            return Err(CredentialError::MalformedCredential);
        },
    };
    let claims = match parse_claims(payload.as_slice()) {
        Some(c) => c,
        None => {
            proof {
                assert forall|c: GameDataToken| token@ != spec_jwt_bytes(secret@, c) by {
                    if token@ == spec_jwt_bytes(secret@, c) {
                        lemma_jwt_structure(token@, secret@, c);
                        lemma_two_dots_pin(token@, d1 as int, d2 as int, spec_b64url(spec_header_json()).len() as int, (spec_b64url(spec_header_json()).len() + 1 + spec_b64url(spec_claims_json(c)).len()) as int);
                        assert(token@.subrange(d1 + 1, d2 as int) == spec_b64url(
                            spec_claims_json(c),
                        ));
                        assert(payload@ == spec_claims_json(c));
                        assert(false);
                    }
                }
            }
            return Err(CredentialError::SignatureOrExpiryInvalid);
        },
    };
    let signature = match hs256_sign(secret, &token[0..d2]) {
        Ok(s) => s,
        Err(_) => {
            return Err(CredentialError::SignatureOrExpiryInvalid);
        },
    };
    if !compare_bytes(&token[d2 + 1..n], signature.as_str().as_bytes()) {
        proof {
            assert forall|c: GameDataToken| token@ != spec_jwt_bytes(secret@, c) by {
                if token@ == spec_jwt_bytes(secret@, c) {
                    lemma_jwt_structure(token@, secret@, c);
                    lemma_two_dots_pin(token@, d1 as int, d2 as int, spec_b64url(spec_header_json()).len() as int, (spec_b64url(spec_header_json()).len() + 1 + spec_b64url(spec_claims_json(c)).len()) as int);
                    assert(token@.subrange(0, d2 as int) == spec_signing_input(c));
                    assert(token@.subrange(d2 + 1, token@.len() as int) == spec_hmac_sig(
                        secret@,
                        spec_signing_input(c),
                    ));
                    assert(false);
                }
            }
        }
        return Err(CredentialError::SignatureOrExpiryInvalid);
    }
    proof {
        // every record whose canonical token this is, is the record read
        assert forall|c: GameDataToken| token@ == #[trigger] spec_jwt_bytes(secret@, c) implies c
            == claims by {
            lemma_jwt_structure(token@, secret@, c);
            lemma_two_dots_pin(
                token@,
                d1 as int,
                d2 as int,
                spec_b64url(spec_header_json()).len() as int,
                (spec_b64url(spec_header_json()).len() + 1 + spec_b64url(
                    spec_claims_json(c),
                ).len()) as int,
            );
            assert(token@.subrange(d1 + 1, d2 as int) == spec_b64url(spec_claims_json(c)));
            assert(payload@ == spec_claims_json(c));
        }
    }
    if now > claims.exp {
        return Err(CredentialError::SignatureOrExpiryInvalid);
    }
    if claims.sub != expected {
        return Err(CredentialError::WrongSubjectKind);
    }
    proof {
        // reassemble the token from its checked segments
        let a = spec_b64url(spec_header_json());
        let p = spec_b64url(payload@);
        let s = encode_utf8(signature@);
        lemma_assemble5(token@, d1 as int, d2 as int, a, p, s);
        if payload@ == spec_claims_json(claims) {
            assert(token@.subrange(0, d2 as int) =~= spec_signing_input(claims));
            assert(token@ =~= spec_jwt_bytes(secret@, claims));
        } else {
            assert(token@.subrange(0, d2 as int) =~= spec_signing_input_compact(claims));
            assert(token@ =~= spec_jwt_bytes_compact(secret@, claims));
        }
    }
    Ok(claims)
}

/// Two first-dot/second-dot descriptions of the same text agree.
proof fn lemma_two_dots_pin(t: Seq<u8>, d1: int, d2: int, e1: int, e2: int)
    requires
        0 <= d1 < d2 < t.len(),
        0 <= e1 < e2 < t.len(),
        t[d1] == 46,
        t[d2] == 46,
        t[e1] == 46,
        t[e2] == 46,
        forall|i: int| 0 <= i < d1 ==> t[i] != 46,
        forall|i: int| d1 < i < d2 ==> t[i] != 46,
        forall|i: int| 0 <= i < e1 ==> t[i] != 46,
        forall|i: int| e1 < i < e2 ==> t[i] != 46,
    ensures
        d1 == e1,
        d2 == e2,
{
}

/// Where the three segments of a canonical signed token stand inside it,
/// and that its first two dots are exactly the separators.
proof fn lemma_jwt_structure(t: Seq<u8>, secret: Seq<u8>, c: GameDataToken)
    requires
        t == spec_jwt_bytes(secret, c),
    ensures
        ({
            let a = spec_b64url(spec_header_json());
            let p = spec_b64url(spec_claims_json(c));
            let s = spec_hmac_sig(secret, spec_signing_input(c));
            let d1 = a.len() as int;
            let d2 = a.len() + 1 + p.len() as int;
            &&& t.len() == d2 + 1 + s.len()
            &&& 0 <= d1 < d2 < t.len()
            &&& t[d1] == 46
            &&& t[d2] == 46
            &&& forall|i: int| 0 <= i < d1 ==> t[i] != 46
            &&& forall|i: int| d1 < i < d2 ==> t[i] != 46
            &&& t.subrange(0, d1) == a
            &&& t.subrange(d1 + 1, d2) == p
            &&& t.subrange(0, d2) == spec_signing_input(c)
            &&& t.subrange(d2 + 1, t.len() as int) == s
        }),
{
    let a = spec_b64url(spec_header_json());
    let p = spec_b64url(spec_claims_json(c));
    let s = spec_hmac_sig(secret, spec_signing_input(c));
    let d1 = a.len() as int;
    let d2 = a.len() + 1 + p.len() as int;
    assert(t.len() == d2 + 1 + s.len());
    assert(t.subrange(0, d1) =~= a);
    assert(t.subrange(d1 + 1, d2) =~= p);
    assert(t.subrange(0, d2) =~= spec_signing_input(c));
    assert(t.subrange(d2 + 1, t.len() as int) =~= s);
    lemma_b64url_alphabet(spec_header_json());
    lemma_b64url_alphabet(spec_claims_json(c));
    assert forall|i: int| 0 <= i < d1 implies t[i] != 46 by {
        assert(t[i] == a[i]);
        assert(is_b64url_byte(a[i]));
    }
    assert forall|i: int| d1 < i < d2 implies t[i] != 46 by {
        assert(t[i] == p[i - d1 - 1]);
        assert(is_b64url_byte(p[i - d1 - 1]));
    }
}

/// Reassembles a token text from its three segments and two dots.
proof fn lemma_assemble5(t: Seq<u8>, d1: int, d2: int, a: Seq<u8>, p: Seq<u8>, s: Seq<u8>)
    requires
        0 <= d1 < d2 < t.len(),
        d1 == a.len(),
        d2 == d1 + 1 + p.len(),
        t.len() == d2 + 1 + s.len(),
        t.subrange(0, d1) == a,
        t[d1] == 46,
        t.subrange(d1 + 1, d2) == p,
        t[d2] == 46,
        t.subrange(d2 + 1, t.len() as int) == s,
    ensures
        t.subrange(0, d2) == a + seq![46u8] + p,
        t == a + seq![46u8] + p + seq![46u8] + s,
{
    assert forall|j: int| 0 <= j < d2 implies t.subrange(0, d2)[j] == (a + seq![46u8] + p)[j] by {
        assert(t.subrange(0, d2)[j] == t[j]);
        if j < d1 {
            assert(t.subrange(0, d1)[j] == t[j]);
        } else if j > d1 {
            assert(t.subrange(d1 + 1, d2)[j - d1 - 1] == t[j]);
        }
    }
    assert(t.subrange(0, d2) =~= a + seq![46u8] + p);
    assert forall|j: int| 0 <= j < t.len() implies t[j] == (a + seq![46u8] + p + seq![46u8]
        + s)[j] by {
        if j < d2 {
            assert(t.subrange(0, d2)[j] == t[j]);
        } else if j > d2 {
            assert(t.subrange(d2 + 1, t.len() as int)[j - d2 - 1] == t[j]);
        }
    }
    assert(t =~= a + seq![46u8] + p + seq![46u8] + s);
}

/// The UTF-8 bytes of the `Bearer ` scheme prefix of an authorization
/// header.
pub open spec fn spec_bearer_prefix() -> Seq<u8> {
    "Bearer ".spec_bytes()
}

/// Checks the bearer credential of an authorization header: no header
/// means no credential; a header without the `Bearer ` scheme is
/// malformed; otherwise what follows the scheme is checked by
/// `verify_at` against the secret, the expected subject kind and the
/// clock reading.
pub fn validate_token(header: Option<&str>, secret: &[u8], expected: TokenKind, now: u64) -> (r:
    Result<GameDataToken, CredentialError>)
    ensures
        header is None ==> r == Err::<GameDataToken, CredentialError>(
            CredentialError::MissingCredential,
        ),
        (header is Some && !(header->0.spec_bytes().len() >= 7 && header->0.spec_bytes().subrange(
            0,
            7,
        ) == spec_bearer_prefix())) ==> r == Err::<GameDataToken, CredentialError>(
            CredentialError::MalformedCredential,
        ),
        forall|c: GameDataToken|
            (header is Some && header->0.spec_bytes().len() >= 7 && header->0.spec_bytes()
                .subrange(0, 7) == spec_bearer_prefix() && header->0.spec_bytes().skip(7)
                == #[trigger] spec_jwt_bytes(secret@, c)) ==> {
                &&& (c.sub == expected && now <= c.exp) ==> r == Ok::<
                    GameDataToken,
                    CredentialError,
                >(c)
                &&& now > c.exp ==> r == Err::<GameDataToken, CredentialError>(
                    CredentialError::SignatureOrExpiryInvalid,
                )
                &&& (c.sub != expected && now <= c.exp) ==> r == Err::<
                    GameDataToken,
                    CredentialError,
                >(CredentialError::WrongSubjectKind)
            },
        r is Ok ==> ({
            let c = r->Ok_0;
            &&& c.sub == expected
            &&& now <= c.exp
        }),
{
    let h = match header {
        Some(h) => h,
        None => {
            return Err(CredentialError::MissingCredential);
        },
    };
    let hb = h.as_bytes();
    if hb.len() < 7 || !compare_bytes(&hb[0..7], "Bearer ".as_bytes()) {
        proof {
            if hb@.len() >= 7 {
                assert(hb@.subrange(0, 7) != spec_bearer_prefix());
            }
        }
        return Err(CredentialError::MalformedCredential);
    }
    let token = &hb[7..hb.len()];
    proof {
        assert(token@ =~= h.spec_bytes().skip(7));
    }
    verify_at(secret, token, expected, now)
}

} // verus!
