//! Logging in again when the cookie token expired: the login request's
//! headers and encrypted credentials, and the token taken out of the reply's
//! `Set-Cookie` headers.

use vstd::prelude::*;

use base64::Engine;
use rsa::pkcs8::DecodePublicKey;

use crate::structs::{opt_text, pairs_view};
use crate::text::{contains_seq, occurs_at};
use vstd::arithmetic::power::pow;
use vstd::string::StringSliceAdditionalSpecFns;

verus! {

#[verifier::external_type_specification]
#[verifier::external_body]
pub struct ExRsaPublicKey(rsa::RsaPublicKey);

#[verifier::external_type_specification]
#[verifier::external_body]
pub struct ExSpkiError(rsa::pkcs8::spki::Error);

#[verifier::external_type_specification]
#[verifier::external_body]
pub struct ExRsaError(rsa::Error);

/// Why the credentials could not be encrypted.
pub enum CryptoError {
    /// The public key could not be read from its PEM text.
    InvalidKey,
    /// The RSA encryption failed.
    Encryption,
}

/// The Base64 digit of the six-bit value `v`: `A`-`Z`, `a`-`z`, `0`-`9`, `+`, `/`.
pub open spec fn base64_digit(v: int) -> char {
    if v < 26 {
        (65 + v) as char
    } else if v < 52 {
        (97 + v - 26) as char
    } else if v < 62 {
        (48 + v - 52) as char
    } else if v == 62 {
        '+'
    } else {
        '/'
    }
}

/// Standard Base64 with padding, as
/// `base64::engine::general_purpose::STANDARD.encode` writes `bytes`: each
/// three bytes as four digits of six bits, a last one or two bytes padded
/// with `=` to four characters.
pub open spec fn base64_standard(bytes: Seq<u8>) -> Seq<char>
    decreases bytes.len(),
{
    if bytes.len() == 0 {
        Seq::empty()
    } else if bytes.len() == 1 {
        let b0 = bytes[0] as int;
        seq![base64_digit(b0 / 4), base64_digit((b0 % 4) * 16), '=', '=']
    } else if bytes.len() == 2 {
        let b0 = bytes[0] as int;
        let b1 = bytes[1] as int;
        seq![
            base64_digit(b0 / 4),
            base64_digit((b0 % 4) * 16 + b1 / 16),
            base64_digit((b1 % 16) * 4),
            '=',
        ]
    } else {
        let b0 = bytes[0] as int;
        let b1 = bytes[1] as int;
        let b2 = bytes[2] as int;
        seq![
            base64_digit(b0 / 4),
            base64_digit((b0 % 4) * 16 + b1 / 16),
            base64_digit((b1 % 16) * 4 + b2 / 64),
            base64_digit(b2 % 64),
        ] + base64_standard(bytes.skip(3))
    }
}

/// What the first capture group of the regular expression `pattern` holds
/// in the leftmost match of it in `haystack`, as the `regex` crate finds it;
/// `None` where the pattern does not compile, does not match, or the group
/// takes no part in the match.
pub uninterp spec fn regex_first_group(pattern: Seq<char>, haystack: Seq<char>) -> Option<
    Seq<char>,
>;

/// The RSA public key that `pem` encodes, as
/// `rsa::RsaPublicKey::from_public_key_pem` reads it: its modulus size in
/// bytes, and its modulus and public exponent as big-endian bytes; `None`
/// where the text encodes no valid key.
pub uninterp spec fn pem_rsa_key(pem: Seq<char>) -> Option<(nat, Seq<u8>, Seq<u8>)>;

/// The number that big-endian `bytes` write.
pub open spec fn big_endian(bytes: Seq<u8>) -> nat
    decreases bytes.len(),
{
    if bytes.len() == 0 {
        0
    } else {
        big_endian(bytes.drop_last()) * 256 + (bytes.last() as nat)
    }
}

/// An RSA public key, with its modulus size in bytes, and its modulus and
/// public exponent as big-endian bytes. The fields are private: only
/// `public_key_from_pem` makes a key, and it takes the three plain values
/// from the key it read.
pub struct PublicKey {
    key: rsa::RsaPublicKey,
    size: usize,
    modulus: Vec<u8>,
    exponent: Vec<u8>,
}

/// Reads an RSA public key from its PEM text with
/// `rsa::RsaPublicKey::from_public_key_pem`, and takes its modulus size
/// (`PublicKeyParts::size`), modulus and exponent (`PublicKeyParts::n`, `e`,
/// `BigUint::to_bytes_be`). The modulus's bytes, written without leading
/// zeros, number the modulus size. An error comes back where the text is no
/// valid key.
#[verifier::external_body]
fn public_key_from_pem(pem: &str) -> (r: Result<PublicKey, rsa::pkcs8::spki::Error>)
    ensures
        match r {
            Ok(k) => pem_rsa_key(pem@) == Some((k.size as nat, k.modulus@, k.exponent@))
                && k.modulus@.len() == k.size,
            Err(_) => pem_rsa_key(pem@) is None,
        },
{
    let key = rsa::RsaPublicKey::from_public_key_pem(pem)?;
    let size = rsa::traits::PublicKeyParts::size(&key);
    let modulus = rsa::traits::PublicKeyParts::n(&key).to_bytes_be();
    let exponent = rsa::traits::PublicKeyParts::e(&key).to_bytes_be();
    Ok(PublicKey { key, size, modulus, exponent })
}

/// `c` is a PKCS#1 v1.5 encryption of `msg` under the key of modulus size
/// `size`, modulus `modulus` and exponent `exponent`: `c` has the key's size,
/// and is the number `m ^ e mod n` for the block `00 02 PS 00 msg` of the
/// key's size, whose padding `PS` holds no zero byte.
pub open spec fn pkcs1v15_ciphertext(
    c: Seq<u8>,
    msg: Seq<u8>,
    size: nat,
    modulus: Seq<u8>,
    exponent: Seq<u8>,
) -> bool {
    &&& c.len() == size
    &&& exists|ps: Seq<u8>|
        {
            &&& ps.len() + msg.len() + 3 == size
            &&& forall|i: int| 0 <= i < ps.len() ==> ps[i] != 0u8
            &&& big_endian(c) == pow(
                big_endian(seq![0u8, 2u8] + ps + seq![0u8] + msg) as int,
                big_endian(exponent),
            ) % (big_endian(modulus) as int)
        }
}

/// Encrypts `msg` under `key` with PKCS#1 v1.5 padding, by
/// `rsa::RsaPublicKey::encrypt` with a fresh `rand::thread_rng()`. The crate
/// refuses a message longer than the modulus size less 11 bytes (a key read
/// from PEM passed the crate's key checks already); else it pads the message
/// with random non-zero bytes, raises the block to the exponent modulo the
/// modulus, and writes the result in the key's size. Which padding is drawn
/// is random and is not stated.
#[verifier::external_body]
fn rsa_encrypt(key: &PublicKey, msg: &[u8]) -> (r: Result<Vec<u8>, rsa::Error>)
    ensures
        r is Ok <==> msg@.len() + 11 <= key.size,
        r matches Ok(c) ==> pkcs1v15_ciphertext(
            c@,
            msg@,
            key.size as nat,
            key.modulus@,
            key.exponent@,
        ),
{
    key.key.encrypt(&mut rand::thread_rng(), rsa::Pkcs1v15Encrypt, msg)
}

/// Standard, padded Base64 of `bytes`, by
/// `base64::engine::general_purpose::STANDARD.encode`: four characters for
/// each three bytes or part of them, as `base64_standard` spells out.
#[verifier::external_body]
fn base64_encode(bytes: &[u8]) -> (s: String)
    ensures
        s@ == base64_standard(bytes@),
        s@.len() == 4 * ((bytes@.len() + 2) / 3),
{
    base64::engine::general_purpose::STANDARD.encode(bytes)
}

/// The number of characters other than `;` in `h` from position `j` on,
/// up to the first `;` or the end.
pub open spec fn run_to_semicolon(h: Seq<char>, j: int) -> nat
    decreases h.len() - j,
{
    if j < 0 || j >= h.len() || h[j] == ';' {
        0
    } else {
        1 + run_to_semicolon(h, j + 1)
    }
}

/// A match of the token pattern `cookie_token_v2=([^;]+)` starts at `i` in
/// `h`: the cookie's name and `=` stand there, followed by a character other
/// than `;`.
pub open spec fn token_match_at(h: Seq<char>, i: int) -> bool {
    &&& occurs_at(h, "cookie_token_v2="@, i)
    &&& i + 16 < h.len()
    &&& h[i + 16] != ';'
}

/// What the group of `cookie_token_v2=([^;]+)` holds in its leftmost match in
/// `h`: the longest run of characters other than `;` after the leftmost
/// `cookie_token_v2=` that a character other than `;` follows.
pub open spec fn leftmost_token(h: Seq<char>) -> Option<Seq<char>> {
    if exists|i: int| token_match_at(h, i) {
        let i = choose|i: int|
            token_match_at(h, i) && forall|k: int| 0 <= k < i ==> !token_match_at(h, k);
        Some(h.subrange(i + 16, i + 16 + run_to_semicolon(h, i + 16)))
    } else {
        None
    }
}

/// The first capture group of `pattern` in its leftmost match in `haystack`,
/// by `regex::Regex::new`, `Regex::captures`, `Captures::get(1)` and
/// `Match::as_str`; the group is a piece of `haystack`. For the pattern
/// `cookie_token_v2=([^;]+)` the crate's leftmost-first, greedy matching gives
/// `leftmost_token`.
#[verifier::external_body]
fn regex_capture(pattern: &str, haystack: &str) -> (r: Option<String>)
    ensures
        match r {
            Some(t) => regex_first_group(pattern@, haystack@) == Some(t@) && contains_seq(
                haystack@,
                t@,
            ),
            None => regex_first_group(pattern@, haystack@) is None,
        },
        pattern@ == "cookie_token_v2=([^;]+)"@ ==> opt_text(r) == leftmost_token(haystack@),
{
    let re = match regex::Regex::new(pattern) {
        Ok(re) => re,
        Err(_) => return None,
    };
    let caps = re.captures(haystack)?;
    let m = caps.get(1)?;
    Some(m.as_str().to_string())
}

/// A lower-case hexadecimal digit.
pub open spec fn is_lower_hex(c: char) -> bool {
    ('0' <= c <= '9') || ('a' <= c <= 'f')
}

/// The text of a random version-4 UUID in its hyphenated lower-case form.
pub open spec fn is_uuid_v4_text(s: Seq<char>) -> bool {
    &&& s.len() == 36
    &&& forall|i: int|
        0 <= i < 36 ==> if i == 8 || i == 13 || i == 18 || i == 23 {
            s[i] == '-'
        } else {
            is_lower_hex(#[trigger] s[i])
        }
    &&& s[14] == '4'
    &&& (s[19] == '8' || s[19] == '9' || s[19] == 'a' || s[19] == 'b')
}

/// A fresh device id for the login request: `uuid::Uuid::new_v4()` written
/// by its `Display`, hyphenated and in lower case, with the version digit 4
/// and the RFC 4122 variant. Which id comes out is random and is not stated.
#[verifier::external_body]
pub fn random_device_id() -> (id: String)
    ensures
        is_uuid_v4_text(id@),
{
    uuid::Uuid::new_v4().to_string()
}

/// The PEM text of the public key under which the login API takes the
/// account and password.
pub open spec fn login_key_pem() -> Seq<char> {
    "-----BEGIN PUBLIC KEY-----
MIIBIjANBgkqhkiG9w0BAQEFAAOCAQ8AMIIBCgKCAQEA4PMS2JVMwBsOIrYWRluY
wEiFZL7Aphtm9z5Eu/anzJ09nB00uhW+ScrDWFECPwpQto/GlOJYCUwVM/raQpAj
/xvcjK5tNVzzK94mhk+j9RiQ+aWHaTXmOgurhxSp3YbwlRDvOgcq5yPiTz0+kSeK
ZJcGeJ95bvJ+hJ/UMP0Zx2qB5PElZmiKvfiNqVUk8A8oxLJdBB5eCpqWV6CUqDKQ
KSQP4sM0mZvQ1Sr4UcACVcYgYnCbTZMWhJTWkrNXqI8TMomekgny3y+d6NX/cFa6
6jozFIF4HCX5aW8bp8C8vq2tFvFbleQ/Q3CU56EWWKMrOcpmFtRmC18s9biZBVR/
8QIDAQAB
-----END PUBLIC KEY-----"@
}

/// The login API's public key (size, modulus, exponent), if its text encodes
/// a valid key.
pub open spec fn login_key() -> Option<(nat, Seq<u8>, Seq<u8>)> {
    pem_rsa_key(login_key_pem())
}

/// `s` is the Base64 text of a PKCS#1 v1.5 encryption of `msg` under `key`.
pub open spec fn encrypts(s: Seq<char>, msg: Seq<u8>, key: (nat, Seq<u8>, Seq<u8>)) -> bool {
    &&& s.len() == 4 * ((key.0 + 2) / 3)
    &&& exists|c: Seq<u8>|
        pkcs1v15_ciphertext(c, msg, key.0, key.1, key.2) && s == base64_standard(c)
}

/// The PEM text of the public key under which the login API takes the
/// account and password.
fn login_public_key() -> (pem: &'static str)
    ensures
        pem@ == login_key_pem(),
{
    "-----BEGIN PUBLIC KEY-----
MIIBIjANBgkqhkiG9w0BAQEFAAOCAQ8AMIIBCgKCAQEA4PMS2JVMwBsOIrYWRluY
wEiFZL7Aphtm9z5Eu/anzJ09nB00uhW+ScrDWFECPwpQto/GlOJYCUwVM/raQpAj
/xvcjK5tNVzzK94mhk+j9RiQ+aWHaTXmOgurhxSp3YbwlRDvOgcq5yPiTz0+kSeK
ZJcGeJ95bvJ+hJ/UMP0Zx2qB5PElZmiKvfiNqVUk8A8oxLJdBB5eCpqWV6CUqDKQ
KSQP4sM0mZvQ1Sr4UcACVcYgYnCbTZMWhJTWkrNXqI8TMomekgny3y+d6NX/cFa6
6jozFIF4HCX5aW8bp8C8vq2tFvFbleQ/Q3CU56EWWKMrOcpmFtRmC18s9biZBVR/
8QIDAQAB
-----END PUBLIC KEY-----"
}

/// What encrypting the credential `msg` gives: the key error where the login
/// key is no valid key; else, where the credential fits the key (at most its
/// size less 11 bytes), the Base64 of an encryption of the credential under
/// the key, and the encryption error where it does not fit.
pub open spec fn encryption_outcome(r: Result<String, CryptoError>, msg: Seq<u8>) -> bool {
    match login_key() {
        None => r matches Err(CryptoError::InvalidKey),
        Some(key) => if msg.len() + 11 <= key.0 {
            r matches Ok(s) && encrypts(s@, msg, key)
        } else {
            r matches Err(CryptoError::Encryption)
        },
    }
}

/// Encrypts a credential for the login request: RSA with PKCS#1 v1.5 padding
/// under the login API's public key, then standard Base64. The ciphertext is
/// random; which one comes out is not stated.
pub fn encrypt(message: &str) -> (r: Result<String, CryptoError>)
    ensures
        encryption_outcome(r, message.spec_bytes()),
{
    let key = match public_key_from_pem(login_public_key()) {
        Ok(k) => k,
        Err(_) => return Err(CryptoError::InvalidKey),
    };
    let cipher = match rsa_encrypt(&key, message.as_bytes()) {
        Ok(c) => c,
        Err(_) => return Err(CryptoError::Encryption),
    };
    let s = base64_encode(cipher.as_slice());
    assert(s@ == base64_standard(cipher@));
    Ok(s)
}

/// The body of the login request: the encrypted account and password, and
/// the kind of token asked for.
pub struct LoginRequest {
    pub account: String,
    pub password: String,
    pub token_type: i64,
}

/// The body of the login request for `account` and `password`: each the
/// Base64 of an encryption of its own credential, and token type 6, where the
/// login key is valid and both credentials fit it; else the key error, or the
/// encryption error.
pub fn login_request(account: &str, password: &str) -> (r: Result<LoginRequest, CryptoError>)
    ensures
        match login_key() {
            None => r matches Err(CryptoError::InvalidKey),
            Some(key) => if account.spec_bytes().len() + 11 <= key.0 && password.spec_bytes().len()
                + 11 <= key.0 {
                r matches Ok(req) && {
                    &&& encrypts(req.account@, account.spec_bytes(), key)
                    &&& encrypts(req.password@, password.spec_bytes(), key)
                    &&& req.token_type == 6
                }
            } else {
                r matches Err(CryptoError::Encryption)
            },
        },
{
    let account = encrypt(account)?;
    let password = encrypt(password)?;
    Ok(LoginRequest { account, password, token_type: 6 })
}

/// The headers of the login request, in order.
pub open spec fn login_headers_spec(device_id: Seq<char>) -> Seq<(Seq<char>, Seq<char>)> {
    seq![
        ("x-rpc-app_id"@, "c9oqaq3s3gu8"@),
        ("x-rpc-client_type"@, "4"@),
        ("x-rpc-sdk_version"@, "2.14.1"@),
        ("x-rpc-game_biz"@, "bbs_oversea"@),
        ("x-rpc-source"@, "v2.webLogin"@),
        ("x-rpc-referrer"@, "https://www.hoyolab.com"@),
        ("Origin"@, "https://account.hoyolab.com"@),
        ("Referer"@, "https://account.hoyolab.com/"@),
        ("x-rpc-device_id"@, device_id),
    ]
}

fn text_pair(a: &str, b: &str) -> (p: (String, String))
    ensures
        p.0@ == a@,
        p.1@ == b@,
{
    (String::from_str(a), String::from_str(b))
}

/// The headers of the login request sent from the device `device_id`.
pub fn login_headers(device_id: &str) -> (h: Vec<(String, String)>)
    ensures
        pairs_view(h@) == login_headers_spec(device_id@),
{
    let mut h = Vec::new();
    h.push(text_pair("x-rpc-app_id", "c9oqaq3s3gu8"));
    h.push(text_pair("x-rpc-client_type", "4"));
    h.push(text_pair("x-rpc-sdk_version", "2.14.1"));
    h.push(text_pair("x-rpc-game_biz", "bbs_oversea"));
    h.push(text_pair("x-rpc-source", "v2.webLogin"));
    h.push(text_pair("x-rpc-referrer", "https://www.hoyolab.com"));
    h.push(text_pair("Origin", "https://account.hoyolab.com"));
    h.push(text_pair("Referer", "https://account.hoyolab.com/"));
    h.push(text_pair("x-rpc-device_id", device_id));
    assert(pairs_view(h@) =~= login_headers_spec(device_id@));
    h
}

/// The name of the cookie that holds the token.
pub open spec fn token_cookie() -> Seq<char> {
    "cookie_token_v2"@
}

/// The token that a `Set-Cookie` header sets, if it names the token cookie:
/// what follows the leftmost `cookie_token_v2=` that is not followed by `;`,
/// up to the next `;`.
pub open spec fn cookie_token(header: Seq<char>) -> Option<Seq<char>> {
    if contains_seq(header, token_cookie()) {
        leftmost_token(header)
    } else {
        None
    }
}

proof fn lemma_run_to_semicolon(h: Seq<char>, start: int, len: nat, j: int)
    requires
        0 <= start,
        start <= j <= start + len,
        start + len <= h.len(),
        forall|k: int| start <= k < start + len ==> h[k] != ';',
        start + len == h.len() || h[start + len] == ';',
    ensures
        run_to_semicolon(h, j) == start + len - j,
    decreases start + len - j,
{
    if j < start + len {
        lemma_run_to_semicolon(h, start, len, j + 1);
    }
}

proof fn lemma_token_of_value(h: Seq<char>, v: Seq<char>, tail: Seq<char>)
    requires
        h == "cookie_token_v2="@ + v + tail,
        v.len() > 0,
        forall|i: int| 0 <= i < v.len() ==> v[i] != ';',
        tail.len() == 0 || tail[0] == ';',
    ensures
        cookie_token(h) == Some(v),
{
    reveal_strlit("cookie_token_v2=");
    reveal_strlit("cookie_token_v2");
    let p = "cookie_token_v2="@;
    assert(p.len() == 16);
    assert(h.subrange(0, 16) =~= p);
    assert(h[16] == v[0]);
    assert(token_match_at(h, 0));
    assert(h.subrange(0, 15) =~= "cookie_token_v2"@);
    assert(occurs_at(h, token_cookie(), 0));
    assert(contains_seq(h, token_cookie()));
    let i = choose|i: int| token_match_at(h, i) && forall|k: int| 0 <= k < i ==> !token_match_at(h, k);
    assert(i == 0) by {
        if i > 0 {
            assert(!token_match_at(h, 0));
        }
    }
    assert forall|k: int| 16 <= k < 16 + v.len() implies h[k] != ';' by {
        assert(h[k] == v[k - 16]);
    }
    if tail.len() > 0 {
        assert(h[16 + v.len() as int] == tail[0]);
    }
    lemma_run_to_semicolon(h, 16, v.len(), 16);
    assert(h.subrange(16, 16 + v.len() as int) =~= v);
}

/// A `Set-Cookie` header that begins with `cookie_token_v2=` and a value with
/// no `;` sets that whole value as the token, whether the value ends the
/// header or a `;` and more attributes follow it.
pub proof fn lemma_cookie_token_whole_value(v: Seq<char>, rest: Seq<char>)
    requires
        v.len() > 0,
        forall|i: int| 0 <= i < v.len() ==> v[i] != ';',
    ensures
        cookie_token("cookie_token_v2="@ + v + ";"@ + rest) == Some(v),
        cookie_token("cookie_token_v2="@ + v) == Some(v),
{
    lemma_cookie_token_value_then_attributes(v, rest);
    assert("cookie_token_v2="@ + v + Seq::<char>::empty() =~= "cookie_token_v2="@ + v);
    lemma_token_of_value("cookie_token_v2="@ + v, v, Seq::empty());
}

proof fn lemma_cookie_token_value_then_attributes(v: Seq<char>, rest: Seq<char>)
    requires
        v.len() > 0,
        forall|i: int| 0 <= i < v.len() ==> v[i] != ';',
    ensures
        cookie_token("cookie_token_v2="@ + v + ";"@ + rest) == Some(v),
{
    reveal_strlit(";");
    let tail = ";"@ + rest;
    assert(tail[0] == ';');
    let b = "cookie_token_v2="@ + v + ";"@ + rest;
    assert(b =~= "cookie_token_v2="@ + v + tail);
    lemma_token_of_value(b, v, tail);
}

/// The token that one `Set-Cookie` header of the login reply sets, if any.
pub fn cookie_token_in(header: &str) -> (t: Option<String>)
    ensures
        match t {
            Some(s) => cookie_token(header@) == Some(s@) && contains_seq(header@, s@),
            None => cookie_token(header@) is None,
        },
{
    if crate::text::contains(header, "cookie_token_v2") {
        regex_capture("cookie_token_v2=([^;]+)", header)
    } else {
        None
    }
}

/// A `Set-Cookie` header of the login reply that is not visible ASCII text.
pub struct UnreadableHeader;

/// The views of a list of header texts, `None` where a header is unreadable.
pub open spec fn header_texts(v: Seq<Option<String>>) -> Seq<Option<Seq<char>>> {
    v.map_values(|h: Option<String>| opt_text(h))
}

/// The token that the first header setting one gives, going through the
/// headers in order: `Some(None)` where none sets one, and `None` where an
/// unreadable header comes before the first that sets one.
pub open spec fn first_token(headers: Seq<Option<Seq<char>>>) -> Option<Option<Seq<char>>>
    decreases headers.len(),
{
    if headers.len() == 0 {
        Some(None)
    } else {
        match headers[0] {
            None => None,
            Some(h) => match cookie_token(h) {
                Some(t) => Some(Some(t)),
                None => first_token(headers.drop_first()),
            },
        }
    }
}

/// The token of the login reply, from its `Set-Cookie` headers in order
/// (`None` for a header that is not visible ASCII text): the token of the
/// first header that sets one, or an error where an unreadable header comes
/// before it.
pub fn first_cookie_token(headers: &Vec<Option<String>>) -> (r: Result<
    Option<String>,
    UnreadableHeader,
>)
    ensures
        match r {
            Ok(Some(t)) => first_token(header_texts(headers@)) == Some(Some(t@)),
            Ok(None) => first_token(header_texts(headers@)) == Some(None::<Seq<char>>),
            Err(_) => first_token(header_texts(headers@)) is None,
        },
{
    let ghost hs = header_texts(headers@);
    let mut i: usize = 0;
    assert(hs.skip(0) =~= hs);
    while i < headers.len()
        invariant
            hs == header_texts(headers@),
            i <= headers.len(),
            first_token(hs) == first_token(hs.skip(i as int)),
        decreases headers.len() - i,
    {
        let ghost rest = hs.skip(i as int);
        assert(rest[0] == opt_text(headers@[i as int]));
        assert(rest.drop_first() =~= hs.skip(i + 1));
        match &headers[i] {
            None => {
                return Err(UnreadableHeader);
            },
            Some(h) => {
                if let Some(t) = cookie_token_in(h.as_str()) {
                    return Ok(Some(t));
                }
            },
        }
        i = i + 1;
    }
    assert(hs.skip(i as int) =~= Seq::<Option<Seq<char>>>::empty());
    Ok(None)
}

} // verus!
