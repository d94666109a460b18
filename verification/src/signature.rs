//! HTTP Signatures (draft-cavage-http-signatures) for ActivityPub federation.
//!
//! This module is runtime-agnostic: it works with plain byte slices and
//! `(name, value)` header pairs, so it can be used with any HTTP framework.
//! Digests, Base64, URL parsing and RSA are computed by outside crates; the
//! assembly and checking of headers and signing strings is this module's own.

use vstd::prelude::*;
use vstd::string::StrSliceExecFns;

use crate::text::{
    find_char, find_char_index, has_prefix, is_space, join_lines, lemma_find_char,
    lemma_split_on_concat, lemma_split_on_no_sep, lemma_split_ws_space, lemma_split_ws_word,
    lemma_strip_noop, lemma_trim_quotes_quoted, split_on, split_on_char, split_whitespace,
    split_ws, starts_with, str_eq, str_views, strip, trim, trim_quotes,
};

verus! {

// ---------------------------------------------------------------------------
// Results of outside computations.
// ---------------------------------------------------------------------------

/// The SHA-256 digest of `data`, as `sha2` computes it.
pub uninterp spec fn sha256_digest(data: Seq<u8>) -> Seq<u8>;

/// The character of the standard Base64 alphabet for the six-bit value `v`.
pub open spec fn base64_char(v: int) -> char {
    if v < 26 {
        (65 + v) as char
    } else if v < 52 {
        (97 + v - 26) as char
    } else if v < 62 {
        (48 + v - 52) as char
    } else if v == 62 {
        '+'
    } else {
        '/'
    }
}

/// The standard, padded Base64 encoding of `data` (RFC 4648): each group
/// of three bytes becomes four characters, and a last group of one or two
/// bytes is padded with `=` to four.
pub open spec fn base64_encoded(data: Seq<u8>) -> Seq<char>
    decreases data.len(),
{
    if data.len() == 0 {
        Seq::empty()
    } else if data.len() == 1 {
        let a = data[0] as int;
        seq![base64_char(a / 4), base64_char((a % 4) * 16), '=', '=']
    } else if data.len() == 2 {
        let a = data[0] as int;
        let b = data[1] as int;
        seq![base64_char(a / 4), base64_char((a % 4) * 16 + b / 16), base64_char((b % 16) * 4), '=']
    } else {
        let a = data[0] as int;
        let b = data[1] as int;
        let c = data[2] as int;
        seq![
            base64_char(a / 4),
            base64_char((a % 4) * 16 + b / 16),
            base64_char((b % 16) * 4 + c / 64),
            base64_char(c % 64),
        ] + base64_encoded(data.subrange(3, data.len() as int))
    }
}

/// The bytes whose standard, padded Base64 encoding is `text`, or `None`
/// where `text` is no such encoding.
pub open spec fn base64_decoded(text: Seq<char>) -> Option<Seq<u8>> {
    if exists|data: Seq<u8>| base64_encoded(data) == text {
        Some(choose|data: Seq<u8>| base64_encoded(data) == text)
    } else {
        None
    }
}

/// The host (if any) and the path of `url`, or `None` where `url` refuses
/// to parse it.
pub uninterp spec fn url_host_and_path(url: Seq<char>) -> Option<(Option<Seq<char>>, Seq<char>)>;

/// The Unicode lowercase of `text`, as `str::to_lowercase` computes it.
pub uninterp spec fn lowercase(text: Seq<char>) -> Seq<char>;

/// The RSASSA-PKCS1-v1_5 SHA-256 signature of the UTF-8 bytes of `message`
/// under the PKCS#8 PEM private key `pem`, or `None` where `rsa` does not
/// read `pem` as such a key or cannot sign with it.
pub uninterp spec fn pkcs8_pem_signature(pem: Seq<char>, message: Seq<char>) -> Option<Seq<u8>>;

/// The RSASSA-PKCS1-v1_5 SHA-256 signature of the UTF-8 bytes of `message`
/// under the PKCS#1 PEM private key `pem`, or `None` where `rsa` does not
/// read `pem` as such a key or cannot sign with it.
pub uninterp spec fn pkcs1_pem_signature(pem: Seq<char>, message: Seq<char>) -> Option<Seq<u8>>;

/// Whether `rsa` reads `pem` as an SPKI PEM RSA public key.
pub uninterp spec fn spki_pem_is_rsa_public_key(pem: Seq<char>) -> bool;

/// Whether `signature` is a valid RSASSA-PKCS1-v1_5 SHA-256 signature of
/// the UTF-8 bytes of `message` under the SPKI PEM public key `pem`, as `rsa`
/// judges it.
pub uninterp spec fn pkcs1v15_sha256_verifies(
    pem: Seq<char>,
    message: Seq<char>,
    signature: Seq<u8>,
) -> bool;

/// `c` belongs to the standard Base64 alphabet or is its padding.
pub open spec fn is_base64_char(c: char) -> bool {
    ||| ('A' <= c && c <= 'Z')
    ||| ('a' <= c && c <= 'z')
    ||| ('0' <= c && c <= '9')
    ||| c == '+'
    ||| c == '/'
    ||| c == '='
}

/// Views of optional byte vectors.
pub open spec fn opt_bytes(v: Option<Vec<u8>>) -> Option<Seq<u8>> {
    match v {
        Some(b) => Some(b@),
        None => None,
    }
}

/// Views of a parsed URL.
pub open spec fn url_parts_view(v: Option<(Option<String>, String)>) -> Option<
    (Option<Seq<char>>, Seq<char>),
> {
    match v {
        Some((host, path)) => Some(
            (
                match host {
                    Some(h) => Some(h@),
                    None => None,
                },
                path@,
            ),
        ),
        None => None,
    }
}

/// Calls `sha2::Sha256::digest`; the contract names the digest and states
/// its documented length of 32 bytes.
#[verifier::external_body]
fn sha256(data: &[u8]) -> (r: Vec<u8>)
    ensures
        r@ == sha256_digest(data@),
        r@.len() == 32,
{
    <sha2::Sha256 as sha2::Digest>::digest(data).to_vec()
}

/// Calls `base64::Engine::encode` with the `STANDARD` engine (standard
/// alphabet, padding on); the contract states that the text is the RFC 4648
/// encoding. The encoder panics only when the encoded length overflows
/// `usize`, which no slice in memory reaches.
#[verifier::external_body]
fn base64_encode(data: &[u8]) -> (r: String)
    ensures
        r@ == base64_encoded(data@),
{
    base64::Engine::encode(&base64::engine::general_purpose::STANDARD, data)
}

/// Calls `base64::Engine::decode` with the `STANDARD` engine, whose
/// configuration requires canonical padding and refuses non-zero trailing
/// bits: it decodes exactly the texts that are encodings of some bytes, to
/// those bytes.
#[verifier::external_body]
fn base64_decode(text: &str) -> (r: Option<Vec<u8>>)
    ensures
        opt_bytes(r) == base64_decoded(text@),
{
    base64::Engine::decode(&base64::engine::general_purpose::STANDARD, text).ok()
}

/// Calls `url::Url::parse`, then `host_str` and `path` on the parsed URL;
/// the contract names the outcome.
#[verifier::external_body]
fn parse_url(url: &str) -> (r: Option<(Option<String>, String)>)
    ensures
        url_parts_view(r) == url_host_and_path(url@),
{
    match url::Url::parse(url) {
        Ok(parsed) => {
            let host = match parsed.host_str() {
                Some(h) => Some(h.to_string()),
                None => None,
            };
            Some((host, parsed.path().to_string()))
        },
        Err(_) => None,
    }
}

/// Calls `str::to_lowercase`; the contract names the result.
#[verifier::external_body]
fn to_lowercase(text: &str) -> (r: String)
    ensures
        r@ == lowercase(text@),
{
    text.to_lowercase()
}

/// Reads `pem` with `rsa::RsaPrivateKey::from_pkcs8_pem` and signs the
/// bytes of `message` with `rsa::pkcs1v15::SigningKey::<Sha256>` through
/// `Signer::try_sign`; the contract names the outcome.
#[verifier::external_body]
fn sign_with_pkcs8_pem(pem: &str, message: &str) -> (r: Option<Vec<u8>>)
    ensures
        opt_bytes(r) == pkcs8_pem_signature(pem@, message@),
{
    let key = <rsa::RsaPrivateKey as rsa::pkcs8::DecodePrivateKey>::from_pkcs8_pem(pem).ok()?;
    let signer = rsa::pkcs1v15::SigningKey::<sha2::Sha256>::new(key);
    let sig = rsa::signature::Signer::try_sign(&signer, message.as_bytes()).ok()?;
    Some(rsa::signature::SignatureEncoding::to_vec(&sig))
}

/// Reads `pem` with `rsa::RsaPrivateKey::from_pkcs1_pem` and signs the
/// bytes of `message` with `rsa::pkcs1v15::SigningKey::<Sha256>` through
/// `Signer::try_sign`; the contract names the outcome.
#[verifier::external_body]
fn sign_with_pkcs1_pem(pem: &str, message: &str) -> (r: Option<Vec<u8>>)
    ensures
        opt_bytes(r) == pkcs1_pem_signature(pem@, message@),
{
    let key = <rsa::RsaPrivateKey as rsa::pkcs1::DecodeRsaPrivateKey>::from_pkcs1_pem(pem).ok()?;
    let signer = rsa::pkcs1v15::SigningKey::<sha2::Sha256>::new(key);
    let sig = rsa::signature::Signer::try_sign(&signer, message.as_bytes()).ok()?;
    Some(rsa::signature::SignatureEncoding::to_vec(&sig))
}

/// Reads `pem` with `rsa::RsaPublicKey::from_public_key_pem` and checks
/// `signature` over the bytes of `message` with
/// `rsa::pkcs1v15::VerifyingKey::<Sha256>` through `Verifier::verify`; the
/// contract names both verdicts: `None` where the key is unreadable, else
/// whether the signature verifies. (`Signature::try_from` on bytes never
/// fails in `rsa`.)
#[verifier::external_body]
fn verify_with_spki_pem(pem: &str, message: &str, signature: &[u8]) -> (r: Option<bool>)
    ensures
        r is Some <==> spki_pem_is_rsa_public_key(pem@),
        r matches Some(verdict) ==> verdict == pkcs1v15_sha256_verifies(pem@, message@, signature@),
{
    let key = <rsa::RsaPublicKey as rsa::pkcs8::DecodePublicKey>::from_public_key_pem(pem).ok()?;
    let verifier = rsa::pkcs1v15::VerifyingKey::<sha2::Sha256>::new(key);
    let sig = match rsa::pkcs1v15::Signature::try_from(signature) {
        Ok(sig) => sig,
        Err(_) => return Some(false),
    };
    Some(rsa::signature::Verifier::verify(&verifier, message.as_bytes(), &sig).is_ok())
}

/// `c` is a decimal digit.
pub open spec fn is_digit(c: char) -> bool {
    '0' <= c && c <= '9'
}

/// `s` is an English three-letter weekday name.
pub open spec fn is_day_name(s: Seq<char>) -> bool {
    ||| s == "Mon"@
    ||| s == "Tue"@
    ||| s == "Wed"@
    ||| s == "Thu"@
    ||| s == "Fri"@
    ||| s == "Sat"@
    ||| s == "Sun"@
}

/// `s` is an English three-letter month name.
pub open spec fn is_month_name(s: Seq<char>) -> bool {
    ||| s == "Jan"@
    ||| s == "Feb"@
    ||| s == "Mar"@
    ||| s == "Apr"@
    ||| s == "May"@
    ||| s == "Jun"@
    ||| s == "Jul"@
    ||| s == "Aug"@
    ||| s == "Sep"@
    ||| s == "Oct"@
    ||| s == "Nov"@
    ||| s == "Dec"@
}

/// `s` is a year as `chrono` writes `%Y`: at least four digits, with a sign
/// before them for years outside 0 to 9999.
pub open spec fn is_year_text(s: Seq<char>) -> bool {
    ||| s.len() >= 4 && forall|i: int| 0 <= i < s.len() ==> is_digit(#[trigger] s[i])
    ||| {
        &&& s.len() >= 5
        &&& (s[0] == '+' || s[0] == '-')
        &&& forall|i: int| 1 <= i < s.len() ==> is_digit(#[trigger] s[i])
    }
}

/// `t` has the shape of an HTTP date, `%a, %d %b %Y %H:%M:%S GMT`, such as
/// `Sun, 06 Nov 1994 08:49:37 GMT`.
pub open spec fn is_http_date(t: Seq<char>) -> bool {
    let n = t.len() as int;
    &&& n >= 29
    &&& is_day_name(t.subrange(0, 3))
    &&& t[3] == ','
    &&& t[4] == ' '
    &&& is_digit(t[5])
    &&& is_digit(t[6])
    &&& t[7] == ' '
    &&& is_month_name(t.subrange(8, 11))
    &&& t[11] == ' '
    &&& is_year_text(t.subrange(12, n - 13))
    &&& t[n - 13] == ' '
    &&& is_digit(t[n - 12])
    &&& is_digit(t[n - 11])
    &&& t[n - 10] == ':'
    &&& is_digit(t[n - 9])
    &&& is_digit(t[n - 8])
    &&& t[n - 7] == ':'
    &&& is_digit(t[n - 6])
    &&& is_digit(t[n - 5])
    &&& t.subrange(n - 4, n) == " GMT"@
}

/// Reads the clock (`chrono::Utc::now`) and formats it with
/// `%a, %d %b %Y %H:%M:%S GMT`. Which date it gives depends on the time of
/// the call; the contract states only the shape every such text has.
#[verifier::external_body]
fn http_date_now() -> (r: String)
    ensures
        is_http_date(r@),
{
    chrono::Utc::now().format("%a, %d %b %Y %H:%M:%S GMT").to_string()
}

// ---------------------------------------------------------------------------
// Public types.
// ---------------------------------------------------------------------------

/// Why signing or verifying failed.
#[derive(Clone, Copy, Debug, PartialEq, Eq, Structural)]
pub enum SignatureError {
    /// The target URL does not parse.
    InvalidUrl,
    /// The private key is neither a PKCS#8 nor a PKCS#1 PEM RSA key, or
    /// cannot sign.
    PrivateKey,
    /// The request has no (or an empty) `Signature` header.
    MissingSignatureHeader,
    /// The `Signature` header has no `signature` field.
    MissingSignatureField,
    /// The `Digest` header does not match the body.
    DigestMismatch,
    /// The `signature` field is not Base64.
    SignatureEncoding,
    /// The public key is not an SPKI PEM RSA key.
    PublicKey,
    /// The signature does not verify.
    VerificationFailed,
}

impl SignatureError {
    /// The sentence that reports the error.
    pub open spec fn message_spec(self) -> Seq<char> {
        match self {
            SignatureError::InvalidUrl => "invalid URL"@,
            SignatureError::PrivateKey => "parse RSA private key"@,
            SignatureError::MissingSignatureHeader => "missing Signature header"@,
            SignatureError::MissingSignatureField => "missing signature field"@,
            SignatureError::DigestMismatch => "body digest mismatch"@,
            SignatureError::SignatureEncoding => "decode base64 signature"@,
            SignatureError::PublicKey => "parse RSA public key"@,
            SignatureError::VerificationFailed => "signature verification failed"@,
        }
    }

    /// The sentence that reports the error.
    pub fn message(&self) -> (r: &'static str)
        ensures
            r@ == self.message_spec(),
    {
        match self {
            SignatureError::InvalidUrl => "invalid URL",
            SignatureError::PrivateKey => "parse RSA private key",
            SignatureError::MissingSignatureHeader => "missing Signature header",
            SignatureError::MissingSignatureField => "missing signature field",
            SignatureError::DigestMismatch => "body digest mismatch",
            SignatureError::SignatureEncoding => "decode base64 signature",
            SignatureError::PublicKey => "parse RSA public key",
            SignatureError::VerificationFailed => "signature verification failed",
        }
    }
}

/// Headers produced by [`sign_request`] that must be attached to the
/// outgoing request.
#[derive(Debug, Clone)]
pub struct SignedHeaders {
    /// Value for the `Signature` header.
    pub signature: String,
    /// Value for the `Date` header.
    pub date: String,
    /// Value for the `Digest` header.
    pub digest: String,
}

impl View for SignedHeaders {
    type V = (Seq<char>, Seq<char>, Seq<char>);

    open spec fn view(&self) -> (Seq<char>, Seq<char>, Seq<char>) {
        (self.signature@, self.date@, self.digest@)
    }
}

/// Views of a signing outcome.
pub open spec fn signed_view(r: Result<SignedHeaders, SignatureError>) -> Result<
    (Seq<char>, Seq<char>, Seq<char>),
    SignatureError,
> {
    match r {
        Ok(h) => Ok(h@),
        Err(e) => Err(e),
    }
}

// ---------------------------------------------------------------------------
// Signing.
// ---------------------------------------------------------------------------

/// The `Digest` header value for `body`.
pub open spec fn digest_header(body: Seq<u8>) -> Seq<char> {
    "SHA-256="@ + base64_encoded(sha256_digest(body))
}

/// The signing string of an outgoing request.
pub open spec fn signing_text(
    method_lower: Seq<char>,
    path: Seq<char>,
    host: Seq<char>,
    date: Seq<char>,
    digest: Seq<char>,
) -> Seq<char> {
    "(request-target): "@ + method_lower + " "@ + path + "\nhost: "@ + host + "\ndate: "@ + date
        + "\ndigest: "@ + digest
}

/// The `Signature` header value for a key identifier and a Base64 signature.
pub open spec fn signature_header(key_id: Seq<char>, signature_b64: Seq<char>) -> Seq<char> {
    "keyId=\""@ + key_id
        + "\",algorithm=\"rsa-sha256\",headers=\"(request-target) host date digest\",signature=\""@
        + signature_b64 + "\""@
}

/// The signature of `message` under a PKCS#8 PEM key, or else under a PKCS#1
/// PEM key.
pub open spec fn private_key_signature(pem: Seq<char>, message: Seq<char>) -> Option<Seq<u8>> {
    match pkcs8_pem_signature(pem, message) {
        Some(signature) => Some(signature),
        None => pkcs1_pem_signature(pem, message),
    }
}

/// The host of a parsed URL, or the empty text where it has none.
pub open spec fn host_text(host: Option<Seq<char>>) -> Seq<char> {
    match host {
        Some(h) => h,
        None => Seq::empty(),
    }
}

/// The path of `url`, where it parses.
pub open spec fn url_path(url: Seq<char>) -> Seq<char> {
    url_host_and_path(url)->Some_0.1
}

/// The signing string of a request with `method` to `url` (where it parses),
/// carrying `body`, dated `date`.
pub open spec fn request_signing_text(
    method: Seq<char>,
    url: Seq<char>,
    body: Seq<u8>,
    date: Seq<char>,
) -> Seq<char> {
    let (host, path) = url_host_and_path(url)->Some_0;
    signing_text(lowercase(method), path, host_text(host), date, digest_header(body))
}

/// The Base64 signature made for that signing string with the key in `pem`,
/// where it can sign.
pub open spec fn request_signature_b64(
    method: Seq<char>,
    url: Seq<char>,
    body: Seq<u8>,
    pem: Seq<char>,
    date: Seq<char>,
) -> Seq<char> {
    base64_encoded(private_key_signature(pem, request_signing_text(method, url, body, date))->Some_0)
}

/// What signing a request gives at the HTTP date `date`: the `Signature`,
/// `Date` and `Digest` header values, or the reason for failing.
pub open spec fn signing_outcome(
    method: Seq<char>,
    url: Seq<char>,
    body: Seq<u8>,
    key_id: Seq<char>,
    pem: Seq<char>,
    date: Seq<char>,
) -> Result<(Seq<char>, Seq<char>, Seq<char>), SignatureError> {
    if url_host_and_path(url) is None {
        Err(SignatureError::InvalidUrl)
    } else {
        match private_key_signature(pem, request_signing_text(method, url, body, date)) {
            None => Err(SignatureError::PrivateKey),
            Some(signature) => Ok(
                (signature_header(key_id, base64_encoded(signature)), date, digest_header(body)),
            ),
        }
    }
}

/// The headers a runtime attaches to a request to `url` that was signed with
/// the `Signature`, `Date` and `Digest` values `signed`: `host`, `date`,
/// `digest` and `signature`, in that order.
pub open spec fn attached_headers(url: Seq<char>, signed: (Seq<char>, Seq<char>, Seq<char>)) -> Seq<
    (Seq<char>, Seq<char>),
> {
    seq![
        ("host"@, host_text(url_host_and_path(url)->Some_0.0)),
        ("date"@, signed.1),
        ("digest"@, signed.2),
        ("signature"@, signed.0),
    ]
}

fn digest_header_for(body: &[u8]) -> (r: String)
    ensures
        r@ == digest_header(body@),
{
    let digest = sha256(body);
    let encoded = base64_encode(digest.as_slice());
    let mut r = String::from_str("SHA-256=");
    r.append(encoded.as_str());
    r
}

/// Signs with the key in `pem`, read as PKCS#8 and else as PKCS#1.
fn sign_with_private_key_pem(pem: &str, message: &str) -> (r: Option<Vec<u8>>)
    ensures
        opt_bytes(r) == private_key_signature(pem@, message@),
{
    match sign_with_pkcs8_pem(pem, message) {
        Some(signature) => Some(signature),
        None => sign_with_pkcs1_pem(pem, message),
    }
}

fn rsa_sign(pem: &str, message: &str) -> (r: Result<String, SignatureError>)
    ensures
        match private_key_signature(pem@, message@) {
            Some(signature) => r matches Ok(s) && s@ == base64_encoded(signature),
            None => r matches Err(e) && e == SignatureError::PrivateKey,
        },
{
    match sign_with_private_key_pem(pem, message) {
        Some(signature) => Ok(base64_encode(signature.as_slice())),
        None => Err(SignatureError::PrivateKey),
    }
}

/// Sign an outgoing HTTP request body using RSA-SHA256, dated `date`.
///
/// `method` is the HTTP method in any case (it is lowercased), `url` the full
/// URL of the target inbox, `body` the serialized activity, `key_id` the
/// `keyId` URI and `private_key_pem` a PKCS#8 or PKCS#1 PEM RSA private key.
pub fn sign_request_at(
    method: &str,
    url: &str,
    body: &[u8],
    key_id: &str,
    private_key_pem: &str,
    date: String,
) -> (r: Result<SignedHeaders, SignatureError>)
    ensures
        signed_view(r) == signing_outcome(method@, url@, body@, key_id@, private_key_pem@, date@),
{
    let digest = digest_header_for(body);
    let (host, path) = match parse_url(url) {
        Some(parts) => parts,
        None => return Err(SignatureError::InvalidUrl),
    };
    let host_text = match host {
        Some(h) => h,
        None => String::new(),
    };
    let method_lower = to_lowercase(method);
    let mut text = String::from_str("(request-target): ");
    text.append(method_lower.as_str());
    text.append(" ");
    text.append(path.as_str());
    text.append("\nhost: ");
    text.append(host_text.as_str());
    text.append("\ndate: ");
    text.append(date.as_str());
    text.append("\ndigest: ");
    text.append(digest.as_str());
    let sig_b64 = rsa_sign(private_key_pem, text.as_str())?;
    let mut signature = String::from_str("keyId=\"");
    signature.append(key_id);
    signature.append(
        "\",algorithm=\"rsa-sha256\",headers=\"(request-target) host date digest\",signature=\"",
    );
    signature.append(sig_b64.as_str());
    signature.append("\"");
    Ok(SignedHeaders { signature, date, digest })
}

/// Sign an outgoing HTTP request body using RSA-SHA256, dated now.
///
/// Returns the headers that the caller must attach to the request.
pub fn sign_request(
    method: &str,
    url: &str,
    body: &[u8],
    key_id: &str,
    private_key_pem: &str,
) -> (r: Result<SignedHeaders, SignatureError>)
    ensures
        exists|date: Seq<char>|
            is_http_date(date) && signed_view(r) == #[trigger] signing_outcome(
                method@,
                url@,
                body@,
                key_id@,
                private_key_pem@,
                date,
            ),
{
    let date = http_date_now();
    let ghost date_view = date@;
    let r = sign_request_at(method, url, body, key_id, private_key_pem, date);
    assert(signed_view(r) == signing_outcome(method@, url@, body@, key_id@, private_key_pem@, date_view));
    r
}

// ---------------------------------------------------------------------------
// Verification.
// ---------------------------------------------------------------------------

/// The `key=value` pair a `Signature` header part holds, with whitespace
/// around key and value, and quotes around the value, removed.
pub open spec fn param_of(part: Seq<char>) -> Option<(Seq<char>, Seq<char>)> {
    let p = trim(part);
    match find_char(p, '=') {
        Some(pos) => Some(
            (
                trim(p.subrange(0, pos as int)),
                trim_quotes(trim(p.subrange(pos + 1 as int, p.len() as int))),
            ),
        ),
        None => None,
    }
}

/// The pairs of the parts that hold one, in order.
pub open spec fn params_of(parts: Seq<Seq<char>>) -> Seq<(Seq<char>, Seq<char>)>
    decreases parts.len(),
{
    if parts.len() == 0 {
        Seq::empty()
    } else {
        let prev = params_of(parts.drop_last());
        match param_of(parts.last()) {
            Some(pair) => prev.push(pair),
            None => prev,
        }
    }
}

/// The `key=value` pairs of a `Signature` header, in order.
pub open spec fn signature_params(header: Seq<char>) -> Seq<(Seq<char>, Seq<char>)> {
    params_of(split_on(header, ','))
}

/// The value `params` gives `key`: a key given more than once keeps its
/// last value.
pub open spec fn param_value(params: Seq<(Seq<char>, Seq<char>)>, key: Seq<char>) -> Option<Seq<char>>
    decreases params.len(),
{
    if params.len() == 0 {
        None
    } else if params.last().0 == key {
        Some(params.last().1)
    } else {
        param_value(params.drop_last(), key)
    }
}

/// Views of string pairs.
pub open spec fn pair_views(pairs: Seq<(String, String)>) -> Seq<(Seq<char>, Seq<char>)> {
    pairs.map_values(|p: (String, String)| (p.0@, p.1@))
}

fn parse_param(part: &str) -> (r: Option<(String, String)>)
    ensures
        match r {
            Some(pair) => param_of(part@) == Some((pair.0@, pair.1@)),
            None => param_of(part@) is None,
        },
{
    let p = strip(part, false);
    match find_char_index(p, '=') {
        None => None,
        Some(pos) => {
            let n = p.unicode_len();
            let key = strip(p.substring_char(0, pos), false);
            let value = strip(strip(p.substring_char(pos + 1, n), false), true);
            Some((String::from_str(key), String::from_str(value)))
        },
    }
}

/// The `key=value` pairs of a raw `Signature` header value.
fn parse_params(header: &str) -> (r: Vec<(String, String)>)
    ensures
        pair_views(r@) == signature_params(header@),
{
    let parts = split_on_char(header, ',');
    let ghost part_views = str_views(parts@);
    let mut params: Vec<(String, String)> = Vec::new();
    let mut i: usize = 0;
    assert(part_views.subrange(0, 0) =~= Seq::<Seq<char>>::empty());
    assert(pair_views(params@) =~= Seq::<(Seq<char>, Seq<char>)>::empty());
    while i < parts.len()
        invariant
            i <= parts@.len(),
            part_views == str_views(parts@),
            pair_views(params@) == params_of(part_views.subrange(0, i as int)),
        decreases parts@.len() - i,
    {
        let ghost taken = part_views.subrange(0, i + 1);
        assert(taken.drop_last() =~= part_views.subrange(0, i as int));
        assert(taken.last() == parts@[i as int]@);
        match parse_param(parts[i]) {
            Some(pair) => {
                let ghost before = params@;
                params.push(pair);
                assert(pair_views(params@) =~= pair_views(before).push((pair.0@, pair.1@)));
            },
            None => {},
        }
        i = i + 1;
    }
    assert(part_views.subrange(0, parts@.len() as int) =~= part_views);
    params
}

fn param_lookup<'a>(params: &'a Vec<(String, String)>, key: &str) -> (r: Option<&'a str>)
    ensures
        match r {
            Some(v) => param_value(pair_views(params@), key@) == Some(v@),
            None => param_value(pair_views(params@), key@) is None,
        },
{
    let ghost pv = pair_views(params@);
    let mut i: usize = params.len();
    assert(pv.subrange(0, i as int) =~= pv);
    while i > 0
        invariant
            i <= params@.len(),
            pv == pair_views(params@),
            param_value(pv, key@) == param_value(pv.subrange(0, i as int), key@),
        decreases i,
    {
        let ghost taken = pv.subrange(0, i as int);
        assert(taken.drop_last() =~= pv.subrange(0, i - 1));
        assert(taken.last() == pv[i - 1]);
        if str_eq(params[i - 1].0.as_str(), key) {
            return Some(params[i - 1].1.as_str());
        }
        i = i - 1;
    }
    None
}

/// The `keyId` value of the first part of a `Signature` header that gives
/// one, with quotes removed.
pub open spec fn key_id_in(parts: Seq<Seq<char>>) -> Option<Seq<char>>
    decreases parts.len(),
{
    if parts.len() == 0 {
        None
    } else {
        match key_id_in(parts.drop_last()) {
            Some(k) => Some(k),
            None => {
                let p = trim(parts.last());
                if has_prefix(p, "keyId="@) {
                    Some(trim_quotes(p.subrange("keyId="@.len() as int, p.len() as int)))
                } else {
                    None
                }
            },
        }
    }
}

proof fn lemma_key_id_in_prefix(parts: Seq<Seq<char>>, j: int)
    requires
        0 <= j <= parts.len(),
        key_id_in(parts.subrange(0, j)) is Some,
    ensures
        key_id_in(parts) == key_id_in(parts.subrange(0, j)),
    decreases parts.len() - j,
{
    if j == parts.len() {
        assert(parts.subrange(0, j) =~= parts);
    } else {
        let next = parts.subrange(0, j + 1);
        assert(next.drop_last() =~= parts.subrange(0, j));
        lemma_key_id_in_prefix(parts, j + 1);
    }
}

/// The `keyId` URI a raw `Signature` header value gives.
pub open spec fn key_id_of(header: Seq<char>) -> Option<Seq<char>> {
    key_id_in(split_on(header, ','))
}

/// Extract the `keyId` URI from a raw `Signature` header value.
pub fn key_id_from_header(sig_header: &str) -> (r: Option<&str>)
    ensures
        match r {
            Some(k) => key_id_of(sig_header@) == Some(k@),
            None => key_id_of(sig_header@) is None,
        },
{
    let parts = split_on_char(sig_header, ',');
    let ghost part_views = str_views(parts@);
    let prefix = "keyId=";
    let mut i: usize = 0;
    assert(part_views.subrange(0, 0) =~= Seq::<Seq<char>>::empty());
    while i < parts.len()
        invariant
            i <= parts@.len(),
            part_views == str_views(parts@),
            part_views == split_on(sig_header@, ','),
            key_id_in(part_views.subrange(0, i as int)) is None,
            prefix@ == "keyId="@,
        decreases parts@.len() - i,
    {
        let ghost taken = part_views.subrange(0, i + 1);
        assert(taken.drop_last() =~= part_views.subrange(0, i as int));
        assert(taken.last() == parts@[i as int]@);
        let part = strip(parts[i], false);
        if starts_with(part, prefix) {
            let n = part.unicode_len();
            let rest = part.substring_char(prefix.unicode_len(), n);
            proof {
                assert(part@ == trim(taken.last()));
                assert(key_id_in(taken.drop_last()) is None);
                assert(key_id_in(taken) == Some(trim_quotes(part@.subrange("keyId="@.len() as int, part@.len() as int))));
                lemma_key_id_in_prefix(part_views, i + 1);
            }
            return Some(strip(rest, true));
        }
        i = i + 1;
    }
    assert(part_views.subrange(0, parts@.len() as int) =~= part_views);
    None
}

/// Views of header pairs.
pub open spec fn header_pairs(headers: Seq<(&str, &str)>) -> Seq<(Seq<char>, Seq<char>)> {
    headers.map_values(|h: (&str, &str)| (h.0@, h.1@))
}

/// The value of the first header named `name`, or the empty text.
pub open spec fn header_value(headers: Seq<(Seq<char>, Seq<char>)>, name: Seq<char>) -> Seq<char>
    decreases headers.len(),
{
    if headers.len() == 0 {
        Seq::empty()
    } else if headers[0].0 == name {
        headers[0].1
    } else {
        header_value(headers.drop_first(), name)
    }
}

fn header_value_of<'a>(headers: &[(&'a str, &'a str)], name: &str) -> (r: &'a str)
    ensures
        r@ == header_value(header_pairs(headers@), name@),
{
    let ghost hv = header_pairs(headers@);
    let mut i: usize = 0;
    assert(hv.subrange(0, hv.len() as int) =~= hv);
    while i < headers.len()
        invariant
            i <= headers@.len(),
            hv == header_pairs(headers@),
            header_value(hv, name@) == header_value(hv.subrange(i as int, hv.len() as int), name@),
        decreases headers@.len() - i,
    {
        let ghost rest = hv.subrange(i as int, hv.len() as int);
        assert(rest.drop_first() =~= hv.subrange(i + 1, hv.len() as int));
        assert(rest[0] == hv[i as int]);
        let (k, v) = headers[i];
        if str_eq(k, name) {
            return v;
        }
        i = i + 1;
    }
    let empty = "";
    proof {
        reveal_strlit("");
    }
    assert(empty@ =~= Seq::<char>::empty());
    empty
}

/// The line of a verification signing string for the header `word`.
pub open spec fn signing_line(
    word: Seq<char>,
    method_lower: Seq<char>,
    path: Seq<char>,
    headers: Seq<(Seq<char>, Seq<char>)>,
) -> Seq<char> {
    if word == "(request-target)"@ {
        "(request-target): "@ + method_lower + " "@ + path
    } else {
        word + ": "@ + header_value(headers, word)
    }
}

/// The signing string rebuilt from the listed headers.
pub open spec fn verification_text(
    words: Seq<Seq<char>>,
    method_lower: Seq<char>,
    path: Seq<char>,
    headers: Seq<(Seq<char>, Seq<char>)>,
) -> Seq<char> {
    join_lines(words.map_values(|w: Seq<char>| signing_line(w, method_lower, path, headers)))
}

fn signing_string(
    words: &Vec<&str>,
    method_lower: &str,
    path: &str,
    headers: &[(&str, &str)],
) -> (r: String)
    ensures
        r@ == verification_text(str_views(words@), method_lower@, path@, header_pairs(headers@)),
{
    let ghost lines = str_views(words@).map_values(
        |w: Seq<char>| signing_line(w, method_lower@, path@, header_pairs(headers@)),
    );
    let mut out = String::new();
    let mut i: usize = 0;
    assert(lines.subrange(0, 0) =~= Seq::<Seq<char>>::empty());
    while i < words.len()
        invariant
            i <= words@.len(),
            lines == str_views(words@).map_values(
                |w: Seq<char>| signing_line(w, method_lower@, path@, header_pairs(headers@)),
            ),
            out@ == join_lines(lines.subrange(0, i as int)),
        decreases words@.len() - i,
    {
        let ghost taken = lines.subrange(0, i + 1);
        assert(taken.drop_last() =~= lines.subrange(0, i as int));
        assert(taken.last() == lines[i as int]);
        let word = words[i];
        let ghost before = out@;
        if i > 0 {
            out.append("\n");
        }
        if str_eq(word, "(request-target)") {
            out.append("(request-target): ");
            out.append(method_lower);
            out.append(" ");
            out.append(path);
        } else {
            out.append(word);
            out.append(": ");
            out.append(header_value_of(headers, word));
        }
        proof {
            if i == 0 {
                assert(out@ =~= lines[0]);
            } else {
                assert(out@ =~= before + "\n"@ + lines[i as int]);
            }
        }
        i = i + 1;
    }
    assert(lines.subrange(0, words@.len() as int) =~= lines);
    out
}

/// What checking the Base64 signature `signature_b64` of `text` under the
/// SPKI PEM public key `pem` gives.
pub open spec fn signature_check(pem: Seq<char>, text: Seq<char>, signature_b64: Seq<char>) -> Result<
    (),
    SignatureError,
> {
    match base64_decoded(signature_b64) {
        None => Err(SignatureError::SignatureEncoding),
        Some(bytes) => if !spki_pem_is_rsa_public_key(pem) {
            Err(SignatureError::PublicKey)
        } else if pkcs1v15_sha256_verifies(pem, text, bytes) {
            Ok(())
        } else {
            Err(SignatureError::VerificationFailed)
        },
    }
}

/// What verifying a request gives.
pub open spec fn verification_outcome(
    method: Seq<char>,
    path: Seq<char>,
    headers: Seq<(Seq<char>, Seq<char>)>,
    body: Seq<u8>,
    pem: Seq<char>,
) -> Result<(), SignatureError> {
    let signature = header_value(headers, "signature"@);
    if signature.len() == 0 {
        Err(SignatureError::MissingSignatureHeader)
    } else {
        let params = signature_params(signature);
        let listed = match param_value(params, "headers"@) {
            Some(v) => v,
            None => "date"@,
        };
        match param_value(params, "signature"@) {
            None => Err(SignatureError::MissingSignatureField),
            Some(signature_b64) => {
                let digest = header_value(headers, "digest"@);
                if digest.len() != 0 && digest != digest_header(body) {
                    Err(SignatureError::DigestMismatch)
                } else {
                    let text = verification_text(split_ws(listed), lowercase(method), path, headers);
                    signature_check(pem, text, signature_b64)
                }
            },
        }
    }
}

fn rsa_verify(pem: &str, message: &str, sig_b64: &str) -> (r: Result<(), SignatureError>)
    ensures
        r == signature_check(pem@, message@, sig_b64@),
{
    let bytes = match base64_decode(sig_b64) {
        Some(bytes) => bytes,
        None => return Err(SignatureError::SignatureEncoding),
    };
    match verify_with_spki_pem(pem, message, bytes.as_slice()) {
        None => Err(SignatureError::PublicKey),
        Some(true) => Ok(()),
        Some(false) => Err(SignatureError::VerificationFailed),
    }
}

/// Verify the HTTP Signature on an incoming request.
///
/// `method` is the HTTP method in any case, `path` the request path,
/// `headers` all request headers as `(lowercase-name, value)` pairs, `body`
/// the raw request body and `public_key_pem` the SPKI PEM RSA public key of
/// the signing actor.
pub fn verify_request(
    method: &str,
    path: &str,
    headers: &[(&str, &str)],
    body: &[u8],
    public_key_pem: &str,
) -> (r: Result<(), SignatureError>)
    ensures
        r == verification_outcome(method@, path@, header_pairs(headers@), body@, public_key_pem@),
{
    let sig_header_val = header_value_of(headers, "signature");
    if sig_header_val.unicode_len() == 0 {
        return Err(SignatureError::MissingSignatureHeader);
    }
    let params = parse_params(sig_header_val);
    let headers_list = match param_lookup(&params, "headers") {
        Some(v) => v,
        None => "date",
    };
    let sig_b64 = match param_lookup(&params, "signature") {
        Some(v) => v,
        None => return Err(SignatureError::MissingSignatureField),
    };
    let digest_val = header_value_of(headers, "digest");
    if digest_val.unicode_len() != 0 {
        let expected = digest_header_for(body);
        if !str_eq(digest_val, expected.as_str()) {
            return Err(SignatureError::DigestMismatch);
        }
    }
    let words = split_whitespace(headers_list);
    let method_lower = to_lowercase(method);
    let text = signing_string(&words, method_lower.as_str(), path, headers);
    rsa_verify(public_key_pem, text.as_str(), sig_b64)
}

// ---------------------------------------------------------------------------
// Laws.
// ---------------------------------------------------------------------------

/// Every six-bit value has a character of the standard alphabet, which is
/// not the padding.
proof fn lemma_base64_char(v: int)
    requires
        0 <= v < 64,
    ensures
        is_base64_char(base64_char(v)),
        base64_char(v) != '=',
{
}

/// Distinct six-bit values have distinct characters.
proof fn lemma_base64_char_injective(v: int, w: int)
    requires
        0 <= v < 64,
        0 <= w < 64,
        base64_char(v) == base64_char(w),
    ensures
        v == w,
{
}

proof fn lemma_base64_group_bits(a: u8, b: u8, c: u8, x: u8, y: u8, z: u8)
    by (bit_vector)
    requires
        a / 4 == x / 4,
        (a % 4) * 16 + b / 16 == (x % 4) * 16 + y / 16,
        (b % 16) * 4 + c / 64 == (y % 16) * 4 + z / 64,
        c % 64 == z % 64,
    ensures
        a == x,
        b == y,
        c == z,
{
}

proof fn lemma_base64_pair_bits(a: u8, b: u8, x: u8, y: u8)
    by (bit_vector)
    requires
        a / 4 == x / 4,
        (a % 4) * 16 + b / 16 == (x % 4) * 16 + y / 16,
        (b % 16) * 4 == (y % 16) * 4,
    ensures
        a == x,
        b == y,
{
}

proof fn lemma_base64_byte_bits(a: u8, x: u8)
    by (bit_vector)
    requires
        a / 4 == x / 4,
        (a % 4) * 16 == (x % 4) * 16,
    ensures
        a == x,
{
}

/// The shape of an encoding: empty for no bytes, else at least four
/// characters, of which the third is padding for exactly one byte and the
/// fourth for one or two bytes.
proof fn lemma_base64_shape(data: Seq<u8>)
    ensures
        data.len() == 0 <==> base64_encoded(data).len() == 0,
        data.len() > 0 ==> base64_encoded(data).len() >= 4,
        data.len() > 0 ==> base64_encoded(data)[0] != '=' && base64_encoded(data)[1] != '=',
        data.len() > 0 ==> (base64_encoded(data)[2] == '=' <==> data.len() == 1),
        data.len() > 0 ==> (base64_encoded(data)[3] == '=' <==> data.len() <= 2),
{
    if data.len() > 0 {
        let a = data[0] as int;
        lemma_base64_char(a / 4);
        if data.len() == 1 {
            lemma_base64_char((a % 4) * 16);
        } else {
            let b = data[1] as int;
            lemma_base64_char((a % 4) * 16 + b / 16);
            if data.len() == 2 {
                lemma_base64_char((b % 16) * 4);
            } else {
                let c = data[2] as int;
                lemma_base64_char((b % 16) * 4 + c / 64);
                lemma_base64_char(c % 64);
            }
        }
    }
}

/// Every character of an encoding is in the standard alphabet or padding.
pub proof fn lemma_base64_alphabet(data: Seq<u8>)
    ensures
        forall|i: int|
            0 <= i < base64_encoded(data).len() ==> is_base64_char(#[trigger] base64_encoded(data)[i]),
    decreases data.len(),
{
    let e = base64_encoded(data);
    if data.len() > 0 {
        let a = data[0] as int;
        lemma_base64_char(a / 4);
        if data.len() == 1 {
            lemma_base64_char((a % 4) * 16);
        } else {
            let b = data[1] as int;
            lemma_base64_char((a % 4) * 16 + b / 16);
            if data.len() == 2 {
                lemma_base64_char((b % 16) * 4);
            } else {
                let c = data[2] as int;
                lemma_base64_char((b % 16) * 4 + c / 64);
                lemma_base64_char(c % 64);
                let rest = data.subrange(3, data.len() as int);
                lemma_base64_alphabet(rest);
                assert forall|i: int| 0 <= i < e.len() implies is_base64_char(#[trigger] e[i]) by {
                    if i >= 4 {
                        assert(e[i] == base64_encoded(rest)[i - 4]);
                    }
                }
            }
        }
    }
}

/// Distinct bytes have distinct encodings.
pub proof fn lemma_base64_injective(d1: Seq<u8>, d2: Seq<u8>)
    requires
        base64_encoded(d1) == base64_encoded(d2),
    ensures
        d1 == d2,
    decreases d1.len(),
{
    let e = base64_encoded(d1);
    lemma_base64_shape(d1);
    lemma_base64_shape(d2);
    if d1.len() == 0 {
        assert(d2 =~= d1);
    } else {
        let a = d1[0];
        let x = d2[0];
        if d1.len() == 1 {
            lemma_base64_char_injective(a as int / 4, x as int / 4);
            lemma_base64_char_injective((a as int % 4) * 16, (x as int % 4) * 16);
            lemma_base64_byte_bits(a, x);
            assert(d2 =~= d1);
        } else if d1.len() == 2 {
            let b = d1[1];
            let y = d2[1];
            lemma_base64_char_injective(a as int / 4, x as int / 4);
            lemma_base64_char_injective((a as int % 4) * 16 + b as int / 16, (x as int % 4) * 16 + y as int / 16);
            lemma_base64_char_injective((b as int % 16) * 4, (y as int % 16) * 4);
            lemma_base64_pair_bits(a, b, x, y);
            assert(d2 =~= d1);
        } else {
            let b = d1[1];
            let y = d2[1];
            let c = d1[2];
            let z = d2[2];
            lemma_base64_char_injective(a as int / 4, x as int / 4);
            lemma_base64_char_injective((a as int % 4) * 16 + b as int / 16, (x as int % 4) * 16 + y as int / 16);
            lemma_base64_char_injective(
                (b as int % 16) * 4 + c as int / 64,
                (y as int % 16) * 4 + z as int / 64,
            );
            lemma_base64_char_injective(c as int % 64, z as int % 64);
            lemma_base64_group_bits(a, b, c, x, y, z);
            let r1 = d1.subrange(3, d1.len() as int);
            let r2 = d2.subrange(3, d2.len() as int);
            assert(base64_encoded(r1) =~= e.subrange(4, e.len() as int));
            assert(base64_encoded(r2) =~= e.subrange(4, e.len() as int));
            lemma_base64_injective(r1, r2);
            assert(d1 =~= seq![a, b, c] + r1);
            assert(d2 =~= seq![x, y, z] + r2);
        }
    }
}

/// Decoding an encoding gives the bytes back.
pub proof fn lemma_base64_round_trip(data: Seq<u8>)
    ensures
        base64_decoded(base64_encoded(data)) == Some(data),
{
    let text = base64_encoded(data);
    assert(exists|d: Seq<u8>| base64_encoded(d) == text);
    let d = choose|d: Seq<u8>| base64_encoded(d) == text;
    lemma_base64_injective(d, data);
}

/// Every encoding is embeddable in a `Signature` header.
pub proof fn lemma_base64_encoding_embeddable(data: Seq<u8>)
    ensures
        embeddable(base64_encoded(data)),
{
    lemma_base64_alphabet(data);
    lemma_base64_text_embeddable(base64_encoded(data));
}

/// A `name="value"` part of a `Signature` header reads back as its name and
/// value.
proof fn lemma_param_of_quoted(name: Seq<char>, value: Seq<char>)
    requires
        name.len() >= 1,
        !is_space(name[0]),
        !is_space(name.last()),
        forall|i: int| 0 <= i < name.len() ==> #[trigger] name[i] != '=',
        value.len() > 0 ==> value[0] != '"' && value.last() != '"',
    ensures
        param_of(name + seq!['=', '"'] + value + seq!['"']) == Some((name, value)),
{
    let part = name + seq!['=', '"'] + value + seq!['"'];
    let n = name.len() as int;
    assert(part[0] == name[0]);
    assert(part.last() == '"');
    lemma_strip_noop(part, false);
    assert forall|j: int| 0 <= j < n implies #[trigger] part[j] != '=' by {
        assert(part[j] == name[j]);
    }
    assert(part[n] == '=');
    lemma_find_char(part, '=', n);
    assert(part.subrange(0, n) =~= name);
    assert(name.last() == name[n - 1]);
    lemma_strip_noop(name, false);
    let quoted = part.subrange(n + 1, part.len() as int);
    assert(quoted =~= seq!['"'] + value + seq!['"']);
    assert(quoted[0] == '"');
    assert(quoted.last() == '"');
    lemma_strip_noop(quoted, false);
    lemma_trim_quotes_quoted(value);
}

/// Base64 text as it may stand inside a `Signature` header: no commas, and
/// no double quote at either end.
pub open spec fn embeddable(text: Seq<char>) -> bool {
    &&& forall|i: int| 0 <= i < text.len() ==> #[trigger] text[i] != ','
    &&& text.len() > 0 ==> text[0] != '"' && text.last() != '"'
}

/// Every text in the standard Base64 alphabet is embeddable.
pub proof fn lemma_base64_text_embeddable(text: Seq<char>)
    requires
        forall|i: int| 0 <= i < text.len() ==> is_base64_char(#[trigger] text[i]),
    ensures
        embeddable(text),
{
    if text.len() > 0 {
        assert(is_base64_char(text[0]));
        assert(is_base64_char(text[text.len() - 1]));
    }
}

/// The `headers` and `signature` fields of a header made by signing read
/// back as the listed headers and the Base64 signature.
proof fn lemma_signed_header_params(key_id: Seq<char>, b: Seq<char>)
    requires
        embeddable(b),
    ensures
        param_value(signature_params(signature_header(key_id, b)), "signature"@) == Some(b),
        param_value(signature_params(signature_header(key_id, b)), "headers"@) == Some(
            "(request-target) host date digest"@,
        ),
{
    reveal_strlit("keyId=\"");
    reveal_strlit(
        "\",algorithm=\"rsa-sha256\",headers=\"(request-target) host date digest\",signature=\"",
    );
    reveal_strlit("\"");
    reveal_strlit("\",algorithm=\"rsa-sha256\"");
    reveal_strlit("headers=\"(request-target) host date digest\"");
    reveal_strlit("signature=\"");
    reveal_strlit("signature");
    reveal_strlit("headers");
    reveal_strlit("(request-target) host date digest");
    let header = signature_header(key_id, b);
    let x = "\",algorithm=\"rsa-sha256\""@;
    let p3 = "headers=\"(request-target) host date digest\""@;
    let sig_name = "signature=\""@;
    assert("\",algorithm=\"rsa-sha256\",headers=\"(request-target) host date digest\",signature=\""@
        =~= x + seq![','] + p3 + seq![','] + sig_name);
    let a = "keyId=\""@ + key_id + x;
    let p4 = sig_name + b + "\""@;
    assert(header =~= a + seq![','] + (p3 + seq![','] + p4));
    lemma_split_on_concat(a, p3 + seq![','] + p4, ',');
    lemma_split_on_concat(p3, p4, ',');
    assert forall|i: int| 0 <= i < p3.len() implies #[trigger] p3[i] != ',' by {}
    lemma_split_on_no_sep(p3, ',');
    assert forall|i: int| 0 <= i < p4.len() implies #[trigger] p4[i] != ',' by {
        if i >= sig_name.len() && i < sig_name.len() + b.len() {
            assert(p4[i] == b[i - sig_name.len()]);
        }
    }
    lemma_split_on_no_sep(p4, ',');
    let parts = split_on(header, ',');
    let head = split_on(a, ',');
    assert(parts =~= head + seq![p3, p4]);
    let listed = "(request-target) host date digest"@;
    assert(p3 =~= "headers"@ + seq!['=', '"'] + listed + seq!['"']);
    assert forall|i: int| 0 <= i < "headers"@.len() implies #[trigger] "headers"@[i] != '=' by {}
    lemma_param_of_quoted("headers"@, listed);
    assert(p4 =~= "signature"@ + seq!['=', '"'] + b + seq!['"']);
    assert forall|i: int| 0 <= i < "signature"@.len() implies #[trigger] "signature"@[i] != '=' by {}
    lemma_param_of_quoted("signature"@, b);
    assert(parts.drop_last() =~= head + seq![p3]);
    assert((head + seq![p3]).drop_last() =~= head);
    let params = signature_params(header);
    assert(parts.last() == p4);
    assert(params_of(parts) == params_of(parts.drop_last()).push(("signature"@, b)));
    assert((head + seq![p3]).last() == p3);
    assert(params_of(head + seq![p3]) == params_of(head).push(("headers"@, listed)));
    assert(params == params_of(head).push(("headers"@, listed)).push(("signature"@, b)));
    assert("signature"@.len() != "headers"@.len());
    assert(param_value(params, "signature"@) == Some(b));
    assert(params.drop_last() =~= params_of(head).push(("headers"@, listed)));
    assert(param_value(params.drop_last(), "headers"@) == Some(listed));
    assert(params.last().0 != "headers"@);
}

/// The headers a signature lists are the four words.
proof fn lemma_listed_words()
    ensures
        split_ws("(request-target) host date digest"@) == seq![
            "(request-target)"@,
            "host"@,
            "date"@,
            "digest"@,
        ],
{
    reveal_strlit("(request-target) host date digest");
    reveal_strlit("(request-target)");
    reveal_strlit("host");
    reveal_strlit("date");
    reveal_strlit("digest");
    let rt = "(request-target)"@;
    let e = Seq::<char>::empty();
    assert(e + rt =~= rt);
    assert forall|i: int| 0 <= i < rt.len() implies !is_space(#[trigger] rt[i]) by {}
    lemma_split_ws_word(e, rt);
    assert(split_ws(e) =~= Seq::<Seq<char>>::empty());
    lemma_split_ws_space(rt, ' ');
    let s1 = rt.push(' ');
    assert forall|i: int| 0 <= i < "host"@.len() implies !is_space(#[trigger] "host"@[i]) by {}
    lemma_split_ws_word(s1, "host"@);
    let s2 = (s1 + "host"@).push(' ');
    lemma_split_ws_space(s1 + "host"@, ' ');
    assert forall|i: int| 0 <= i < "date"@.len() implies !is_space(#[trigger] "date"@[i]) by {}
    lemma_split_ws_word(s2, "date"@);
    let s3 = (s2 + "date"@).push(' ');
    lemma_split_ws_space(s2 + "date"@, ' ');
    assert forall|i: int| 0 <= i < "digest"@.len() implies !is_space(#[trigger] "digest"@[i]) by {}
    lemma_split_ws_word(s3, "digest"@);
    assert("(request-target) host date digest"@ =~= s3 + "digest"@);
    assert(split_ws("(request-target) host date digest"@) =~= seq![rt, "host"@, "date"@, "digest"@]);
}

proof fn lemma_join_four(l0: Seq<char>, l1: Seq<char>, l2: Seq<char>, l3: Seq<char>)
    ensures
        join_lines(seq![l0, l1, l2, l3]) == l0 + "\n"@ + l1 + "\n"@ + l2 + "\n"@ + l3,
{
    let lines = seq![l0, l1, l2, l3];
    assert(lines.drop_last() =~= seq![l0, l1, l2]);
    assert(seq![l0, l1, l2].drop_last() =~= seq![l0, l1]);
    assert(seq![l0, l1].drop_last() =~= seq![l0]);
    assert(join_lines(seq![l0]) == l0);
    assert(join_lines(seq![l0, l1]) == l0 + "\n"@ + l1);
    assert(join_lines(seq![l0, l1, l2]) == l0 + "\n"@ + l1 + "\n"@ + l2);
}

/// The signed headers a request carries, as verification looks them up.
proof fn lemma_attached_header_values(url: Seq<char>, signed: (Seq<char>, Seq<char>, Seq<char>))
    ensures
        header_value(attached_headers(url, signed), "host"@) == host_text(
            url_host_and_path(url)->Some_0.0,
        ),
        header_value(attached_headers(url, signed), "date"@) == signed.1,
        header_value(attached_headers(url, signed), "digest"@) == signed.2,
        header_value(attached_headers(url, signed), "signature"@) == signed.0,
{
    reveal_strlit("signature");
    reveal_strlit("host");
    reveal_strlit("date");
    reveal_strlit("digest");
    let headers = attached_headers(url, signed);
    let h1 = headers.drop_first();
    let h2 = h1.drop_first();
    let h3 = h2.drop_first();
    assert(h1 =~= seq![("date"@, signed.1), ("digest"@, signed.2), ("signature"@, signed.0)]);
    assert(h2 =~= seq![("digest"@, signed.2), ("signature"@, signed.0)]);
    assert(h3 =~= seq![("signature"@, signed.0)]);
    assert("host"@.len() != "signature"@.len() && "date"@.len() != "signature"@.len()
        && "digest"@.len() != "signature"@.len());
    assert("host"@.len() != "digest"@.len() && "date"@.len() != "digest"@.len());
    assert("host"@[0] != "date"@[0]);
    assert(header_value(h3, "signature"@) == signed.0);
    assert(header_value(h2, "signature"@) == signed.0);
    assert(header_value(h1, "signature"@) == signed.0);
    assert(header_value(h2, "digest"@) == signed.2);
    assert(header_value(h1, "digest"@) == signed.2);
    assert(header_value(h1, "date"@) == signed.1);
}

/// Verification checks exactly what signing signed.
///
/// For a request signed (at any date) with any key identifier and sent with
/// the headers signing gives, verification with the same method in any case
/// passes every header and digest check and checks the very signing string
/// that was signed, with the Base64 signature that was made.
pub proof fn lemma_verify_checks_signed_text(
    method: Seq<char>,
    verify_method: Seq<char>,
    url: Seq<char>,
    body: Seq<u8>,
    key_id: Seq<char>,
    private_pem: Seq<char>,
    date: Seq<char>,
    public_pem: Seq<char>,
)
    requires
        signing_outcome(method, url, body, key_id, private_pem, date) is Ok,
        lowercase(verify_method) == lowercase(method),
    ensures
        verification_outcome(
            verify_method,
            url_path(url),
            attached_headers(url, signing_outcome(method, url, body, key_id, private_pem, date)->Ok_0),
            body,
            public_pem,
        ) == signature_check(
            public_pem,
            request_signing_text(method, url, body, date),
            request_signature_b64(method, url, body, private_pem, date),
        ),
{
    reveal_strlit("keyId=\"");
    reveal_strlit("host");
    reveal_strlit("date");
    reveal_strlit("digest");
    reveal_strlit("(request-target)");
    reveal_strlit("(request-target): ");
    reveal_strlit(" ");
    reveal_strlit("\n");
    reveal_strlit(": ");
    reveal_strlit("\nhost: ");
    reveal_strlit("\ndate: ");
    reveal_strlit("\ndigest: ");
    let (host, path) = url_host_and_path(url)->Some_0;
    let h = host_text(host);
    let lm = lowercase(method);
    let d = digest_header(body);
    let text = request_signing_text(method, url, body, date);
    let b = request_signature_b64(method, url, body, private_pem, date);
    let header = signature_header(key_id, b);
    let signed = signing_outcome(method, url, body, key_id, private_pem, date)->Ok_0;
    assert(signed == (header, date, d));
    let headers = attached_headers(url, signed);
    lemma_base64_encoding_embeddable(private_key_signature(private_pem, text)->Some_0);
    lemma_signed_header_params(key_id, b);
    lemma_attached_header_values(url, signed);
    assert(header.len() != 0);
    lemma_listed_words();
    let words = seq!["(request-target)"@, "host"@, "date"@, "digest"@];
    let lines = words.map_values(|w: Seq<char>| signing_line(w, lm, path, headers));
    let l0 = "(request-target): "@ + lm + " "@ + path;
    let l1 = "host"@ + ": "@ + h;
    let l2 = "date"@ + ": "@ + date;
    let l3 = "digest"@ + ": "@ + d;
    assert("host"@.len() != "(request-target)"@.len() && "date"@.len() != "(request-target)"@.len()
        && "digest"@.len() != "(request-target)"@.len());
    assert(lines =~= seq![l0, l1, l2, l3]);
    lemma_join_four(l0, l1, l2, l3);
    assert(l0 + "\n"@ + l1 + "\n"@ + l2 + "\n"@ + l3 =~= text);
}

/// The signing string of an outgoing request is the draft-cavage string for
/// the headers `(request-target) host date digest`: the lowercased method,
/// one space and the path, then the host, the date and the `SHA-256=` digest
/// of the body, one per line.
pub proof fn lemma_request_signing_text_lines(
    method: Seq<char>,
    url: Seq<char>,
    body: Seq<u8>,
    date: Seq<char>,
)
    requires
        url_host_and_path(url) is Some,
    ensures
        request_signing_text(method, url, body, date) == "(request-target): "@ + lowercase(method)
            + seq![' '] + url_path(url) + seq!['\n'] + "host: "@ + host_text(
            url_host_and_path(url)->Some_0.0,
        ) + seq!['\n'] + "date: "@ + date + seq!['\n'] + "digest: "@ + "SHA-256="@ + base64_encoded(
            sha256_digest(body),
        ),
{
    reveal_strlit(" ");
    reveal_strlit("\nhost: ");
    reveal_strlit("host: ");
    reveal_strlit("\ndate: ");
    reveal_strlit("date: ");
    reveal_strlit("\ndigest: ");
    reveal_strlit("digest: ");
    let (host, path) = url_host_and_path(url)->Some_0;
    assert(request_signing_text(method, url, body, date) =~= "(request-target): "@ + lowercase(method)
        + seq![' '] + url_path(url) + seq!['\n'] + "host: "@ + host_text(host) + seq!['\n'] + "date: "@
        + date + seq!['\n'] + "digest: "@ + "SHA-256="@ + base64_encoded(sha256_digest(body)));
}

/// The value verification reads for a header name is that of the first
/// header with that name, or the empty text where there is none.
pub proof fn lemma_header_value_first(headers: Seq<(Seq<char>, Seq<char>)>, name: Seq<char>, k: int)
    requires
        0 <= k <= headers.len(),
        forall|j: int| 0 <= j < k ==> (#[trigger] headers[j]).0 != name,
        k < headers.len() ==> headers[k].0 == name,
    ensures
        k < headers.len() ==> header_value(headers, name) == headers[k].1,
        k == headers.len() ==> header_value(headers, name) == Seq::<char>::empty(),
    decreases k,
{
    if k > 0 {
        let rest = headers.drop_first();
        assert(headers[0].0 != name);
        assert forall|j: int| 0 <= j < k - 1 implies (#[trigger] rest[j]).0 != name by {
            assert(rest[j] == headers[j + 1]);
        }
        if k < headers.len() {
            assert(rest[k - 1] == headers[k]);
        }
        lemma_header_value_first(rest, name, k - 1);
    }
}

/// The signing string verification rebuilds, one listed header at a time:
/// nothing for no headers; adding a header adds a line, after a newline
/// unless it is the first. The line for `(request-target)` is
/// `(request-target): `, the lowercased method, one space and the path; the
/// line for any other header is its name, `: ` and its value.
pub proof fn lemma_verification_text_lines(
    words: Seq<Seq<char>>,
    word: Seq<char>,
    method_lower: Seq<char>,
    path: Seq<char>,
    headers: Seq<(Seq<char>, Seq<char>)>,
)
    ensures
        verification_text(Seq::empty(), method_lower, path, headers) == Seq::<char>::empty(),
        ({
            let line = if word == "(request-target)"@ {
                "(request-target): "@ + method_lower + seq![' '] + path
            } else {
                word + seq![':', ' '] + header_value(headers, word)
            };
            verification_text(words.push(word), method_lower, path, headers) == if words.len() == 0 {
                line
            } else {
                verification_text(words, method_lower, path, headers) + seq!['\n'] + line
            }
        }),
{
    reveal_strlit(" ");
    reveal_strlit(": ");
    reveal_strlit("\n");
    let f = |w: Seq<char>| signing_line(w, method_lower, path, headers);
    let all = words.push(word).map_values(f);
    assert(Seq::<Seq<char>>::empty().map_values(f) =~= Seq::<Seq<char>>::empty());
    assert(all.drop_last() =~= words.map_values(f));
    assert(all.last() == signing_line(word, method_lower, path, headers));
    assert(signing_line(word, method_lower, path, headers) =~= if word == "(request-target)"@ {
        "(request-target): "@ + method_lower + seq![' '] + path
    } else {
        word + seq![':', ' '] + header_value(headers, word)
    });
    if words.len() == 0 {
        assert(all.len() == 1);
    }
}

/// Sign, then verify.
///
/// A request signed (at any date) with any key identifier, sent with the
/// headers signing gives and verified with the same method in any case,
/// verifies exactly when the public key is an SPKI PEM RSA key under which
/// the signature made for the signing string is valid; it fails with
/// `PublicKey` for an unreadable key and with `VerificationFailed` for a
/// signature that key does not accept.
pub proof fn lemma_sign_then_verify(
    method: Seq<char>,
    verify_method: Seq<char>,
    url: Seq<char>,
    body: Seq<u8>,
    key_id: Seq<char>,
    private_pem: Seq<char>,
    date: Seq<char>,
    public_pem: Seq<char>,
)
    requires
        signing_outcome(method, url, body, key_id, private_pem, date) is Ok,
        lowercase(verify_method) == lowercase(method),
    ensures
        ({
            let text = request_signing_text(method, url, body, date);
            let outcome = verification_outcome(
                verify_method,
                url_path(url),
                attached_headers(url, signing_outcome(method, url, body, key_id, private_pem, date)->Ok_0),
                body,
                public_pem,
            );
            if !spki_pem_is_rsa_public_key(public_pem) {
                outcome == Err::<(), SignatureError>(SignatureError::PublicKey)
            } else if pkcs1v15_sha256_verifies(public_pem, text, private_key_signature(private_pem, text)->Some_0) {
                outcome == Ok::<(), SignatureError>(())
            } else {
                outcome == Err::<(), SignatureError>(SignatureError::VerificationFailed)
            }
        }),
{
    let text = request_signing_text(method, url, body, date);
    lemma_verify_checks_signed_text(method, verify_method, url, body, key_id, private_pem, date, public_pem);
    lemma_base64_round_trip(private_key_signature(private_pem, text)->Some_0);
}

/// A signed request presented with a different body is refused.
///
/// Sent with the headers signing gives, a request whose body has another
/// SHA-256 digest than the signed body fails with `DigestMismatch`, whatever
/// the keys.
pub proof fn lemma_verify_rejects_other_body(
    method: Seq<char>,
    url: Seq<char>,
    body: Seq<u8>,
    key_id: Seq<char>,
    private_pem: Seq<char>,
    date: Seq<char>,
    public_pem: Seq<char>,
    other_body: Seq<u8>,
)
    requires
        signing_outcome(method, url, body, key_id, private_pem, date) is Ok,
        sha256_digest(other_body) != sha256_digest(body),
    ensures
        verification_outcome(
            method,
            url_path(url),
            attached_headers(url, signing_outcome(method, url, body, key_id, private_pem, date)->Ok_0),
            other_body,
            public_pem,
        ) == Err::<(), SignatureError>(SignatureError::DigestMismatch),
{
    reveal_strlit("SHA-256=");
    let b = request_signature_b64(method, url, body, private_pem, date);
    lemma_base64_encoding_embeddable(
        private_key_signature(private_pem, request_signing_text(method, url, body, date))->Some_0,
    );
    if digest_header(other_body) == digest_header(body) {
        let n = "SHA-256="@.len() as int;
        assert(base64_encoded(sha256_digest(other_body)) =~= digest_header(other_body).subrange(
            n,
            digest_header(other_body).len() as int,
        ));
        assert(base64_encoded(sha256_digest(body)) =~= digest_header(body).subrange(
            n,
            digest_header(body).len() as int,
        ));
        lemma_base64_injective(sha256_digest(other_body), sha256_digest(body));
    }
    let signed = signing_outcome(method, url, body, key_id, private_pem, date)->Ok_0;
    assert(signed == (signature_header(key_id, b), date, digest_header(body)));
    lemma_signed_header_params(key_id, b);
    lemma_attached_header_values(url, signed);
    reveal_strlit("keyId=\"");
    assert(signature_header(key_id, b).len() != 0);
    assert(digest_header(body).len() != 0);
}

/// The key identifier that signing puts in the `Signature` header is the
/// one read back from it, for every key identifier without commas that
/// neither starts nor ends with a double quote.
pub proof fn lemma_key_id_round_trips(key_id: Seq<char>, signature_b64: Seq<char>)
    requires
        embeddable(key_id),
    ensures
        key_id_of(signature_header(key_id, signature_b64)) == Some(key_id),
{
    reveal_strlit("keyId=\"");
    reveal_strlit("keyId=");
    reveal_strlit(
        "\",algorithm=\"rsa-sha256\",headers=\"(request-target) host date digest\",signature=\"",
    );
    reveal_strlit("\"");
    let first = "keyId=\""@ + key_id + seq!['"'];
    let rest = "algorithm=\"rsa-sha256\",headers=\"(request-target) host date digest\",signature=\""@
        + signature_b64 + "\""@;
    reveal_strlit("algorithm=\"rsa-sha256\",headers=\"(request-target) host date digest\",signature=\"");
    assert(signature_header(key_id, signature_b64) =~= first + seq![','] + rest);
    lemma_split_on_concat(first, rest, ',');
    assert forall|i: int| 0 <= i < first.len() implies #[trigger] first[i] != ',' by {
        if 7 <= i < 7 + key_id.len() {
            assert(first[i] == key_id[i - 7]);
        }
    }
    lemma_split_on_no_sep(first, ',');
    let parts = split_on(signature_header(key_id, signature_b64), ',');
    assert(parts =~= seq![first] + split_on(rest, ','));
    assert(parts.subrange(0, 1) =~= seq![first]);
    assert(seq![first].drop_last() =~= Seq::<Seq<char>>::empty());
    assert(first[0] == 'k');
    assert(first.last() == '"');
    lemma_strip_noop(first, false);
    assert(first.subrange(0, 6) =~= "keyId="@);
    assert(has_prefix(first, "keyId="@));
    assert(trim(first) == first);
    let quoted = first.subrange(6, first.len() as int);
    assert(quoted =~= seq!['"'] + key_id + seq!['"']);
    lemma_trim_quotes_quoted(key_id);
    assert(key_id_in(Seq::<Seq<char>>::empty()) is None);
    assert(seq![first].drop_last() =~= Seq::<Seq<char>>::empty());
    assert(seq![first].last() == first);
    assert(key_id_in(seq![first]) == Some(key_id));
    lemma_key_id_in_prefix(parts, 1);
}

} // verus!
