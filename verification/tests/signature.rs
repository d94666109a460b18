use feder::runtime::signature::{
    key_id_from_header, sign_request, sign_request_at, verify_request, SignatureError,
};
use rsa::pkcs1::EncodeRsaPrivateKey as _;
use rsa::pkcs8::{EncodePrivateKey as _, EncodePublicKey as _};

fn keypair() -> (String, String) {
    let mut rng = rand::thread_rng();
    let priv_key = rsa::RsaPrivateKey::new(&mut rng, 2048).unwrap();
    let pub_key = rsa::RsaPublicKey::from(&priv_key);
    (
        priv_key.to_pkcs1_pem(rsa::pkcs1::LineEnding::LF).unwrap().to_string(),
        pub_key.to_public_key_pem(rsa::pkcs8::LineEnding::LF).unwrap(),
    )
}

#[test]
fn sign_then_verify_roundtrips() {
    let (priv_pem, pub_pem) = keypair();
    let body = br#"{"type":"Create"}"#;
    let signed = sign_request(
        "post",
        "https://remote.example/users/bob/inbox",
        body,
        "https://a.test/users/alice#main-key",
        &priv_pem,
    )
    .unwrap();

    assert_eq!(key_id_from_header(&signed.signature), Some("https://a.test/users/alice#main-key"));

    let headers = [
        ("host", "remote.example"),
        ("date", signed.date.as_str()),
        ("digest", signed.digest.as_str()),
        ("signature", signed.signature.as_str()),
    ];
    verify_request("post", "/users/bob/inbox", &headers, body, &pub_pem).unwrap();
}

#[test]
fn verify_rejects_tampered_body() {
    let (priv_pem, pub_pem) = keypair();
    let signed = sign_request(
        "post",
        "https://remote.example/inbox",
        b"original",
        "https://a.test/users/alice#main-key",
        &priv_pem,
    )
    .unwrap();
    let headers = [
        ("host", "remote.example"),
        ("date", signed.date.as_str()),
        ("digest", signed.digest.as_str()),
        ("signature", signed.signature.as_str()),
    ];
    assert!(verify_request("post", "/inbox", &headers, b"tampered", &pub_pem).is_err());
}

#[test]
fn signed_headers_have_exact_digest_date_and_shape() {
    let (priv_pem, pub_pem) = keypair();
    let body = br#"{"type":"Create"}"#;
    let date = "Tue, 07 Jun 2026 20:51:35 GMT".to_string();
    let signed = sign_request_at(
        "POST",
        "https://remote.example/users/bob/inbox",
        body,
        "https://a.test/users/alice#main-key",
        &priv_pem,
        date.clone(),
    )
    .unwrap();
    assert_eq!(signed.date, date);
    assert_eq!(signed.digest, "SHA-256=JeE18werLvQnEoHViKDam+ZK1D8E27TBC2kIISI7pIY=");
    let prefix = "keyId=\"https://a.test/users/alice#main-key\",algorithm=\"rsa-sha256\",headers=\"(request-target) host date digest\",signature=\"";
    assert!(signed.signature.starts_with(prefix));
    assert!(signed.signature.ends_with('"'));
    // The method is lowercased when signing, and in any case when verifying.
    let headers = [
        ("host", "remote.example"),
        ("date", signed.date.as_str()),
        ("digest", signed.digest.as_str()),
        ("signature", signed.signature.as_str()),
    ];
    assert_eq!(verify_request("Post", "/users/bob/inbox", &headers, body, &pub_pem), Ok(()));
    // Another path gives another signing string.
    assert_eq!(
        verify_request("post", "/users/carol/inbox", &headers, body, &pub_pem),
        Err(SignatureError::VerificationFailed)
    );
}

#[test]
fn pkcs8_private_keys_sign_too() {
    let mut rng = rand::thread_rng();
    let priv_key = rsa::RsaPrivateKey::new(&mut rng, 2048).unwrap();
    let pub_pem = rsa::RsaPublicKey::from(&priv_key).to_public_key_pem(rsa::pkcs8::LineEnding::LF).unwrap();
    let priv_pem = priv_key.to_pkcs8_pem(rsa::pkcs8::LineEnding::LF).unwrap().to_string();
    let signed = sign_request("post", "https://remote.example/inbox", b"", "k", &priv_pem).unwrap();
    assert_eq!(signed.digest, "SHA-256=47DEQpj8HBSa+/TImW+5JCeuQeRkm5NMpJWZG3hSuFU=");
    let headers = [
        ("host", "remote.example"),
        ("date", signed.date.as_str()),
        ("digest", signed.digest.as_str()),
        ("signature", signed.signature.as_str()),
    ];
    assert_eq!(verify_request("post", "/inbox", &headers, b"", &pub_pem), Ok(()));
}

#[test]
fn signing_refuses_bad_url_and_bad_key() {
    assert_eq!(
        sign_request("post", "not a url", b"", "k", "irrelevant").unwrap_err(),
        SignatureError::InvalidUrl
    );
    assert_eq!(
        sign_request("post", "https://remote.example/inbox", b"", "k", "not a key").unwrap_err(),
        SignatureError::PrivateKey
    );
}

#[test]
fn verification_errors_name_their_cause() {
    let key = "not a key";
    assert_eq!(
        verify_request("post", "/inbox", &[("host", "x")], b"", key),
        Err(SignatureError::MissingSignatureHeader)
    );
    assert_eq!(
        verify_request("post", "/inbox", &[("signature", "")], b"", key),
        Err(SignatureError::MissingSignatureHeader)
    );
    assert_eq!(
        verify_request("post", "/inbox", &[("signature", "keyId=\"k\"")], b"", key),
        Err(SignatureError::MissingSignatureField)
    );
    assert_eq!(
        verify_request(
            "post",
            "/inbox",
            &[("signature", "signature=\"AAAA\""), ("digest", "SHA-256=wrong")],
            b"",
            key
        ),
        Err(SignatureError::DigestMismatch)
    );
    assert_eq!(
        verify_request("post", "/inbox", &[("signature", "signature=\"!!\"")], b"", key),
        Err(SignatureError::SignatureEncoding)
    );
    assert_eq!(
        verify_request(
            "post",
            "/inbox",
            &[
                ("signature", "signature=\"AAAA\""),
                ("digest", "SHA-256=47DEQpj8HBSa+/TImW+5JCeuQeRkm5NMpJWZG3hSuFU=")
            ],
            b"",
            key
        ),
        Err(SignatureError::PublicKey)
    );
}

#[test]
fn key_id_is_read_from_the_first_key_id_part() {
    assert_eq!(key_id_from_header("keyId=\"a\",keyId=\"b\""), Some("a"));
    assert_eq!(key_id_from_header(" algorithm=\"x\" ,  keyId=\"k#1\" "), Some("k#1"));
    assert_eq!(key_id_from_header("keyId=plain"), Some("plain"));
    assert_eq!(key_id_from_header("keyid=\"lower\""), None);
    assert_eq!(key_id_from_header(""), None);
}

#[test]
fn errors_report_their_cause() {
    assert_eq!(SignatureError::InvalidUrl.message(), "invalid URL");
    assert_eq!(SignatureError::PrivateKey.message(), "parse RSA private key");
    assert_eq!(SignatureError::MissingSignatureHeader.message(), "missing Signature header");
    assert_eq!(SignatureError::MissingSignatureField.message(), "missing signature field");
    assert_eq!(SignatureError::DigestMismatch.message(), "body digest mismatch");
    assert_eq!(SignatureError::SignatureEncoding.message(), "decode base64 signature");
    assert_eq!(SignatureError::PublicKey.message(), "parse RSA public key");
    assert_eq!(SignatureError::VerificationFailed.message(), "signature verification failed");
}

#[test]
fn tampered_body_fails_on_the_digest() {
    let (priv_pem, pub_pem) = keypair();
    let signed = sign_request_at(
        "post",
        "https://remote.example/inbox",
        b"original",
        "https://a.test/users/alice#main-key",
        &priv_pem,
        "Tue, 07 Jun 2026 20:51:35 GMT".to_string(),
    )
    .unwrap();
    let headers = [
        ("host", "remote.example"),
        ("date", signed.date.as_str()),
        ("digest", signed.digest.as_str()),
        ("signature", signed.signature.as_str()),
    ];
    assert_eq!(
        verify_request("post", "/inbox", &headers, b"tampered", &pub_pem),
        Err(SignatureError::DigestMismatch)
    );
    assert_eq!(verify_request("post", "/inbox", &headers, b"original", &pub_pem), Ok(()));
}

#[test]
fn signing_dates_have_the_http_date_shape() {
    let (priv_pem, _) = keypair();
    let signed = sign_request("post", "https://remote.example/inbox", b"", "k", &priv_pem).unwrap();
    let date = signed.date.as_bytes();
    assert_eq!(date.len(), 29);
    assert!(["Mon", "Tue", "Wed", "Thu", "Fri", "Sat", "Sun"].contains(&&signed.date[0..3]));
    assert_eq!(&signed.date[3..5], ", ");
    assert!(signed.date.ends_with(" GMT"));
    assert_eq!(date[19], b':');
    assert_eq!(date[22], b':');
}
