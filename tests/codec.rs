use datadocs_text::codec::Codec;
use datadocs_text::error::TextError;

#[test]
fn decrypt_inverts_encrypt() {
    let codec = Codec::new("a secret key");
    for s in ["", "hello", "The ~~budget~~[PersonalInformation]", "d\u{e9}j\u{e0} vu \u{25A0}"] {
        let blob = codec.encrypt(s);
        assert_ne!(blob, s);
        assert_eq!(codec.decrypt(&blob), Ok(s.to_string()));
    }
}

#[test]
fn garbage_blob_is_decode_error() {
    let codec = Codec::new("a secret key");
    assert_eq!(codec.decrypt("not base64 at all!"), Err(TextError::DecodeError));
}

#[test]
fn other_key_does_not_decrypt_to_plaintext() {
    let a = Codec::new("key one");
    let b = Codec::new("key two");
    let blob = a.encrypt("confidential text");
    assert_ne!(b.decrypt(&blob), Ok("confidential text".to_string()));
}
