use aes_gcm::aes::cipher::{BlockCipherEncrypt, KeyInit};
use aes_gcm::aes::Aes256;
use base64::engine::general_purpose::STANDARD;
use base64::Engine;
use hmac::{Hmac, Mac};
use punlock::crypto::{decrypt_aes_cbc_pkcs7, derive_vault_keys, Cipher, CryptoError};

fn enc_block(key: &[u8], block: [u8; 16]) -> [u8; 16] {
    let cipher = <Aes256 as KeyInit>::new_from_slice(key).unwrap();
    let mut b = aes_gcm::aes::Block::from(block);
    cipher.encrypt_block(&mut b);
    b.0
}

fn pkcs7_pad(mut v: Vec<u8>) -> Vec<u8> {
    let padlen = 16 - (v.len() % 16);
    for _ in 0..padlen {
        v.push(padlen as u8);
    }
    v
}

fn cbc_encrypt(key: &[u8], iv: [u8; 16], padded: &[u8]) -> Vec<u8> {
    let mut prev = iv;
    let mut out = Vec::new();
    for chunk in padded.chunks(16) {
        let mut block = [0u8; 16];
        for (i, item) in block.iter_mut().enumerate() {
            *item = chunk[i] ^ prev[i];
        }
        let c = enc_block(key, block);
        out.extend_from_slice(&c);
        prev = c;
    }
    out
}

#[test]
fn cbc_decryption_round_trips() {
    let key = vec![7u8; 32];
    let iv = [9u8; 16];
    let plain = b"attack at dawn!! and hold".to_vec();
    let ct = cbc_encrypt(&key, iv, &pkcs7_pad(plain.clone()));
    let got = decrypt_aes_cbc_pkcs7(&key, &iv.to_vec(), &ct).unwrap();
    assert_eq!(got, plain);
}

#[test]
fn cbc_decryption_rejects_bad_shapes() {
    let key = vec![7u8; 32];
    assert_eq!(
        decrypt_aes_cbc_pkcs7(&key, &vec![0u8; 15], &vec![0u8; 16]),
        Err(CryptoError::InvalidIv)
    );
    assert_eq!(
        decrypt_aes_cbc_pkcs7(&key, &vec![0u8; 16], &vec![0u8; 15]),
        Err(CryptoError::BlockLength)
    );
}

#[test]
fn cbc_decryption_rejects_bad_padding() {
    let key = vec![7u8; 32];
    let iv = [9u8; 16];
    // A block whose decryption ends in a zero byte: not a legal pad length.
    let ct = cbc_encrypt(&key, iv, &[0u8; 16]);
    assert_eq!(
        decrypt_aes_cbc_pkcs7(&key, &iv.to_vec(), &ct),
        Err(CryptoError::Padding)
    );
}

#[test]
fn blob_parsing_decodes_the_three_fields() {
    let c = Cipher::parse("2.aGVsbG8=|d29ybGQ=|IQ==").unwrap();
    assert_eq!(c.iv, b"hello".to_vec());
    assert_eq!(c.ct, b"world".to_vec());
    assert_eq!(c.mac, b"!".to_vec());
}

#[test]
fn blob_parsing_rejects_bad_formats() {
    for bad in ["", "nodot", "2.onlyone", "2.a|b", "2.a|b|c|d"] {
        assert!(matches!(Cipher::parse(bad), Err(CryptoError::Format)), "blob {:?}", bad);
    }
    assert!(matches!(
        Cipher::parse("2.!!!|AA==|AA=="),
        Err(CryptoError::Encoding)
    ));
}

fn make_blob(enc_key: &[u8], mac_key: &[u8], vault_keys: &[u8], tamper_mac: bool) -> String {
    let iv = [3u8; 16];
    let ct = cbc_encrypt(enc_key, iv, &pkcs7_pad(vault_keys.to_vec()));
    let mut mac = <Hmac<sha2::Sha256> as KeyInit>::new_from_slice(mac_key).unwrap();
    mac.update(&iv);
    mac.update(&ct);
    let mut tag = mac.finalize().into_bytes().to_vec();
    if tamper_mac {
        tag[0] ^= 1;
    }
    format!(
        "2.{}|{}|{}",
        STANDARD.encode(iv),
        STANDARD.encode(&ct),
        STANDARD.encode(&tag)
    )
}

fn stretch(password: &[u8], salt: &[u8], rounds: u32) -> ([u8; 32], [u8; 32]) {
    let mut master = [0u8; 32];
    pbkdf2::pbkdf2_hmac::<sha2::Sha256>(password, salt, rounds, &mut master);
    let (_, hk) = hkdf::Hkdf::<sha2::Sha256>::extract(None, &master);
    let mut enc_key = [0u8; 32];
    hk.expand(b"enc", &mut enc_key).unwrap();
    let mut mac_key = [0u8; 32];
    hk.expand(b"mac", &mut mac_key).unwrap();
    (enc_key, mac_key)
}

#[test]
fn vault_keys_derive_end_to_end() {
    let password = b"master password";
    let salt = b"user@example.com";
    let rounds = 2u32;
    let vault_keys: Vec<u8> = (0u8..64).collect();
    let (enc_key, mac_key) = stretch(password, salt, rounds);
    let blob = make_blob(&enc_key, &mac_key, &vault_keys, false);
    let (e, m) = derive_vault_keys(password, salt, rounds, &blob).unwrap();
    assert_eq!(e, vault_keys[..32].to_vec());
    assert_eq!(m, vault_keys[32..].to_vec());
}

#[test]
fn tampered_tag_fails_authentication() {
    let password = b"master password";
    let salt = b"user@example.com";
    let rounds = 2u32;
    let vault_keys: Vec<u8> = (0u8..64).collect();
    let (enc_key, mac_key) = stretch(password, salt, rounds);
    let blob = make_blob(&enc_key, &mac_key, &vault_keys, true);
    assert_eq!(
        derive_vault_keys(password, salt, rounds, &blob),
        Err(CryptoError::MacMismatch)
    );
}

#[test]
fn wrong_password_fails_authentication() {
    let salt = b"user@example.com";
    let rounds = 2u32;
    let vault_keys: Vec<u8> = (0u8..64).collect();
    let (enc_key, mac_key) = stretch(b"right password", salt, rounds);
    let blob = make_blob(&enc_key, &mac_key, &vault_keys, false);
    assert_eq!(
        derive_vault_keys(b"wrong password", salt, rounds, &blob),
        Err(CryptoError::MacMismatch)
    );
}

#[test]
fn short_key_material_is_rejected() {
    let password = b"master password";
    let salt = b"user@example.com";
    let rounds = 2u32;
    let vault_keys: Vec<u8> = (0u8..32).collect();
    let (enc_key, mac_key) = stretch(password, salt, rounds);
    let blob = make_blob(&enc_key, &mac_key, &vault_keys, false);
    assert_eq!(
        derive_vault_keys(password, salt, rounds, &blob),
        Err(CryptoError::KeyLength)
    );
}
