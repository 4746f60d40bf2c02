//! The vault's client-side key derivation, verified around the primitives.
//!
//! The primitives themselves — PBKDF2, HKDF, HMAC, one AES block, base64 —
//! are outside calls whose results are named, never restated; everything
//! built from them (CBC chaining, PKCS#7 unpadding, the protected-blob
//! format, the key-stretching pipeline) is verified logic.

use vstd::prelude::*;

use base64::Engine;
use hmac::{KeyInit as MacKeyInit, Mac};
use aes_gcm::aes::cipher::{BlockCipherDecrypt, KeyInit};

verus! {

/// The 32-byte key PBKDF2-HMAC-SHA-256 derives from a password and salt at
/// the given round count.
pub uninterp spec fn pbkdf2_sha256_of(password: Seq<u8>, salt: Seq<u8>, rounds: u32) -> Seq<u8>;

/// The 32 bytes HKDF-SHA-256 expands from the keying material under `info`,
/// extracted with an empty salt.
pub uninterp spec fn hkdf_sha256_of(ikm: Seq<u8>, info: Seq<u8>) -> Seq<u8>;

/// The HMAC-SHA-256 tag of a message under a key.
pub uninterp spec fn hmac_sha256_of(key: Seq<u8>, msg: Seq<u8>) -> Seq<u8>;

/// One 16-byte block sent backwards through AES-256.
pub uninterp spec fn aes256_dec_of(key: Seq<u8>, block: Seq<u8>) -> Seq<u8>;

/// What standard base64 text decodes to, when it is well-formed.
pub uninterp spec fn b64_decode_of(text: Seq<char>) -> Option<Seq<u8>>;

/// Relies on pbkdf2's `pbkdf2_hmac` with SHA-256: the derived key is a
/// function of password, salt and round count alone; this wrapper fixes the
/// output at 32 bytes.
#[verifier::external_body]
fn pbkdf2_sha256(password: &[u8], salt: &[u8], rounds: u32) -> (r: Vec<u8>)
    requires
        rounds >= 1,
    ensures
        r@ == pbkdf2_sha256_of(password@, salt@, rounds),
        r@.len() == 32,
{
    let mut out = [0u8; 32];
    pbkdf2::pbkdf2_hmac::<sha2::Sha256>(password, salt, rounds, &mut out);
    out.to_vec()
}

/// Relies on hkdf's `Hkdf::<Sha256>::extract` with no salt followed by
/// `expand`: the output is a function of the keying material and the info
/// text alone. `expand` can only fail for outputs longer than 255 hash
/// blocks, so the 32-byte request never fails.
#[verifier::external_body]
fn hkdf_sha256_expand(ikm: &[u8], info: &[u8]) -> (r: Vec<u8>)
    ensures
        r@ == hkdf_sha256_of(ikm@, info@),
        r@.len() == 32,
{
    let (_, hk) = hkdf::Hkdf::<sha2::Sha256>::extract(None, ikm);
    let mut okm = [0u8; 32];
    hk.expand(info, &mut okm).expect("32 bytes is far below the HKDF output bound");
    okm.to_vec()
}

/// Relies on hmac's `Hmac<Sha256>`: keyed with `new_from_slice` (which
/// accepts any key length), updated with the two message parts in order,
/// and finalized; the tag is a function of key and message alone.
#[verifier::external_body]
fn hmac_sha256(key: &[u8], m1: &[u8], m2: &[u8]) -> (r: Vec<u8>)
    ensures
        r@ == hmac_sha256_of(key@, m1@ + m2@),
        r@.len() == 32,
{
    let mut mac = <hmac::Hmac<sha2::Sha256> as MacKeyInit>::new_from_slice(key)
        .expect("an HMAC key of any length is accepted");
    mac.update(m1);
    mac.update(m2);
    mac.finalize().into_bytes().to_vec()
}

/// Relies on aes's `Aes256::decrypt_block`: the decryption of one block is
/// a function of key and block alone.
#[verifier::external_body]
fn aes256_decrypt_block(key: &[u8], block: &[u8]) -> (r: Vec<u8>)
    requires
        key@.len() == 32,
        block@.len() == 16,
    ensures
        r@ == aes256_dec_of(key@, block@),
        r@.len() == 16,
{
    let cipher = <aes_gcm::aes::Aes256 as KeyInit>::new_from_slice(key)
        .expect("the caller supplies a 32-byte key");
    let mut arr = [0u8; 16];
    arr.copy_from_slice(block);
    let mut blk = aes_gcm::aes::Block::from(arr);
    cipher.decrypt_block(&mut blk);
    blk.to_vec()
}

/// Relies on base64's standard-alphabet `Engine::decode`: the result is a
/// function of the text alone, and ill-formed text is rejected.
#[verifier::external_body]
fn b64_decode(text: &str) -> (r: Result<Vec<u8>, ()>)
    ensures
        match r {
            Ok(v) => b64_decode_of(text@) == Some(v@),
            Err(_) => b64_decode_of(text@) is None,
        },
{
    match base64::engine::general_purpose::STANDARD.decode(text) {
        Ok(v) => Ok(v),
        Err(_) => Err(()),
    }
}

/// Pointwise exclusive or of equally long byte strings.
pub open spec fn xor_bytes(a: Seq<u8>, b: Seq<u8>) -> Seq<u8> {
    Seq::new(a.len(), |i: int| a[i] ^ b[i])
}

fn xor_vec(a: &Vec<u8>, b: &Vec<u8>) -> (r: Vec<u8>)
    requires
        a@.len() == b@.len(),
    ensures
        r@ == xor_bytes(a@, b@),
{
    let mut r: Vec<u8> = Vec::new();
    let mut i: usize = 0;
    while i < a.len()
        invariant
            i <= a.len(),
            a@.len() == b@.len(),
            r@ =~= xor_bytes(a@, b@).take(i as int),
        decreases a.len() - i,
    {
        r.push(a[i] ^ b[i]);
        proof {
            assert(r@ =~= xor_bytes(a@, b@).take(i + 1));
        }
        i = i + 1;
    }
    proof {
        assert(r@ =~= xor_bytes(a@, b@));
    }
    r
}

/// The raw CBC decryption of a whole ciphertext: every block through the
/// cipher, each chained with the previous ciphertext block (the IV first).
pub open spec fn spec_cbc_plain(key: Seq<u8>, prev: Seq<u8>, ct: Seq<u8>) -> Seq<u8>
    decreases ct.len(),
{
    if ct.len() < 16 {
        Seq::empty()
    } else {
        let blk = ct.take(16);
        xor_bytes(aes256_dec_of(key, blk), prev) + spec_cbc_plain(key, blk, ct.skip(16))
    }
}

/// Well-formed PKCS#7 padding: the last byte names the pad length, between
/// one and sixteen, and that many trailing bytes all carry it.
pub open spec fn spec_pkcs7_ok(p: Seq<u8>) -> bool {
    &&& p.len() > 0
    &&& 1 <= p.last() <= 16
    &&& p.last() <= p.len()
    &&& forall|k: int| p.len() - p.last() <= k < p.len() ==> p[k] == p.last()
}

/// The padding stripped.
pub open spec fn spec_unpad(p: Seq<u8>) -> Seq<u8> {
    p.take(p.len() - p.last())
}

#[derive(PartialEq, Eq, Structural, Debug)]
pub enum CryptoError {
    /// The initialization vector is not 16 bytes.
    InvalidIv,
    /// The ciphertext length is not a multiple of the block size.
    BlockLength,
    /// The decrypted bytes do not end in well-formed PKCS#7 padding.
    Padding,
    /// The protected blob's text does not fit the `tag.iv|ct|mac` format.
    Format,
    /// A field of the blob is not well-formed base64.
    Encoding,
    /// The authentication tag does not match the ciphertext.
    MacMismatch,
    /// The decrypted key material does not hold exactly two 32-byte keys.
    KeyLength,
}

/// AES-256-CBC decryption with PKCS#7 unpadding. Exactly the well-shaped
/// inputs decrypt: a 16-byte IV, a ciphertext of whole blocks whose raw
/// decryption ends in well-formed padding.
pub fn decrypt_aes_cbc_pkcs7(key: &Vec<u8>, iv: &Vec<u8>, ct: &Vec<u8>) -> (r: Result<
    Vec<u8>,
    CryptoError,
>)
    requires
        key@.len() == 32,
    ensures
        iv@.len() != 16 ==> r == Err::<Vec<u8>, CryptoError>(CryptoError::InvalidIv),
        iv@.len() == 16 && ct@.len() % 16 != 0 ==> r == Err::<Vec<u8>, CryptoError>(
            CryptoError::BlockLength,
        ),
        iv@.len() == 16 && ct@.len() % 16 == 0 ==> {
            let p = spec_cbc_plain(key@, iv@, ct@);
            if spec_pkcs7_ok(p) {
                r matches Ok(v) && v@ == spec_unpad(p)
            } else {
                r == Err::<Vec<u8>, CryptoError>(CryptoError::Padding)
            }
        },
{
    if iv.len() != 16 {
        return Err(CryptoError::InvalidIv);
    }
    let n = ct.len();
    if n % 16 != 0 {
        return Err(CryptoError::BlockLength);
    }
    let mut plain: Vec<u8> = Vec::new();
    let mut prev: Vec<u8> = Vec::new();
    let mut j: usize = 0;
    while j < 16
        invariant
            j <= 16,
            iv@.len() == 16,
            prev@ =~= iv@.take(j as int),
        decreases 16 - j,
    {
        prev.push(iv[j]);
        proof {
            assert(prev@ =~= iv@.take(j + 1));
        }
        j = j + 1;
    }
    proof {
        assert(prev@ =~= iv@);
        assert(ct@.skip(0) =~= ct@);
    }
    let mut base: usize = 0;
    while base < n
        invariant
            base <= n,
            base % 16 == 0,
            n % 16 == 0,
            n == ct@.len(),
            key@.len() == 32,
            prev@.len() == 16,
            plain@.len() == base,
            spec_cbc_plain(key@, iv@, ct@) == plain@ + spec_cbc_plain(
                key@,
                prev@,
                ct@.skip(base as int),
            ),
        decreases n - base,
    {
        let ghost rest = ct@.skip(base as int);
        let mut blk: Vec<u8> = Vec::new();
        let mut k: usize = 0;
        while k < 16
            invariant
                k <= 16,
                base + 16 <= n,
                n == ct@.len(),
                blk@ =~= ct@.subrange(base as int, base + k),
            decreases 16 - k,
        {
            blk.push(ct[base + k]);
            proof {
                assert(blk@ =~= ct@.subrange(base as int, base + k + 1));
            }
            k = k + 1;
        }
        proof {
            assert(rest.take(16) =~= ct@.subrange(base as int, base + 16));
            assert(blk@ == rest.take(16));
        }
        let dec = aes256_decrypt_block(key.as_slice(), blk.as_slice());
        let x = xor_vec(&dec, &prev);
        let ghost old_plain = plain@;
        let mut xm = x;
        plain.append(&mut xm);
        proof {
            assert(rest.skip(16) =~= ct@.skip(base + 16));
            assert(old_plain + (xor_bytes(aes256_dec_of(key@, blk@), prev@) + spec_cbc_plain(
                key@,
                blk@,
                ct@.skip(base + 16),
            )) =~= plain@ + spec_cbc_plain(key@, blk@, ct@.skip(base + 16)));
        }
        prev = blk;
        base = base + 16;
    }
    proof {
        assert(ct@.skip(n as int).len() == 0);
        assert(plain@ + spec_cbc_plain(key@, prev@, ct@.skip(n as int)) =~= plain@);
        assert(plain@ == spec_cbc_plain(key@, iv@, ct@));
    }
    let m = plain.len();
    if m == 0 {
        return Err(CryptoError::Padding);
    }
    let last = plain[m - 1];
    if last == 0 || last > 16 {
        return Err(CryptoError::Padding);
    }
    proof {
        assert(m >= 16);
    }
    let pad_start = m - (last as usize);
    let mut k: usize = pad_start;
    while k < m
        invariant
            pad_start <= k <= m,
            m == plain@.len(),
            plain@.len() > 0,
            last == plain@.last(),
            1 <= last <= 16,
            pad_start == m - (last as int),
            iv@.len() == 16,
            ct@.len() % 16 == 0,
            plain@ == spec_cbc_plain(key@, iv@, ct@),
            forall|t: int| pad_start <= t < k ==> plain@[t] == last,
        decreases m - k,
    {
        if plain[k] != last {
            proof {
                assert(!spec_pkcs7_ok(plain@));
            }
            return Err(CryptoError::Padding);
        }
        k = k + 1;
    }
    proof {
        assert(spec_pkcs7_ok(plain@));
    }
    let ghost whole = plain@;
    plain.truncate(pad_start);
    proof {
        assert(plain@ =~= spec_unpad(whole));
    }
    Ok(plain)
}

/// The index of the first `c` at or after `i`, or the length when there is
/// none.
pub open spec fn spec_find(s: Seq<char>, c: char, i: int) -> int
    decreases s.len() - i,
{
    if i < 0 || i >= s.len() {
        s.len() as int
    } else if s[i] == c {
        i
    } else {
        spec_find(s, c, i + 1)
    }
}

proof fn lemma_find_from(s: Seq<char>, c: char, i: int, j: int)
    requires
        0 <= i <= j <= s.len(),
        forall|k: int| i <= k < j ==> s[k] != c,
        j == s.len() || s[j] == c,
    ensures
        spec_find(s, c, i) == (if j < s.len() {
            j
        } else {
            s.len() as int
        }),
    decreases j - i,
{
    if i < j {
        lemma_find_from(s, c, i + 1, j);
    }
}

/// Splitting on a separator, empty fields kept; scanning from `i` with the
/// field read so far and the fields already complete.
pub open spec fn spec_fields_scan(
    s: Seq<char>,
    sep: char,
    i: int,
    cur: Seq<char>,
    acc: Seq<Seq<char>>,
) -> Seq<Seq<char>>
    decreases s.len() - i,
{
    if i < 0 || i >= s.len() {
        acc.push(cur)
    } else if s[i] == sep {
        spec_fields_scan(s, sep, i + 1, Seq::empty(), acc.push(cur))
    } else {
        spec_fields_scan(s, sep, i + 1, cur.push(s[i]), acc)
    }
}

/// The `sep`-separated fields of `s`, empty fields kept.
pub open spec fn spec_split_all(s: Seq<char>, sep: char) -> Seq<Seq<char>> {
    spec_fields_scan(s, sep, 0, Seq::empty(), Seq::empty())
}

fn split_all(s: &str, sep: char) -> (r: Vec<String>)
    ensures
        r.deep_view() == spec_split_all(s@, sep),
{
    let n = s.unicode_len();
    let mut acc: Vec<String> = Vec::new();
    let mut start: usize = 0;
    let mut i: usize = 0;
    proof {
        assert(s@.subrange(0, 0) =~= Seq::<char>::empty());
        assert(acc.deep_view() =~= Seq::<Seq<char>>::empty());
    }
    while i < n
        invariant
            start <= i <= n,
            n == s@.len(),
            spec_fields_scan(s@, sep, i as int, s@.subrange(start as int, i as int), acc.deep_view())
                == spec_split_all(s@, sep),
        decreases n - i,
    {
        let ghost cur = s@.subrange(start as int, i as int);
        let ghost old_acc = acc.deep_view();
        let c = s.get_char(i);
        if c == sep {
            let piece = s.substring_char(start, i).to_owned();
            acc.push(piece);
            proof {
                assert(acc.deep_view() =~= old_acc.push(cur));
            }
            start = i + 1;
            i = i + 1;
            proof {
                assert(s@.subrange(start as int, i as int) =~= Seq::<char>::empty());
            }
        } else {
            i = i + 1;
            proof {
                assert(s@.subrange(start as int, i as int) =~= cur.push(s@[i - 1]));
            }
        }
    }
    let ghost cur = s@.subrange(start as int, n as int);
    let ghost old_acc = acc.deep_view();
    let piece = s.substring_char(start, n).to_owned();
    acc.push(piece);
    proof {
        assert(acc.deep_view() =~= old_acc.push(cur));
    }
    acc
}

/// The three fields of a protected blob: everything after the first dot
/// (the format tag), split on `|` into IV, ciphertext and tag text.
pub open spec fn spec_cipher_fields(s: Seq<char>) -> Option<(Seq<char>, Seq<char>, Seq<char>)> {
    let d = spec_find(s, '.', 0);
    if d >= s.len() {
        None
    } else {
        let fields = spec_split_all(s.skip(d + 1), '|');
        if fields.len() == 3 {
            Some((fields[0], fields[1], fields[2]))
        } else {
            None
        }
    }
}

/// A protected blob's three binary fields.
pub struct Cipher {
    pub iv: Vec<u8>,
    pub ct: Vec<u8>,
    pub mac: Vec<u8>,
}

impl Cipher {
    /// Parses `tag.iv|ct|mac` blob text, base64-decoding the three fields.
    pub fn parse(text: &str) -> (r: Result<Cipher, CryptoError>)
        ensures
            match r {
                Ok(c) => (spec_cipher_fields(text@) matches Some(f) && b64_decode_of(f.0) == Some(
                    c.iv@,
                ) && b64_decode_of(f.1) == Some(c.ct@) && b64_decode_of(f.2) == Some(c.mac@)),
                Err(CryptoError::Format) => spec_cipher_fields(text@) is None,
                Err(CryptoError::Encoding) => (spec_cipher_fields(text@) matches Some(f) && (
                b64_decode_of(f.0) is None || b64_decode_of(f.1) is None || b64_decode_of(
                    f.2,
                ) is None)),
                Err(_) => false,
            },
    {
        let n = text.unicode_len();
        let mut d: usize = 0;
        while d < n && text.get_char(d) != '.'
            invariant
                d <= n,
                n == text@.len(),
                forall|k: int| 0 <= k < d ==> text@[k] != '.',
            decreases n - d,
        {
            d = d + 1;
        }
        if d == n {
            proof {
                lemma_find_from(text@, '.', 0, n as int);
            }
            return Err(CryptoError::Format);
        }
        proof {
            lemma_find_from(text@, '.', 0, d as int);
        }
        let rest = text.substring_char(d + 1, n);
        proof {
            assert(rest@ =~= text@.skip(d + 1));
        }
        let parts = split_all(rest, '|');
        if parts.len() != 3 {
            return Err(CryptoError::Format);
        }
        proof {
            assert(parts.deep_view()[0] == parts@[0int]@);
            assert(parts.deep_view()[1] == parts@[1int]@);
            assert(parts.deep_view()[2] == parts@[2int]@);
        }
        let iv = match b64_decode(parts[0].as_str()) {
            Ok(v) => v,
            Err(_) => {
                return Err(CryptoError::Encoding);
            },
        };
        let ct = match b64_decode(parts[1].as_str()) {
            Ok(v) => v,
            Err(_) => {
                return Err(CryptoError::Encoding);
            },
        };
        let mac = match b64_decode(parts[2].as_str()) {
            Ok(v) => v,
            Err(_) => {
                return Err(CryptoError::Encoding);
            },
        };
        Ok(Cipher { iv, ct, mac })
    }
}

/// The info text that stretches the master key into the encryption key.
pub open spec fn enc_info() -> Seq<u8> {
    seq![101u8, 110u8, 99u8]
}

/// The info text that stretches the master key into the authentication key.
pub open spec fn mac_info() -> Seq<u8> {
    seq![109u8, 97u8, 99u8]
}

fn bytes_eq(a: &Vec<u8>, b: &Vec<u8>) -> (r: bool)
    ensures
        r == (a@ == b@),
{
    if a.len() != b.len() {
        return false;
    }
    let mut i: usize = 0;
    while i < a.len()
        invariant
            i <= a.len(),
            a@.len() == b@.len(),
            forall|k: int| 0 <= k < i ==> a@[k] == b@[k],
        decreases a.len() - i,
    {
        if a[i] != b[i] {
            return false;
        }
        i = i + 1;
    }
    proof {
        assert(a@ =~= b@);
    }
    true
}

/// The whole client-side derivation: the master key from password and salt,
/// stretched into an encryption and an authentication key; the blob parsed,
/// authenticated, decrypted and split into the two 32-byte vault keys.
pub open spec fn spec_derive_vault_keys(
    password: Seq<u8>,
    salt: Seq<u8>,
    rounds: u32,
    blob: Seq<char>,
) -> Result<(Seq<u8>, Seq<u8>), CryptoError> {
    match spec_cipher_fields(blob) {
        None => Err(CryptoError::Format),
        Some(f) => match (b64_decode_of(f.0), b64_decode_of(f.1), b64_decode_of(f.2)) {
            (Some(iv), Some(ct), Some(mac)) => {
                let master = pbkdf2_sha256_of(password, salt, rounds);
                let enc_key = hkdf_sha256_of(master, enc_info());
                let mac_key = hkdf_sha256_of(master, mac_info());
                if hmac_sha256_of(mac_key, iv + ct) != mac {
                    Err(CryptoError::MacMismatch)
                } else if iv.len() != 16 {
                    Err(CryptoError::InvalidIv)
                } else if ct.len() % 16 != 0 {
                    Err(CryptoError::BlockLength)
                } else {
                    let p = spec_cbc_plain(enc_key, iv, ct);
                    if !spec_pkcs7_ok(p) {
                        Err(CryptoError::Padding)
                    } else {
                        let clear = spec_unpad(p);
                        if clear.len() != 64 {
                            Err(CryptoError::KeyLength)
                        } else {
                            Ok((clear.take(32), clear.skip(32)))
                        }
                    }
                }
            },
            _ => Err(CryptoError::Encoding),
        },
    }
}

/// Derives the vault's encryption and authentication keys from the master
/// password, the account identity as salt, the backend's round count and
/// the protected key blob.
pub fn derive_vault_keys(password: &[u8], salt: &[u8], rounds: u32, blob: &str) -> (r: Result<
    (Vec<u8>, Vec<u8>),
    CryptoError,
>)
    requires
        rounds >= 1,
    ensures
        match r {
            Ok(keys) => spec_derive_vault_keys(password@, salt@, rounds, blob@) == Ok::<
                (Seq<u8>, Seq<u8>),
                CryptoError,
            >((keys.0@, keys.1@)),
            Err(e) => spec_derive_vault_keys(password@, salt@, rounds, blob@) == Err::<
                (Seq<u8>, Seq<u8>),
                CryptoError,
            >(e),
        },
{
    let cipher = match Cipher::parse(blob) {
        Ok(c) => c,
        Err(e) => {
            return Err(e);
        },
    };
    let master = pbkdf2_sha256(password, salt, rounds);
    let mut enc_text: Vec<u8> = Vec::new();
    enc_text.push(101);
    enc_text.push(110);
    enc_text.push(99);
    proof {
        assert(enc_text@ =~= enc_info());
    }
    let mut mac_text: Vec<u8> = Vec::new();
    mac_text.push(109);
    mac_text.push(97);
    mac_text.push(99);
    proof {
        assert(mac_text@ =~= mac_info());
    }
    let enc_key = hkdf_sha256_expand(master.as_slice(), enc_text.as_slice());
    let mac_key = hkdf_sha256_expand(master.as_slice(), mac_text.as_slice());
    let computed = hmac_sha256(mac_key.as_slice(), cipher.iv.as_slice(), cipher.ct.as_slice());
    if !bytes_eq(&computed, &cipher.mac) {
        return Err(CryptoError::MacMismatch);
    }
    let clear = match decrypt_aes_cbc_pkcs7(&enc_key, &cipher.iv, &cipher.ct) {
        Ok(v) => v,
        Err(e) => {
            return Err(e);
        },
    };
    if clear.len() != 64 {
        return Err(CryptoError::KeyLength);
    }
    let mut vault_enc: Vec<u8> = Vec::new();
    let mut i: usize = 0;
    while i < 32
        invariant
            i <= 32,
            clear@.len() == 64,
            vault_enc@ =~= clear@.take(32).take(i as int),
        decreases 32 - i,
    {
        vault_enc.push(clear[i]);
        proof {
            assert(vault_enc@ =~= clear@.take(32).take(i + 1));
        }
        i = i + 1;
    }
    let mut vault_mac: Vec<u8> = Vec::new();
    let mut j: usize = 32;
    while j < 64
        invariant
            32 <= j <= 64,
            clear@.len() == 64,
            vault_mac@ =~= clear@.skip(32).take(j - 32),
        decreases 64 - j,
    {
        vault_mac.push(clear[j]);
        proof {
            assert(vault_mac@ =~= clear@.skip(32).take(j - 32 + 1));
        }
        j = j + 1;
    }
    proof {
        assert(vault_enc@ =~= clear@.take(32));
        assert(vault_mac@ =~= clear@.skip(32));
    }
    Ok((vault_enc, vault_mac))
}

} // verus!
