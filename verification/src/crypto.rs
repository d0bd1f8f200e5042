use vstd::prelude::*;

verus! {

/// What `Sha256::digest` of the `sha2` crate returns for the given bytes.
pub uninterp spec fn sha256_digest(data: Seq<u8>) -> Seq<u8>;

/// What the `URL_SAFE_NO_PAD` engine of the `base64` crate decodes the given
/// text to, or `None` where it reports a decode error.
pub uninterp spec fn base64url_nopad_decode(text: Seq<char>) -> Option<Seq<u8>>;

/// The block size of SHA-256, in bytes.
pub open spec fn sha256_block_len() -> nat {
    64
}

/// Each byte of `bytes` exclusive-or'd with `pad`.
pub open spec fn xor_each(bytes: Seq<u8>, pad: u8) -> Seq<u8> {
    Seq::new(bytes.len(), |i: int| bytes[i] ^ pad)
}

/// The HMAC key block: the key (hashed first where it is longer than a block)
/// padded with zero bytes to the block size.
pub open spec fn hmac_key_block(key: Seq<u8>) -> Seq<u8> {
    let k = if key.len() <= sha256_block_len() { key } else { sha256_digest(key) };
    if k.len() <= sha256_block_len() {
        k + Seq::new((sha256_block_len() - k.len()) as nat, |i: int| 0u8)
    } else {
        k.take(sha256_block_len() as int)
    }
}

/// HMAC-SHA256 of `msg` under `key` (RFC 2104), over the SHA-256 digest.
pub open spec fn hmac_sha256(key: Seq<u8>, msg: Seq<u8>) -> Seq<u8> {
    let block = hmac_key_block(key);
    sha256_digest(xor_each(block, 0x5cu8) + sha256_digest(xor_each(block, 0x36u8) + msg))
}

/// One lower-case hexadecimal digit for a value below 16.
pub open spec fn hex_digit(n: u8) -> char {
    if n < 10 {
        (48 + n) as char
    } else {
        (87 + n) as char
    }
}

/// The lower-case hexadecimal text of `bytes`: two digits per byte, high
/// nibble first.
pub open spec fn lower_hex(bytes: Seq<u8>) -> Seq<char> {
    Seq::new(
        2 * bytes.len(),
        |i: int|
            if i % 2 == 0 {
                hex_digit(bytes[i / 2] / 16)
            } else {
                hex_digit(bytes[i / 2] % 16)
            },
    )
}

/// Maps a decoded value to its view.
pub open spec fn opt_bytes(v: Option<Vec<u8>>) -> Option<Seq<u8>> {
    match v {
        Some(b) => Some(b@),
        None => None,
    }
}

/// SHA-256 of `data`, by `sha2::Sha256::digest`.
/// Trusted: the result is the named digest of the input, 32 bytes long (the
/// crate's `OutputSize` for `Sha256`).
#[verifier::external_body]
pub(crate) fn sha256(data: &[u8]) -> (res: Vec<u8>)
    ensures
        res@ == sha256_digest(data@),
        res@.len() == 32,
{
    <sha2::Sha256 as sha2::Digest>::digest(data).to_vec()
}

/// HMAC-SHA256 by `hmac::Hmac::<sha2::Sha256>::new_from_slice`, `update` and
/// `finalize`.
/// Trusted: `new_from_slice` never fails for `Hmac` (its source always
/// returns `Ok`), and the tag is RFC 2104 HMAC over SHA-256 as the crate's
/// `get_der_key`, `IPAD` and `OPAD` compute it.
#[verifier::external_body]
pub(crate) fn hmac_sha256_tag(key: &[u8], msg: &[u8]) -> (res: Option<Vec<u8>>)
    ensures
        opt_bytes(res) == Some(hmac_sha256(key@, msg@)),
{
    match <hmac::Hmac<sha2::Sha256> as hmac::Mac>::new_from_slice(key) {
        Ok(mut mac) => {
            hmac::Mac::update(&mut mac, msg);
            Some(hmac::Mac::finalize(mac).into_bytes().to_vec())
        },
        Err(_) => None,
    }
}

/// Decodes unpadded URL-safe base64 by
/// `base64::engine::general_purpose::URL_SAFE_NO_PAD.decode`.
/// Trusted: the result is the named decoding of the text, `None` on a decode
/// error.
#[verifier::external_body]
pub(crate) fn decode_base64url(text: &str) -> (res: Option<Vec<u8>>)
    ensures
        opt_bytes(res) == base64url_nopad_decode(text@),
{
    match base64::Engine::decode(&base64::engine::general_purpose::URL_SAFE_NO_PAD, text) {
        Ok(v) => Some(v),
        Err(_) => None,
    }
}

/// Constant-time comparison of two byte slices by `subtle::ConstantTimeEq`.
/// Trusted: the slice impl answers true exactly when the lengths agree and
/// every byte agrees.
#[verifier::external_body]
pub(crate) fn ct_eq_bytes(a: &[u8], b: &[u8]) -> (res: bool)
    ensures
        res == (a@ == b@),
{
    bool::from(subtle::ConstantTimeEq::ct_eq(a, b))
}

/// Lower-case hexadecimal text of `data`, by `hex::encode`.
/// Trusted: each byte becomes two digits from `0123456789abcdef`, high nibble
/// first, as the crate's `BytesToHexChars` with `HEX_CHARS_LOWER` does.
#[verifier::external_body]
pub(crate) fn hex_encode(data: &[u8]) -> (res: String)
    ensures
        res@ == lower_hex(data@),
{
    hex::encode(data)
}

/// The current time in whole seconds since the Unix epoch, by
/// `chrono::Utc::now().timestamp()`.
/// Trusted: nothing is stated of the value, which is the machine's clock.
#[verifier::external_body]
pub(crate) fn unix_timestamp_now() -> i64 {
    chrono::Utc::now().timestamp()
}

} // verus!
