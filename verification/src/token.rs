use vstd::prelude::*;

verus! {

/// What base64 encoding (URL-safe alphabet, padded) returns for a byte
/// sequence: a function of the bytes alone.
pub uninterp spec fn base64_of(bytes: Seq<u8>) -> Seq<char>;

/// Relies on base64::encode_config with the URL_SAFE config: URL-safe
/// alphabet (`-` and `_` in place of `+` and `/`) with padding, so the
/// output holds four characters for every started group of three bytes.
#[verifier::external_body]
fn base64_encode(bytes: &[u8]) -> (r: String)
    ensures
        r@ == base64_of(bytes@),
        r@.len() == ((bytes@.len() + 2) / 3) * 4,
{
    base64::encode_config(bytes, base64::URL_SAFE)
}

/// Relies on rand::rngs::OsRng, which draws from the operating system's
/// entropy source: on success the whole buffer is filled, and a failing
/// source is reported as an error rather than a panic. Nothing is
/// promised of the bytes themselves.
#[verifier::external_body]
fn random_bytes_96() -> (r: Result<Vec<u8>, ()>)
    ensures
        r matches Ok(b) ==> b@.len() == 96,
{
    let mut rng = rand::rngs::OsRng;
    let mut bytes: [u8; 96] = [0; 96];
    match rand::RngCore::try_fill_bytes(&mut rng, &mut bytes) {
        Ok(()) => Ok(bytes.to_vec()),
        Err(_) => Err(()),
    }
}

/// An unguessable session token: 96 bytes of operating-system
/// randomness, URL-safe base64-encoded. Two calls may (and all but
/// surely do) return different tokens, so nothing is stated beyond the
/// length; an error means the entropy source failed.
pub fn generate_session_id() -> (r: Result<String, ()>)
    ensures
        r matches Ok(t) ==> t@.len() == 128,
{
    let bytes = match random_bytes_96() {
        Ok(b) => b,
        Err(()) => {
            return Err(());
        },
    };
    Ok(base64_encode(bytes.as_slice()))
}

} // verus!
