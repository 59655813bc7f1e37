use vstd::prelude::*;

use crate::uri::split;

verus! {

/// Password hashing failed inside the hasher (its random salt could not
/// be drawn); does not occur under correct configuration.
#[derive(Clone, Copy, PartialEq, Eq, Structural, Debug)]
pub struct HashingError;

/// What scrypt verification says of a password against a stored
/// well-formed hash string: the outcome depends on the two strings
/// alone.
pub uninterp spec fn scrypt_matches(password: Seq<char>, hash: Seq<char>) -> bool;

/// The value a character carries in the standard base64 alphabet, or a
/// negative number for any other character.
pub open spec fn b64_val(c: char) -> int {
    if 'A' as int <= c as int && c as int <= 'Z' as int {
        c as int - 'A' as int
    } else if 'a' as int <= c as int && c as int <= 'z' as int {
        c as int - 'a' as int + 26
    } else if '0' as int <= c as int && c as int <= '9' as int {
        c as int - '0' as int + 52
    } else if c == '+' {
        62
    } else if c == '/' {
        63
    } else {
        -1
    }
}

pub open spec fn is_b64_char(c: char) -> bool {
    b64_val(c) >= 0
}

/// Two to the power `e` (small exponents only).
pub open spec fn pow2(e: int) -> int
    decreases e,
{
    if e <= 0 {
        1
    } else {
        2 * pow2(e - 1)
    }
}

/// The three parameter bytes (cost exponent, block size, parallelism)
/// encoded in a four-character base64 field.
pub open spec fn param_log_n(f: Seq<char>) -> int {
    b64_val(f[0]) * 4 + b64_val(f[1]) / 16
}

pub open spec fn param_r(f: Seq<char>) -> int {
    (b64_val(f[1]) % 16) * 16 + b64_val(f[2]) / 4
}

pub open spec fn param_p(f: Seq<char>) -> int {
    (b64_val(f[2]) % 4) * 64 + b64_val(f[3])
}

/// The parameter ranges under which the scrypt computation is defined
/// and affordable: every parameter positive, the cost exponent below
/// sixteen times the block size (a bound scrypt itself imposes), and
/// the working memory of `128 * r * 2^log_n` bytes capped at 128 MiB.
/// The cap covers every hash this library produces with a wide margin;
/// a hash demanding more is treated as not well formed.
pub open spec fn scrypt_params_ok(f: Seq<char>) -> bool {
    let log_n = param_log_n(f);
    let r = param_r(f);
    let p = param_p(f);
    &&& 1 <= log_n <= 20
    &&& 1 <= r
    &&& 1 <= p
    &&& log_n < 16 * r
    &&& r * pow2(log_n) <= 0x100000
}

/// A well-formed stored hash: the compact self-describing format this
/// library's hasher emits — six separators framing an empty prefix,
/// the format name, format zero, a four-character parameter field in
/// the canonical base64 alphabet with parameters in range, a salt
/// field, and a non-empty digest field.
pub open spec fn scrypt_hash_wf(h: Seq<char>) -> bool {
    let parts = split(h, '$');
    &&& parts.len() == 7
    &&& parts[0].len() == 0
    &&& parts[1] == "rscrypt"@
    &&& parts[2] == "0"@
    &&& parts[6].len() == 0
    &&& parts[3].len() == 4
    &&& (forall|i: int| 0 <= i < 4 ==> is_b64_char(#[trigger] parts[3][i]))
    &&& scrypt_params_ok(parts[3])
    &&& parts[5].len() >= 2
    &&& is_b64_char(parts[5][0])
    &&& is_b64_char(parts[5][1])
}

/// Whether `password` verifies against the stored hash: the hash is
/// well formed and the recomputed key matches. A malformed hash
/// matches no password.
pub open spec fn password_matches(password: Seq<char>, hash: Seq<char>) -> bool {
    scrypt_hash_wf(hash) && scrypt_matches(password, hash)
}

/// The base64 value of a character, negative for any other.
fn b64_val_exec(c: char) -> (r: i32)
    ensures
        r as int == b64_val(c),
{
    let u = c as u32;
    if 65 <= u && u <= 90 {
        (u - 65) as i32
    } else if 97 <= u && u <= 122 {
        (u - 97) as i32 + 26
    } else if 48 <= u && u <= 57 {
        (u - 48) as i32 + 52
    } else if u == 43 {
        62
    } else if u == 47 {
        63
    } else {
        -1
    }
}

/// Powers of two are positive.
proof fn lemma_pow2_pos(e: int)
    requires
        0 <= e,
    ensures
        pow2(e) >= 1,
    decreases e,
{
    if e > 0 {
        lemma_pow2_pos(e - 1);
    }
}

/// Up to the twentieth power, two to the `e` stays at or below 2^20.
proof fn lemma_pow2_at_most(e: int)
    requires
        0 <= e <= 20,
    ensures
        pow2(e) <= 0x100000,
    decreases 20 - e,
{
    if e < 20 {
        lemma_pow2_at_most(e + 1);
        lemma_pow2_pos(e);
    } else {
        assert(pow2(20) == 0x100000) by {
            reveal_with_fuel(pow2, 21);
        }
    }
}

/// Two to the power `e`, for small exponents.
fn pow2_exec(e: u32) -> (r: u64)
    requires
        e <= 20,
    ensures
        r as int == pow2(e as int),
        1 <= r <= 0x100000,
    decreases e,
{
    if e == 0 {
        1
    } else {
        let half = pow2_exec(e - 1);
        proof {
            lemma_pow2_at_most(e as int);
        }
        2 * half
    }
}

/// Decide whether a stored hash is well formed.
fn scrypt_hash_wf_exec(hash: &str) -> (r: bool)
    ensures
        r == scrypt_hash_wf(hash@),
{
    let parts = crate::uri::split_exec(hash, '$');
    if parts.len() != 7 {
        return false;
    }
    if parts[0].as_str().unicode_len() != 0 {
        return false;
    }
    if !crate::store::str_eq(parts[1].as_str(), "rscrypt") {
        return false;
    }
    if !crate::store::str_eq(parts[2].as_str(), "0") {
        return false;
    }
    if parts[6].as_str().unicode_len() != 0 {
        return false;
    }
    let f = parts[3].as_str();
    if f.unicode_len() != 4 {
        return false;
    }
    let v0 = b64_val_exec(f.get_char(0));
    let v1 = b64_val_exec(f.get_char(1));
    let v2 = b64_val_exec(f.get_char(2));
    let v3 = b64_val_exec(f.get_char(3));
    if v0 < 0 || v1 < 0 || v2 < 0 || v3 < 0 {
        return false;
    }
    let log_n: i32 = v0 * 4 + v1 / 16;
    let r_par: i32 = (v1 % 16) * 16 + v2 / 4;
    let p_par: i32 = (v2 % 4) * 64 + v3;
    if !(1 <= log_n && log_n <= 20 && 1 <= r_par && 1 <= p_par && log_n < 16 * r_par) {
        return false;
    }
    let np = pow2_exec(log_n as u32);
    let rp: u64 = r_par as u64;
    proof {
        assert(rp * np <= 0x80000000u64 * 0x100000u64) by (nonlinear_arith)
            requires
                rp <= 0x80000000u64,
                np <= 0x100000u64,
        ;
    }
    if rp * np > 0x100000 {
        return false;
    }
    let d = parts[5].as_str();
    if d.unicode_len() < 2 {
        return false;
    }
    if b64_val_exec(d.get_char(0)) < 0 || b64_val_exec(d.get_char(1)) < 0 {
        return false;
    }
    true
}

/// Relies on crypto::scrypt::scrypt_simple: it derives a salted,
/// memory-hard hash (cost 2^14, block size 16, parallelism 1) whose
/// compact self-describing output — well formed in the sense above —
/// verifies against the hashed password under
/// crypto::scrypt::scrypt_check, and it fails only when the process
/// cannot draw random salt bytes.
#[verifier::external_body]
fn scrypt_simple_call(password: &str) -> (r: Result<String, HashingError>)
    ensures
        r matches Ok(h) ==> password_matches(password@, h@),
{
    match crypto::scrypt::scrypt_simple(password, &crypto::scrypt::ScryptParams::new(14, 16, 1)) {
        Ok(h) => Ok(h),
        Err(_) => Err(HashingError),
    }
}

/// Relies on crypto::scrypt::scrypt_check, called on well-formed
/// hashes only: within that shape the parameter assertions inside the
/// scrypt code all hold, the digest is non-empty, and the call returns
/// a plain boolean — `Err` (a salt or digest field that is not valid
/// base64) is reported as no match, as the callers treat it.
#[verifier::external_body]
fn scrypt_check_call(password: &str, hash: &str) -> (r: bool)
    requires
        scrypt_hash_wf(hash@),
    ensures
        r == scrypt_matches(password@, hash@),
{
    crypto::scrypt::scrypt_check(password, hash).unwrap_or(false)
}

/// Hash a password for storage with the production parameters.
pub fn hash_password(password: &str) -> (r: Result<String, HashingError>)
    ensures
        r matches Ok(h) ==> password_matches(password@, h@),
{
    scrypt_simple_call(password)
}

/// Whether `password` verifies against a stored hash string. The hash
/// is checked for well-formedness first, so a malformed or outlandish
/// hash yields `false` and the scrypt code is never entered with
/// parameters it would reject.
pub fn check_password(password: &str, hash: &str) -> (r: bool)
    ensures
        r == password_matches(password@, hash@),
{
    if !scrypt_hash_wf_exec(hash) {
        return false;
    }
    scrypt_check_call(password, hash)
}

} // verus!
