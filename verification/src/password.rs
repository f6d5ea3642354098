//! Passwords, kept as Argon2 hashes.

use crate::text::{is_alphanumeric, is_digit};
use argon2::password_hash::{PasswordHash, PasswordHasher, PasswordVerifier, Salt, SaltString};
use argon2::Argon2;
use vstd::prelude::*;
use vstd::string::*;

verus! {

/// `password_hash::Error`, why a password was not hashed or not accepted.
#[verifier::external_type_specification]
#[verifier::external_body]
pub struct ExPasswordError(argon2::password_hash::Error);

/// What hashing a password with a salt gives: the PHC text of the Argon2 hash
/// with the default parameters, or nothing where it cannot be computed.
pub uninterp spec fn argon2_hash(password: Seq<u8>, salt: Seq<char>) -> Option<Seq<char>>;

/// Whether a password is the one that a PHC text was made of.
pub uninterp spec fn argon2_accepts(password: Seq<u8>, hash: Seq<char>) -> bool;

/// The text asks for a degree of parallelism of nine digits or more, which is
/// beyond what Argon2 has.
pub open spec fn asks_too_many_lanes(hash: Seq<char>) -> bool {
    exists|i: int| #[trigger] lanes_at(hash, i)
}

/// `p=` and nine digits stand at `i`.
pub open spec fn lanes_at(hash: Seq<char>, i: int) -> bool {
    &&& 0 <= i <= hash.len() - 11
    &&& hash[i] == 'p'
    &&& hash[i + 1] == '='
    &&& forall|j: int| i + 2 <= j < i + 11 ==> is_digit(#[trigger] hash[j])
}

/// A character of base 64.
pub open spec fn is_base64(c: char) -> bool {
    is_alphanumeric(c) || c == '+' || c == '/'
}

/// A salt of sixteen bytes in base 64 without padding: twenty-two characters, of
/// which the last holds two bits.
pub open spec fn is_salt(text: Seq<char>) -> bool {
    &&& text.len() == 22
    &&& forall|i: int| 0 <= i < 22 ==> is_base64(#[trigger] text[i])
    &&& text[21] == 'A' || text[21] == 'Q' || text[21] == 'g' || text[21] == 'w'
}

/// The longest password that Argon2 takes, in bytes.
pub const MAX_PASSWORD_BYTES: u64 = 0xFFFF_FFFF;

/// `SaltString::generate` with the operating system's generator: a fresh salt of
/// sixteen bytes in base 64. Nothing is said of which one.
#[verifier::external_body]
fn generate_salt() -> (r: String)
    ensures
        is_salt(r@),
{
    SaltString::generate(&mut argon2::password_hash::rand_core::OsRng).as_str().to_owned()
}

/// `Argon2::hash_password` with the default parameters, under a salt in base
/// 64. The text that it gives asks for one lane, and `Argon2::verify_password`
/// accepts the password for it. A password that is too long has no hash, and
/// under a salt of sixteen bytes every other one has.
#[verifier::external_body]
fn argon2_hash_password(password: &[u8], salt: &str) -> (r: Result<
    String,
    argon2::password_hash::Error,
>)
    ensures
        match r {
            Ok(hash) => {
                &&& argon2_hash(password@, salt@) == Some(hash@)
                &&& argon2_accepts(password@, hash@)
                &&& !asks_too_many_lanes(hash@)
                &&& password@.len() <= MAX_PASSWORD_BYTES
            },
            Err(_) => {
                &&& argon2_hash(password@, salt@) is None
                &&& is_salt(salt@) ==> password@.len() > MAX_PASSWORD_BYTES
            },
        },
{
    let salt = Salt::from_b64(salt)?;
    Argon2::default().hash_password(password, salt).map(|hash| hash.to_string())
}

/// `Argon2::verify_password` on the hash that `PasswordHash::new` reads from
/// the text: `Ok` where the password gives the same hash again. A text that is
/// no hash is an error too. A text with too large a degree of parallelism is
/// left out: the crate multiplies it before it tests it. As with everything that
/// allocates, nothing is said of a machine that runs out of memory.
#[verifier::external_body]
fn argon2_verify_password(password: &[u8], hash: &str) -> (r: Result<
    (),
    argon2::password_hash::Error,
>)
    requires
        !asks_too_many_lanes(hash@),
    ensures
        r is Ok == argon2_accepts(password@, hash@),
{
    let parsed = PasswordHash::new(hash)?;
    Argon2::default().verify_password(password, &parsed)
}

/// The hash of the password under the salt.
pub fn hash_with_salt(password: &str, salt: &str) -> (r: Result<String, ()>)
    ensures
        match r {
            Ok(hash) => {
                &&& argon2_hash(password.spec_bytes(), salt@) == Some(hash@)
                &&& accepts(password@, hash@)
                &&& !hashing_fails(password@)
            },
            Err(_) => {
                &&& argon2_hash(password.spec_bytes(), salt@) is None
                &&& is_salt(salt@) ==> hashing_fails(password@)
            },
        },
{
    match argon2_hash_password(password.as_bytes(), salt) {
        Ok(hash) => Ok(hash),
        Err(_) => Err(()),
    }
}

/// The hash of the password under a fresh salt. There is one for every password
/// that is not too long.
pub fn hash_password(password: &str) -> (r: Result<String, ()>)
    ensures
        match r {
            Ok(hash) => {
                &&& !hashing_fails(password@)
                &&& accepts(password@, hash@)
                &&& hash_of(password@, hash@)
            },
            Err(_) => hashing_fails(password@),
        },
{
    let salt: String = generate_salt();
    hash_with_salt(password, salt.as_str())
}

/// The hash is the password's, under some salt of sixteen bytes.
pub open spec fn hash_of(password: Seq<char>, hash: Seq<char>) -> bool {
    exists|salt: Seq<char>|
        is_salt(salt) && #[trigger] argon2_hash(vstd::utf8::encode_utf8(password), salt) == Some(
            hash,
        )
}

/// The password is too long to be hashed.
pub open spec fn hashing_fails(password: Seq<char>) -> bool {
    vstd::utf8::encode_utf8(password).len() > MAX_PASSWORD_BYTES
}

/// A character takes four bytes at most.
proof fn lemma_encoded_length(text: Seq<char>)
    ensures
        vstd::utf8::encode_utf8(text).len() <= 4 * text.len(),
    decreases text.len(),
{
    if text.len() > 0 {
        lemma_encoded_length(text.drop_first());
    }
}

/// A password has a hash wherever four bytes for each of its characters are not
/// too many. That goes for every password that a user may choose.
pub proof fn law_usual_passwords_are_hashed(password: Seq<char>)
    requires
        4 * password.len() <= MAX_PASSWORD_BYTES,
    ensures
        !hashing_fails(password),
{
    lemma_encoded_length(password);
}

/// The password is the one that the hash was made of.
pub open spec fn accepts(password: Seq<char>, hash: Seq<char>) -> bool {
    !asks_too_many_lanes(hash) && argon2_accepts(vstd::utf8::encode_utf8(password), hash)
}

/// Whether `p=` and nine digits stand in the text.
fn too_many_lanes(hash: &str) -> (r: bool)
    ensures
        r == asks_too_many_lanes(hash@),
{
    let mut chars: Vec<char> = Vec::new();
    for c in it: hash.chars()
        invariant
            it.seq() == hash@,
            chars@ == hash@.take(it.index() as int),
    {
        chars.push(c);
        assert(hash@.take(it.index() as int + 1) =~= hash@.take(it.index() as int).push(c));
    }
    assert(chars@ =~= hash@);
    let n: usize = chars.len();
    if n < 11 {
        return false;
    }
    for i in 0..n - 10
        invariant
            n == chars@.len(),
            n >= 11,
            chars@ == hash@,
            forall|k: int| 0 <= k < i ==> !#[trigger] lanes_at(hash@, k),
    {
        if chars[i] == 'p' && chars[i + 1] == '=' {
            let mut j: usize = i + 2;
            while j < i + 11 && '0' <= chars[j] && chars[j] <= '9'
                invariant
                    i + 2 <= j <= i + 11,
                    i + 11 <= n,
                    n == chars@.len(),
                    chars@ == hash@,
                    forall|k: int| i + 2 <= k < j ==> is_digit(#[trigger] hash@[k]),
                decreases n - j,
            {
                j = j + 1;
            }
            if j == i + 11 {
                assert(lanes_at(hash@, i as int));
                return true;
            }
            assert(!is_digit(hash@[j as int]));
        }
    }
    false
}

/// Whether the password is the one that the hash was made of. A text that is
/// no hash accepts no password.
pub fn verify_password(password: &str, hash: &str) -> (r: bool)
    ensures
        r == accepts(password@, hash@),
{
    if too_many_lanes(hash) {
        return false;
    }
    match argon2_verify_password(password.as_bytes(), hash) {
        Ok(_) => true,
        Err(_) => false,
    }
}

/// A password is accepted for a hash exactly where Argon2 accepts the bytes of its
/// characters, none of them changed, unless the hash asks for what Argon2 has not.
pub proof fn law_passwords_count_to_the_letter(password: Seq<char>, hash: Seq<char>)
    ensures
        accepts(password, hash) ==> argon2_accepts(vstd::utf8::encode_utf8(password), hash),
        argon2_accepts(vstd::utf8::encode_utf8(password), hash) && !asks_too_many_lanes(hash)
            ==> accepts(password, hash),
        hash_of(password, hash) ==> exists|salt: Seq<char>|
            #[trigger] argon2_hash(vstd::utf8::encode_utf8(password), salt) == Some(hash),
{
}

} // verus!
