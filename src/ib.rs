//! Identity of the InfiniBand adapter attached to the host.
//!
//! The adapter is looked up by PCI device identifier under a fixed vendor;
//! when it is present and a cluster secret is configured, the identity is the
//! Argon2 digest of that secret under a fixed salt, else it is `"None"`.

use crate::wire::opt_seq;
use argon2::PasswordHasher;
use vstd::prelude::*;
use vstd::string::StringSliceAdditionalSpecFns;

verus! {

/// The bytes that a B64 salt string decodes to, or `None` where it is refused.
pub uninterp spec fn b64_salt_bytes(b64: Seq<char>) -> Option<Seq<u8>>;

/// The B64 text of the Argon2 (default parameters) output for a secret and a
/// salt.
pub uninterp spec fn argon2_digest_of(secret: Seq<u8>, salt: Seq<u8>) -> Seq<char>;

pub open spec fn is_ascii_alphanumeric(c: char) -> bool {
    ('0' <= c && c <= '9') || ('A' <= c && c <= 'Z') || ('a' <= c && c <= 'z')
}

/// A character of the B64 alphabet.
pub open spec fn is_b64_char(c: char) -> bool {
    is_ascii_alphanumeric(c) || c == '+' || c == '/'
}

/// Text made only of B64 characters.
pub open spec fn is_b64_text(t: Seq<char>) -> bool {
    forall|i: int| 0 <= i < t.len() ==> is_b64_char(#[trigger] t[i])
}

/// Salt text that B64 decoding always accepts: 11 to 64 alphanumeric
/// characters in whole groups of four, which leave no spare bits.
pub open spec fn plain_salt_text(t: Seq<char>) -> bool {
    &&& 11 <= t.len() <= 64
    &&& t.len() % 4 == 0
    &&& forall|i: int| 0 <= i < t.len() ==> is_ascii_alphanumeric(#[trigger] t[i])
}

pub open spec fn opt_text(v: Option<String>) -> Option<Seq<char>> {
    match v {
        Some(s) => Some(s@),
        None => None,
    }
}

/// Relies on `password_hash::phc::Salt::from_b64`: decodes a B64 salt
/// string into its bytes, or refuses it. Text of 11 to 64 characters, all
/// from the alphabet and in whole groups of four, is always accepted and
/// gives three bytes per group.
#[verifier::external_body]
fn decode_salt(b64: &str) -> (r: Option<Vec<u8>>)
    ensures
        opt_seq(r) == b64_salt_bytes(b64@),
        plain_salt_text(b64@) ==> r is Some && r->0@.len() == b64@.len() / 4 * 3,
{
    match argon2::password_hash::phc::Salt::from_b64(b64) {
        Ok(salt) => Some(salt.to_vec()),
        Err(_) => None,
    }
}

/// Relies on `argon2::Argon2::default` and its
/// `PasswordHasher::hash_password_with_salt`: the hash depends on the secret
/// and the salt alone and is 32 bytes, rendered as 43 characters of unpadded
/// B64. It is produced for a salt of 8 to 48 bytes and a secret of at most
/// `0xffff_ffff` bytes; as everywhere in this library, the allocation of
/// working memory is taken to succeed.
#[verifier::external_body]
fn argon2_digest(secret: &[u8], salt: &[u8]) -> (r: Option<String>)
    ensures
        8 <= salt@.len() <= 48 && secret@.len() <= 0xffff_ffff ==> r is Some,
        r is Some ==> r->0@ == argon2_digest_of(secret@, salt@) && r->0@.len() == 43
            && is_b64_text(r->0@),
{
    match argon2::Argon2::default().hash_password_with_salt(secret, salt) {
        Ok(h) => h.hash.map(|o| o.to_string()),
        Err(_) => None,
    }
}

/// Vendor identifier under which the adapter is looked up.
pub open spec fn vendor_id_text() -> Seq<char> {
    seq!['1', '0', '7', '7']
}

/// The B64 salt under which the cluster secret is hashed.
pub open spec fn cluster_salt_text() -> Seq<char> {
    seq!['G', 'o', 'l', 'e', 'm', 'N', 'e', 't', 'w', 'o', 'r', 'k']
}

/// The identity reported when no adapter or no secret is available.
pub open spec fn absent_id_text() -> Seq<char> {
    seq!['N', 'o', 'n', 'e']
}

/// The selector value that turns the adapter lookup off.
pub open spec fn disabled_text() -> Seq<char> {
    seq!['n', 'o']
}

/// Failures while deriving the adapter identity.
#[derive(Debug, Clone, Copy, PartialEq, Eq, Structural)]
pub enum IBError {
    /// Hashing the cluster secret failed.
    HashFailed,
}

pub struct IBInfo {
    pub id: String,
}

/// The PCI device identifier to look up, given the selector setting: none
/// when it is unset or reads `"no"`.
pub open spec fn probe_target_of(selector: Option<Seq<char>>) -> Option<Seq<char>> {
    match selector {
        Some(s) => if s == disabled_text() { None } else { Some(s) },
        None => None,
    }
}

/// Whether a name reported by the PCI probe stands for a present device.
pub open spec fn adapter_present(device_name: Option<Seq<char>>) -> bool {
    match device_name {
        Some(n) => n != absent_id_text(),
        None => false,
    }
}

pub open spec fn opt_str_view(s: Option<&str>) -> Option<Seq<char>> {
    match s {
        Some(t) => Some(t@),
        None => None,
    }
}

pub open spec fn opt_str_bytes(s: Option<&str>) -> Option<Seq<u8>> {
    match s {
        Some(t) => Some(t.spec_bytes()),
        None => None,
    }
}

fn text_eq(a: &str, b: &str) -> (r: bool)
    ensures
        r == (a@ == b@),
{
    let x = a.to_owned();
    let y = b.to_owned();
    x == y
}

/// Vendor identifier under which the adapter is looked up.
pub fn infiniband_vendor_id() -> (r: String)
    ensures
        r@ == vendor_id_text(),
{
    proof {
        reveal_strlit("1077");
    }
    let r = "1077".to_owned();
    assert(r@ =~= vendor_id_text());
    r
}

/// The PCI device identifier that the startup probe should look for.
pub fn probe_target(selector: Option<&str>) -> (r: Option<String>)
    ensures
        opt_text(r) == probe_target_of(opt_str_view(selector)),
{
    match selector {
        None => None,
        Some(s) => {
            proof {
                reveal_strlit("no");
            }
            let off = text_eq(s, "no");
            assert("no"@ =~= disabled_text());
            if off {
                None
            } else {
                Some(s.to_owned())
            }
        },
    }
}

impl IBInfo {
    /// The identity of a host without an adapter or without a secret.
    pub fn absent() -> (r: IBInfo)
        ensures
            r.id@ == absent_id_text(),
    {
        proof {
            reveal_strlit("None");
        }
        let id = "None".to_owned();
        assert(id@ =~= absent_id_text());
        IBInfo { id }
    }

    /// Builds the identity from the outcome of hashing the cluster secret.
    pub fn from_digest(digest: Option<String>) -> (r: Result<IBInfo, IBError>)
        ensures
            match digest {
                Some(d) => r matches Ok(info) && info.id@ == d@,
                None => r == Err::<IBInfo, IBError>(IBError::HashFailed),
            },
    {
        match digest {
            Some(d) => Ok(IBInfo { id: d }),
            None => Err(IBError::HashFailed),
        }
    }

    /// Derives the identity from what the PCI probe reported for the adapter
    /// (`None` when no probe ran) and from the configured cluster secret:
    /// `"None"` without an adapter or a secret, else the salted digest of the
    /// secret. `HashFailed` can only come for a secret over `0xffff_ffff`
    /// bytes, which the hasher refuses.
    pub fn try_new(device_name: Option<&str>, cluster_secret: Option<&str>) -> (r: Result<IBInfo, IBError>)
        ensures
            match opt_str_bytes(cluster_secret) {
                Some(s) if adapter_present(opt_str_view(device_name)) => {
                    &&& b64_salt_bytes(cluster_salt_text()) is Some
                    &&& s.len() <= 0xffff_ffff ==> r is Ok
                    &&& match r {
                        Ok(info) => {
                            &&& info.id@ == argon2_digest_of(s, b64_salt_bytes(cluster_salt_text())->0)
                            &&& info.id@.len() == 43
                            &&& is_b64_text(info.id@)
                        },
                        Err(e) => e == IBError::HashFailed,
                    }
                },
                _ => r matches Ok(info) && info.id@ == absent_id_text(),
            },
    {
        let present = match device_name {
            Some(n) => {
                proof {
                    reveal_strlit("None");
                }
                assert("None"@ =~= absent_id_text());
                !text_eq(n, "None")
            },
            None => false,
        };
        match cluster_secret {
            Some(secret) if present => {
                proof {
                    reveal_strlit("GolemNetwork");
                }
                assert("GolemNetwork"@ =~= cluster_salt_text());
                assert(plain_salt_text(cluster_salt_text()));
                let salt = decode_salt("GolemNetwork").unwrap();
                let digest = argon2_digest(secret.as_bytes(), salt.as_slice());
                IBInfo::from_digest(digest)
            },
            _ => Ok(IBInfo::absent()),
        }
    }
}

} // verus!
