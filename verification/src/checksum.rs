//! Image checksums (SHA-256 or MD5), written as lower-case hex and compared
//! with an expected value regardless of case.
use vstd::prelude::*;
use crate::text::{chars_of, eq_ignore_ascii_case, eq_ignore_ascii_case_range};

verus! {

/// The SHA-256 digest of `data` (32 bytes).
pub uninterp spec fn sha256_digest(data: Seq<u8>) -> Seq<u8>;

/// The MD5 digest of `data` (16 bytes).
pub uninterp spec fn md5_digest(data: Seq<u8>) -> Seq<u8>;

/// A running SHA-256 computation (`sha2::Sha256`).
#[verifier::external_body]
pub struct Sha256Hasher {
    inner: sha2::Sha256,
}

/// A running MD5 computation (`md5::Md5` of the md-5 package).
#[verifier::external_body]
pub struct Md5Hasher {
    inner: md5::Md5,
}

/// The bytes fed to a SHA-256 computation so far.
pub uninterp spec fn sha256_input(h: Sha256Hasher) -> Seq<u8>;

/// The bytes fed to an MD5 computation so far.
pub uninterp spec fn md5_input(h: Md5Hasher) -> Seq<u8>;

/// `sha2::Sha256::new` (through `Digest::new`): a computation that has been
/// fed nothing.
#[verifier::external_body]
fn sha256_new() -> (h: Sha256Hasher)
    ensures
        sha256_input(h) == Seq::<u8>::empty(),
{
    Sha256Hasher { inner: <sha2::Sha256 as sha2::Digest>::new() }
}

/// `Digest::update` on a SHA-256 computation: `data` is appended to what it
/// has been fed.
#[verifier::external_body]
fn sha256_update(h: &mut Sha256Hasher, data: &[u8])
    ensures
        sha256_input(*final(h)) == sha256_input(*old(h)) + data@,
{
    sha2::Digest::update(&mut h.inner, data)
}

/// `Digest::finalize` on a SHA-256 computation: the digest of all it has
/// been fed, 32 bytes.
#[verifier::external_body]
fn sha256_finalize(h: Sha256Hasher) -> (d: Vec<u8>)
    ensures
        d@ == sha256_digest(sha256_input(h)),
        d@.len() == 32,
{
    sha2::Digest::finalize(h.inner).to_vec()
}

/// `md5::Md5::new` (through `Digest::new`): a computation that has been fed
/// nothing.
#[verifier::external_body]
fn md5_new() -> (h: Md5Hasher)
    ensures
        md5_input(h) == Seq::<u8>::empty(),
{
    Md5Hasher { inner: <md5::Md5 as md5::Digest>::new() }
}

/// `Digest::update` on an MD5 computation: `data` is appended to what it
/// has been fed.
#[verifier::external_body]
fn md5_update(h: &mut Md5Hasher, data: &[u8])
    ensures
        md5_input(*final(h)) == md5_input(*old(h)) + data@,
{
    md5::Digest::update(&mut h.inner, data)
}

/// `Digest::finalize` on an MD5 computation: the digest of all it has been
/// fed, 16 bytes.
#[verifier::external_body]
fn md5_finalize(h: Md5Hasher) -> (d: Vec<u8>)
    ensures
        d@ == md5_digest(md5_input(h)),
        d@.len() == 16,
{
    md5::Digest::finalize(h.inner).to_vec()
}

/// The lower-case hex digit of `n < 16`.
pub open spec fn hex_digit(n: nat) -> char {
    if n < 10 {
        ((n + 48) as u32) as char
    } else {
        ((n + 87) as u32) as char
    }
}

/// Lower-case hex, two digits per byte, high nibble first.
pub open spec fn hex_lower(data: Seq<u8>) -> Seq<char>
    decreases data.len(),
{
    if data.len() == 0 {
        seq![]
    } else {
        hex_lower(data.drop_last()) + seq![
            hex_digit((data.last() / 16) as nat),
            hex_digit((data.last() % 16) as nat),
        ]
    }
}

/// Hex doubles the length.
pub proof fn lemma_hex_length(data: Seq<u8>)
    ensures
        hex_lower(data).len() == 2 * data.len(),
    decreases data.len(),
{
    if data.len() > 0 {
        lemma_hex_length(data.drop_last());
    }
}

/// `hex::encode`: each byte as two lower-case hex digits.
#[verifier::external_body]
fn hex_encode(data: &[u8]) -> (s: String)
    ensures
        s@ == hex_lower(data@),
{
    hex::encode(data)
}

/// A checksum algorithm.
#[derive(Debug, Clone, Copy, PartialEq, Eq)]
pub enum ChecksumAlgorithm {
    Sha256,
    Md5,
}

/// The digest of `data` under `algorithm`.
pub open spec fn digest(algorithm: ChecksumAlgorithm, data: Seq<u8>) -> Seq<u8> {
    match algorithm {
        ChecksumAlgorithm::Sha256 => sha256_digest(data),
        ChecksumAlgorithm::Md5 => md5_digest(data),
    }
}

/// What went wrong with a checksum.
#[derive(Debug, Clone, PartialEq, Eq)]
pub enum ChecksumError {
    /// The algorithm named is neither "sha256" nor "md5".
    UnsupportedAlgorithm(String),
    /// The checksum differs from the one expected.
    Mismatch,
}

/// The algorithm that `name` selects: "sha256" or "md5" in any case.
/// (The names are compared lower-cased; only the ASCII letters lower-case to
/// these letters, so this is the ASCII-case-insensitive comparison.)
pub open spec fn algorithm_named(name: Seq<char>) -> Option<ChecksumAlgorithm> {
    if eq_ignore_ascii_case(name, seq!['s', 'h', 'a', '2', '5', '6']) {
        Some(ChecksumAlgorithm::Sha256)
    } else if eq_ignore_ascii_case(name, seq!['m', 'd', '5']) {
        Some(ChecksumAlgorithm::Md5)
    } else {
        None
    }
}

/// Selects the checksum algorithm by name; other names are refused.
pub fn parse_algorithm(name: &str) -> (r: Result<ChecksumAlgorithm, ChecksumError>)
    ensures
        match algorithm_named(name@) {
            Some(a) => r == Ok::<ChecksumAlgorithm, ChecksumError>(a),
            None => r matches Err(ChecksumError::UnsupportedAlgorithm(n)) && n@ == name@,
        },
{
    let v = chars_of(name);
    let mut sha: Vec<char> = Vec::new();
    sha.push('s');
    sha.push('h');
    sha.push('a');
    sha.push('2');
    sha.push('5');
    sha.push('6');
    assert(sha@ =~= seq!['s', 'h', 'a', '2', '5', '6']);
    assert(v@.subrange(0, v.len() as int) =~= v@);
    if eq_ignore_ascii_case_range(&v, 0, v.len(), &sha) {
        return Ok(ChecksumAlgorithm::Sha256);
    }
    let mut md: Vec<char> = Vec::new();
    md.push('m');
    md.push('d');
    md.push('5');
    assert(md@ =~= seq!['m', 'd', '5']);
    if eq_ignore_ascii_case_range(&v, 0, v.len(), &md) {
        return Ok(ChecksumAlgorithm::Md5);
    }
    Err(ChecksumError::UnsupportedAlgorithm(String::from_str(name)))
}

enum HasherState {
    Sha256(Sha256Hasher),
    Md5(Md5Hasher),
}

/// A checksum being computed over data fed chunk by chunk.
pub struct Checksum {
    state: HasherState,
}

impl Checksum {
    pub closed spec fn algorithm(&self) -> ChecksumAlgorithm {
        match self.state {
            HasherState::Sha256(_) => ChecksumAlgorithm::Sha256,
            HasherState::Md5(_) => ChecksumAlgorithm::Md5,
        }
    }

    /// All the data fed so far.
    pub closed spec fn input(&self) -> Seq<u8> {
        match self.state {
            HasherState::Sha256(h) => sha256_input(h),
            HasherState::Md5(h) => md5_input(h),
        }
    }

    /// Starts a checksum that has been fed nothing.
    pub fn new(algorithm: ChecksumAlgorithm) -> (c: Self)
        ensures
            c.algorithm() == algorithm,
            c.input() == Seq::<u8>::empty(),
    {
        match algorithm {
            ChecksumAlgorithm::Sha256 => Checksum { state: HasherState::Sha256(sha256_new()) },
            ChecksumAlgorithm::Md5 => Checksum { state: HasherState::Md5(md5_new()) },
        }
    }

    /// Feeds the next chunk of data.
    pub fn update(&mut self, chunk: &[u8])
        ensures
            final(self).algorithm() == old(self).algorithm(),
            final(self).input() == old(self).input() + chunk@,
    {
        match &mut self.state {
            HasherState::Sha256(h) => sha256_update(h, chunk),
            HasherState::Md5(h) => md5_update(h, chunk),
        }
    }

    /// The checksum of all the data fed, as lower-case hex.
    pub fn finalize_hex(self) -> (s: String)
        ensures
            s@ == hex_lower(digest(self.algorithm(), self.input())),
            s@.len() == (if self.algorithm() == ChecksumAlgorithm::Sha256 {
                64nat
            } else {
                32nat
            }),
    {
        let d = match self.state {
            HasherState::Sha256(h) => sha256_finalize(h),
            HasherState::Md5(h) => md5_finalize(h),
        };
        proof {
            lemma_hex_length(d@);
        }
        hex_encode(d.as_slice())
    }
}

/// Compares a computed checksum with the one expected, if any: they must be
/// equal ignoring ASCII case. Without an expected checksum there is nothing
/// to compare and the check passes.
pub fn verify_checksum(expected: Option<&str>, calculated: &str) -> (r: Result<(), ChecksumError>)
    ensures
        match expected {
            Some(e) => if eq_ignore_ascii_case(e@, calculated@) {
                r is Ok
            } else {
                r == Err::<(), ChecksumError>(ChecksumError::Mismatch)
            },
            None => r is Ok,
        },
{
    match expected {
        Some(e) => {
            let a = chars_of(e);
            let b = chars_of(calculated);
            assert(a@.subrange(0, a.len() as int) =~= a@);
            if eq_ignore_ascii_case_range(&a, 0, a.len(), &b) {
                Ok(())
            } else {
                Err(ChecksumError::Mismatch)
            }
        },
        None => Ok(()),
    }
}

} // verus!
