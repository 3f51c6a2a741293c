//! The checksum validator: a streaming 512-bit digest over the downloaded
//! archive, compared as lowercase hex against the manifest's `sha512` field.
//!
//! The digest itself comes from the `sha2` crate; turning it into lowercase
//! hex and comparing it against the expected digest is verified here.

use vstd::prelude::*;

use sha2::Digest;

use crate::manifest::Artifact;
use crate::UpdateError;

verus! {

/// What the SHA-512 function returns on given input bytes.
pub uninterp spec fn sha512_of(data: Seq<u8>) -> Seq<u8>;

/// Relies on `sha2::Sha512::digest`: the 64-byte digest depends on the input
/// bytes alone.
#[verifier::external_body]
fn sha512_digest(data: &[u8]) -> (r: Vec<u8>)
    ensures
        r@ == sha512_of(data@),
        r@.len() == 64,
{
    sha2::Sha512::digest(data).to_vec()
}

/// Relies on `String::push`: it appends exactly the given character.
#[verifier::external_body]
fn string_push(s: &mut String, c: char)
    ensures
        final(s)@ == old(s)@ + seq![c],
{
    s.push(c);
}

/// The lowercase hex digits.
pub open spec fn hex_digit(n: u8) -> char {
    seq!['0', '1', '2', '3', '4', '5', '6', '7', '8', '9', 'a', 'b', 'c', 'd', 'e', 'f'][n as int]
}

/// The lowercase hex encoding of a byte string: two digits per byte, high
/// nibble first.
pub open spec fn hex_of(data: Seq<u8>) -> Seq<char>
    decreases data.len(),
{
    if data.len() == 0 {
        Seq::empty()
    } else {
        seq![hex_digit(data.first() / 16), hex_digit(data.first() % 16)] + hex_of(
            data.drop_first(),
        )
    }
}

fn hex_digit_exec(n: u8) -> (r: char)
    requires
        n < 16,
    ensures
        r == hex_digit(n),
{
    match n {
        0 => '0',
        1 => '1',
        2 => '2',
        3 => '3',
        4 => '4',
        5 => '5',
        6 => '6',
        7 => '7',
        8 => '8',
        9 => '9',
        10 => 'a',
        11 => 'b',
        12 => 'c',
        13 => 'd',
        14 => 'e',
        _ => 'f',
    }
}

/// Encodes bytes as lowercase hex.
fn to_hex(data: &Vec<u8>) -> (r: String)
    ensures
        r@ == hex_of(data@),
{
    let n = data.len();
    let mut r = String::new();
    proof {
        assert(data@.skip(0) =~= data@);
    }
    let mut i: usize = 0;
    while i < n
        invariant
            i <= n,
            n == data@.len(),
            hex_of(data@) =~= r@ + hex_of(data@.skip(i as int)),
        decreases n - i,
    {
        let b = data[i];
        string_push(&mut r, hex_digit_exec(b / 16));
        string_push(&mut r, hex_digit_exec(b % 16));
        proof {
            let rest = data@.skip(i as int);
            assert(rest.first() == data@[i as int]);
            assert(rest.drop_first() =~= data@.skip(i as int + 1));
        }
        i += 1;
    }
    proof {
        assert(hex_of(data@.skip(n as int)) =~= Seq::<char>::empty());
    }
    r
}

/// Computes lowercase hex SHA-512 digests of byte strings.
pub struct Hasher {}

impl Hasher {
    /// A fresh digest computer.
    pub fn new() -> Self {
        Hasher {}
    }

    /// The lowercase hex SHA-512 digest of the given bytes.
    pub fn hash(&mut self, data: &Vec<u8>) -> (r: String)
        ensures
            r@ == hex_of(sha512_of(data@)),
    {
        let digest = sha512_digest(data.as_slice());
        to_hex(&digest)
    }
}

/// Validates a downloaded archive against the manifest's expected digest:
/// succeeds exactly when the archive's lowercase hex SHA-512 digest equals
/// the manifest's `sha512` field, and reports both digests on a mismatch.
pub fn checksum_artifact(archive: &Vec<u8>, remote_artifact: &Artifact) -> (r: Result<
    (),
    UpdateError,
>)
    ensures
        r is Ok <==> hex_of(sha512_of(archive@)) == remote_artifact.sha512@,
        r matches Err(e) ==> e matches UpdateError::ChecksumMismatch { expected, actual }
            && expected@ == remote_artifact.sha512@ && actual@ == hex_of(sha512_of(archive@)),
{
    let mut hasher = Hasher::new();
    let sha512 = hasher.hash(archive);
    if sha512 == remote_artifact.sha512 {
        Ok(())
    } else {
        Err(UpdateError::ChecksumMismatch {
            expected: remote_artifact.sha512.clone(),
            actual: sha512,
        })
    }
}

} // verus!
