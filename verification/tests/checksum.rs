use updatemon::hash::{checksum_artifact, Hasher};
use updatemon::manifest::Artifact;
use updatemon::UpdateError;

const SHA512_ABC: &str = "ddaf35a193617abacc417349ae204131\
12e6fa4e89a97ea20a9eeee64b55d39a\
2192992a274fc1a836ba3c23a3feebbd\
454d4423643ce80e2a9ac94fa54ca49f";

const SHA512_EMPTY: &str = "cf83e1357eefb8bdf1542850d66d8007\
d620e4050b5715dc83f4a921d36ce9ce\
47d0d13c5d85f2b0ff8318d2877eec2f\
63b931bd47417a81a538327af927da3e";

fn art_with_sha(sha512: &str) -> Artifact {
    Artifact {
        filename: "agent.zst".to_string(),
        sha512: sha512.to_string(),
        version: "v1.0.0".to_string(),
        destination: "/opt/agent".to_string(),
        service: None,
        lockfile: None,
    }
}

#[test]
fn hash_matches_known_vectors() {
    let mut h = Hasher::new();
    assert_eq!(h.hash(&b"abc".to_vec()), SHA512_ABC);
    assert_eq!(h.hash(&Vec::new()), SHA512_EMPTY);
}

#[test]
fn matching_digest_validates() {
    let archive = b"abc".to_vec();
    assert!(checksum_artifact(&archive, &art_with_sha(SHA512_ABC)).is_ok());
}

#[test]
fn single_byte_corruption_reports_both_digests() {
    let mut archive = b"abc".to_vec();
    archive[0] ^= 1;
    let e = checksum_artifact(&archive, &art_with_sha(SHA512_ABC)).unwrap_err();
    match e {
        UpdateError::ChecksumMismatch { expected, actual } => {
            assert_eq!(expected, SHA512_ABC);
            let mut h = Hasher::new();
            assert_eq!(actual, h.hash(&archive));
            assert_ne!(actual, expected);
        },
        other => panic!("expected a checksum mismatch, got {:?}", other),
    }
}

#[test]
fn truncated_archive_fails_validation() {
    let archive = b"ab".to_vec();
    assert!(checksum_artifact(&archive, &art_with_sha(SHA512_ABC)).is_err());
}
