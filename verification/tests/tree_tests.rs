use basmati::digest::ContentDigest;
use basmati::error::ArchiveError;
use basmati::tree::{reduce_level, reduce_to_root, tree_hash};

const A: &str = "ca978112ca1bbdcafac231b39a23dc4da786eff8147c4e72b9807785afee48bb";
const B: &str = "3e23e8160039594a33894f6564e1b1348bbd7a0088d42c4acb73eeaed59c009d";
const C: &str = "2e7d2c03a9507ae265ecf5b5356885a53393a2029d241394997265a1a25aefc6";
const AB: &str = "e5a01fee14e0ed5c48714f22180f25ad8365b53f9779f79dc4a3d7e93963f94a";
const AB_C: &str = "7075152d03a5cd92104887b476862778ec0c87be5c2fa1c0a90f87c49fad6eff";

fn digest(text: &str) -> ContentDigest {
    ContentDigest::from_hex(text).unwrap()
}

#[test]
fn digest_of_bytes_is_sha256() {
    assert_eq!(
        ContentDigest::of_bytes(b"hello").to_hex(),
        "2cf24dba5fb0a30e26e83b2ac5b9e29e1b161e5c1fa7425e73043362938b9824"
    );
    assert_eq!(
        ContentDigest::of_bytes(b"").to_hex(),
        "e3b0c44298fc1c149afbf4c8996fb92427ae41e4649b934ca495991b7852b855"
    );
    assert_eq!(ContentDigest::of_bytes(b"a").to_hex(), A);
}

#[test]
fn digest_text_must_be_lowercase_hex_of_64() {
    assert!(ContentDigest::from_hex(A).is_some());
    assert!(ContentDigest::from_hex(&A.to_uppercase()).is_none());
    assert!(ContentDigest::from_hex(&A[..63]).is_none());
    assert!(ContentDigest::from_hex("").is_none());
    let mut long = String::from(A);
    long.push('0');
    assert!(ContentDigest::from_hex(&long).is_none());
    let mut odd = String::from(&A[..63]);
    odd.push('g');
    assert!(ContentDigest::from_hex(&odd).is_none());
}

#[test]
fn raw_bytes_of_a_digest() {
    let bytes = digest(A).to_bytes();
    assert_eq!(bytes.len(), 32);
    assert_eq!(&bytes[..4], &[0xca, 0x97, 0x81, 0x12]);
    assert_eq!(bytes[31], 0xbb);
}

#[test]
fn combine_hashes_raw_bytes_not_text() {
    assert_eq!(ContentDigest::combine(&digest(A), &digest(B)).to_hex(), AB);
    assert_ne!(ContentDigest::combine(&digest(B), &digest(A)).to_hex(), AB);
}

#[test]
fn no_digest_is_an_empty_archive() {
    assert_eq!(tree_hash(&vec![]).err(), Some(ArchiveError::EmptyArchive));
    assert_eq!(reduce_to_root(&vec![]).err(), Some(ArchiveError::EmptyArchive));
}

#[test]
fn single_digest_is_its_own_root() {
    let (root, rounds) = reduce_to_root(&vec![digest(C)]).unwrap();
    assert_eq!(root.to_hex(), C);
    assert_eq!(rounds, 0);
    assert_eq!(tree_hash(&vec![digest(C)]).unwrap().to_hex(), C);
}

#[test]
fn three_digests_carry_the_odd_one() {
    let level = vec![digest(A), digest(B), digest(C)];
    let above = reduce_level(&level);
    assert_eq!(above.len(), 2);
    assert_eq!(above[0].to_hex(), AB);
    assert_eq!(above[1].to_hex(), C);
    let (root, rounds) = reduce_to_root(&level).unwrap();
    assert_eq!(root.to_hex(), AB_C);
    assert_eq!(rounds, 2);
}

#[test]
fn root_is_the_same_however_digests_were_gathered() {
    let texts = [A, B, C, AB, AB_C, B, A];
    let whole: Vec<ContentDigest> = texts.iter().map(|t| digest(t)).collect();
    let left: Vec<ContentDigest> = texts[..4].iter().map(|t| digest(t)).collect();
    let right: Vec<ContentDigest> = texts[4..].iter().map(|t| digest(t)).collect();
    let joined = ContentDigest::combine(&tree_hash(&left).unwrap(), &tree_hash(&right).unwrap());
    assert_eq!(tree_hash(&whole).unwrap().to_hex(), joined.to_hex());
    assert_eq!(tree_hash(&whole).unwrap().to_hex(), tree_hash(&whole).unwrap().to_hex());
}

#[test]
fn ten_mebibytes_reduce_in_four_rounds() {
    let data: Vec<u8> = (0..10 * 1048576usize).map(|i| ((i * 7 + 3) % 251) as u8).collect();
    let digests: Vec<ContentDigest> =
        data.chunks(1048576).map(|window| ContentDigest::of_bytes(window)).collect();
    assert_eq!(digests.len(), 10);
    assert_eq!(
        digests[0].to_hex(),
        "1ac437f476c488acba4000af7ae89ef53f7ffbeef2e937850985f5ceb8b5ae6f"
    );
    let mut level = digests.clone();
    let mut sizes = vec![level.len()];
    while level.len() > 1 {
        level = reduce_level(&level);
        sizes.push(level.len());
    }
    assert_eq!(sizes, vec![10, 5, 3, 2, 1]);
    let (root, rounds) = reduce_to_root(&digests).unwrap();
    assert_eq!(rounds, 4);
    assert_eq!(
        root.to_hex(),
        "459e16a1c6c951bb83578a29bf15aca935a9b61f466a24ecb0359dc8317109e9"
    );
    assert_eq!(level[0].to_hex(), root.to_hex());
}
