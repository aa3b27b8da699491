use bitcoin::hashes::sha256;
use bitcoin::schnorr::TapTweak;
use bitcoin::secp256k1::KeyPair;
use bitcoin::secp256k1::XOnlyPublicKey;
use bitcoin::secp256k1::SECP256K1;
use bitcoin::util::taproot::LeafVersion;
use bitcoin::util::taproot::TapBranchHash;
use bitcoin::util::taproot::TapLeafHash;
use bitcoin::Script;
use tapret::commit::commitment_leaf;
use tapret::commit::convolve_commit;
use tapret::commit::verify;
use tapret::commit::TapretTreeError;
use tapret::partner::LeafScript;
use tapret::partner::TapretNodePartner;
use tapret::partner::TapretPathProof;

fn internal_key() -> XOnlyPublicKey {
    let pair = KeyPair::from_seckey_slice(SECP256K1, &[7u8; 32]).unwrap();
    XOnlyPublicKey::from_keypair(&pair)
}

fn key_bytes() -> [u8; 32] {
    internal_key().serialize()
}

fn digest() -> [u8; 32] {
    let mut d = [0u8; 32];
    for (i, b) in d.iter_mut().enumerate() {
        *b = i as u8 * 3 + 1;
    }
    d
}

fn path(partners: Vec<TapretNodePartner>) -> TapretPathProof {
    TapretPathProof { partners }
}

fn leaf_hash(script: &[u8], version: u8) -> sha256::Hash {
    let ver = LeafVersion::from_consensus(version).unwrap();
    let h = TapLeafHash::from_script(&Script::from(script.to_vec()), ver);
    <sha256::Hash as bitcoin::hashes::Hash>::from_inner(bitcoin::hashes::Hash::into_inner(h))
}

fn tweak(root: [u8; 32]) -> [u8; 32] {
    let root = <TapBranchHash as bitcoin::hashes::Hash>::from_inner(root);
    internal_key().tap_tweak(SECP256K1, Some(root)).0.serialize()
}

fn branch(a: sha256::Hash, b: sha256::Hash) -> [u8; 32] {
    bitcoin::hashes::Hash::into_inner(TapBranchHash::from_node_hashes(a, b))
}

fn right_leaf(script: Vec<u8>, version: u8) -> TapretNodePartner {
    TapretNodePartner::RightLeaf(LeafScript { version, script })
}

#[test]
fn commitment_leaf_layout() {
    let leaf = commitment_leaf(&digest());
    assert_eq!(leaf.len(), 63);
    assert!(leaf[..29].iter().all(|b| *b == 0x50));
    assert_eq!(leaf[29], 0x6a);
    assert_eq!(leaf[30], 0x20);
    assert_eq!(&leaf[31..], &digest()[..]);
}

#[test]
fn right_leaf_at_depth_one() {
    let script = vec![0x51u8, 0x52, 0x93];
    let p = path(vec![right_leaf(script.clone(), 0xc0)]);
    let out = convolve_commit(&key_bytes(), &p, &digest()).ok().unwrap();
    let commitment = commitment_leaf(&digest());
    let root = branch(leaf_hash(&commitment, 0xc0), leaf_hash(&script, 0xc0));
    assert_eq!(out, tweak(root));
    assert_ne!(out, key_bytes());
    assert!(verify(&key_bytes(), &p, &digest(), &out));
    let other = path(vec![right_leaf(vec![0x51u8, 0x52, 0x94], 0xc0)]);
    assert!(!verify(&key_bytes(), &other, &digest(), &out));
}

#[test]
fn empty_proof_puts_leaf_at_root() {
    let p = path(vec![]);
    let out = convolve_commit(&key_bytes(), &p, &digest()).ok().unwrap();
    let root = bitcoin::hashes::Hash::into_inner(leaf_hash(&commitment_leaf(&digest()), 0xc0));
    assert_eq!(out, tweak(root));
    assert!(verify(&key_bytes(), &p, &digest(), &out));
}

#[test]
fn left_node_and_right_branch() {
    let hidden = [0x11u8; 32];
    let commitment = leaf_hash(&commitment_leaf(&digest()), 0xc0);
    let h = <sha256::Hash as bitcoin::hashes::Hash>::from_inner(hidden);
    let expected = tweak(branch(h, commitment));
    let left = path(vec![TapretNodePartner::LeftNode(hidden.to_vec())]);
    assert_eq!(convolve_commit(&key_bytes(), &left, &digest()).ok().unwrap(), expected);
    let right = path(vec![TapretNodePartner::RightBranch(hidden.to_vec())]);
    assert_eq!(convolve_commit(&key_bytes(), &right, &digest()).ok().unwrap(), expected);
}

#[test]
fn commit_is_deterministic() {
    let p = path(vec![TapretNodePartner::LeftNode(vec![0x22u8; 32])]);
    let a = convolve_commit(&key_bytes(), &p, &digest()).ok().unwrap();
    let b = convolve_commit(&key_bytes(), &p, &digest()).ok().unwrap();
    assert_eq!(a, b);
}

#[test]
fn flipped_digest_bit_changes_key() {
    let p = path(vec![right_leaf(vec![0x51u8], 0xc0)]);
    let a = convolve_commit(&key_bytes(), &p, &digest()).ok().unwrap();
    let mut d = digest();
    d[5] ^= 0x04;
    let b = convolve_commit(&key_bytes(), &p, &d).ok().unwrap();
    assert_ne!(a, b);
    assert!(!verify(&key_bytes(), &p, &d, &a));
}

#[test]
fn flipped_partner_bit_changes_key() {
    let p = path(vec![TapretNodePartner::LeftNode(vec![0x33u8; 32])]);
    let a = convolve_commit(&key_bytes(), &p, &digest()).ok().unwrap();
    let mut h = vec![0x33u8; 32];
    h[31] ^= 0x01;
    let q = path(vec![TapretNodePartner::LeftNode(h)]);
    let b = convolve_commit(&key_bytes(), &q, &digest()).ok().unwrap();
    assert_ne!(a, b);
    let s = path(vec![right_leaf(vec![0x33u8; 32], 0xc0)]);
    let c = convolve_commit(&key_bytes(), &s, &digest()).ok().unwrap();
    assert_ne!(a, c);
}

#[test]
fn odd_leaf_version_is_rejected_at_its_depth() {
    let bad = right_leaf(vec![0x51u8], 0xc1);
    let p = path(vec![bad, TapretNodePartner::LeftNode(vec![1u8; 32])]);
    match convolve_commit(&key_bytes(), &p, &digest()) {
        Err(TapretTreeError::InvalidPartnerProof(1, TapretNodePartner::RightLeaf(l))) => {
            assert_eq!(l.version, 0xc1);
            assert_eq!(l.script, vec![0x51u8]);
        }
        _ => panic!("expected an invalid partner at depth one"),
    }
}

#[test]
fn short_hash_is_rejected_at_its_depth() {
    let p = path(vec![
        right_leaf(vec![0x51u8], 0xc0),
        TapretNodePartner::LeftNode(vec![1u8; 31]),
        TapretNodePartner::RightBranch(vec![2u8; 32]),
    ]);
    match convolve_commit(&key_bytes(), &p, &digest()) {
        Err(TapretTreeError::InvalidPartnerProof(2, TapretNodePartner::LeftNode(h))) => {
            assert_eq!(h.len(), 31);
        }
        _ => panic!("expected an invalid partner at depth two"),
    }
    assert!(!verify(&key_bytes(), &p, &digest(), &key_bytes()));
}

#[test]
fn proof_deeper_than_tree_limit_fails() {
    let partners = (0..129).map(|i| TapretNodePartner::LeftNode(vec![i as u8; 32])).collect();
    let p = path(partners);
    assert!(matches!(
        convolve_commit(&key_bytes(), &p, &digest()),
        Err(TapretTreeError::TreeBuilder(129, _))
    ));
}

#[test]
fn proof_longer_than_depth_limit_stops_at_limit() {
    let partners = (0..200).map(|_| right_leaf(vec![0x51u8], 0xc0)).collect();
    let p = path(partners);
    assert!(matches!(
        convolve_commit(&key_bytes(), &p, &digest()),
        Err(TapretTreeError::TreeBuilder(_, _))
    ));
}

#[test]
fn invalid_internal_key_is_reported() {
    let p = path(vec![right_leaf(vec![0x51u8], 0xc0)]);
    assert!(matches!(
        convolve_commit(&[0xffu8; 32], &p, &digest()),
        Err(TapretTreeError::InvalidKey)
    ));
    assert!(!verify(&[0xffu8; 32], &p, &digest(), &key_bytes()));
}

#[test]
fn partner_checks() {
    assert!(TapretNodePartner::LeftNode(vec![0u8; 32]).check());
    assert!(!TapretNodePartner::LeftNode(vec![0u8; 31]).check());
    assert!(!TapretNodePartner::LeftNode(vec![0u8; 33]).check());
    assert!(TapretNodePartner::RightBranch(vec![0u8; 32]).check());
    assert!(!TapretNodePartner::RightBranch(vec![]).check());
    assert!(right_leaf(vec![0x51u8], 0xc0).check());
    assert!(right_leaf(vec![0x51u8], 0xc2).check());
    assert!(!right_leaf(vec![0x51u8], 0xc1).check());
    assert!(!right_leaf(vec![0x51u8], 0x50).check());
    assert!(!right_leaf(vec![], 0xc0).check());
}

#[test]
fn duplicate_keeps_contents() {
    let p = right_leaf(vec![1u8, 2, 3], 0xc4);
    match p.duplicate() {
        TapretNodePartner::RightLeaf(l) => {
            assert_eq!(l.version, 0xc4);
            assert_eq!(l.script, vec![1u8, 2, 3]);
        }
        _ => panic!("variant changed"),
    }
}

#[test]
fn two_partner_proof_is_incomplete() {
    let p = path(vec![right_leaf(vec![0x51u8], 0xc0), TapretNodePartner::LeftNode(vec![4u8; 32])]);
    assert!(matches!(
        convolve_commit(&key_bytes(), &p, &digest()),
        Err(TapretTreeError::IncompleteTree)
    ));
}

#[test]
fn changing_first_of_two_partners_never_gives_same_key() {
    let a = path(vec![right_leaf(vec![0x51u8], 0xc0), TapretNodePartner::LeftNode(vec![4u8; 32])]);
    let b = path(vec![right_leaf(vec![0x52u8], 0xc0), TapretNodePartner::LeftNode(vec![4u8; 32])]);
    let ra = convolve_commit(&key_bytes(), &a, &digest());
    let rb = convolve_commit(&key_bytes(), &b, &digest());
    match (ra, rb) {
        (Ok(ka), Ok(kb)) => assert_ne!(ka, kb),
        _ => {}
    }
    assert!(!verify(&key_bytes(), &b, &digest(), &key_bytes()));
}
