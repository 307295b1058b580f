use crypto::digest::Digest;
use merkle::tree::MerkleTree;

/// The same digest pipeline the library uses: SHA-256 over the concatenated
/// parts, rendered as the ASCII bytes of the lowercase hexadecimal text.
fn sha_hex(parts: &[&[u8]]) -> Vec<u8> {
    let mut hasher = crypto::sha2::Sha256::new();
    for part in parts {
        hasher.input(part);
    }
    hasher.result_str().into_bytes()
}

fn blocks(items: &[&str]) -> Vec<Vec<u8>> {
    items.iter().map(|s| s.as_bytes().to_vec()).collect()
}

fn root_hash(tree: &MerkleTree) -> Vec<u8> {
    tree.root.as_ref().expect("tree has a root").hash.clone()
}

#[test]
fn determinism_repeated_build() {
    let datas = blocks(&["alpha", "beta", "gamma", "delta", "epsilon"]);
    let t1 = MerkleTree::new(&datas);
    let t2 = MerkleTree::new(&datas);
    assert_eq!(root_hash(&t1), root_hash(&t2));
}

#[test]
fn order_sensitivity() {
    let ab = MerkleTree::new(&blocks(&["first", "second"]));
    let ba = MerkleTree::new(&blocks(&["second", "first"]));
    assert_ne!(root_hash(&ab), root_hash(&ba));
}

#[test]
fn single_leaf_identity() {
    let datas = blocks(&["hello"]);
    let tree = MerkleTree::new(&datas);
    assert_eq!(root_hash(&tree), sha_hex(&[b"hello"]));
}

#[test]
fn leaf_digest_known_answer() {
    let tree = MerkleTree::new(&blocks(&["hello"]));
    assert_eq!(
        root_hash(&tree),
        b"2cf24dba5fb0a30e26e83b2ac5b9e29e1b161e5c1fa7425e73043362938b9824".to_vec(),
    );
}

#[test]
fn internal_digest_framing() {
    let tree = MerkleTree::new(&blocks(&["left block", "right block"]));
    let left_digest = sha_hex(&[b"left block"]);
    let right_digest = sha_hex(&[b"right block"]);
    assert_eq!(root_hash(&tree), sha_hex(&[&left_digest, &right_digest]));
    let root = tree.root.as_ref().unwrap();
    assert_eq!(root.left.as_ref().unwrap().hash, left_digest);
    assert_eq!(root.right.as_ref().unwrap().hash, right_digest);
}

#[test]
fn empty_build() {
    let tree = MerkleTree::new(&[]);
    assert!(tree.root.is_none());
    assert!(!tree.contains(&b"anything".to_vec()));
    assert!(!tree.contains(&Vec::new()));
}

#[test]
fn change_sensitivity() {
    let original = blocks(&["alpha", "beta", "gamma"]);
    let mut changed = original.clone();
    changed[1] = b"betb".to_vec();
    let t1 = MerkleTree::new(&original);
    let t2 = MerkleTree::new(&changed);
    assert_ne!(root_hash(&t1), root_hash(&t2));
}

#[test]
fn post_insert_membership() {
    let mut tree = MerkleTree::new(&blocks(&["one", "two", "three"]));
    let block = b"four".to_vec();
    assert!(!tree.contains(&block));
    tree.insert(&block);
    assert!(tree.contains(&block));
}

#[test]
fn insert_into_empty_tree() {
    let mut tree = MerkleTree::new(&[]);
    let block = b"lonely".to_vec();
    tree.insert(&block);
    assert!(tree.contains(&block));
    assert_eq!(root_hash(&tree), sha_hex(&[b"lonely"]));
}

#[test]
fn preexisting_membership_preserved() {
    let mut tree = MerkleTree::new(&blocks(&["kept", "also kept", "still here"]));
    for kept in ["kept", "also kept", "still here"] {
        assert!(tree.contains(&kept.as_bytes().to_vec()));
    }
    tree.insert(&b"newcomer".to_vec());
    for kept in ["kept", "also kept", "still here", "newcomer"] {
        assert!(tree.contains(&kept.as_bytes().to_vec()));
    }
}

#[test]
fn negative_membership() {
    let tree = MerkleTree::new(&blocks(&["a", "b", "c"]));
    assert!(!tree.contains(&b"d".to_vec()));
}

#[test]
fn leaf_promotion_on_insert() {
    let mut tree = MerkleTree::new(&blocks(&["seed"]));
    tree.insert(&b"grown".to_vec());
    let leaf_seed = sha_hex(&[b"seed"]);
    let leaf_grown = sha_hex(&[b"grown"]);
    assert_eq!(root_hash(&tree), sha_hex(&[&leaf_seed, &leaf_grown]));
    let root = tree.root.as_ref().unwrap();
    assert_eq!(root.left.as_ref().unwrap().hash, leaf_seed);
    assert_eq!(root.right.as_ref().unwrap().hash, leaf_grown);
}

#[test]
fn insertion_descends_leftmost() {
    let mut tree = MerkleTree::new(&blocks(&["a", "b"]));
    tree.insert(&b"c".to_vec());
    let root = tree.root.as_ref().unwrap();
    // The left leaf is promoted; the right leaf stays untouched.
    let new_left = root.left.as_ref().unwrap();
    assert_eq!(new_left.left.as_ref().unwrap().hash, sha_hex(&[b"a"]));
    assert_eq!(new_left.right.as_ref().unwrap().hash, sha_hex(&[b"c"]));
    assert_eq!(root.right.as_ref().unwrap().hash, sha_hex(&[b"b"]));
    assert!(root.right.as_ref().unwrap().left.is_none());
    let expected_left = sha_hex(&[&sha_hex(&[b"a"]), &sha_hex(&[b"c"])]);
    assert_eq!(root_hash(&tree), sha_hex(&[&expected_left, &sha_hex(&[b"b"])]));
}

#[test]
fn concrete_scenario() {
    let datas = blocks(&["hello", "world", "whatsup", "merkle"]);
    let mut tree = MerkleTree::new(&datas);
    tree.insert(&b"tree".to_vec());
    assert!(tree.contains(&b"hello".to_vec()));
    assert!(!tree.contains(&b"not-inserted".to_vec()));
}
