use merkle_airdrop::error::ContractError;
use merkle_airdrop::merkle::{
    bytes_eq, bytes_le, compute_leaf_hash, digest_to_text, hex_to_bytes, join_sorted,
    verify_merkle_proof,
};

const LEAF_A: &str = "0xf4cab41362e9f6d91efc764440bc61f5749366afdb1370c012e5f08a971c416c";
const LEAF_B: &str = "0x446e9dbe69a9e8878ccf472280ff064a1318886e1ea691b4e443dbd8fe8c241c";
const ROOT_AB: &str = "0xa938c10c3f0bbc37dc9f54d0523307b5e03d44f5685fe0d8006b64046cd023a6";

const LEAF_ALICE: &str = "0xd30f6b7524a0b6a31bdb998b80773c8b4a53ad460d5f1907c644ebeb6efb3aba";
const LEAF_BOB: &str = "0x1e12b60d0ed66b3cdfaba25fef0d63a611d113dff8403ee8b91e13e2ac532669";
const LEAF_CAROL: &str = "0x52c99b6ffd00f60c4111a5b31825a26d7369514c019d5b3dd15cee50d775e5ce";
const LEAF_DAVE: &str = "0xe0597063e8f84340098cf56639ad5009bd76758216801f498efc8b6082dc0930";
const NODE_ALICE_BOB: &str = "0x9e4bce7029db0307b6496fc3512d73b5b698972f4900a26bc089362247c728d5";
const NODE_CAROL_DAVE: &str = "0x4343586d10910edbcdefc2ece8b980115a798f08a3da150c6e3c3e754f5f0c2e";
const ROOT_FOUR: &str = "0xc5ff9bc02bdf222ef101dfcd3d74998d73189550ab1f803dbc85adbdfa19c3f1";

fn strings(items: &[&str]) -> Vec<String> {
    items.iter().map(|s| s.to_string()).collect()
}

#[test]
fn leaf_hash_is_sha256_of_address_colon_amount() {
    assert_eq!(compute_leaf_hash("addrA", "100"), LEAF_A);
    assert_eq!(compute_leaf_hash("addrB", "300"), LEAF_B);
    assert_eq!(
        compute_leaf_hash("abc", "1"),
        "0xbfcf0b9cbe9d8208b2cddd9a01c31a9a60698a106a0e4fc1664233a15f16acec"
    );
}

#[test]
fn leaf_hash_takes_the_utf8_bytes_of_the_address() {
    assert_eq!(
        compute_leaf_hash("é", "1"),
        "0x6136fedba772bc697b2d5e0699118ce1da55054865d9d7c5479cd389e0836742"
    );
}

#[test]
fn leaf_hash_does_not_normalise_the_amount() {
    assert_ne!(compute_leaf_hash("addrA", "0100"), compute_leaf_hash("addrA", "100"));
    assert_ne!(compute_leaf_hash("addrA", " 100"), compute_leaf_hash("addrA", "100"));
}

#[test]
fn digest_text_is_prefixed_lower_case_hex() {
    assert_eq!(digest_to_text(&[]), "0x");
    assert_eq!(digest_to_text(&[0x00, 0x0f, 0xa0, 0xff]), "0x000fa0ff");
    assert_eq!(
        digest_to_text(&[0x01, 0x23, 0x45, 0x67, 0x89, 0xab, 0xcd, 0xef]),
        "0x0123456789abcdef"
    );
}

#[test]
fn hex_text_and_bytes_round_trip() {
    let bytes: Vec<u8> = (0..=255).collect();
    assert_eq!(hex_to_bytes(&digest_to_text(&bytes)), Ok(bytes));
}

#[test]
fn hex_to_bytes_accepts_prefix_and_both_cases() {
    assert_eq!(hex_to_bytes("0x00ff"), Ok(vec![0u8, 255u8]));
    assert_eq!(hex_to_bytes("00FF"), Ok(vec![0u8, 255u8]));
    assert_eq!(hex_to_bytes("0xaBcD"), Ok(vec![0xabu8, 0xcdu8]));
    assert_eq!(
        hex_to_bytes("0123456789abcdef"),
        Ok(vec![0x01, 0x23, 0x45, 0x67, 0x89, 0xab, 0xcd, 0xef])
    );
    assert_eq!(hex_to_bytes(""), Ok(vec![]));
    assert_eq!(hex_to_bytes("0x"), Ok(vec![]));
}

#[test]
fn hex_to_bytes_rejects_malformed_text() {
    assert_eq!(hex_to_bytes("abc"), Err(ContractError::InvalidProof));
    assert_eq!(hex_to_bytes("0xabc"), Err(ContractError::InvalidProof));
    assert_eq!(hex_to_bytes("zz"), Err(ContractError::InvalidProof));
    assert_eq!(hex_to_bytes("0g"), Err(ContractError::InvalidProof));
    assert_eq!(hex_to_bytes("0x0xab"), Err(ContractError::InvalidProof));
    assert_eq!(hex_to_bytes("0Xab"), Err(ContractError::InvalidProof));
    assert_eq!(hex_to_bytes(" ab"), Err(ContractError::InvalidProof));
    assert_eq!(hex_to_bytes("é0"), Err(ContractError::InvalidProof));
    assert_eq!(hex_to_bytes("0xé"), Err(ContractError::InvalidProof));
}

#[test]
fn bytes_le_is_dictionary_order() {
    assert!(bytes_le(&[], &[]));
    assert!(bytes_le(&[], &[0]));
    assert!(!bytes_le(&[0], &[]));
    assert!(bytes_le(&[1, 2], &[1, 2]));
    assert!(bytes_le(&[1, 2], &[1, 3]));
    assert!(!bytes_le(&[1, 3], &[1, 2]));
    assert!(!bytes_le(&[2], &[1, 255]));
    assert!(bytes_le(&[1], &[1, 0]));
    assert!(!bytes_le(&[1, 0], &[1]));
    assert!(bytes_le(&[127], &[128]));
}

#[test]
fn bytes_eq_compares_length_and_content() {
    assert!(bytes_eq(&[], &[]));
    assert!(bytes_eq(&[1, 2, 3], &[1, 2, 3]));
    assert!(!bytes_eq(&[1, 2, 3], &[1, 2]));
    assert!(!bytes_eq(&[1, 2, 3], &[1, 2, 4]));
}

#[test]
fn join_sorted_puts_the_smaller_first() {
    assert_eq!(join_sorted(&[1, 2], &[3]), vec![1, 2, 3]);
    assert_eq!(join_sorted(&[3], &[1, 2]), vec![1, 2, 3]);
    assert_eq!(join_sorted(&[5], &[5]), vec![5, 5]);
    assert_eq!(join_sorted(&[], &[9]), vec![9]);
    assert_eq!(join_sorted(&[9, 1], &[9]), vec![9, 9, 1]);
}

#[test]
fn empty_proof_needs_leaf_equal_to_root() {
    assert_eq!(verify_merkle_proof(&[], LEAF_A, LEAF_A), Ok(true));
    assert_eq!(verify_merkle_proof(&[], LEAF_B, LEAF_A), Ok(false));
}

#[test]
fn two_leaf_tree_accepts_either_leaf() {
    assert_eq!(verify_merkle_proof(&strings(&[LEAF_B]), ROOT_AB, LEAF_A), Ok(true));
    assert_eq!(verify_merkle_proof(&strings(&[LEAF_A]), ROOT_AB, LEAF_B), Ok(true));
}

#[test]
fn four_leaf_tree_accepts_every_leaf() {
    let cases = [
        (LEAF_ALICE, [LEAF_BOB, NODE_CAROL_DAVE]),
        (LEAF_BOB, [LEAF_ALICE, NODE_CAROL_DAVE]),
        (LEAF_CAROL, [LEAF_DAVE, NODE_ALICE_BOB]),
        (LEAF_DAVE, [LEAF_CAROL, NODE_ALICE_BOB]),
    ];
    for (leaf, proof) in cases {
        assert_eq!(verify_merkle_proof(&strings(&proof), ROOT_FOUR, leaf), Ok(true));
    }
}

#[test]
fn proof_elements_are_taken_in_order() {
    assert_eq!(
        verify_merkle_proof(&strings(&[NODE_CAROL_DAVE, LEAF_BOB]), ROOT_FOUR, LEAF_ALICE),
        Ok(false)
    );
}

#[test]
fn a_changed_byte_in_the_proof_is_refused() {
    let changed = LEAF_B.replacen("446e", "456e", 1);
    assert_eq!(verify_merkle_proof(&strings(&[&changed]), ROOT_AB, LEAF_A), Ok(false));
}

#[test]
fn a_changed_byte_in_the_root_is_refused() {
    let changed = ROOT_AB.replacen("a938", "a939", 1);
    assert_eq!(verify_merkle_proof(&strings(&[LEAF_B]), &changed, LEAF_A), Ok(false));
}

#[test]
fn a_changed_byte_in_the_leaf_preimage_is_refused() {
    let proof = strings(&[LEAF_B]);
    assert_eq!(verify_merkle_proof(&proof, ROOT_AB, &compute_leaf_hash("addrA", "101")), Ok(false));
    assert_eq!(verify_merkle_proof(&proof, ROOT_AB, &compute_leaf_hash("addrC", "100")), Ok(false));
    assert_eq!(verify_merkle_proof(&proof, ROOT_AB, &compute_leaf_hash("addrA", "100")), Ok(true));
}

#[test]
fn a_missing_or_extra_proof_element_is_refused() {
    assert_eq!(verify_merkle_proof(&[], ROOT_AB, LEAF_A), Ok(false));
    assert_eq!(verify_merkle_proof(&strings(&[LEAF_B, LEAF_B]), ROOT_AB, LEAF_A), Ok(false));
}

#[test]
fn hex_case_and_prefix_do_not_matter() {
    let upper_root = format!("0x{}", ROOT_AB[2..].to_uppercase());
    let bare_root = ROOT_AB[2..].to_string();
    let upper_sibling = LEAF_B[2..].to_uppercase();
    assert_eq!(verify_merkle_proof(&strings(&[LEAF_B]), &upper_root, LEAF_A), Ok(true));
    assert_eq!(verify_merkle_proof(&strings(&[LEAF_B]), &bare_root, LEAF_A), Ok(true));
    assert_eq!(verify_merkle_proof(&strings(&[&upper_sibling]), ROOT_AB, LEAF_A), Ok(true));
}

#[test]
fn malformed_hex_is_an_error_not_a_false() {
    let err = Err(ContractError::InvalidProof);
    assert_eq!(verify_merkle_proof(&strings(&["0x123"]), ROOT_AB, LEAF_A), err);
    assert_eq!(verify_merkle_proof(&strings(&["nothex!!"]), ROOT_AB, LEAF_A), err);
    assert_eq!(verify_merkle_proof(&strings(&[LEAF_B, "0xzz"]), ROOT_AB, LEAF_A), err);
    assert_eq!(verify_merkle_proof(&strings(&[LEAF_B]), "0xroot", LEAF_A), err);
    assert_eq!(verify_merkle_proof(&strings(&[LEAF_B]), "0x0xab", LEAF_A), err);
    assert_eq!(verify_merkle_proof(&strings(&[LEAF_B]), ROOT_AB, "f4c"), err);
    assert_eq!(verify_merkle_proof(&[], "0xa", "0xab"), err);
}
