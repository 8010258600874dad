//! Membership proofs against a published Merkle root.
//!
//! A leaf is the SHA-256 digest of `address:amount`. A proof is the list of
//! sibling digests on the way from the leaf to the root. At every level the
//! two digests are joined smaller first, as byte strings, and hashed again.

use crate::digest::{sha256, sha256_digest};
use crate::encoding::{hex_decode, hex_decoded, hex_encode, hex_encoded, is_hex};
use crate::error::ContractError;
use vstd::prelude::*;
use vstd::utf8::encode_utf8;

verus! {

/// `text` without one leading `0x`, if it has one.
pub open spec fn strip_hex_prefix(text: Seq<char>) -> Seq<char> {
    if text.len() >= 2 && text[0] == '0' && text[1] == 'x' {
        text.subrange(2, text.len() as int)
    } else {
        text
    }
}

/// The bytes that a hex string with an optional `0x` prefix stands for;
/// `None` when it is malformed.
pub open spec fn hex_bytes(text: Seq<char>) -> Option<Seq<u8>> {
    if is_hex(strip_hex_prefix(text)) {
        Some(hex_decoded(strip_hex_prefix(text)))
    } else {
        None
    }
}

/// Byte strings in dictionary order: `a` comes no later than `b`.
pub open spec fn lex_le(a: Seq<u8>, b: Seq<u8>) -> bool
    decreases a.len(),
{
    if a.len() == 0 {
        true
    } else if b.len() == 0 {
        false
    } else if a[0] != b[0] {
        a[0] < b[0]
    } else {
        lex_le(a.drop_first(), b.drop_first())
    }
}

/// The two byte strings joined, the smaller one first.
pub open spec fn sorted_pair(a: Seq<u8>, b: Seq<u8>) -> Seq<u8> {
    if lex_le(a, b) {
        a + b
    } else {
        b + a
    }
}

/// The parent digest of two sibling digests.
pub open spec fn hash_pair(a: Seq<u8>, b: Seq<u8>) -> Seq<u8> {
    sha256_digest(sorted_pair(a, b))
}

/// The digest reached from `start` by climbing past each sibling of `path`
/// in turn.
pub open spec fn fold_path(start: Seq<u8>, path: Seq<Seq<u8>>) -> Seq<u8>
    decreases path.len(),
{
    if path.len() == 0 {
        start
    } else {
        hash_pair(fold_path(start, path.drop_last()), path.last())
    }
}

/// The hex strings of a proof, as text.
pub open spec fn proof_texts(proof: Seq<String>) -> Seq<Seq<char>> {
    proof.map_values(|element: String| element@)
}

/// Every element of the proof is well-formed hex.
pub open spec fn path_well_formed(proof: Seq<Seq<char>>) -> bool {
    forall|i: int| 0 <= i < proof.len() ==> hex_bytes(#[trigger] proof[i]) is Some
}

/// The sibling digests that a well-formed proof stands for.
pub open spec fn decoded_path(proof: Seq<Seq<char>>) -> Seq<Seq<u8>> {
    Seq::new(proof.len(), |i: int| hex_bytes(proof[i]).unwrap())
}

/// What checking a proof comes to: `None` when the leaf, an element of the
/// proof or the root is malformed hex; otherwise whether climbing from the
/// leaf past every sibling ends at the root. Hex digits of either case stand
/// for the same bytes, so the case of the root's digits does not matter.
pub open spec fn proof_outcome(
    proof: Seq<Seq<char>>,
    root: Seq<char>,
    leaf_hash: Seq<char>,
) -> Option<bool> {
    if hex_bytes(leaf_hash) is Some && path_well_formed(proof) && hex_bytes(root) is Some {
        let reached = fold_path(hex_bytes(leaf_hash).unwrap(), decoded_path(proof));
        Some(reached == hex_bytes(root).unwrap())
    } else {
        None
    }
}

/// The bytes that are hashed into a leaf: the UTF-8 of `address:amount`.
pub open spec fn leaf_preimage(address: Seq<char>, amount: Seq<char>) -> Seq<u8> {
    encode_utf8(address + seq![':'] + amount)
}

/// A digest as text: `0x` and lower-case hex.
pub open spec fn digest_text(digest: Seq<u8>) -> Seq<char> {
    seq!['0', 'x'] + hex_encoded(digest)
}

/// The leaf hash of a participant and a stake, as text.
pub open spec fn leaf_hash(address: Seq<char>, amount: Seq<char>) -> Seq<char> {
    digest_text(sha256_digest(leaf_preimage(address, amount)))
}

/// Decodes a hex string, with or without a `0x` prefix, into bytes.
pub fn hex_to_bytes(hex_str: &str) -> (r: Result<Vec<u8>, ContractError>)
    ensures
        match r {
            Ok(bytes) => hex_bytes(hex_str@) == Some(bytes@),
            Err(e) => e == ContractError::InvalidProof && hex_bytes(hex_str@) is None,
        },
{
    let n = hex_str.unicode_len();
    let prefixed = n >= 2 && hex_str.get_char(0) == '0' && hex_str.get_char(1) == 'x';
    let body = if prefixed {
        hex_str.substring_char(2, n)
    } else {
        hex_str
    };
    assert(body@ == strip_hex_prefix(hex_str@));
    match hex_decode(body) {
        Ok(bytes) => Ok(bytes),
        Err(_) => Err(ContractError::InvalidProof),
    }
}

/// Compares two byte strings in dictionary order.
pub fn bytes_le(a: &[u8], b: &[u8]) -> (le: bool)
    ensures
        le == lex_le(a@, b@),
{
    let mut i: usize = 0;
    assert(a@.skip(0) =~= a@ && b@.skip(0) =~= b@);
    loop
        invariant
            i <= a.len(),
            i <= b.len(),
            lex_le(a@, b@) == lex_le(a@.skip(i as int), b@.skip(i as int)),
        decreases a.len() - i,
    {
        if i == a.len() {
            return true;
        }
        if i == b.len() {
            return false;
        }
        if a[i] != b[i] {
            return a[i] < b[i];
        }
        proof {
            assert(a@.skip(i as int).drop_first() =~= a@.skip(i + 1));
            assert(b@.skip(i as int).drop_first() =~= b@.skip(i + 1));
        }
        i += 1;
    }
}

/// Whether two byte strings hold the same bytes.
pub fn bytes_eq(a: &[u8], b: &[u8]) -> (eq: bool)
    ensures
        eq == (a@ == b@),
{
    if a.len() != b.len() {
        return false;
    }
    let mut i: usize = 0;
    while i < a.len()
        invariant
            i <= a.len(),
            a.len() == b.len(),
            forall|j: int| 0 <= j < i ==> a@[j] == b@[j],
        decreases a.len() - i,
    {
        if a[i] != b[i] {
            return false;
        }
        i += 1;
    }
    assert(a@ =~= b@);
    true
}

/// Joins two byte strings, the smaller one first.
pub fn join_sorted(a: &[u8], b: &[u8]) -> (joined: Vec<u8>)
    ensures
        joined@ == sorted_pair(a@, b@),
{
    let (first, second) = if bytes_le(a, b) {
        (a, b)
    } else {
        (b, a)
    };
    let mut joined: Vec<u8> = Vec::new();
    let mut i: usize = 0;
    while i < first.len()
        invariant
            i <= first.len(),
            joined@ == first@.take(i as int),
        decreases first.len() - i,
    {
        joined.push(first[i]);
        assert(joined@ =~= first@.take(i + 1));
        i += 1;
    }
    assert(joined@ =~= first@);
    let mut j: usize = 0;
    while j < second.len()
        invariant
            j <= second.len(),
            joined@ == first@ + second@.take(j as int),
        decreases second.len() - j,
    {
        joined.push(second[j]);
        assert(joined@ =~= first@ + second@.take(j + 1));
        j += 1;
    }
    assert(joined@ =~= first@ + second@);
    joined
}

/// Renders a digest as `0x` and lower-case hex.
pub fn digest_to_text(digest: &[u8]) -> (text: String)
    ensures
        text@ == digest_text(digest@),
{
    proof {
        reveal_strlit("0x");
    }
    let mut text = String::from_str("0x");
    text.append(hex_encode(digest).as_str());
    assert(text@ =~= digest_text(digest@));
    text
}

/// Computes the leaf hash of a participant and a stake: the SHA-256 digest
/// of `address:amount`, as `0x` and lower-case hex.
pub fn compute_leaf_hash(address: &str, amount: &str) -> (hash: String)
    ensures
        hash@ == leaf_hash(address@, amount@),
{
    proof {
        reveal_strlit(":");
    }
    let mut leaf_str = String::from_str(address);
    leaf_str.append(":");
    leaf_str.append(amount);
    assert(leaf_str@ =~= address@ + seq![':'] + amount@);
    let digest = sha256(leaf_str.as_str().as_bytes());
    digest_to_text(digest.as_slice())
}

/// Checks a Merkle proof: climbs from the leaf past every sibling of the
/// proof, joining smaller first and hashing with SHA-256 at each level, and
/// compares what it reaches with the root. Malformed hex in any of the three
/// is an error, not a `false`.
pub fn verify_merkle_proof(
    proof: &[String],
    root: &str,
    leaf_hash: &str,
) -> (r: Result<bool, ContractError>)
    ensures
        match r {
            Ok(valid) => proof_outcome(proof_texts(proof@), root@, leaf_hash@) == Some(valid),
            Err(e) => e == ContractError::InvalidProof && proof_outcome(
                proof_texts(proof@),
                root@,
                leaf_hash@,
            ) is None,
        },
{
    let ghost texts = proof_texts(proof@);
    let ghost path = decoded_path(texts);
    let mut computed_hash = match hex_to_bytes(leaf_hash) {
        Ok(bytes) => bytes,
        Err(e) => {
            return Err(e);
        },
    };
    let ghost start = computed_hash@;
    let mut i: usize = 0;
    while i < proof.len()
        invariant
            i <= proof.len(),
            texts == proof_texts(proof@),
            path == decoded_path(texts),
            hex_bytes(leaf_hash@) == Some(start),
            forall|j: int| 0 <= j < i ==> hex_bytes(#[trigger] texts[j]) is Some,
            computed_hash@ == fold_path(start, path.take(i as int)),
        decreases proof.len() - i,
    {
        let proof_bytes = match hex_to_bytes(proof[i].as_str()) {
            Ok(bytes) => bytes,
            Err(e) => {
                assert(hex_bytes(texts[i as int]) is None);
                return Err(e);
            },
        };
        let combined = join_sorted(computed_hash.as_slice(), proof_bytes.as_slice());
        computed_hash = sha256(combined.as_slice());
        proof {
            let next = path.take(i + 1);
            assert(next.drop_last() =~= path.take(i as int));
            assert(next.last() == proof_bytes@);
        }
        i += 1;
    }
    assert(path.take(i as int) =~= path);
    assert(path_well_formed(texts));
    match hex_to_bytes(root) {
        Ok(root_bytes) => Ok(bytes_eq(computed_hash.as_slice(), root_bytes.as_slice())),
        Err(e) => Err(e),
    }
}

} // verus!
