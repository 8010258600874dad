//! Merkle trees as mathematical values: why a proof taken from a tree is
//! accepted against the root of that tree, and why a changed leaf, proof or
//! root is not, short of a SHA-256 collision.

use crate::digest::sha256_digest;
use crate::encoding::{hex_alphabet, hex_encoded, lemma_hex_round_trip};
use crate::merkle::{
    decoded_path, digest_text, fold_path, hash_pair, hex_bytes, leaf_hash, leaf_preimage, lex_le,
    path_well_formed, proof_outcome, sorted_pair, strip_hex_prefix,
};
use vstd::prelude::*;

verus! {

/// A binary tree of digests: the leaves carry the digests of the snapshot's
/// entries, every inner node the hash of its two children.
pub enum Tree {
    Leaf { digest: Seq<u8> },
    Node { left: Box<Tree>, right: Box<Tree> },
}

/// The digest at the top of the tree.
pub open spec fn root(tree: Tree) -> Seq<u8>
    decreases tree,
{
    match tree {
        Tree::Leaf { digest } => digest,
        Tree::Node { left, right } => hash_pair(root(*left), root(*right)),
    }
}

/// `turns` leads from the top of the tree down to a leaf: `false` goes
/// left, `true` goes right.
pub open spec fn reaches_leaf(tree: Tree, turns: Seq<bool>) -> bool
    decreases tree,
{
    match tree {
        Tree::Leaf { digest } => turns.len() == 0,
        Tree::Node { left, right } => turns.len() > 0 && reaches_leaf(
            if turns[0] {
                *right
            } else {
                *left
            },
            turns.drop_first(),
        ),
    }
}

/// The digest of the leaf that `turns` leads to.
pub open spec fn leaf_at(tree: Tree, turns: Seq<bool>) -> Seq<u8>
    decreases tree,
{
    match tree {
        Tree::Leaf { digest } => digest,
        Tree::Node { left, right } => if turns.len() > 0 && turns[0] {
            leaf_at(*right, turns.drop_first())
        } else {
            leaf_at(*left, turns.drop_first())
        },
    }
}

/// The membership proof of the leaf that `turns` leads to: the digests of
/// the subtrees passed by on the way, lowest first.
pub open spec fn siblings(tree: Tree, turns: Seq<bool>) -> Seq<Seq<u8>>
    decreases tree,
{
    match tree {
        Tree::Leaf { digest } => Seq::empty(),
        Tree::Node { left, right } => if turns.len() > 0 && turns[0] {
            siblings(*right, turns.drop_first()).push(root(*left))
        } else {
            siblings(*left, turns.drop_first()).push(root(*right))
        },
    }
}

/// Of two byte strings one comes no later than the other.
pub proof fn lemma_lex_le_total(a: Seq<u8>, b: Seq<u8>)
    ensures
        lex_le(a, b) || lex_le(b, a),
    decreases a.len(),
{
    if a.len() > 0 && b.len() > 0 && a[0] == b[0] {
        lemma_lex_le_total(a.drop_first(), b.drop_first());
    }
}

/// Two byte strings that come no later than each other are the same.
pub proof fn lemma_lex_le_antisymmetric(a: Seq<u8>, b: Seq<u8>)
    requires
        lex_le(a, b),
        lex_le(b, a),
    ensures
        a == b,
    decreases a.len(),
{
    if a.len() == 0 {
        assert(b.len() == 0);
        assert(a =~= b);
    } else {
        assert(b.len() > 0);
        assert(a[0] == b[0]);
        lemma_lex_le_antisymmetric(a.drop_first(), b.drop_first());
        assert(a =~= seq![a[0]] + a.drop_first());
        assert(b =~= seq![b[0]] + b.drop_first());
    }
}

/// The parent digest does not depend on which sibling is named first.
pub proof fn lemma_hash_pair_symmetric(a: Seq<u8>, b: Seq<u8>)
    ensures
        hash_pair(a, b) == hash_pair(b, a),
{
    lemma_sorted_pair_symmetric(a, b);
}

/// Climbing from a leaf past its siblings ends at the root.
pub proof fn lemma_siblings_lead_to_root(tree: Tree, turns: Seq<bool>)
    requires
        reaches_leaf(tree, turns),
    ensures
        fold_path(leaf_at(tree, turns), siblings(tree, turns)) == root(tree),
    decreases tree,
{
    match tree {
        Tree::Leaf { digest } => {},
        Tree::Node { left, right } => {
            let rest = turns.drop_first();
            if turns[0] {
                lemma_siblings_lead_to_root(*right, rest);
                let below = siblings(*right, rest);
                assert(below.push(root(*left)).drop_last() =~= below);
                lemma_hash_pair_symmetric(root(*right), root(*left));
            } else {
                lemma_siblings_lead_to_root(*left, rest);
                let below = siblings(*left, rest);
                assert(below.push(root(*right)).drop_last() =~= below);
            }
        },
    }
}

/// Lower-case hex, with or without the `0x` prefix, stands for the bytes it
/// was made from.
pub proof fn lemma_hex_text_stands_for(bytes: Seq<u8>)
    ensures
        hex_bytes(hex_encoded(bytes)) == Some(bytes),
        hex_bytes(digest_text(bytes)) == Some(bytes),
{
    let text = hex_encoded(bytes);
    lemma_hex_round_trip(bytes);
    let prefixed = digest_text(bytes);
    assert(prefixed.subrange(2, prefixed.len() as int) =~= text);
    assert(strip_hex_prefix(prefixed) == text);
    if text.len() >= 2 {
        let a = hex_alphabet();
        let d = bytes[0] as int % 16;
        assert(text[1] == a[d]);
        assert(a[0] != 'x' && a[1] != 'x' && a[2] != 'x' && a[3] != 'x' && a[4] != 'x' && a[5]
            != 'x' && a[6] != 'x' && a[7] != 'x' && a[8] != 'x' && a[9] != 'x' && a[10] != 'x'
            && a[11] != 'x' && a[12] != 'x' && a[13] != 'x' && a[14] != 'x' && a[15] != 'x');
    }
    assert(strip_hex_prefix(text) == text);
}

/// A proof taken from a tree is accepted against the root of that tree:
/// if the leaf of `address` and `amount` sits in the tree where `turns` leads,
/// the elements of `proof` stand for the siblings on the way up, and
/// `root_text` stands for the root, then the proof checks out.
pub proof fn law_membership_proof_is_accepted(
    tree: Tree,
    turns: Seq<bool>,
    proof: Seq<Seq<char>>,
    root_text: Seq<char>,
    address: Seq<char>,
    amount: Seq<char>,
)
    requires
        reaches_leaf(tree, turns),
        leaf_at(tree, turns) == sha256_digest(leaf_preimage(address, amount)),
        proof.len() == siblings(tree, turns).len(),
        forall|i: int|
            0 <= i < proof.len() ==> hex_bytes(#[trigger] proof[i]) == Some(
                siblings(tree, turns)[i],
            ),
        hex_bytes(root_text) == Some(root(tree)),
    ensures
        proof_outcome(proof, root_text, leaf_hash(address, amount)) == Some(true),
{
    lemma_hex_text_stands_for(sha256_digest(leaf_preimage(address, amount)));
    lemma_siblings_lead_to_root(tree, turns);
    assert(path_well_formed(proof));
    assert(decoded_path(proof) =~= siblings(tree, turns));
}

/// A proof that is accepted against one root is refused against every
/// root that stands for other bytes.
pub proof fn law_other_root_is_refused(
    proof: Seq<Seq<char>>,
    root_text: Seq<char>,
    other_root: Seq<char>,
    leaf: Seq<char>,
)
    requires
        proof_outcome(proof, root_text, leaf) == Some(true),
        hex_bytes(other_root) is Some,
        hex_bytes(other_root) != hex_bytes(root_text),
    ensures
        proof_outcome(proof, other_root, leaf) == Some(false),
{
}

/// Two different inputs with the same SHA-256 digest.
pub open spec fn is_collision(x: Seq<u8>, y: Seq<u8>) -> bool {
    x != y && sha256_digest(x) == sha256_digest(y)
}

/// SHA-256 has a collision somewhere.
pub open spec fn collision_exists() -> bool {
    exists|x: Seq<u8>, y: Seq<u8>| is_collision(x, y)
}

/// Every digest is `n` bytes long. For SHA-256, `n` is 32.
pub open spec fn digests_have_length(n: nat) -> bool {
    forall|x: Seq<u8>| (#[trigger] sha256_digest(x)).len() == n
}

/// Every element of the path is `n` bytes long.
pub open spec fn all_of_length(path: Seq<Seq<u8>>, n: nat) -> bool {
    forall|i: int| 0 <= i < path.len() ==> (#[trigger] path[i]).len() == n
}

/// Joining does not depend on which byte string is named first.
pub proof fn lemma_sorted_pair_symmetric(a: Seq<u8>, b: Seq<u8>)
    ensures
        sorted_pair(a, b) == sorted_pair(b, a),
{
    lemma_lex_le_total(a, b);
    if lex_le(a, b) && lex_le(b, a) {
        lemma_lex_le_antisymmetric(a, b);
    }
}

/// Among byte strings of one length, joining with the same sibling gives
/// the same result only for the same byte string.
pub proof fn lemma_sorted_pair_cancels(a: Seq<u8>, b: Seq<u8>, sibling: Seq<u8>)
    requires
        a.len() == sibling.len(),
        b.len() == sibling.len(),
        sorted_pair(a, sibling) == sorted_pair(b, sibling),
    ensures
        a == b,
{
    let n = sibling.len() as int;
    let joined = sorted_pair(a, sibling);
    let first = joined.subrange(0, n);
    let second = joined.subrange(n, 2 * n);
    if lex_le(a, sibling) {
        assert(first =~= a && second =~= sibling);
    } else {
        assert(first =~= sibling && second =~= a);
    }
    if lex_le(b, sibling) {
        assert(first =~= b && second =~= sibling);
    } else {
        assert(first =~= sibling && second =~= b);
    }
}

/// Climbing a path of digests from a digest ends at a digest.
pub proof fn lemma_fold_path_length(start: Seq<u8>, path: Seq<Seq<u8>>, n: nat)
    requires
        digests_have_length(n),
        start.len() == n,
    ensures
        fold_path(start, path).len() == n,
{
}

/// Climbing a path in two legs ends where climbing it in one does.
pub proof fn lemma_fold_path_concat(start: Seq<u8>, low: Seq<Seq<u8>>, high: Seq<Seq<u8>>)
    ensures
        fold_path(start, low + high) == fold_path(fold_path(start, low), high),
    decreases high.len(),
{
    if high.len() == 0 {
        assert(low + high =~= low);
    } else {
        lemma_fold_path_concat(start, low, high.drop_last());
        assert((low + high).drop_last() =~= low + high.drop_last());
        assert((low + high).last() == high.last());
    }
}

/// Two climbs that start from different digests and pass the same siblings
/// end at the same digest only through a collision.
pub proof fn lemma_climbs_meet_by_collision(
    a: Seq<u8>,
    b: Seq<u8>,
    path: Seq<Seq<u8>>,
    n: nat,
)
    requires
        digests_have_length(n),
        a.len() == n,
        b.len() == n,
        all_of_length(path, n),
        a != b,
        fold_path(a, path) == fold_path(b, path),
    ensures
        collision_exists(),
    decreases path.len(),
{
    if path.len() > 0 {
        let lower = path.drop_last();
        let sibling = path.last();
        let x = fold_path(a, lower);
        let y = fold_path(b, lower);
        assert(all_of_length(lower, n)) by {
            assert forall|i: int| 0 <= i < lower.len() implies (#[trigger] lower[i]).len()
                == n by {
                assert(lower[i] == path[i]);
            }
        }
        if x == y {
            lemma_climbs_meet_by_collision(a, b, lower, n);
        } else {
            lemma_fold_path_length(a, lower, n);
            lemma_fold_path_length(b, lower, n);
            assert(sibling == path[path.len() - 1]);
            if sorted_pair(x, sibling) == sorted_pair(y, sibling) {
                lemma_sorted_pair_cancels(x, y, sibling);
            }
            assert(is_collision(sorted_pair(x, sibling), sorted_pair(y, sibling)));
        }
    }
}

/// A changed leaf needs a collision: if one proof is accepted against one
/// root for two leaves with different preimages, SHA-256 has a collision.
pub proof fn law_changed_leaf_needs_collision(
    proof: Seq<Seq<char>>,
    root_text: Seq<char>,
    address: Seq<char>,
    amount: Seq<char>,
    other_address: Seq<char>,
    other_amount: Seq<char>,
    n: nat,
)
    requires
        digests_have_length(n),
        all_of_length(decoded_path(proof), n),
        leaf_preimage(address, amount) != leaf_preimage(other_address, other_amount),
        proof_outcome(proof, root_text, leaf_hash(address, amount)) == Some(true),
        proof_outcome(proof, root_text, leaf_hash(other_address, other_amount)) == Some(true),
    ensures
        collision_exists(),
{
    let x = leaf_preimage(address, amount);
    let y = leaf_preimage(other_address, other_amount);
    lemma_hex_text_stands_for(sha256_digest(x));
    lemma_hex_text_stands_for(sha256_digest(y));
    if sha256_digest(x) == sha256_digest(y) {
        assert(is_collision(x, y));
    } else {
        lemma_climbs_meet_by_collision(
            sha256_digest(x),
            sha256_digest(y),
            decoded_path(proof),
            n,
        );
    }
}

/// A changed proof element needs a collision: if a proof is accepted, and
/// still accepted for the same leaf and root after one of its elements was
/// replaced by one that stands for other bytes, SHA-256 has a collision.
pub proof fn law_changed_proof_element_needs_collision(
    proof: Seq<Seq<char>>,
    index: int,
    changed: Seq<char>,
    root_text: Seq<char>,
    leaf: Seq<char>,
    n: nat,
)
    requires
        digests_have_length(n),
        0 <= index < proof.len(),
        hex_bytes(leaf) is Some && hex_bytes(leaf).unwrap().len() == n,
        all_of_length(decoded_path(proof), n),
        hex_bytes(changed) is Some && hex_bytes(changed).unwrap().len() == n,
        hex_bytes(changed) != hex_bytes(proof[index]),
        proof_outcome(proof, root_text, leaf) == Some(true),
        proof_outcome(proof.update(index, changed), root_text, leaf) == Some(true),
    ensures
        collision_exists(),
{
    let start = hex_bytes(leaf).unwrap();
    let path = decoded_path(proof);
    let other_path = decoded_path(proof.update(index, changed));
    let low = path.take(index);
    let high = path.skip(index + 1);
    let old_sibling = path[index];
    let new_sibling = hex_bytes(changed).unwrap();
    assert(path =~= low.push(old_sibling) + high);
    assert(other_path =~= low.push(new_sibling) + high);
    lemma_fold_path_concat(start, low.push(old_sibling), high);
    lemma_fold_path_concat(start, low.push(new_sibling), high);
    assert(low.push(old_sibling).drop_last() =~= low);
    assert(low.push(new_sibling).drop_last() =~= low);

    let below = fold_path(start, low);
    lemma_fold_path_length(start, low, n);
    let a = hash_pair(below, old_sibling);
    let b = hash_pair(below, new_sibling);
    assert(fold_path(start, low.push(old_sibling)) == a);
    assert(fold_path(start, low.push(new_sibling)) == b);
    if a == b {
        lemma_sorted_pair_symmetric(below, old_sibling);
        lemma_sorted_pair_symmetric(below, new_sibling);
        if sorted_pair(old_sibling, below) == sorted_pair(new_sibling, below) {
            lemma_sorted_pair_cancels(old_sibling, new_sibling, below);
        }
        assert(is_collision(sorted_pair(below, old_sibling), sorted_pair(below, new_sibling)));
    } else {
        assert(all_of_length(high, n)) by {
            assert forall|i: int| 0 <= i < high.len() implies (#[trigger] high[i]).len() == n by {
                assert(high[i] == path[i + index + 1]);
            }
        }
        lemma_climbs_meet_by_collision(a, b, high, n);
    }
}

} // verus!
