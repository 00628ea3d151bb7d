//! The tree hash: the service's checksum over a whole archive.
//!
//! The digests of an archive's one-mebibyte windows form the lowest level of
//! a tree. Each level above pairs its neighbours from the left; a digest
//! left without a neighbour moves up as it is. The digest that ends up alone
//! is the tree hash.
use crate::digest::{parent_digest, ContentDigest};
use crate::error::ArchiveError;
use vstd::arithmetic::power2::{lemma_pow2_pos, lemma_pow2_unfold, pow2};
use vstd::prelude::*;

verus! {

/// The texts of a run of digests.
pub open spec fn digest_texts(digests: Seq<ContentDigest>) -> Seq<Seq<char>> {
    digests.map_values(|d: ContentDigest| d@)
}

/// The level above `level`: the digest of each pair of neighbours, taken
/// from the left, and after them the last digest unchanged where the level
/// has an odd number of them.
pub open spec fn level_up(level: Seq<Seq<char>>) -> Seq<Seq<char>> {
    Seq::new(
        ((level.len() + 1) / 2) as nat,
        |i: int|
            if 2 * i + 1 < level.len() {
                parent_digest(level[2 * i], level[2 * i + 1])
            } else {
                level[2 * i]
            },
    )
}

/// The digest that is left when `level` is reduced level by level. A level
/// of one digest is its own root; an empty level has none, and the value is
/// then arbitrary.
pub open spec fn tree_root(level: Seq<Seq<char>>) -> Seq<char>
    decreases level.len(),
{
    if level.len() <= 1 {
        level[0]
    } else {
        tree_root(level_up(level))
    }
}

/// The number of levels above a lowest level of `count` digests.
pub open spec fn reduction_rounds(count: nat) -> nat
    decreases count,
{
    if count <= 1 {
        0
    } else {
        1 + reduction_rounds((count + 1) / 2)
    }
}

/// The tree hash is a matter of the digests and their order alone: two
/// runs of digests that spell the same texts in the same order have the
/// same root, and take the same number of rounds.
pub proof fn lemma_root_depends_on_texts(first: Seq<ContentDigest>, second: Seq<ContentDigest>)
    requires
        first.len() == second.len(),
        forall|i: int| 0 <= i < first.len() ==> first[i]@ == second[i]@,
    ensures
        tree_root(digest_texts(first)) == tree_root(digest_texts(second)),
        reduction_rounds(first.len()) == reduction_rounds(second.len()),
{
    assert(digest_texts(first) =~= digest_texts(second));
}

/// A level of one digest reduces to that digest, in no round at all.
pub proof fn lemma_single_digest_is_root(digest: Seq<char>)
    ensures
        tree_root(seq![digest]) == digest,
        reduction_rounds(1) == 0,
{
}

/// Two digests reduce to the digest of the pair, in one round.
pub proof fn lemma_root_of_two(a: Seq<char>, b: Seq<char>)
    ensures
        tree_root(seq![a, b]) == parent_digest(a, b),
        reduction_rounds(2) == 1,
{
    let level = seq![a, b];
    assert(level_up(level) =~= seq![parent_digest(a, b)]);
    assert(tree_root(level) == tree_root(level_up(level)));
    reveal_with_fuel(reduction_rounds, 3);
}

/// Three digests reduce in two rounds: the first two are paired while the
/// third moves up unchanged, then the two results are paired.
pub proof fn lemma_root_of_three(a: Seq<char>, b: Seq<char>, c: Seq<char>)
    ensures
        level_up(seq![a, b, c]) == seq![parent_digest(a, b), c],
        tree_root(seq![a, b, c]) == parent_digest(parent_digest(a, b), c),
        reduction_rounds(3) == 2,
{
    let level = seq![a, b, c];
    assert(level_up(level) =~= seq![parent_digest(a, b), c]);
    assert(tree_root(level) == tree_root(level_up(level)));
    lemma_root_of_two(parent_digest(a, b), c);
    reveal_with_fuel(reduction_rounds, 4);
}

/// A level of an even number of digests followed by more digests reduces to
/// the reduction of the one followed by the reduction of the other.
pub proof fn lemma_level_up_concat(left: Seq<Seq<char>>, right: Seq<Seq<char>>)
    requires
        left.len() % 2 == 0,
    ensures
        level_up(left + right) == level_up(left) + level_up(right),
{
    let joined = left + right;
    let half = left.len() / 2;
    assert(left.len() == 2 * half);
    assert(level_up(left).len() == half);
    assert(level_up(joined).len() == half + level_up(right).len());
    assert forall|i: int| 0 <= i < level_up(joined).len() implies level_up(joined)[i] == (level_up(
        left,
    ) + level_up(right))[i] by {
        if i < half {
            assert(joined[2 * i] == left[2 * i]);
            assert(joined[2 * i + 1] == left[2 * i + 1]);
        } else {
            let k = i - half;
            assert(joined[2 * i] == right[2 * k]);
            if 2 * i + 1 < joined.len() {
                assert(joined[2 * i + 1] == right[2 * k + 1]);
            }
        }
    }
    assert(level_up(joined) =~= level_up(left) + level_up(right));
}

/// The tree hash does not depend on how the digests were gathered: where a
/// run of digests is cut after a power of two of them, and the rest is no
/// longer than that, the root of the whole is the digest of the roots of
/// the two pieces.
pub proof fn lemma_root_of_aligned_pieces(k: nat, left: Seq<Seq<char>>, right: Seq<Seq<char>>)
    requires
        left.len() == pow2(k),
        0 < right.len() <= left.len(),
    ensures
        tree_root(left + right) == parent_digest(tree_root(left), tree_root(right)),
    decreases k,
{
    lemma_pow2_pos(k);
    if k == 0 {
        assert(pow2(0) == 1) by {
            vstd::arithmetic::power2::lemma2_to64();
        }
        assert(left + right =~= seq![left[0], right[0]]);
        lemma_root_of_two(left[0], right[0]);
    } else {
        lemma_pow2_unfold(k);
        let joined = left + right;
        lemma_level_up_concat(left, right);
        assert(tree_root(joined) == tree_root(level_up(joined)));
        assert(tree_root(left) == tree_root(level_up(left)));
        assert(level_up(left).len() == pow2((k - 1) as nat));
        if right.len() == 1 {
            assert(level_up(right) =~= right);
        } else {
            assert(tree_root(right) == tree_root(level_up(right)));
        }
        lemma_root_of_aligned_pieces((k - 1) as nat, level_up(left), level_up(right));
    }
}

/// One round of the reduction: the level above `level`.
pub fn reduce_level(level: &Vec<ContentDigest>) -> (r: Vec<ContentDigest>)
    ensures
        digest_texts(r@) == level_up(digest_texts(level@)),
        r@.len() == (level@.len() + 1) / 2,
{
    let ghost texts = digest_texts(level@);
    let mut above: Vec<ContentDigest> = Vec::new();
    let mut i: usize = 0;
    while level.len() - i >= 2
        invariant
            texts == digest_texts(level@),
            i % 2 == 0,
            i <= level.len(),
            above@.len() == i / 2,
            forall|j: int| 0 <= j < above@.len() ==> (#[trigger] above@[j])@ == level_up(texts)[j],
        decreases level.len() - i,
    {
        let parent = ContentDigest::combine(&level[i], &level[i + 1]);
        above.push(parent);
        i = i + 2;
    }
    if i < level.len() {
        above.push(level[i].clone());
    }
    assert(digest_texts(above@) =~= level_up(texts));
    above
}

/// Reduces `digests` to their tree hash and counts the rounds it took.
///
/// Fails with `EmptyArchive` exactly when there is no digest.
pub fn reduce_to_root(digests: &Vec<ContentDigest>) -> (r: Result<
    (ContentDigest, usize),
    ArchiveError,
>)
    ensures
        match r {
            Ok((root, rounds)) => {
                &&& digests@.len() > 0
                &&& root@ == tree_root(digest_texts(digests@))
                &&& rounds == reduction_rounds(digests@.len())
            },
            Err(e) => e == ArchiveError::EmptyArchive && digests@.len() == 0,
        },
{
    if digests.len() == 0 {
        return Err(ArchiveError::EmptyArchive);
    }
    if digests.len() == 1 {
        return Ok((digests[0].clone(), 0));
    }
    let mut level = reduce_level(digests);
    let mut rounds: usize = 1;
    while level.len() > 1
        invariant
            level@.len() >= 1,
            tree_root(digest_texts(level@)) == tree_root(digest_texts(digests@)),
            rounds + reduction_rounds(level@.len()) == reduction_rounds(digests@.len()),
            rounds + level@.len() <= usize::MAX,
        decreases level@.len(),
    {
        level = reduce_level(&level);
        rounds = rounds + 1;
    }
    Ok((level[0].clone(), rounds))
}

/// The tree hash of an archive whose one-mebibyte windows have the digests
/// `digests`, in the order of the windows.
///
/// Fails with `EmptyArchive` exactly when there is no digest.
pub fn tree_hash(digests: &Vec<ContentDigest>) -> (r: Result<ContentDigest, ArchiveError>)
    ensures
        match r {
            Ok(root) => digests@.len() > 0 && root@ == tree_root(digest_texts(digests@)),
            Err(e) => e == ArchiveError::EmptyArchive && digests@.len() == 0,
        },
{
    match reduce_to_root(digests) {
        Ok((root, _)) => Ok(root),
        Err(e) => Err(e),
    }
}

} // verus!
