//! Choosing the part size of a multipart upload.
use crate::error::ArchiveError;
use vstd::arithmetic::power2::{lemma_pow2_strictly_increases, lemma_pow2_unfold, pow2};
use vstd::prelude::*;

verus! {

/// One mebibyte: the smallest part size, and the width of a hashing window.
pub const ONE_MB: u64 = 1048576;

/// The service accepts fewer than this many parts per upload.
pub const MAX_PART_AMOUNT: u64 = 10000;

/// The largest part size is `ONE_MB` doubled this many times (4 GiB).
pub const MAX_DOUBLINGS: u64 = 12;

/// The `k`-th permitted part size: one mebibyte doubled `k` times.
pub open spec fn chunk_size_at(k: nat) -> int {
    ONE_MB as int * pow2(k) as int
}

/// Whether `c` is one of the permitted part sizes.
pub open spec fn is_allowed_chunk_size(c: int) -> bool {
    exists|k: nat| k <= MAX_DOUBLINGS && c == #[trigger] chunk_size_at(k)
}

/// Whether parts of `chunk` bytes keep a file of `file_size` bytes under the
/// part-count ceiling.
pub open spec fn within_part_limit(file_size: int, chunk: int) -> bool {
    file_size / chunk < MAX_PART_AMOUNT as int
}

/// Whether `c` is the smallest permitted part size that keeps the file under
/// the part-count ceiling.
pub open spec fn is_optimal_interval(file_size: int, c: int) -> bool {
    exists|k: nat|
        {
            &&& k <= MAX_DOUBLINGS
            &&& c == #[trigger] chunk_size_at(k)
            &&& within_part_limit(file_size, c)
            &&& forall|j: nat| j < k ==> !within_part_limit(file_size, #[trigger] chunk_size_at(j))
        }
}

/// Whether no permitted part size keeps the file under the ceiling.
pub open spec fn exceeds_every_chunk_size(file_size: int) -> bool {
    forall|k: nat| k <= MAX_DOUBLINGS ==> !within_part_limit(file_size, #[trigger] chunk_size_at(k))
}

/// Permitted part sizes grow strictly with the number of doublings.
pub proof fn lemma_chunk_sizes_increase(j: nat, k: nat)
    requires
        j < k,
    ensures
        0 < chunk_size_at(j) < chunk_size_at(k),
{
    lemma_pow2_strictly_increases(j, k);
    vstd::arithmetic::power2::lemma_pow2_pos(j);
    let unit = ONE_MB as int;
    let low = pow2(j) as int;
    let high = pow2(k) as int;
    assert(0 < unit * low < unit * high) by (nonlinear_arith)
        requires
            0 < low < high,
            unit == 1048576,
    ;
}

/// A part size keeps the file under the ceiling exactly when the file is
/// smaller than the ceiling's worth of parts.
pub proof fn lemma_within_part_limit(file_size: int, chunk: int)
    requires
        0 <= file_size,
        0 < chunk,
    ensures
        within_part_limit(file_size, chunk) <==> file_size < chunk * MAX_PART_AMOUNT as int,
{
    let m = MAX_PART_AMOUNT as int;
    if file_size < chunk * m {
        assert(file_size / chunk < m) by (nonlinear_arith)
            requires
                0 <= file_size < chunk * m,
                0 < chunk,
        ;
    } else {
        assert(file_size / chunk >= m) by (nonlinear_arith)
            requires
                file_size >= chunk * m,
                0 < chunk,
        ;
    }
}

/// The part size for a file of `file_size` bytes: the smallest permitted size
/// that keeps the number of parts under the ceiling.
///
/// Fails with `ArchiveTooLarge` exactly when even the largest permitted size
/// leaves too many parts, that is from 10000 parts of 4 GiB on.
pub fn calculate_optimal_interval(file_size: u64) -> (r: Result<u64, ArchiveError>)
    ensures
        match r {
            Ok(c) => is_optimal_interval(file_size as int, c as int),
            Err(e) => e == ArchiveError::ArchiveTooLarge && exceeds_every_chunk_size(
                file_size as int,
            ),
        },
        r is Err <==> file_size as int >= chunk_size_at(MAX_DOUBLINGS as nat) * MAX_PART_AMOUNT as int,
{
    let mut k: u64 = 0;
    let mut size: u64 = ONE_MB;
    proof {
        lemma_pow2_unfold(1);
        assert(pow2(0) == 1) by {
            vstd::arithmetic::power2::lemma2_to64();
        }
    }
    loop
        invariant
            k <= MAX_DOUBLINGS,
            size as int == chunk_size_at(k as nat),
            forall|j: nat| j < k ==> !within_part_limit(file_size as int, #[trigger] chunk_size_at(j)),
        decreases MAX_DOUBLINGS - k,
    {
        proof {
            lemma_chunk_sizes_increase(k as nat, (MAX_DOUBLINGS + 1) as nat);
            vstd::arithmetic::power2::lemma2_to64();
            lemma_within_part_limit(file_size as int, size as int);
        }
        if file_size / size < MAX_PART_AMOUNT {
            proof {
                if k < MAX_DOUBLINGS {
                    lemma_chunk_sizes_increase(k as nat, MAX_DOUBLINGS as nat);
                }
                lemma_within_part_limit(file_size as int, chunk_size_at(MAX_DOUBLINGS as nat));
                assert(size as int * MAX_PART_AMOUNT as int <= chunk_size_at(MAX_DOUBLINGS as nat)
                    * MAX_PART_AMOUNT as int) by (nonlinear_arith)
                    requires
                        size as int <= chunk_size_at(MAX_DOUBLINGS as nat),
                ;
            }
            return Ok(size);
        }
        if k == MAX_DOUBLINGS {
            proof {
                assert forall|j: nat| j <= MAX_DOUBLINGS implies !within_part_limit(
                    file_size as int,
                    #[trigger] chunk_size_at(j),
                ) by {
                    if j == k {
                    }
                }
            }
            return Err(ArchiveError::ArchiveTooLarge);
        }
        proof {
            lemma_pow2_unfold((k + 1) as nat);
            assert(chunk_size_at((k + 1) as nat) == 2 * chunk_size_at(k as nat)) by (nonlinear_arith)
                requires
                    pow2((k + 1) as nat) == 2 * pow2(k as nat),
            ;
            assert(chunk_size_at((k + 1) as nat) < chunk_size_at((MAX_DOUBLINGS + 1) as nat)
                || k + 1 == MAX_DOUBLINGS + 1) by {
                if k + 1 < MAX_DOUBLINGS + 1 {
                    lemma_chunk_sizes_increase((k + 1) as nat, (MAX_DOUBLINGS + 1) as nat);
                }
            }
            assert(chunk_size_at(13) == 1048576 * 8192) by {
                vstd::arithmetic::power2::lemma2_to64();
            }
            assert forall|j: nat| j < k + 1 implies !within_part_limit(
                file_size as int,
                #[trigger] chunk_size_at(j),
            ) by {
                if j == k {
                }
            }
        }
        size = size * 2;
        k = k + 1;
    }
}

} // verus!
