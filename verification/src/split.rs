//! Cutting an archive into parts, and hashing it window by window on the
//! way.
use crate::chunk::ONE_MB;
use crate::digest::{sha256_hex, ContentDigest};
use crate::error::ArchiveError;
use crate::text::{decimal, decimal_text};
use crate::tree::digest_texts;
use vstd::prelude::*;
use vstd::slice::slice_subrange;
use vstd::string::StringExecFns;

verus! {

/// A counter that hands out 1, 2, 3 and so on.
#[derive(Debug)]
pub struct InfiniteIndeces {
    value: usize,
}

impl View for InfiniteIndeces {
    type V = usize;

    closed spec fn view(&self) -> usize {
        self.value
    }
}

impl InfiniteIndeces {
    /// A counter that has handed out nothing yet.
    pub fn new() -> (r: Self)
        ensures
            r@ == 0,
    {
        InfiniteIndeces { value: 0 }
    }

    /// The next number: one more than the one before, and 1 at first.
    pub fn next(&mut self) -> (r: usize)
        requires
            old(self)@ < usize::MAX,
        ensures
            r == old(self)@ + 1,
            final(self)@ == r,
    {
        self.value = self.value + 1;
        self.value
    }
}

/// The number of parts of `chunk_size` bytes that `size` bytes make: the
/// last part may be shorter, and nothing makes no part.
pub open spec fn part_count(size: nat, chunk_size: nat) -> nat {
    ((size + chunk_size - 1) / chunk_size as int) as nat
}

/// Where the part at `position`, counted from 0, ends in `size` bytes.
pub open spec fn part_end(size: nat, chunk_size: nat, position: nat) -> nat {
    if (position + 1) * chunk_size < size {
        (position + 1) * chunk_size
    } else {
        size
    }
}

/// The bytes of the part at `position`, counted from 0.
pub open spec fn part_of(data: Seq<u8>, chunk_size: nat, position: nat) -> Seq<u8> {
    data.subrange((position * chunk_size) as int, part_end(data.len(), chunk_size, position) as int)
}

/// The parts into which `data` is cut, in order.
pub open spec fn parts_of(data: Seq<u8>, chunk_size: nat) -> Seq<Seq<u8>> {
    Seq::new(part_count(data.len(), chunk_size), |i: int| part_of(data, chunk_size, i as nat))
}

/// The pieces of `parts` put together, in order.
pub open spec fn joined(parts: Seq<Seq<u8>>) -> Seq<u8>
    decreases parts.len(),
{
    if parts.len() == 0 {
        Seq::empty()
    } else {
        joined(parts.drop_last()) + parts.last()
    }
}

/// The digests of the one-mebibyte windows of `data`, in order. The last
/// window may be shorter.
pub open spec fn window_digests(data: Seq<u8>) -> Seq<Seq<char>> {
    Seq::new(
        part_count(data.len(), ONE_MB as nat),
        |i: int| sha256_hex(part_of(data, ONE_MB as nat, i as nat)),
    )
}

/// The digests of the windows of each piece of `parts`, in order.
pub open spec fn stream_digests(parts: Seq<Seq<u8>>) -> Seq<Seq<char>>
    decreases parts.len(),
{
    if parts.len() == 0 {
        Seq::empty()
    } else {
        stream_digests(parts.drop_last()) + window_digests(parts.last())
    }
}

/// How many parts there are, and where each one lies: every part before the
/// last is full, and the last one is not empty.
pub proof fn lemma_part_geometry(size: nat, chunk_size: nat, position: nat)
    requires
        chunk_size > 0,
    ensures
        position < part_count(size, chunk_size) <==> position * chunk_size < size,
        position < part_count(size, chunk_size) ==> position * chunk_size < part_end(
            size,
            chunk_size,
            position,
        ) <= size,
        position + 1 < part_count(size, chunk_size) ==> part_end(size, chunk_size, position)
            == position * chunk_size + chunk_size,
        part_end(size, chunk_size, position) <= position * chunk_size + chunk_size,
        position + 1 == part_count(size, chunk_size) ==> part_end(size, chunk_size, position)
            == size,
{
    let count = part_count(size, chunk_size);
    let c = chunk_size as int;
    let p = position as int;
    let s = size as int;
    assert((p + 1) * c == p * c + c) by (nonlinear_arith);
    assert(p * c >= 0) by (nonlinear_arith)
        requires
            p >= 0,
            c > 0,
    ;
    assert(p < (s + c - 1) / c <==> p * c < s) by (nonlinear_arith)
        requires
            c > 0,
            p >= 0,
            s >= 0,
    ;
    assert(p + 1 < (s + c - 1) / c <==> (p + 1) * c < s) by (nonlinear_arith)
        requires
            c > 0,
            p >= 0,
            s >= 0,
    ;
}

/// Cutting and putting together again gives back what was cut: the parts of
/// `data`, joined in order, are `data`.
pub proof fn lemma_split_round_trip(data: Seq<u8>, chunk_size: nat)
    requires
        chunk_size > 0,
    ensures
        joined(parts_of(data, chunk_size)) == data,
{
    let parts = parts_of(data, chunk_size);
    lemma_joined_prefix(data, chunk_size, parts.len());
    assert(parts.take(parts.len() as int) =~= parts);
    if parts.len() == 0 {
        lemma_part_geometry(data.len(), chunk_size, 0);
        assert(data =~= Seq::<u8>::empty());
    } else {
        lemma_part_geometry(data.len(), chunk_size, (parts.len() - 1) as nat);
        assert(data.take(data.len() as int) =~= data);
    }
}

/// The first `k` parts, joined, are the bytes before the `k`-th part.
proof fn lemma_joined_prefix(data: Seq<u8>, chunk_size: nat, k: nat)
    requires
        chunk_size > 0,
        k <= part_count(data.len(), chunk_size),
    ensures
        joined(parts_of(data, chunk_size).take(k as int)) == data.take(
            if k == 0 {
                0
            } else {
                part_end(data.len(), chunk_size, (k - 1) as nat) as int
            },
        ),
    decreases k,
{
    let parts = parts_of(data, chunk_size);
    if k == 0 {
        assert(parts.take(0) =~= Seq::<Seq<u8>>::empty());
        assert(data.take(0) =~= Seq::<u8>::empty());
    } else {
        let before = (k - 1) as nat;
        lemma_joined_prefix(data, chunk_size, before);
        lemma_part_geometry(data.len(), chunk_size, before);
        if before > 0 {
            lemma_part_geometry(data.len(), chunk_size, (before - 1) as nat);
        }
        assert(parts.take(k as int).drop_last() =~= parts.take(before as int));
        assert(parts.take(k as int).last() == part_of(data, chunk_size, before));
        let start = (before * chunk_size) as int;
        let end = part_end(data.len(), chunk_size, before) as int;
        assert((before - 1) * chunk_size + chunk_size == before * chunk_size) by (nonlinear_arith);
        assert(data.take(start) + data.subrange(start, end) =~= data.take(end));
    }
}

/// Hashing piece by piece: where `head` ends on a window boundary, the
/// window digests of `head` followed by `tail` are those of `head` followed
/// by those of `tail`.
pub proof fn lemma_window_digests_concat(head: Seq<u8>, tail: Seq<u8>)
    requires
        head.len() % (ONE_MB as nat) == 0,
    ensures
        window_digests(head + tail) == window_digests(head) + window_digests(tail),
{
    let unit = ONE_MB as nat;
    let whole = head + tail;
    let full = head.len() / unit;
    assert(head.len() == full * unit) by (nonlinear_arith)
        requires
            head.len() % unit == 0,
            full == head.len() / unit,
            unit > 0,
    ;
    assert(part_count(head.len(), unit) == full) by (nonlinear_arith)
        requires
            head.len() == full * unit,
            unit > 0,
    ;
    assert(part_count(whole.len(), unit) == full + part_count(tail.len(), unit))
        by (nonlinear_arith)
        requires
            whole.len() == full * unit + tail.len(),
            unit > 0,
    ;
    let left = window_digests(whole);
    let right = window_digests(head) + window_digests(tail);
    assert(left.len() == right.len());
    assert forall|i: int| 0 <= i < left.len() implies left[i] == right[i] by {
        lemma_part_geometry(whole.len(), unit, i as nat);
        assert((i + 1) * unit == i * unit + unit) by (nonlinear_arith);
        if i < full {
            lemma_part_geometry(head.len(), unit, i as nat);
            assert((i + 1) * unit <= full * unit) by (nonlinear_arith)
                requires
                    i + 1 <= full,
                    unit > 0,
            ;
            assert(part_of(whole, unit, i as nat) =~= part_of(head, unit, i as nat));
        } else {
            let j = (i - full) as nat;
            lemma_part_geometry(tail.len(), unit, j);
            assert(i * unit == full * unit + j * unit) by (nonlinear_arith)
                requires
                    i == full + j,
            ;
            assert((j + 1) * unit == j * unit + unit) by (nonlinear_arith);
            assert(part_of(whole, unit, i as nat) =~= part_of(tail, unit, j));
        }
    }
    assert(left =~= right);
}

/// The digests do not depend on the part size: where the part size is a
/// whole number of windows, the digests gathered part by part are the
/// window digests of the whole archive.
pub proof fn lemma_stream_digests(data: Seq<u8>, chunk_size: nat)
    requires
        chunk_size > 0,
        chunk_size % (ONE_MB as nat) == 0,
    ensures
        stream_digests(parts_of(data, chunk_size)) == window_digests(data),
{
    let parts = parts_of(data, chunk_size);
    lemma_stream_prefix(data, chunk_size, parts.len());
    lemma_joined_prefix(data, chunk_size, parts.len());
    lemma_split_round_trip(data, chunk_size);
    assert(parts.take(parts.len() as int) =~= parts);
}

/// The digests gathered over the first `k` parts are the window digests of
/// those parts joined.
proof fn lemma_stream_prefix(data: Seq<u8>, chunk_size: nat, k: nat)
    requires
        chunk_size > 0,
        chunk_size % (ONE_MB as nat) == 0,
        k <= part_count(data.len(), chunk_size),
    ensures
        stream_digests(parts_of(data, chunk_size).take(k as int)) == window_digests(
            joined(parts_of(data, chunk_size).take(k as int)),
        ),
    decreases k,
{
    let parts = parts_of(data, chunk_size);
    if k == 0 {
        assert(parts.take(0) =~= Seq::<Seq<u8>>::empty());
        assert(window_digests(Seq::<u8>::empty()) =~= Seq::<Seq<char>>::empty());
    } else {
        let before = (k - 1) as nat;
        lemma_stream_prefix(data, chunk_size, before);
        lemma_joined_prefix(data, chunk_size, before);
        lemma_part_geometry(data.len(), chunk_size, before);
        if before > 0 {
            lemma_part_geometry(data.len(), chunk_size, (before - 1) as nat);
        }
        assert(parts.take(k as int).drop_last() =~= parts.take(before as int));
        let head = joined(parts.take(before as int));
        assert(head.len() == before * chunk_size) by {
            assert((before - 1) * chunk_size + chunk_size == before * chunk_size)
                by (nonlinear_arith);
        }
        assert(head.len() % (ONE_MB as nat) == 0) by {
            let unit = ONE_MB as int;
            let windows = chunk_size as int / unit;
            vstd::arithmetic::div_mod::lemma_fundamental_div_mod(chunk_size as int, unit);
            assert(before * chunk_size == (before * windows) * unit) by (nonlinear_arith)
                requires
                    chunk_size == unit * windows,
            ;
            vstd::arithmetic::div_mod::lemma_mod_multiples_basic(before * windows, unit);
        }
        lemma_window_digests_concat(head, parts.take(k as int).last());
    }
}

/// The working directory of the upload of the file `input`, under the state
/// directory `base`: named by the digest of the file's path, so that two
/// uploads of different files do not meet.
pub open spec fn working_directory_of(base: Seq<char>, input: Seq<char>) -> Seq<char> {
    base + "/TMP/"@ + sha256_hex(vstd::utf8::encode_utf8(input))
}

/// The file of the part number `index` in the working directory
/// `directory`.
pub open spec fn part_file_of(directory: Seq<char>, index: nat) -> Seq<char> {
    directory + "/part_"@ + decimal_text(index) + ".bin"@
}

/// The working directory of the upload of the file `input`.
pub fn working_directory(base: &str, input: &str) -> (r: String)
    ensures
        r@ == working_directory_of(base@, input@),
{
    let name = ContentDigest::of_bytes(input.as_bytes()).to_hex();
    String::from_str(base).concat("/TMP/").concat(name.as_str())
}

/// The file of the part number `index` in the working directory.
pub fn part_file(directory: &str, index: usize) -> (r: String)
    ensures
        r@ == part_file_of(directory@, index as nat),
{
    let number = decimal(index as u64);
    String::from_str(directory).concat("/part_").concat(number.as_str()).concat(".bin")
}

/// Cutting off one more part: where `content` is `k` full parts and `data`
/// is not empty and no longer than a part, the parts of `content` followed
/// by `data` are the parts of `content` and then `data`.
proof fn lemma_parts_push(content: Seq<u8>, data: Seq<u8>, chunk_size: nat, k: nat)
    requires
        chunk_size > 0,
        content.len() == k * chunk_size,
        0 < data.len() <= chunk_size,
    ensures
        parts_of(content + data, chunk_size) == parts_of(content, chunk_size).push(data),
        part_count(content.len(), chunk_size) == k,
{
    let whole = content + data;
    let c = chunk_size as int;
    assert(part_count(content.len(), chunk_size) == k) by (nonlinear_arith)
        requires
            content.len() == k * chunk_size,
            chunk_size > 0,
    ;
    assert(part_count(whole.len(), chunk_size) == k + 1) by (nonlinear_arith)
        requires
            whole.len() == k * chunk_size + data.len(),
            0 < data.len() <= chunk_size,
    ;
    let left = parts_of(whole, chunk_size);
    let right = parts_of(content, chunk_size).push(data);
    assert forall|i: int| 0 <= i < left.len() implies left[i] == right[i] by {
        lemma_part_geometry(whole.len(), chunk_size, i as nat);
        assert((i + 1) * c == i * c + c) by (nonlinear_arith);
        if i < k {
            lemma_part_geometry(content.len(), chunk_size, i as nat);
            assert((i + 1) * c <= k * c) by (nonlinear_arith)
                requires
                    i + 1 <= k,
                    c > 0,
            ;
            assert(part_of(whole, chunk_size, i as nat) =~= part_of(content, chunk_size, i as nat));
        } else {
            assert(part_of(whole, chunk_size, i as nat) =~= data);
        }
    }
    assert(left =~= right);
}

/// The digests of the one-mebibyte windows of `data`, in order: one for
/// every started mebibyte, each over the window's own bytes and no padding.
pub fn sub_chunk_digests(data: &[u8]) -> (r: Vec<ContentDigest>)
    ensures
        digest_texts(r@) == window_digests(data@),
        r@.len() == part_count(data@.len(), ONE_MB as nat),
{
    let unit: usize = 1048576;
    let ghost total = part_count(data@.len(), ONE_MB as nat);
    let mut digests: Vec<ContentDigest> = Vec::new();
    let mut start: usize = 0;
    proof {
        lemma_part_geometry(data@.len(), ONE_MB as nat, 0);
    }
    while start < data.len()
        invariant
            unit == ONE_MB,
            total == part_count(data@.len(), ONE_MB as nat),
            start <= data.len(),
            digests@.len() <= total,
            digests@.len() < total ==> start == digests@.len() * ONE_MB,
            digests@.len() == total ==> start == data.len(),
            forall|j: int|
                0 <= j < digests@.len() ==> (#[trigger] digests@[j])@ == window_digests(data@)[j],
        decreases data.len() - start,
    {
        let ghost k = digests@.len();
        proof {
            lemma_part_geometry(data@.len(), ONE_MB as nat, k);
            lemma_part_geometry(data@.len(), ONE_MB as nat, k + 1);
            assert((k + 1) * ONE_MB == k * ONE_MB + ONE_MB) by (nonlinear_arith);
        }
        let end: usize = if data.len() - start > unit {
            start + unit
        } else {
            data.len()
        };
        let window = slice_subrange(data, start, end);
        assert(window@ == part_of(data@, ONE_MB as nat, k));
        digests.push(ContentDigest::of_bytes(window));
        start = end;
    }
    proof {
        if digests@.len() < total {
            lemma_part_geometry(data@.len(), ONE_MB as nat, digests@.len());
        }
        assert(digest_texts(digests@) =~= window_digests(data@));
    }
    digests
}

/// One part of an archive: its number, counted from 1 as in the name of its
/// file, the bytes of the archive that it covers, the digest of those
/// bytes, and the digests of their one-mebibyte windows.
#[derive(Debug)]
pub struct Part {
    pub index: usize,
    pub offset: u64,
    pub length: u64,
    pub digest: ContentDigest,
    pub sub_digests: Vec<ContentDigest>,
}

/// What the cutting of an archive leaves behind for the upload.
#[derive(Debug)]
pub struct SplitSummary {
    pub archive_size: u64,
    pub chunk_size: u64,
    pub digests: Vec<ContentDigest>,
}

/// The cutting of one archive into parts, fed part by part.
pub struct Splitter {
    file_size: u64,
    chunk_size: u64,
    offset: u64,
    indices: InfiniteIndeces,
    digests: Vec<ContentDigest>,
    content: Ghost<Seq<u8>>,
}

/// What a cutting holds: the size of the archive and of a part, how many
/// parts were taken in, their bytes in order, and the digests gathered.
pub struct SplitterView {
    pub file_size: nat,
    pub chunk_size: nat,
    pub accepted: nat,
    pub content: Seq<u8>,
    pub digests: Seq<Seq<char>>,
}

impl SplitterView {
    /// The bytes taken in are whole parts of the archive, and the digests
    /// are those of their windows.
    pub open spec fn well_formed(self) -> bool {
        &&& self.chunk_size > 0
        &&& self.content.len() <= self.file_size
        &&& self.content.len() < self.file_size ==> self.content.len() == self.accepted
            * self.chunk_size
        &&& self.accepted == part_count(self.content.len(), self.chunk_size)
        &&& self.digests == stream_digests(parts_of(self.content, self.chunk_size))
    }

    /// Where the next part starts and how long it is; `None` once the whole
    /// archive is taken in.
    pub open spec fn expected(self) -> Option<(nat, nat)> {
        if self.content.len() < self.file_size {
            Some(
                (
                    self.content.len(),
                    if self.file_size - self.content.len() < self.chunk_size {
                        (self.file_size - self.content.len()) as nat
                    } else {
                        self.chunk_size
                    },
                ),
            )
        } else {
            None
        }
    }

    /// The cutting after the part `data` is taken in.
    pub open spec fn accept(self, data: Seq<u8>) -> SplitterView {
        SplitterView {
            accepted: self.accepted + 1,
            content: self.content + data,
            digests: self.digests + window_digests(data),
            ..self
        }
    }
}

impl View for Splitter {
    type V = SplitterView;

    closed spec fn view(&self) -> SplitterView {
        SplitterView {
            file_size: self.file_size as nat,
            chunk_size: self.chunk_size as nat,
            accepted: self.indices@ as nat,
            content: self.content@,
            digests: digest_texts(self.digests@),
        }
    }
}

/// Taking in the expected part keeps a cutting well formed.
pub proof fn lemma_accept_keeps_well_formed(cutting: SplitterView, data: Seq<u8>)
    requires
        cutting.well_formed(),
        cutting.expected() matches Some((_, length)) && data.len() == length,
    ensures
        cutting.accept(data).well_formed(),
{
    lemma_parts_push(cutting.content, data, cutting.chunk_size, cutting.accepted);
    let longer = cutting.content + data;
    lemma_parts_push_count(cutting.content, data, cutting.chunk_size, cutting.accepted);
    let parts = parts_of(longer, cutting.chunk_size);
    assert(parts.drop_last() =~= parts_of(cutting.content, cutting.chunk_size));
    assert(parts.last() == data);
}

/// A cutting that is fed from a file takes in the file's parts: where the
/// bytes taken in so far are the head of `file`, the bytes that are expected
/// next are the next part of `file`, and with them taken in the bytes taken
/// in are again the head of `file`.
pub proof fn lemma_expected_part(cutting: SplitterView, file: Seq<u8>)
    requires
        cutting.well_formed(),
        file.len() == cutting.file_size,
        cutting.content == file.take(cutting.content.len() as int),
        cutting.expected() is Some,
    ensures
        ({
            let (offset, length) = cutting.expected()->Some_0;
            let data = file.subrange(offset as int, (offset + length) as int);
            &&& data == part_of(file, cutting.chunk_size, cutting.accepted)
            &&& cutting.accept(data).content == file.take((offset + length) as int)
            &&& cutting.accept(data).well_formed()
            &&& cutting.accept(data).expected() is None ==> cutting.accept(data).content == file
        }),
{
    let (offset, length) = cutting.expected()->Some_0;
    let data = file.subrange(offset as int, (offset + length) as int);
    lemma_part_geometry(file.len(), cutting.chunk_size, cutting.accepted);
    assert((cutting.accepted + 1) * cutting.chunk_size == cutting.accepted * cutting.chunk_size
        + cutting.chunk_size) by (nonlinear_arith);
    assert(data =~= part_of(file, cutting.chunk_size, cutting.accepted));
    assert(cutting.content + data =~= file.take((offset + length) as int));
    lemma_accept_keeps_well_formed(cutting, data);
    if cutting.accept(data).expected() is None {
        assert(file.take(file.len() as int) =~= file);
    }
}

/// How many parts there are after one more is cut off.
proof fn lemma_parts_push_count(content: Seq<u8>, data: Seq<u8>, chunk_size: nat, k: nat)
    requires
        chunk_size > 0,
        content.len() == k * chunk_size,
        0 < data.len() <= chunk_size,
    ensures
        part_count((content + data).len(), chunk_size) == k + 1,
        data.len() < chunk_size || (content + data).len() == (k + 1) * chunk_size,
{
    assert(part_count((content + data).len(), chunk_size) == k + 1) by (nonlinear_arith)
        requires
            (content + data).len() == k * chunk_size + data.len(),
            0 < data.len() <= chunk_size,
    ;
    assert((k + 1) * chunk_size == k * chunk_size + chunk_size) by (nonlinear_arith);
}

impl Splitter {
    #[verifier::type_invariant]
    spec fn holds(&self) -> bool {
        &&& self@.well_formed()
        &&& self.offset == self.content@.len()
        &&& self.indices@ <= self.digests@.len()
    }

    /// The cutting of an archive of `file_size` bytes into parts of
    /// `chunk_size` bytes; `None` where `chunk_size` is 0.
    pub fn new(file_size: u64, chunk_size: u64) -> (r: Option<Splitter>)
        ensures
            r is Some <==> chunk_size > 0,
            r matches Some(cutting) ==> {
                &&& cutting@.file_size == file_size
                &&& cutting@.chunk_size == chunk_size
                &&& cutting@.accepted == 0
                &&& cutting@.content == Seq::<u8>::empty()
                &&& cutting@.digests == Seq::<Seq<char>>::empty()
                &&& cutting@.well_formed()
            },
    {
        if chunk_size == 0 {
            return None;
        }
        proof {
            let nothing = Seq::<u8>::empty();
            lemma_part_geometry(0, chunk_size as nat, 0);
            assert(parts_of(nothing, chunk_size as nat) =~= Seq::<Seq<u8>>::empty());
            assert(digest_texts(Seq::<ContentDigest>::empty()) =~= Seq::<Seq<char>>::empty());
        }
        Some(
            Splitter {
                file_size,
                chunk_size,
                offset: 0,
                indices: InfiniteIndeces::new(),
                digests: Vec::new(),
                content: Ghost(Seq::empty()),
            },
        )
    }

    /// Where the next part starts in the archive and how many bytes it
    /// holds; `None` once the whole archive is taken in.
    pub fn next_part(&self) -> (r: Option<(u64, u64)>)
        ensures
            r is Some <==> self@.expected() is Some,
            r matches Some((offset, length)) ==> self@.expected() == Some(
                (offset as nat, length as nat),
            ) && length > 0,
            self@.well_formed(),
    {
        proof {
            use_type_invariant(self);
        }
        if self.offset < self.file_size {
            let rest = self.file_size - self.offset;
            if rest < self.chunk_size {
                Some((self.offset, rest))
            } else {
                Some((self.offset, self.chunk_size))
            }
        } else {
            None
        }
    }

    /// Takes in the bytes of the next part, and hands back the cutting as
    /// it then stands.
    ///
    /// Fails with `IOError`, and changes nothing, exactly when no part is
    /// expected any more or `data` has not the length of the expected part.
    pub fn accept(self, data: &[u8]) -> (r: (Splitter, Result<Part, ArchiveError>))
        ensures
            match r.1 {
                Ok(part) => {
                    &&& self@.expected() == Some((part.offset as nat, part.length as nat))
                    &&& data@.len() == part.length
                    &&& part.index == self@.accepted + 1
                    &&& part.digest@ == sha256_hex(data@)
                    &&& digest_texts(part.sub_digests@) == window_digests(data@)
                    &&& r.0@ == self@.accept(data@)
                },
                Err(e) => {
                    &&& e == ArchiveError::IOError
                    &&& r.0@ == self@
                    &&& !(self@.expected() matches Some((_, length)) && data@.len() == length)
                },
            },
            r.0@.well_formed(),
    {
        proof {
            use_type_invariant(&self);
        }
        let (offset, length) = match self.next_part() {
            Some(expected) => expected,
            None => {
                return (self, Err(ArchiveError::IOError));
            },
        };
        if data.len() as u64 != length {
            return (self, Err(ArchiveError::IOError));
        }
        proof {
            lemma_accept_keeps_well_formed(self@, data@);
            lemma_part_geometry(data@.len(), ONE_MB as nat, 0);
        }
        let sub_digests = sub_chunk_digests(data);
        let Splitter { file_size, chunk_size, offset: _, indices, digests, content } = self;
        let mut indices = indices;
        let mut digests = digests;
        let ghost before = digests@;
        let mut j: usize = 0;
        while j < sub_digests.len()
            invariant
                j <= sub_digests.len(),
                digests@ == before + sub_digests@.take(j as int),
            decreases sub_digests.len() - j,
        {
            digests.push(sub_digests[j].clone());
            proof {
                assert(sub_digests@.take(j + 1) =~= sub_digests@.take(j as int).push(
                    sub_digests@[j as int],
                ));
            }
            j = j + 1;
        }
        proof {
            assert(sub_digests@.take(sub_digests@.len() as int) =~= sub_digests@);
            assert(digest_texts(digests@) =~= digest_texts(before) + digest_texts(sub_digests@));
        }
        let gathered = digests.len();
        assert(indices@ < gathered) by {
            assert(sub_digests@.len() >= 1);
            assert(indices@ <= before.len());
        }
        let index = indices.next();
        let part = Part {
            index,
            offset,
            length,
            digest: ContentDigest::of_bytes(data),
            sub_digests,
        };
        let cutting = Splitter {
            file_size,
            chunk_size,
            offset: offset + length,
            indices,
            digests,
            content: Ghost(content@ + data@),
        };
        (cutting, Ok(part))
    }

    /// Closes the cutting.
    ///
    /// Fails with `IOError` exactly when parts of the archive are still
    /// missing. Else hands over the archive's size, the part size and the
    /// digests of all windows, part after part.
    pub fn finish(self) -> (r: Result<SplitSummary, ArchiveError>)
        ensures
            match r {
                Ok(summary) => {
                    &&& self@.expected() is None
                    &&& self@.content.len() == self@.file_size
                    &&& summary.archive_size == self@.file_size
                    &&& summary.chunk_size == self@.chunk_size
                    &&& digest_texts(summary.digests@) == stream_digests(
                        parts_of(self@.content, self@.chunk_size),
                    )
                    &&& self@.chunk_size % (ONE_MB as nat) == 0 ==> digest_texts(summary.digests@)
                        == window_digests(self@.content)
                },
                Err(e) => e == ArchiveError::IOError && self@.expected() is Some,
            },
    {
        proof {
            use_type_invariant(&self);
            if self@.chunk_size % (ONE_MB as nat) == 0 {
                lemma_stream_digests(self@.content, self@.chunk_size);
            }
        }
        if self.offset < self.file_size {
            return Err(ArchiveError::IOError);
        }
        Ok(
            SplitSummary {
                archive_size: self.file_size,
                chunk_size: self.chunk_size,
                digests: self.digests,
            },
        )
    }
}

} // verus!
