//! The part files of an upload: which part a file holds, the order in which
//! the parts are sent, and the bytes of the archive that each one covers.
use crate::text::{decimal, decimal_text, index_of_digits, parse_index};
use vstd::prelude::*;
use vstd::seq_lib::to_multiset_insert;
use vstd::string::StringExecFns;

verus! {

/// The first match of the regular expression `pattern` in `text`; `None`
/// where `pattern` is no regular expression or matches nowhere in `text`.
pub uninterp spec fn first_match(pattern: Seq<char>, text: Seq<char>) -> Option<Seq<char>>;

/// Calls `regex::Regex::new` on `pattern` and `Regex::find` on `text`.
///
/// Trusted: the text that comes back is the first match of the pattern in
/// `text`, which depends on the two texts alone; nothing comes back where
/// the pattern does not compile or does not match.
#[verifier::external_body]
fn regex_find(pattern: &str, text: &str) -> (r: Option<String>)
    ensures
        match r {
            Some(found) => first_match(pattern@, text@) == Some(found@),
            None => first_match(pattern@, text@) is None,
        },
{
    let compiled = regex::Regex::new(pattern).ok()?;
    compiled.find(text).map(|found| found.as_str().to_string())
}

/// The number in the name of a part file: what the first run of digits in
/// `name` spells, where there is one and it spells a number that a signed
/// 32-bit integer can hold.
pub open spec fn filename_index(name: Seq<char>) -> Option<i32> {
    match first_match("\\d+"@, name) {
        Some(digits) => index_of_digits(digits),
        None => None,
    }
}

/// The number that `found` spells, where the search for digits in a file
/// name found something.
pub fn index_from_match(found: &Option<String>) -> (r: Option<i32>)
    ensures
        r == match *found {
            Some(digits) => index_of_digits(digits@),
            None => None,
        },
{
    match found {
        Some(digits) => parse_index(digits.as_str()),
        None => None,
    }
}

/// The number in the name of a part file, so that `part_2` sorts before
/// `part_10`.
pub fn get_index_from_filename(name: &str) -> (r: Option<i32>)
    ensures
        r == filename_index(name@),
{
    let found = regex_find("\\d+", name);
    index_from_match(&found)
}

/// A part file in the working directory of an upload.
#[derive(Debug)]
pub struct PartFile {
    pub index: i32,
    pub name: String,
    pub size: u64,
}

impl Clone for PartFile {
    fn clone(&self) -> (r: Self)
        ensures
            r == *self,
    {
        PartFile { index: self.index, name: self.name.clone(), size: self.size }
    }
}

impl PartFile {
    /// The part file `name` of `size` bytes, with the number that its name
    /// carries; `None` where the name carries none.
    pub fn named(name: String, size: u64) -> (r: Option<PartFile>)
        ensures
            r is Some <==> filename_index(name@) is Some,
            r matches Some(part) ==> part.name == name && part.size == size && Some(part.index)
                == filename_index(name@),
    {
        match get_index_from_filename(name.as_str()) {
            Some(index) => Some(PartFile { index, name, size }),
            None => None,
        }
    }
}

/// Whether the parts stand in the order of their numbers.
pub open spec fn in_index_order(parts: Seq<PartFile>) -> bool {
    forall|i: int, j: int|
        0 <= i < j < parts.len() ==> (#[trigger] parts[i]).index <= (#[trigger] parts[j]).index
}

/// How many parts at the head of `parts` have a number of at most `index`.
pub open spec fn insertion_point(parts: Seq<PartFile>, index: i32) -> nat
    decreases parts.len(),
{
    if parts.len() == 0 || parts[0].index > index {
        0
    } else {
        1 + insertion_point(parts.skip(1), index)
    }
}

/// The parts of `parts` in the order of their numbers; parts of the same
/// number keep the order in which they came.
pub open spec fn index_order(parts: Seq<PartFile>) -> Seq<PartFile>
    decreases parts.len(),
{
    if parts.len() == 0 {
        parts
    } else {
        let front = index_order(parts.drop_last());
        front.insert(insertion_point(front, parts.last().index) as int, parts.last())
    }
}

/// The insertion point is where the parts of a greater number begin.
proof fn lemma_insertion_point(parts: Seq<PartFile>, index: i32, p: int)
    requires
        0 <= p <= parts.len(),
        forall|k: int| 0 <= k < p ==> (#[trigger] parts[k]).index <= index,
        p == parts.len() || parts[p].index > index,
    ensures
        insertion_point(parts, index) == p,
    decreases p,
{
    if p > 0 {
        assert(parts[0].index <= index);
        let rest = parts.skip(1);
        assert forall|k: int| 0 <= k < p - 1 implies (#[trigger] rest[k]).index <= index by {
            assert(rest[k] == parts[k + 1]);
        }
        lemma_insertion_point(rest, index, p - 1);
    }
}

/// Putting a part at its insertion point keeps the order and adds just
/// that part.
proof fn lemma_insert_in_order(parts: Seq<PartFile>, part: PartFile, p: int)
    requires
        in_index_order(parts),
        0 <= p <= parts.len(),
        forall|k: int| 0 <= k < p ==> (#[trigger] parts[k]).index <= part.index,
        p == parts.len() || parts[p].index > part.index,
    ensures
        in_index_order(parts.insert(p, part)),
        parts.insert(p, part).to_multiset() == parts.to_multiset().insert(part),
        parts.insert(p, part).len() == parts.len() + 1,
{
    let longer = parts.insert(p, part);
    to_multiset_insert(parts, p, part);
    assert forall|i: int, j: int| 0 <= i < j < longer.len() implies (#[trigger] longer[i]).index <= (
    #[trigger] longer[j]).index by {
        if j < p {
            assert(longer[i] == parts[i] && longer[j] == parts[j]);
        } else if j == p {
            assert(longer[i] == parts[i]);
        } else if i < p {
            assert(longer[i] == parts[i] && longer[j] == parts[j - 1]);
            if p < j - 1 {
                assert(parts[p].index <= parts[j - 1].index);
            }
        } else if i == p {
            assert(longer[j] == parts[j - 1]);
            if p < j - 1 {
                assert(parts[p].index <= parts[j - 1].index);
            }
        } else {
            assert(longer[i] == parts[i - 1] && longer[j] == parts[j - 1]);
        }
    }
}

/// How far the parts at the head of an ordered run have a number of at most
/// `index`.
proof fn lemma_insertion_point_bounds(parts: Seq<PartFile>, index: i32)
    ensures
        insertion_point(parts, index) <= parts.len(),
        forall|k: int|
            0 <= k < insertion_point(parts, index) ==> (#[trigger] parts[k]).index <= index,
        insertion_point(parts, index) == parts.len() || parts[insertion_point(
            parts,
            index,
        ) as int].index > index,
    decreases parts.len(),
{
    if !(parts.len() == 0 || parts[0].index > index) {
        let rest = parts.skip(1);
        lemma_insertion_point_bounds(rest, index);
        let p = insertion_point(rest, index);
        assert forall|k: int| 0 <= k < p + 1 implies (#[trigger] parts[k]).index <= index by {
            if k > 0 {
                assert(rest[k - 1] == parts[k]);
            }
        }
        if p < rest.len() {
            assert(rest[p as int] == parts[p as int + 1]);
        }
    }
}

/// The parts in the order of their numbers are the same parts, each as
/// often as before, and no number comes before a smaller one.
pub proof fn lemma_index_order(parts: Seq<PartFile>)
    ensures
        in_index_order(index_order(parts)),
        index_order(parts).to_multiset() == parts.to_multiset(),
        index_order(parts).len() == parts.len(),
    decreases parts.len(),
{
    broadcast use vstd::seq_lib::group_to_multiset_ensures;

    if parts.len() > 0 {
        let front = index_order(parts.drop_last());
        lemma_index_order(parts.drop_last());
        lemma_insertion_point_bounds(front, parts.last().index);
        lemma_insert_in_order(
            front,
            parts.last(),
            insertion_point(front, parts.last().index) as int,
        );
        assert(parts.drop_last().push(parts.last()) =~= parts);
    }
}

/// The parts in the order in which they are sent: by the numbers in their
/// names, not by the names as text.
pub fn order_parts(parts: &Vec<PartFile>) -> (r: Vec<PartFile>)
    ensures
        r@ == index_order(parts@),
        in_index_order(r@),
        r@.to_multiset() == parts@.to_multiset(),
        r@.len() == parts@.len(),
{
    let mut ordered: Vec<PartFile> = Vec::new();
    let mut i: usize = 0;
    proof {
        assert(parts@.take(0) =~= Seq::<PartFile>::empty());
    }
    while i < parts.len()
        invariant
            i <= parts.len(),
            ordered@ == index_order(parts@.take(i as int)),
            ordered@.len() == i,
        decreases parts.len() - i,
    {
        let part = parts[i].clone();
        let mut p: usize = 0;
        while p < ordered.len() && ordered[p].index <= part.index
            invariant
                p <= ordered.len(),
                forall|k: int| 0 <= k < p ==> (#[trigger] ordered@[k]).index <= part.index,
            decreases ordered.len() - p,
        {
            p = p + 1;
        }
        proof {
            lemma_insertion_point(ordered@, part.index, p as int);
            assert(parts@.take(i + 1).drop_last() =~= parts@.take(i as int));
            assert(parts@.take(i + 1).last() == part);
        }
        ordered.insert(p, part);
        i = i + 1;
    }
    proof {
        assert(parts@.take(parts@.len() as int) =~= parts@);
        lemma_index_order(parts@);
    }
    ordered
}

/// The first and the last byte of the archive that a part covers: the part
/// at `position` in the sending order, counted from 0, starts at `position`
/// times the part size and is `size` bytes long. `None` where the part is
/// empty or its last byte lies beyond what 64 bits can count.
pub open spec fn byte_range_of(position: int, chunk_size: int, size: int) -> Option<(u64, u64)> {
    if size >= 1 && position * chunk_size + size - 1 <= u64::MAX {
        Some(((position * chunk_size) as u64, (position * chunk_size + size - 1) as u64))
    } else {
        None
    }
}

/// The header that announces the bytes `start` to `end` of an archive whose
/// length is left open.
pub open spec fn range_text(start: nat, end: nat) -> Seq<char> {
    "bytes "@ + decimal_text(start) + "-"@ + decimal_text(end) + "/*"@
}

/// The first and the last byte of the archive that a part covers.
pub fn byte_range(position: u64, chunk_size: u64, size: u64) -> (r: Option<(u64, u64)>)
    ensures
        r == byte_range_of(position as int, chunk_size as int, size as int),
{
    if size == 0 {
        return None;
    }
    match position.checked_mul(chunk_size) {
        Some(start) => match start.checked_add(size - 1) {
            Some(end) => Some((start, end)),
            None => None,
        },
        None => {
            assert(position * chunk_size + size - 1 > u64::MAX);
            None
        },
    }
}

/// The range header for the bytes `start` to `end`.
pub fn range_header(start: u64, end: u64) -> (r: String)
    ensures
        r@ == range_text(start as nat, end as nat),
{
    let mut text = String::from_str("bytes ");
    text.append(decimal(start).as_str());
    text.append("-");
    text.append(decimal(end).as_str());
    text.append("/*");
    text
}

} // verus!
