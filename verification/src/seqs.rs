//! Facts about sequences that the loops of this crate lean on.
use vstd::prelude::*;

verus! {

/// Filtering a sequence extended by one element filters the sequence and then
/// keeps or drops that element.
pub proof fn lemma_filter_push<T>(s: Seq<T>, x: T, keep: spec_fn(T) -> bool)
    ensures
        s.push(x).filter(keep) == if keep(x) {
            s.filter(keep).push(x)
        } else {
            s.filter(keep)
        },
{
    reveal(Seq::filter);
    assert(s.push(x).drop_last() =~= s);
}

/// Filtering the first `i + 1` elements in terms of filtering the first `i`.
pub proof fn lemma_filter_take_next<T>(s: Seq<T>, i: int, keep: spec_fn(T) -> bool)
    requires
        0 <= i < s.len(),
    ensures
        s.take(i + 1).filter(keep) == if keep(s[i]) {
            s.take(i).filter(keep).push(s[i])
        } else {
            s.take(i).filter(keep)
        },
{
    assert(s.take(i + 1) =~= s.take(i).push(s[i]));
    lemma_filter_push(s.take(i), s[i], keep);
}

/// Every element of a filtered sequence comes from the sequence and is kept.
pub proof fn lemma_filter_members<T>(s: Seq<T>, keep: spec_fn(T) -> bool)
    ensures
        forall|j: int|
            0 <= j < s.filter(keep).len() ==> keep(#[trigger] s.filter(keep)[j]) && s.contains(
                s.filter(keep)[j],
            ),
        forall|j: int| 0 <= j < s.len() && keep(s[j]) ==> s.filter(keep).contains(#[trigger] s[j]),
        s.filter(keep).len() <= s.len(),
    decreases s.len(),
{
    reveal(Seq::filter);
    if s.len() > 0 {
        let front = s.drop_last();
        lemma_filter_members(front, keep);
        let kept = front.filter(keep);
        assert forall|j: int| 0 <= j < s.filter(keep).len() implies keep(
            #[trigger] s.filter(keep)[j],
        ) && s.contains(s.filter(keep)[j]) by {
            if j < kept.len() {
                let k = choose|k: int| 0 <= k < front.len() && front[k] == kept[j];
                assert(s[k] == kept[j]);
            } else {
                assert(s[s.len() - 1] == s.filter(keep)[j]);
            }
        }
        assert forall|j: int| 0 <= j < s.len() && keep(s[j]) implies s.filter(keep).contains(
            #[trigger] s[j],
        ) by {
            if j < front.len() {
                assert(front[j] == s[j]);
                let k = choose|k: int| 0 <= k < kept.len() && kept[k] == front[j];
                assert(s.filter(keep)[k] == s[j]);
            } else {
                assert(s.filter(keep)[s.filter(keep).len() - 1] == s[j]);
            }
        }
    }
}

} // verus!
