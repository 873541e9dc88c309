//! Facts about filtered sequences that several modules share.

use vstd::prelude::*;

verus! {

/// An element is in the filtered sequence exactly when it is in the sequence
/// and passes the filter.
pub proof fn lemma_filter_member<A>(s: Seq<A>, pred: spec_fn(A) -> bool, x: A)
    ensures
        s.filter(pred).contains(x) <==> (s.contains(x) && pred(x)),
{
    if s.filter(pred).contains(x) {
        s.lemma_filter_contains_rev(pred, x);
        let i = choose|i: int| 0 <= i < s.filter(pred).len() && s.filter(pred)[i] == x;
        s.lemma_filter_pred(pred, i);
    }
    if s.contains(x) && pred(x) {
        let i = choose|i: int| 0 <= i < s.len() && s[i] == x;
        s.lemma_filter_contains(pred, i);
    }
}

/// Filtering a sequence of distinct elements leaves distinct elements.
pub proof fn lemma_filter_distinct<A>(s: Seq<A>, pred: spec_fn(A) -> bool)
    requires
        s.no_duplicates(),
    ensures
        s.filter(pred).no_duplicates(),
    decreases s.len(),
{
    reveal(Seq::filter);
    if s.len() > 0 {
        let front = s.drop_last();
        lemma_filter_distinct(front, pred);
        if pred(s.last()) {
            let kept = front.filter(pred);
            if kept.contains(s.last()) {
                front.lemma_filter_contains_rev(pred, s.last());
                let i = choose|i: int| 0 <= i < front.len() && front[i] == s.last();
                assert(s[i] == s[s.len() - 1]);
            }
            assert forall|i: int, j: int|
                0 <= i < kept.push(s.last()).len() && 0 <= j < kept.push(s.last()).len() && i
                    != j implies kept.push(s.last())[i] != kept.push(s.last())[j] by {
                if i < kept.len() {
                    assert(kept.contains(kept[i]));
                }
                if j < kept.len() {
                    assert(kept.contains(kept[j]));
                }
            }
        }
    }
}

/// Filtering the first `i + 1` elements is filtering the first `i` and then
/// deciding on the next one.
pub proof fn lemma_filter_take_next<A>(s: Seq<A>, pred: spec_fn(A) -> bool, i: int)
    requires
        0 <= i < s.len(),
    ensures
        s.take(i + 1).filter(pred) == if pred(s[i]) {
            s.take(i).filter(pred).push(s[i])
        } else {
            s.take(i).filter(pred)
        },
{
    assert(s.take(i + 1) =~= s.take(i).push(s[i]));
    s.take(i).lemma_filter_push(s[i], pred);
}

/// What an optional list holds, if it is there.
pub open spec fn seen<A>(list: Option<Vec<A>>) -> Option<Seq<A>> {
    match list {
        Some(list) => Some(list@),
        None => None,
    }
}

/// The chunks of the indices below `count`, one after the other, where every
/// one of them exists; nothing where one is missing.
pub open spec fn gather<A>(count: nat, chunk: spec_fn(int) -> Option<Seq<A>>) -> Option<Seq<A>>
    decreases count,
{
    if count == 0 {
        Some(Seq::empty())
    } else {
        match (gather(( count - 1 ) as nat, chunk), chunk(count - 1)) {
            (Some(earlier), Some(last)) => Some(earlier + last),
            _ => None,
        }
    }
}

/// One missing chunk leaves nothing of the whole.
pub proof fn lemma_gather_missing<A>(
    count: nat,
    chunk: spec_fn(int) -> Option<Seq<A>>,
    missing: int,
)
    requires
        0 <= missing < count,
        chunk(missing) is None,
    ensures
        gather(count, chunk) is None,
    decreases count,
{
    if missing < count - 1 {
        lemma_gather_missing((count - 1) as nat, chunk, missing);
    }
}

/// Gathering one index further appends the chunk of that index.
pub proof fn lemma_gather_next<A>(count: nat, chunk: spec_fn(int) -> Option<Seq<A>>)
    requires
        gather(count, chunk) is Some,
        chunk(count as int) is Some,
    ensures
        gather(count + 1, chunk) == Some(gather(count, chunk)->0 + chunk(count as int)->0),
{
    assert((count + 1 - 1) as nat == count);
}

} // verus!
