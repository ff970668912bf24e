//! Lists seen through the values of their items.

use vstd::prelude::*;
use vstd::string::*;

verus! {

/// Append `item`.
pub fn push<T: DeepView>(list: &mut Vec<T>, item: T)
    ensures
        final(list).deep_view() == old(list).deep_view().push(item.deep_view()),
{
    let ghost before = list.deep_view();
    list.push(item);
    assert(list.deep_view() =~= before.push(item.deep_view()));
}

/// Append every item of `more`.
pub fn extend<T: DeepView>(list: &mut Vec<T>, more: Vec<T>)
    ensures
        final(list).deep_view() == old(list).deep_view() + more.deep_view(),
{
    let ghost before = list.deep_view();
    let ghost added = more.deep_view();
    let mut more = more;
    list.append(&mut more);
    assert(list.deep_view() =~= before + added);
}

/// The value of a result.
pub open spec fn result_view<T: DeepView, E: DeepView>(r: Result<T, E>) -> Result<T::V, E::V> {
    match r {
        Ok(value) => Ok(value.deep_view()),
        Err(err) => Err(err.deep_view()),
    }
}

/// A list with one more item taken.
pub proof fn lemma_take_next<T>(s: Seq<T>, i: int)
    requires
        0 <= i < s.len(),
    ensures
        s.take(i + 1) == s.take(i).push(s[i]),
{
    assert(s.take(i + 1) =~= s.take(i).push(s[i]));
}

/// Filtering one more item.
pub proof fn lemma_filter_next<T>(s: Seq<T>, keep: spec_fn(T) -> bool, i: int)
    requires
        0 <= i < s.len(),
    ensures
        s.take(i + 1).filter(keep) == if keep(s[i]) {
            s.take(i).filter(keep).push(s[i])
        } else {
            s.take(i).filter(keep)
        },
{
    reveal(Seq::filter);
    assert(s.take(i + 1).drop_last() =~= s.take(i));
}

/// A filtered list holds what the list holds and the filter lets through.
pub proof fn lemma_filter_contains<T>(s: Seq<T>, keep: spec_fn(T) -> bool, item: T)
    ensures
        s.filter(keep).contains(item) == (s.contains(item) && keep(item)),
    decreases s.len(),
{
    reveal(Seq::filter);
    if s.len() > 0 {
        let before = s.drop_last();
        lemma_filter_contains(before, keep, item);
        crate::index::lemma_contains_push(before, s.last());
        crate::index::lemma_contains_push(before.filter(keep), s.last());
        assert(before.push(s.last()) =~= s);
    }
}

/// Is `item` in the list?
pub fn contains_text(list: &Vec<String>, item: &String) -> (out: bool)
    ensures
        out == list.deep_view().contains(item@),
{
    let mut i: usize = 0;
    while i < list.len()
        invariant
            i <= list.len(),
            forall|j: int| 0 <= j < i ==> #[trigger] list.deep_view()[j] != item@,
        decreases list.len() - i,
    {
        assert(list.deep_view()[i as int] == list[i as int]@);
        if list[i] == *item {
            return true;
        }
        i = i + 1;
    }
    false
}

} // verus!
