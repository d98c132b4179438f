//! Removing repeated entries from a list while keeping the order in which
//! each entry was first seen.

use vstd::prelude::*;

verus! {

/// The entries of `s` without repetition: each one stays where it first stood.
pub open spec fn first_seen<A>(s: Seq<A>) -> Seq<A>
    decreases s.len(),
{
    if s.len() == 0 {
        Seq::empty()
    } else {
        let before = first_seen(s.drop_last());
        if before.contains(s.last()) {
            before
        } else {
            before.push(s.last())
        }
    }
}

/// The entries that are there, in order, with the missing ones left out.
pub open spec fn present<A>(items: Seq<Option<A>>) -> Seq<A> {
    items.filter_map(|o: Option<A>| o)
}

/// Every entry of `s` is kept by `first_seen`.
pub proof fn lemma_first_seen_keeps<A>(s: Seq<A>, i: int)
    requires
        0 <= i < s.len(),
    ensures
        first_seen(s).contains(s[i]),
    decreases s.len(),
{
    let front = s.drop_last();
    let before = first_seen(front);
    if i < front.len() {
        lemma_first_seen_keeps(front, i);
        let k = before.index_of(front[i]);
        assert(first_seen(s)[k] == s[i]);
    } else if before.contains(s.last()) {
    } else {
        assert(first_seen(s)[before.len() as int] == s[i]);
    }
}

/// Every entry of `first_seen(s)` comes from `s`.
pub proof fn lemma_first_seen_comes_from<A>(s: Seq<A>, k: int)
    requires
        0 <= k < first_seen(s).len(),
    ensures
        s.contains(first_seen(s)[k]),
    decreases s.len(),
{
    let front = s.drop_last();
    let before = first_seen(front);
    if k < before.len() {
        lemma_first_seen_comes_from(front, k);
        let i = front.index_of(before[k]);
        assert(s[i] == first_seen(s)[k]);
    } else {
        assert(s[s.len() - 1] == first_seen(s)[k]);
    }
}

/// `first_seen` neither loses nor invents an entry.
pub proof fn lemma_first_seen_members<A>(s: Seq<A>)
    ensures
        forall|x: A| first_seen(s).contains(x) <==> s.contains(x),
{
    assert forall|x: A| first_seen(s).contains(x) <==> s.contains(x) by {
        if s.contains(x) {
            lemma_first_seen_keeps(s, s.index_of(x));
        }
        if first_seen(s).contains(x) {
            lemma_first_seen_comes_from(s, first_seen(s).index_of(x));
        }
    }
}

/// No entry stands twice in `first_seen(s)`.
pub proof fn lemma_first_seen_distinct<A>(s: Seq<A>)
    ensures
        first_seen(s).no_duplicates(),
    decreases s.len(),
{
    if s.len() > 0 {
        lemma_first_seen_distinct(s.drop_last());
    }
}

/// `first_seen` keeps the order of first appearance: of two entries of the
/// result, the earlier one has an occurrence in `s` before every occurrence
/// of the later one.
pub proof fn lemma_first_seen_order<A>(s: Seq<A>, a: int, b: int)
    requires
        0 <= a < b < first_seen(s).len(),
    ensures
        exists|i: int|
            0 <= i < s.len() && s[i] == first_seen(s)[a] && forall|j: int|
                0 <= j < s.len() && s[j] == first_seen(s)[b] ==> i < j,
    decreases s.len(),
{
    let r = first_seen(s);
    let front = s.drop_last();
    let before = first_seen(front);
    let n = s.len() - 1;
    lemma_first_seen_members(front);
    if b < before.len() {
        lemma_first_seen_order(front, a, b);
        let i = choose|i: int|
            0 <= i < front.len() && front[i] == before[a] && forall|j: int|
                0 <= j < front.len() && front[j] == before[b] ==> i < j;
        assert(s[i] == r[a]);
        assert forall|j: int| 0 <= j < s.len() && s[j] == r[b] implies i < j by {
            if j < n {
                assert(front[j] == before[b]);
            }
        }
    } else {
        assert(before.contains(before[a]));
        assert(front.contains(r[a]));
        let i = choose|i: int| 0 <= i < front.len() && front[i] == r[a];
        assert(s[i] == r[a]);
        assert forall|j: int| 0 <= j < s.len() && s[j] == r[b] implies i < j by {
            if j < n {
                assert(front[j] == s.last());
                assert(front.contains(s.last()));
            }
        }
    }
}

/// A list without repetition is left as it is.
pub proof fn lemma_first_seen_of_distinct<A>(s: Seq<A>)
    requires
        s.no_duplicates(),
    ensures
        first_seen(s) == s,
    decreases s.len(),
{
    if s.len() > 0 {
        let front = s.drop_last();
        lemma_first_seen_of_distinct(front);
        if front.contains(s.last()) {
            let i = choose|i: int| 0 <= i < front.len() && front[i] == s.last();
            assert(s[i] == s[s.len() - 1]);
        }
        assert(front.push(s.last()) =~= s);
    } else {
        assert(s =~= Seq::empty());
    }
}

/// Removing repetitions a second time changes nothing.
pub proof fn lemma_first_seen_idempotent<A>(s: Seq<A>)
    ensures
        first_seen(first_seen(s)) == first_seen(s),
{
    lemma_first_seen_distinct(s);
    lemma_first_seen_of_distinct(first_seen(s));
}

/// Tells whether `x` is one of the texts in `v`.
pub fn holds(v: &Vec<String>, x: &String) -> (r: bool)
    ensures
        r == v.deep_view().contains(x@),
{
    let mut i: usize = 0;
    while i < v.len()
        invariant
            i <= v.len(),
            forall|j: int| 0 <= j < i ==> v.deep_view()[j] != x@,
        decreases v.len() - i,
    {
        if v[i] == *x {
            assert(v.deep_view()[i as int] == x@);
            return true;
        }
        i += 1;
    }
    false
}

/// The texts of `items` that are there, in order.
pub fn present_texts(items: &Vec<Option<String>>) -> (r: Vec<String>)
    ensures
        r.deep_view() == present(items.deep_view()),
{
    let mut r: Vec<String> = Vec::new();
    let mut i: usize = 0;
    while i < items.len()
        invariant
            i <= items.len(),
            r.deep_view() == present(items.deep_view().take(i as int)),
        decreases items.len() - i,
    {
        let ghost seen = items.deep_view().take(i as int);
        let ghost next = items.deep_view().take(i + 1);
        assert(next.drop_last() =~= seen);
        assert(next.last() == items.deep_view()[i as int]);
        match &items[i] {
            Some(text) => {
                let ghost before = r.deep_view();
                r.push(text.clone());
                assert(r.deep_view() =~= before + seq![text@]);
            },
            None => {},
        }
        i += 1;
    }
    assert(items.deep_view().take(items.len() as int) =~= items.deep_view());
    r
}

/// The texts of `v` without repetition, each where it first stood.
pub fn keep_first(v: &Vec<String>) -> (r: Vec<String>)
    ensures
        r.deep_view() == first_seen(v.deep_view()),
{
    let mut r: Vec<String> = Vec::new();
    let mut i: usize = 0;
    while i < v.len()
        invariant
            i <= v.len(),
            r.deep_view() == first_seen(v.deep_view().take(i as int)),
        decreases v.len() - i,
    {
        let ghost seen = v.deep_view().take(i as int);
        let ghost next = v.deep_view().take(i + 1);
        assert(next.drop_last() =~= seen);
        assert(next.last() == v[i as int]@);
        if !holds(&r, &v[i]) {
            let ghost before = r.deep_view();
            r.push(v[i].clone());
            assert(r.deep_view() =~= before.push(v[i as int]@));
        }
        i += 1;
    }
    assert(v.deep_view().take(v.len() as int) =~= v.deep_view());
    r
}

} // verus!
