//! Sequences without repeated values, used as ordered sets.

use vstd::prelude::*;

verus! {

/// Appending a value that is not yet there keeps a sequence free of
/// repetitions and adds just that value.
pub proof fn lemma_push<A>(s: Seq<A>, x: A)
    ensures
        s.push(x).len() == s.len() + 1,
        forall|y: A|
            #![trigger s.push(x).contains(y)]
            #![trigger s.contains(y)]
            s.push(x).contains(y) <==> s.contains(y) || y == x,
        s.no_duplicates() && !s.contains(x) ==> s.push(x).no_duplicates(),
{
    let t = s.push(x);
    assert forall|y: A| t.contains(y) <==> s.contains(y) || y == x by {
        if s.contains(y) {
            let i = choose|i: int| 0 <= i < s.len() && s[i] == y;
            assert(t[i] == y);
        }
        if y == x {
            assert(t[s.len() as int] == y);
        }
        if t.contains(y) {
            let i = choose|i: int| 0 <= i < t.len() && t[i] == y;
            if i < s.len() {
                assert(s[i] == y);
            }
        }
    }
    if s.no_duplicates() && !s.contains(x) {
        assert forall|i: int, j: int| 0 <= i < t.len() && 0 <= j < t.len() && i != j implies t[i]
            != t[j] by {
            if i < s.len() {
                assert(s.contains(s[i]));
            }
            if j < s.len() {
                assert(s.contains(s[j]));
            }
        }
    }
}

/// Taking out the value at one index keeps a sequence free of repetitions
/// and removes just that value.
pub proof fn lemma_remove<A>(s: Seq<A>, k: int)
    requires
        0 <= k < s.len(),
        s.no_duplicates(),
    ensures
        s.remove(k).len() == s.len() - 1,
        s.remove(k).no_duplicates(),
        forall|y: A|
            #![trigger s.remove(k).contains(y)]
            #![trigger s.contains(y)]
            s.remove(k).contains(y) <==> s.contains(y) && y != s[k],
{
    let t = s.remove(k);
    assert forall|y: A| t.contains(y) <==> s.contains(y) && y != s[k] by {
        if t.contains(y) {
            let i = choose|i: int| 0 <= i < t.len() && t[i] == y;
            if i < k {
                assert(s[i] == y);
            } else {
                assert(s[i + 1] == y);
            }
        }
        if s.contains(y) && y != s[k] {
            let i = choose|i: int| 0 <= i < s.len() && s[i] == y;
            if i < k {
                assert(t[i] == y);
            } else {
                assert(t[i - 1] == y);
            }
        }
    }
}

/// Taking out a value keeps a sequence free of repetitions and removes just
/// that value.
pub proof fn lemma_remove_value<A>(s: Seq<A>, x: A)
    requires
        s.no_duplicates(),
    ensures
        s.remove_value(x).no_duplicates(),
        forall|y: A|
            #![trigger s.remove_value(x).contains(y)]
            #![trigger s.contains(y)]
            s.remove_value(x).contains(y) <==> s.contains(y) && y != x,
        s.contains(x) ==> s.remove_value(x).len() == s.len() - 1,
        !s.contains(x) ==> s.remove_value(x) == s,
        s.contains(x) ==> s.index_of_first(x) is Some && s.remove_value(x) == s.remove(
            s.index_of_first(x).unwrap(),
        ),
{
    s.index_of_first_ensures(x);
    match s.index_of_first(x) {
        Some(k) => {
            lemma_remove(s, k);
        },
        None => {},
    }
}

/// In a sequence without repetitions a value stands at one index only.
pub proof fn lemma_index_of_first<A>(s: Seq<A>, k: int)
    requires
        0 <= k < s.len(),
        s.no_duplicates(),
    ensures
        s.index_of_first(s[k]) == Some(k),
        s.remove_value(s[k]) == s.remove(k),
{
    s.index_of_first_ensures(s[k]);
    assert(s.contains(s[k]));
}

/// Dropping the first value keeps a sequence free of repetitions and
/// removes just that value.
pub proof fn lemma_drop_first<A>(s: Seq<A>)
    requires
        s.len() > 0,
        s.no_duplicates(),
    ensures
        s.drop_first() == s.remove(0),
        s.drop_first().len() == s.len() - 1,
        s.drop_first().no_duplicates(),
        forall|y: A|
            #![trigger s.drop_first().contains(y)]
            #![trigger s.contains(y)]
            s.drop_first().contains(y) <==> s.contains(y) && y != s[0],
{
    assert(s.drop_first() =~= s.remove(0));
    lemma_remove(s, 0);
}

/// Dropping the last value keeps a sequence free of repetitions and removes
/// just that value.
pub proof fn lemma_drop_last<A>(s: Seq<A>)
    requires
        s.len() > 0,
        s.no_duplicates(),
    ensures
        s.drop_last() == s.remove(s.len() - 1),
        s.drop_last().len() == s.len() - 1,
        s.drop_last().no_duplicates(),
        forall|y: A|
            #![trigger s.drop_last().contains(y)]
            #![trigger s.contains(y)]
            s.drop_last().contains(y) <==> s.contains(y) && y != s.last(),
{
    assert(s.drop_last() =~= s.remove(s.len() - 1));
    lemma_remove(s, s.len() - 1);
}

/// Joining two sequences that share no value keeps them free of
/// repetitions.
pub proof fn lemma_join<A>(a: Seq<A>, b: Seq<A>)
    ensures
        (a + b).len() == a.len() + b.len(),
        forall|y: A|
            #![trigger (a + b).contains(y)]
            #![trigger a.contains(y)]
            #![trigger b.contains(y)]
            (a + b).contains(y) <==> a.contains(y) || b.contains(y),
        a.no_duplicates() && b.no_duplicates() && (forall|x: A| a.contains(x) ==> !b.contains(x))
            ==> (a + b).no_duplicates(),
{
    let t = a + b;
    assert forall|y: A| t.contains(y) <==> a.contains(y) || b.contains(y) by {
        if t.contains(y) {
            let i = choose|i: int| 0 <= i < t.len() && t[i] == y;
            if i < a.len() {
                assert(a[i] == y);
            } else {
                assert(b[i - a.len()] == y);
            }
        }
        if a.contains(y) {
            let i = choose|i: int| 0 <= i < a.len() && a[i] == y;
            assert(t[i] == y);
        }
        if b.contains(y) {
            let i = choose|i: int| 0 <= i < b.len() && b[i] == y;
            assert(t[a.len() + i] == y);
        }
    }
    if a.no_duplicates() && b.no_duplicates() && (forall|x: A| a.contains(x) ==> !b.contains(x)) {
        assert forall|i: int, j: int| 0 <= i < t.len() && 0 <= j < t.len() && i != j implies t[i]
            != t[j] by {
            if i < a.len() {
                assert(a.contains(a[i]));
            } else {
                assert(b.contains(b[i - a.len()]));
            }
            if j < a.len() {
                assert(a.contains(a[j]));
            } else {
                assert(b.contains(b[j - a.len()]));
            }
        }
    }
}

} // verus!
