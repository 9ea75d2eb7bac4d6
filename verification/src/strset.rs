//! Lists of strings read as sets: first occurrences, inclusion, difference
//! and repeated values.

use crate::text::{contains_str, ref_views, str_eq, views};
use vstd::prelude::*;

verus! {

/// `s` with every repetition of a value left out: the values of `s` in the
/// order in which each is first seen.
pub open spec fn first_seen(s: Seq<Seq<char>>) -> Seq<Seq<char>>
    decreases s.len(),
{
    if s.len() == 0 {
        Seq::empty()
    } else {
        let before = first_seen(s.drop_last());
        if before.contains(s.last()) {
            before
        } else {
            before.push(s.last())
        }
    }
}

/// `first_seen(s)` holds the values of `s`, each once.
pub proof fn lemma_first_seen(s: Seq<Seq<char>>)
    ensures
        first_seen(s).no_duplicates(),
        first_seen(s).len() <= s.len(),
        forall|x: Seq<char>| #[trigger] first_seen(s).contains(x) <==> s.contains(x),
    decreases s.len(),
{
    if s.len() > 0 {
        let init = s.drop_last();
        let before = first_seen(init);
        let now = first_seen(s);
        lemma_first_seen(init);
        assert forall|x: Seq<char>| #[trigger] now.contains(x) <==> s.contains(x) by {
            assert(before.contains(x) <==> init.contains(x));
            if s.contains(x) {
                let i = choose|i: int| 0 <= i < s.len() && s[i] == x;
                if i < s.len() - 1 {
                    assert(init[i] == x);
                    assert(init.contains(x));
                    let j = choose|j: int| 0 <= j < before.len() && before[j] == x;
                    assert(now[j] == x);
                } else if !before.contains(x) {
                    assert(now[before.len() as int] == x);
                }
            }
            if now.contains(x) {
                let j = choose|j: int| 0 <= j < now.len() && now[j] == x;
                if j < before.len() {
                    assert(before[j] == x);
                    assert(before.contains(x));
                    let i = choose|i: int| 0 <= i < init.len() && init[i] == x;
                    assert(s[i] == x);
                } else {
                    assert(s[s.len() - 1] == x);
                }
            }
        }
    }
}

/// A value already seen adds nothing.
pub proof fn lemma_first_seen_push(s: Seq<Seq<char>>, x: Seq<char>)
    ensures
        first_seen(s.push(x)) == if first_seen(s).contains(x) {
            first_seen(s)
        } else {
            first_seen(s).push(x)
        },
{
    assert(s.push(x).drop_last() =~= s);
}

/// Adds `item` to `set` unless it is there already.
pub fn insert_unique(set: &mut Vec<String>, item: String) -> (added: bool)
    ensures
        added == !views(old(set)@).contains(item@),
        views(final(set)@) == if added {
            views(old(set)@).push(item@)
        } else {
            views(old(set)@)
        },
{
    if contains_str(set, item.as_str()) {
        false
    } else {
        assert(views(set@.push(item)) =~= views(set@).push(item@));
        set.push(item);
        true
    }
}

/// Every value of `a` occurs in `b`.
pub open spec fn subset_of(a: Seq<Seq<char>>, b: Seq<Seq<char>>) -> bool {
    forall|i: int| 0 <= i < a.len() ==> b.contains(#[trigger] a[i])
}

/// Inclusion of lists is inclusion of the sets they stand for.
pub proof fn lemma_subset_of_sets(a: Seq<Seq<char>>, b: Seq<Seq<char>>)
    ensures
        subset_of(a, b) <==> a.to_set().subset_of(b.to_set()),
{
    if subset_of(a, b) {
        assert forall|x: Seq<char>| a.to_set().contains(x) implies b.to_set().contains(x) by {
            let i = choose|i: int| 0 <= i < a.len() && a[i] == x;
            assert(b.contains(a[i]));
        }
    }
    if a.to_set().subset_of(b.to_set()) {
        assert forall|i: int| 0 <= i < a.len() implies b.contains(#[trigger] a[i]) by {
            assert(a.contains(a[i]));
            assert(a.to_set().contains(a[i]));
            assert(b.to_set().contains(a[i]));
        }
    }
}

/// Whether every string of `a` occurs in `b`.
pub fn is_subset(a: &Vec<String>, b: &Vec<String>) -> (r: bool)
    ensures
        r == subset_of(views(a@), views(b@)),
{
    let mut i: usize = 0;
    while i < a.len()
        invariant
            i <= a@.len(),
            forall|j: int| 0 <= j < i ==> views(b@).contains(#[trigger] views(a@)[j]),
        decreases a@.len() - i,
    {
        if !contains_str(b, a[i].as_str()) {
            assert(!views(b@).contains(views(a@)[i as int]));
            return false;
        }
        i += 1;
    }
    true
}

/// The values of `a` that do not occur in `b`, in the order of `a`.
pub open spec fn minus(a: Seq<Seq<char>>, b: Seq<Seq<char>>) -> Seq<Seq<char>> {
    a.filter(|x: Seq<char>| !b.contains(x))
}

/// The difference is empty exactly when `a` is included in `b`, and it
/// holds the values of `a` that `b` lacks.
pub proof fn lemma_minus(a: Seq<Seq<char>>, b: Seq<Seq<char>>)
    ensures
        minus(a, b).len() == 0 <==> subset_of(a, b),
        forall|x: Seq<char>| #[trigger] minus(a, b).contains(x) <==> a.contains(x) && !b.contains(x),
{
    let pred = |x: Seq<char>| !b.contains(x);
    let d = a.filter(pred);
    assert forall|x: Seq<char>| #[trigger] d.contains(x) <==> a.contains(x) && !b.contains(x) by {
        if d.contains(x) {
            let j = choose|j: int| 0 <= j < d.len() && d[j] == x;
            a.lemma_filter_pred(pred, j);
            a.lemma_filter_contains_rev(pred, x);
        }
        if a.contains(x) && !b.contains(x) {
            let i = choose|i: int| 0 <= i < a.len() && a[i] == x;
            a.lemma_filter_contains(pred, i);
        }
    }
    if d.len() == 0 {
        assert forall|i: int| 0 <= i < a.len() implies b.contains(#[trigger] a[i]) by {
            if !b.contains(a[i]) {
                assert(a.contains(a[i]));
                assert(d.contains(a[i]));
            }
        }
    }
    if subset_of(a, b) && d.len() > 0 {
        let x = d[0];
        assert(d.contains(x));
        let i = choose|i: int| 0 <= i < a.len() && a[i] == x;
        assert(b.contains(a[i]));
    }
}

/// The strings of `a` that do not occur in `b`.
pub fn difference<'a>(a: &'a Vec<String>, b: &Vec<String>) -> (d: Vec<&'a str>)
    ensures
        ref_views(d@) == minus(views(a@), views(b@)),
{
    let mut d: Vec<&'a str> = Vec::new();
    let ghost pred = |x: Seq<char>| !views(b@).contains(x);
    let mut i: usize = 0;
    assert(views(a@).take(0) =~= Seq::<Seq<char>>::empty());
    while i < a.len()
        invariant
            i <= a@.len(),
            pred == |x: Seq<char>| !views(b@).contains(x),
            ref_views(d@) == views(a@).take(i as int).filter(pred),
        decreases a@.len() - i,
    {
        let item = a[i].as_str();
        proof {
            assert(views(a@).take(i + 1) =~= views(a@).take(i as int).push(item@));
            Seq::lemma_filter_push(views(a@).take(i as int), item@, pred);
        }
        if !contains_str(b, item) {
            assert(ref_views(d@.push(item)) =~= ref_views(d@).push(item@));
            d.push(item);
        }
        i += 1;
    }
    assert(views(a@).take(a@.len() as int) =~= views(a@));
    d
}

/// Position `i` holds the first occurrence of a value that occurs again
/// later.
pub open spec fn first_of_repeated(values: Seq<Seq<char>>, i: int) -> bool {
    &&& !values.take(i).contains(values[i])
    &&& values.skip(i + 1).contains(values[i])
}

/// The repeated values among the first `n` positions of `values`.
pub open spec fn repeated_upto(values: Seq<Seq<char>>, n: int) -> Seq<Seq<char>>
    decreases n,
{
    if n <= 0 {
        Seq::empty()
    } else if first_of_repeated(values, n - 1) {
        repeated_upto(values, n - 1).push(values[n - 1])
    } else {
        repeated_upto(values, n - 1)
    }
}

/// The values that occur more than once in `values`, each listed once, in
/// the order of their first occurrences.
pub open spec fn repeated(values: Seq<Seq<char>>) -> Seq<Seq<char>> {
    repeated_upto(values, values.len() as int)
}

/// What `repeated_upto` holds: the values at the positions below `n` that
/// are first occurrences of a repeated value.
pub proof fn lemma_repeated_upto(values: Seq<Seq<char>>, n: int)
    requires
        0 <= n <= values.len(),
    ensures
        repeated_upto(values, n).len() <= n,
        forall|x: Seq<char>|
            repeated_upto(values, n).contains(x) <==> exists|k: int|
                0 <= k < n && values[k] == x && first_of_repeated(values, k),
        repeated_upto(values, n).no_duplicates(),
    decreases n,
{
    if n > 0 {
        lemma_repeated_upto(values, n - 1);
        let before = repeated_upto(values, n - 1);
        let now = repeated_upto(values, n);
        assert forall|x: Seq<char>|
            now.contains(x) <==> exists|k: int|
                0 <= k < n && values[k] == x && first_of_repeated(values, k) by {
            if now.contains(x) {
                let j = choose|j: int| 0 <= j < now.len() && now[j] == x;
                if j < before.len() {
                    assert(before[j] == x);
                    assert(before.contains(x));
                    let k = choose|k: int|
                        0 <= k < n - 1 && values[k] == x && first_of_repeated(values, k);
                    assert(0 <= k < n && values[k] == x && first_of_repeated(values, k));
                } else {
                    assert(values[n - 1] == x && first_of_repeated(values, n - 1));
                }
            }
            if exists|k: int| 0 <= k < n && values[k] == x && first_of_repeated(values, k) {
                let k = choose|k: int|
                    0 <= k < n && values[k] == x && first_of_repeated(values, k);
                if k < n - 1 {
                    assert(before.contains(x));
                    let j = choose|j: int| 0 <= j < before.len() && before[j] == x;
                    assert(now[j] == x);
                } else {
                    assert(now[now.len() - 1] == x);
                }
            }
        }
        if first_of_repeated(values, n - 1) {
            let x = values[n - 1];
            if before.contains(x) {
                let k = choose|k: int|
                    0 <= k < n - 1 && values[k] == x && first_of_repeated(values, k);
                assert(values.take(n - 1)[k] == x);
                assert(values.take(n - 1).contains(x));
            }
            assert forall|i: int, j: int|
                0 <= i < now.len() && 0 <= j < now.len() && i != j implies now[i] != now[j] by {
                if i == now.len() - 1 {
                    assert(before[j] == now[j]);
                    assert(before.contains(now[j]));
                } else if j == now.len() - 1 {
                    assert(before[i] == now[i]);
                    assert(before.contains(now[i]));
                } else {
                    assert(before[i] == now[i] && before[j] == now[j]);
                }
            }
        }
    }
}

/// A value is reported as repeated exactly when it stands at two positions,
/// and it is reported once.
pub proof fn lemma_repeated(values: Seq<Seq<char>>)
    ensures
        repeated(values).no_duplicates(),
        forall|x: Seq<char>|
            #[trigger] repeated(values).contains(x) <==> exists|i: int, j: int|
                0 <= i < j < values.len() && values[i] == x && values[j] == x,
{
    lemma_repeated_upto(values, values.len() as int);
    assert forall|x: Seq<char>|
        #[trigger] repeated(values).contains(x) <==> exists|i: int, j: int|
            0 <= i < j < values.len() && values[i] == x && values[j] == x by {
        if repeated(values).contains(x) {
            let k = choose|k: int|
                0 <= k < values.len() && values[k] == x && first_of_repeated(values, k);
            let t = values.skip(k + 1);
            let m = choose|m: int| 0 <= m < t.len() && t[m] == x;
            assert(values[k + 1 + m] == x);
            assert(0 <= k < k + 1 + m < values.len() && values[k] == x && values[k + 1 + m]
                == x);
        }
        if exists|i: int, j: int| 0 <= i < j < values.len() && values[i] == x && values[j] == x {
            let (i, j) = choose|i: int, j: int|
                0 <= i < j < values.len() && values[i] == x && values[j] == x;
            let k = least_index(values, x, i);
            assert(values.skip(k + 1)[j - k - 1] == x);
            assert(first_of_repeated(values, k));
        }
    }
}

/// The least position that holds `x`, given that position `i` does.
proof fn least_index(values: Seq<Seq<char>>, x: Seq<char>, i: int) -> (k: int)
    requires
        0 <= i < values.len(),
        values[i] == x,
    ensures
        0 <= k <= i,
        values[k] == x,
        !values.take(k).contains(x),
    decreases i,
{
    if values.take(i).contains(x) {
        let j = choose|j: int| 0 <= j < values.take(i).len() && values.take(i)[j] == x;
        least_index(values, x, j)
    } else {
        i
    }
}

/// Whether `x` occurs among `values[from..to]`.
fn occurs_between(values: &Vec<&str>, x: &str, from: usize, to: usize) -> (r: bool)
    requires
        from <= to <= values@.len(),
    ensures
        r == ref_views(values@).subrange(from as int, to as int).contains(x@),
{
    let ghost part = ref_views(values@).subrange(from as int, to as int);
    let mut j: usize = from;
    while j < to
        invariant
            from <= j <= to <= values@.len(),
            part == ref_views(values@).subrange(from as int, to as int),
            forall|m: int| 0 <= m < j - from ==> part[m] != x@,
        decreases to - j,
    {
        if str_eq(values[j], x) {
            assert(part[j - from] == x@);
            return true;
        }
        j += 1;
    }
    false
}

/// The strings that occur more than once in `values`.
pub fn duplicates<'a>(values: &Vec<&'a str>) -> (dups: Vec<&'a str>)
    ensures
        ref_views(dups@) == repeated(ref_views(values@)),
{
    let mut dups: Vec<&'a str> = Vec::new();
    let n = values.len();
    let ghost all = ref_views(values@);
    let mut i: usize = 0;
    while i < n
        invariant
            n == values@.len(),
            all == ref_views(values@),
            i <= n,
            ref_views(dups@) == repeated_upto(all, i as int),
        decreases n - i,
    {
        let x = values[i];
        let before = occurs_between(values, x, 0, i);
        let after = occurs_between(values, x, i + 1, n);
        proof {
            assert(all.subrange(0, i as int) =~= all.take(i as int));
            assert(all.subrange(i + 1, n as int) =~= all.skip(i + 1));
            assert(all[i as int] == x@);
        }
        if !before && after {
            assert(ref_views(dups@.push(x)) =~= ref_views(dups@).push(x@));
            dups.push(x);
        }
        i += 1;
    }
    dups
}

} // verus!
