use vstd::prelude::*;
use std::cmp::Ordering;
use vstd::std_specs::cmp::PartialOrdSpec;

verus! {

/// Whether `a` compares greater than `b`.
pub open spec fn greater<T: PartialOrd>(a: T, b: T) -> bool {
    a.partial_cmp_spec(&b) == Some(Ordering::Greater)
}

/// Whether `a` compares less than `b`.
pub open spec fn less<T: PartialOrd>(a: T, b: T) -> bool {
    a.partial_cmp_spec(&b) == Some(Ordering::Less)
}

/// The largest item, folded from the right: the first item wins only when it
/// is strictly greater than the largest of the rest.
pub open spec fn max_spec<T: PartialOrd>(s: Seq<T>) -> T
    decreases s.len(),
{
    if s.len() <= 1 {
        s[0]
    } else {
        let t = max_spec(s.drop_first());
        if greater(s[0], t) {
            s[0]
        } else {
            t
        }
    }
}

/// The smallest item, folded from the right: the first item wins only when it
/// is strictly less than the smallest of the rest.
pub open spec fn min_spec<T: PartialOrd>(s: Seq<T>) -> T
    decreases s.len(),
{
    if s.len() <= 1 {
        s[0]
    } else {
        let t = min_spec(s.drop_first());
        if less(s[0], t) {
            s[0]
        } else {
            t
        }
    }
}

/// The largest of a non-empty list of values.
pub fn max_of<T: PartialOrd + Copy>(items: &[T]) -> (r: T)
    requires
        items@.len() > 0,
    ensures
        T::obeys_partial_cmp_spec() ==> r == max_spec(items@),
{
    let n = items.len();
    let mut acc = items[n - 1];
    let mut i: usize = n - 1;
    while i > 0
        invariant
            0 <= i < n,
            n == items@.len(),
            T::obeys_partial_cmp_spec() ==> acc == max_spec(items@.subrange(i as int, n as int)),
        decreases i,
    {
        i = i - 1;
        proof {
            let s = items@.subrange(i as int, n as int);
            assert(s.drop_first() =~= items@.subrange(i + 1, n as int));
        }
        if items[i] > acc {
            acc = items[i];
        }
    }
    proof {
        assert(items@.subrange(0, n as int) =~= items@);
    }
    acc
}

/// The smallest of a non-empty list of values.
pub fn min_of<T: PartialOrd + Copy>(items: &[T]) -> (r: T)
    requires
        items@.len() > 0,
    ensures
        T::obeys_partial_cmp_spec() ==> r == min_spec(items@),
{
    let n = items.len();
    let mut acc = items[n - 1];
    let mut i: usize = n - 1;
    while i > 0
        invariant
            0 <= i < n,
            n == items@.len(),
            T::obeys_partial_cmp_spec() ==> acc == min_spec(items@.subrange(i as int, n as int)),
        decreases i,
    {
        i = i - 1;
        proof {
            let s = items@.subrange(i as int, n as int);
            assert(s.drop_first() =~= items@.subrange(i + 1, n as int));
        }
        if items[i] < acc {
            acc = items[i];
        }
    }
    proof {
        assert(items@.subrange(0, n as int) =~= items@);
    }
    acc
}

/// Index of the smallest present key, scanning from the front: a later key
/// replaces the one kept so far only when the kept one compares strictly
/// greater, so among equal or incomparable keys the first one stays.
pub open spec fn nearest_spec<T: PartialOrd>(keys: Seq<Option<T>>) -> Option<int>
    decreases keys.len(),
{
    if keys.len() == 0 {
        None
    } else {
        let last = keys.len() - 1;
        let kept = nearest_spec(keys.drop_last());
        match keys[last] {
            None => kept,
            Some(x) => match kept {
                None => Some(last),
                Some(i) => if greater(keys[i].unwrap(), x) {
                    Some(last)
                } else {
                    Some(i)
                },
            },
        }
    }
}

proof fn lemma_nearest_present<T: PartialOrd>(keys: Seq<Option<T>>)
    ensures
        nearest_spec(keys) is None <==> forall|j: int| 0 <= j < keys.len() ==> keys[j] is None,
        nearest_spec(keys) is Some ==> {
            let i = nearest_spec(keys)->0;
            0 <= i < keys.len() && keys[i] is Some
        },
    decreases keys.len(),
{
    if keys.len() > 0 {
        let d = keys.drop_last();
        lemma_nearest_present(d);
        assert forall|j: int| 0 <= j < d.len() implies d[j] == keys[j] by {}
    }
}

/// Among the present keys, the index of the smallest one; `None` when no key
/// is present. Equal or incomparable keys keep the earliest.
pub fn nearest<T: PartialOrd + Copy>(keys: &[Option<T>]) -> (r: Option<usize>)
    ensures
        r is None <==> forall|j: int| 0 <= j < keys@.len() ==> keys@[j] is None,
        r is Some ==> r->0 < keys@.len() && keys@[r->0 as int] is Some,
        T::obeys_partial_cmp_spec() ==> {
            &&& r is Some <==> nearest_spec(keys@) is Some
            &&& r is Some ==> r->0 == nearest_spec(keys@)->0
        },
{
    let mut kept: Option<usize> = None;
    let mut i: usize = 0;
    while i < keys.len()
        invariant
            i <= keys@.len(),
            kept is None <==> forall|j: int| 0 <= j < i ==> keys@[j] is None,
            kept is Some ==> kept->0 < i && keys@[kept->0 as int] is Some,
            T::obeys_partial_cmp_spec() ==> {
                let n = nearest_spec(keys@.subrange(0, i as int));
                &&& kept is Some <==> n is Some
                &&& kept is Some ==> kept->0 == n->0
            },
        decreases keys@.len() - i,
    {
        proof {
            let next = keys@.subrange(0, i + 1);
            assert(next.drop_last() =~= keys@.subrange(0, i as int));
            assert(next[i as int] == keys@[i as int]);
            lemma_nearest_present(keys@.subrange(0, i as int));
            if kept is Some {
                assert(next[kept->0 as int] == keys@[kept->0 as int]);
            }
        }
        match keys[i] {
            None => {},
            Some(x) => {
                match kept {
                    None => {
                        kept = Some(i);
                    },
                    Some(k) => {
                        let y = keys[k].unwrap();
                        if let Some(Ordering::Greater) = y.partial_cmp(&x) {
                            kept = Some(i);
                        }
                    },
                }
            },
        }
        i = i + 1;
    }
    proof {
        assert(keys@.subrange(0, i as int) =~= keys@);
    }
    kept
}

} // verus!
