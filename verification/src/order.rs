//! Putting things in the order of their keys.

use vstd::prelude::*;
use crate::text::{before, lemma_lt_irreflexive, lemma_lt_total, lemma_lt_transitive, lt, same};

verus! {

/// `x` put into `s` behind everything that does not come after it.
pub open spec fn placed<T>(s: Seq<(Seq<char>, T)>, x: (Seq<char>, T)) -> Seq<(Seq<char>, T)>
    decreases s.len(),
{
    if s.len() == 0 || !lt(x.0, s.last().0) {
        s.push(x)
    } else {
        placed(s.drop_last(), x).push(s.last())
    }
}

/// `s` in the order of its keys; what has equal keys stays in the order it had.
pub open spec fn ordered<T>(s: Seq<(Seq<char>, T)>) -> Seq<(Seq<char>, T)>
    decreases s.len(),
{
    if s.len() == 0 {
        s
    } else {
        placed(ordered(s.drop_last()), s.last())
    }
}

/// Each key comes before the next or is equal to it.
pub open spec fn in_order<T>(s: Seq<(Seq<char>, T)>) -> bool {
    forall|i: int, j: int| 0 <= i < j < s.len() ==> !lt(#[trigger] s[j].0, #[trigger] s[i].0)
}

proof fn lemma_placed<T>(s: Seq<(Seq<char>, T)>, x: (Seq<char>, T))
    requires
        in_order(s),
    ensures
        in_order(placed(s, x)),
        placed(s, x).to_multiset() =~= s.to_multiset().insert(x),
        placed(s, x).len() == s.len() + 1,
        forall|k: Seq<char>|
            !lt(k, x.0) && (forall|i: int| 0 <= i < s.len() ==> !lt(k, #[trigger] s[i].0))
                ==> forall|i: int| 0 <= i < placed(s, x).len() ==> !lt(k, #[trigger] placed(s, x)[i].0),
    decreases s.len(),
{
    broadcast use vstd::seq_lib::group_to_multiset_ensures;

    if s.len() == 0 || !lt(x.0, s.last().0) {
        let r = s.push(x);
        assert forall|i: int, j: int| 0 <= i < j < r.len() implies !lt(
            #[trigger] r[j].0,
            #[trigger] r[i].0,
        ) by {
            if j == s.len() {
                // The keys of `s` are at most its last one, which is at most that of `x`.
                if lt(x.0, s[i].0) {
                    if i < s.len() - 1 {
                        assert(!lt(s[s.len() - 1].0, s[i].0));
                        lemma_lt_total(s[i].0, s.last().0);
                        if s[i].0 != s.last().0 {
                            lemma_lt_transitive(x.0, s[i].0, s.last().0);
                        }
                    }
                }
            }
        }
    } else {
        let head = s.drop_last();
        let last = s.last();
        assert forall|i: int, j: int| 0 <= i < j < head.len() implies !lt(
            #[trigger] head[j].0,
            #[trigger] head[i].0,
        ) by {
            assert(!lt(s[j].0, s[i].0));
        }
        lemma_placed(head, x);
        let inner = placed(head, x);
        let r = placed(s, x);
        lemma_lt_irreflexive(last.0);
        assert(!lt(last.0, x.0)) by {
            if lt(last.0, x.0) {
                lemma_lt_transitive(x.0, last.0, x.0);
                lemma_lt_irreflexive(x.0);
            }
        }
        assert forall|i: int| 0 <= i < head.len() implies !lt(last.0, #[trigger] head[i].0) by {
            assert(!lt(s[s.len() - 1].0, s[i].0));
        }
        assert(forall|i: int| 0 <= i < inner.len() ==> !lt(last.0, #[trigger] inner[i].0));
        assert forall|i: int, j: int| 0 <= i < j < r.len() implies !lt(
            #[trigger] r[j].0,
            #[trigger] r[i].0,
        ) by {
            assert(r[i] == inner[i]);
            if j < inner.len() {
                assert(r[j] == inner[j]);
            }
        }
        assert(s =~= head.push(last));
        assert(r.to_multiset() =~= inner.to_multiset().insert(last));
        assert(s.to_multiset() =~= head.to_multiset().insert(last));
        assert forall|k: Seq<char>|
            !lt(k, x.0) && (forall|i: int| 0 <= i < s.len() ==> !lt(k, #[trigger] s[i].0)) implies (
        forall|i: int| 0 <= i < r.len() ==> !lt(k, #[trigger] r[i].0)) by {
            assert forall|i: int| 0 <= i < head.len() implies !lt(k, #[trigger] head[i].0) by {
                assert(!lt(k, s[i].0));
            }
            assert(!lt(k, s[s.len() - 1].0));
            assert forall|i: int| 0 <= i < r.len() implies !lt(k, #[trigger] r[i].0) by {
                if i < inner.len() {
                    assert(r[i] == inner[i]);
                }
            }
        }
    }
}

/// Ordering keeps exactly what was there and puts it in order.
pub proof fn lemma_ordered<T>(s: Seq<(Seq<char>, T)>)
    ensures
        in_order(ordered(s)),
        ordered(s).to_multiset() =~= s.to_multiset(),
        ordered(s).len() == s.len(),
    decreases s.len(),
{
    broadcast use vstd::seq_lib::group_to_multiset_ensures;

    if s.len() > 0 {
        lemma_ordered(s.drop_last());
        lemma_placed(ordered(s.drop_last()), s.last());
        assert(s =~= s.drop_last().push(s.last()));
    }
}

pub open spec fn keyed<T>(v: Seq<(String, T)>) -> Seq<(Seq<char>, T)> {
    Seq::new(v.len(), |i: int| (v[i].0@, v[i].1))
}

pub open spec fn values<T>(v: Seq<(Seq<char>, T)>) -> Seq<T> {
    Seq::new(v.len(), |i: int| v[i].1)
}

proof fn lemma_placed_at<T>(s: Seq<(Seq<char>, T)>, x: (Seq<char>, T), p: int)
    requires
        0 <= p <= s.len(),
        forall|i: int| p <= i < s.len() ==> lt(x.0, #[trigger] s[i].0),
        p == 0 || !lt(x.0, s[p - 1].0),
    ensures
        placed(s, x) == s.insert(p, x),
    decreases s.len(),
{
    if p == s.len() {
        assert(s.insert(p, x) =~= s.push(x));
    } else {
        assert(lt(x.0, s[s.len() - 1].0));
        let head = s.drop_last();
        assert forall|i: int| p <= i < head.len() implies lt(x.0, #[trigger] head[i].0) by {
            assert(lt(x.0, s[i].0));
        }
        lemma_placed_at(head, x, p);
        assert(s.insert(p, x) =~= head.insert(p, x).push(s.last()));
    }
}

/// The values of `v` in the order of their keys; what has equal keys stays in the order it
/// had.
pub fn sorted_values<T>(v: Vec<(String, T)>) -> (r: Vec<T>)
    ensures
        r@ == values(ordered(keyed(v@))),
{
    let ghost all = keyed(v@);
    let mut rest: Vec<(String, T)> = Vec::new();
    let mut todo: Vec<(String, T)> = v;
    // Taken from the back, so the pending part is turned round first.
    while todo.len() > 0
        invariant
            todo@ + rest@.reverse() =~= v@,
        decreases todo.len(),
    {
        let ghost (t, q) = (todo@, rest@);
        match todo.pop() {
            Some(x) => {
                rest.push(x);
                assert(rest@.reverse() =~= seq![x] + q.reverse());
            },
            None => {},
        }
    }
    assert(rest@.reverse() =~= v@);
    let mut keys: Vec<String> = Vec::new();
    let mut out: Vec<T> = Vec::new();
    let ghost mut done: int = 0;
    assert(all.take(0) =~= Seq::<(Seq<char>, T)>::empty());
    let ghost mut sofar: Seq<(Seq<char>, T)> = Seq::empty();
    while rest.len() > 0
        invariant
            0 <= done <= v@.len(),
            all == keyed(v@),
            rest@.reverse() =~= v@.skip(done),
            sofar == ordered(all.take(done)),
            keys.len() == sofar.len(),
            out.len() == sofar.len(),
            forall|i: int| 0 <= i < sofar.len() ==> (#[trigger] keys@[i])@ == sofar[i].0,
            forall|i: int| 0 <= i < sofar.len() ==> #[trigger] out@[i] == sofar[i].1,
        decreases rest.len(),
    {
        let ghost before_rest = rest@;
        let (key, value) = rest.pop().unwrap();
        assert(v@.skip(done).len() == before_rest.reverse().len());
        assert(before_rest.reverse()[0] == (key, value));
        assert(v@[done] == v@.skip(done)[0]);
        assert(rest@.reverse() =~= v@.skip(done + 1)) by {
            assert(rest@.reverse() =~= before_rest.reverse().drop_first());
            assert(v@.skip(done).drop_first() =~= v@.skip(done + 1));
        }
        let ghost x = (key@, value);
        let mut p: usize = keys.len();
        while p > 0 && before(key.as_str(), keys[p - 1].as_str())
            invariant
                p <= keys.len(),
                keys.len() == sofar.len(),
                x.0 == key@,
                forall|i: int| 0 <= i < sofar.len() ==> (#[trigger] keys@[i])@ == sofar[i].0,
                forall|i: int| p <= i < sofar.len() ==> lt(x.0, #[trigger] sofar[i].0),
            decreases p,
        {
            assert(lt(x.0, sofar[p - 1].0));
            p = p - 1;
        }
        proof {
            lemma_placed_at(sofar, x, p as int);
            assert(all.take(done + 1).drop_last() =~= all.take(done));
            assert(all.take(done + 1).last() == x);
        }
        keys.insert(p, key);
        out.insert(p, value);
        proof {
            sofar = sofar.insert(p as int, x);
            done = done + 1;
        }
    }
    assert(rest@.len() == 0);
    assert(v@.skip(done).len() == 0);
    assert(all.take(done) =~= all);
    assert(out@ =~= values(ordered(all)));
    out
}

/// The same entries with `f` of each value.
pub open spec fn mapped<T, U>(s: Seq<(Seq<char>, T)>, f: spec_fn(T) -> U) -> Seq<(Seq<char>, U)> {
    Seq::new(s.len(), |i: int| (s[i].0, f(s[i].1)))
}

proof fn lemma_placed_mapped<T, U>(
    s: Seq<(Seq<char>, T)>,
    x: (Seq<char>, T),
    f: spec_fn(T) -> U,
)
    ensures
        mapped(placed(s, x), f) == placed(mapped(s, f), (x.0, f(x.1))),
    decreases s.len(),
{
    let y = (x.0, f(x.1));
    if s.len() == 0 || !lt(x.0, s.last().0) {
        assert(mapped(s.push(x), f) =~= mapped(s, f).push(y));
    } else {
        lemma_placed_mapped(s.drop_last(), x, f);
        assert(mapped(s.drop_last(), f) =~= mapped(s, f).drop_last());
        let inner = placed(s.drop_last(), x);
        assert(mapped(inner.push(s.last()), f) =~= mapped(inner, f).push(mapped(s, f).last()));
    }
}

/// Ordering looks at the keys alone, so it does not matter whether the values are mapped
/// before or after.
pub proof fn lemma_ordered_mapped<T, U>(s: Seq<(Seq<char>, T)>, f: spec_fn(T) -> U)
    ensures
        mapped(ordered(s), f) == ordered(mapped(s, f)),
    decreases s.len(),
{
    if s.len() > 0 {
        lemma_ordered_mapped(s.drop_last(), f);
        lemma_placed_mapped(ordered(s.drop_last()), s.last(), f);
        assert(mapped(s.drop_last(), f) =~= mapped(s, f).drop_last());
        assert(mapped(s, f).last() == (s.last().0, f(s.last().1)));
    } else {
        assert(mapped(s, f) =~= Seq::<(Seq<char>, U)>::empty());
    }
}

/// The first entry under `k`.
pub open spec fn first_under<T>(s: Seq<(Seq<char>, T)>, k: Seq<char>) -> Option<T>
    decreases s.len(),
{
    if s.len() == 0 {
        None
    } else {
        match first_under(s.drop_last(), k) {
            Some(x) => Some(x),
            None => if s.last().0 == k {
                Some(s.last().1)
            } else {
                None
            },
        }
    }
}

proof fn lemma_first_placed<T>(s: Seq<(Seq<char>, T)>, x: (Seq<char>, T), k: Seq<char>)
    ensures
        first_under(placed(s, x), k) == first_under(s.push(x), k),
    decreases s.len(),
{
    reveal_with_fuel(first_under, 3);
    assert(s.push(x).drop_last() =~= s);
    if s.len() > 0 && lt(x.0, s.last().0) {
        let head = s.drop_last();
        lemma_first_placed(head, x, k);
        assert(head.push(x).drop_last() =~= head);
        let inner = placed(head, x);
        assert(inner.push(s.last()).drop_last() =~= inner);
        // The two orders differ in which of two entries with different keys comes first.
        lemma_lt_irreflexive(x.0);
    }
}

/// Ordering does not change which entry is the first under a key.
pub proof fn lemma_first_ordered<T>(s: Seq<(Seq<char>, T)>, k: Seq<char>)
    ensures
        first_under(ordered(s), k) == first_under(s, k),
    decreases s.len(),
{
    if s.len() > 0 {
        lemma_first_ordered(s.drop_last(), k);
        lemma_first_placed(ordered(s.drop_last()), s.last(), k);
        assert(ordered(s.drop_last()).push(s.last()).drop_last() =~= ordered(s.drop_last()));
    }
}

// ---------------------------------------------------------------- one entry for each key

/// `s` with `v` under `key`: in place of the entry of that key, or where the order of keys
/// puts it.
pub open spec fn with_key<T>(s: Seq<(Seq<char>, T)>, key: Seq<char>, v: T) -> Seq<(Seq<char>, T)>
    decreases s.len(),
{
    if s.len() == 0 || lt(key, s[0].0) {
        seq![(key, v)] + s
    } else if s[0].0 == key {
        seq![(key, v)] + s.drop_first()
    } else {
        seq![s[0]] + with_key(s.drop_first(), key, v)
    }
}

pub proof fn lemma_with_key_at<T>(s: Seq<(Seq<char>, T)>, key: Seq<char>, v: T, i: int)
    requires
        0 <= i <= s.len(),
        forall|j: int| 0 <= j < i ==> (#[trigger] s[j]).0 != key && !lt(key, s[j].0),
        i < s.len() ==> s[i].0 == key || lt(key, s[i].0),
    ensures
        i < s.len() && s[i].0 == key && !lt(key, s[i].0) ==> with_key(s, key, v) == s.update(
            i,
            (key, v),
        ),
        i == s.len() || lt(key, s[i].0) ==> with_key(s, key, v) == s.insert(i, (key, v)),
    decreases s.len(),
{
    let r = with_key(s, key, v);
    if i == 0 {
        if s.len() == 0 || lt(key, s[0].0) {
            assert(r =~= s.insert(0, (key, v)));
        } else {
            assert(r =~= s.update(0, (key, v)));
        }
    } else {
        let t = s.drop_first();
        assert(s[0].0 != key && !lt(key, s[0].0));
        assert forall|j: int| 0 <= j < i - 1 implies (#[trigger] t[j]).0 != key && !lt(
            key,
            t[j].0,
        ) by {
            assert(t[j] == s[j + 1]);
        }
        lemma_with_key_at(t, key, v, i - 1);
        if i == s.len() || lt(key, s[i].0) {
            assert(r =~= s.insert(i, (key, v)));
        } else {
            assert(r =~= s.update(i, (key, v)));
        }
    }
}

/// Put a value under a key, or replace the one there.
pub fn put<T>(v: &mut Vec<(String, T)>, key: String, value: T)
    ensures
        keyed(final(v)@) == with_key(keyed(old(v)@), key@, value),
{
    let ghost s = keyed(v@);
    let mut i: usize = 0;
    while i < v.len() && !same(v[i].0.as_str(), key.as_str()) && !before(
        key.as_str(),
        v[i].0.as_str(),
    )
        invariant
            i <= v.len(),
            s == keyed(v@),
            forall|j: int| 0 <= j < i ==> (#[trigger] s[j]).0 != key@ && !lt(key@, s[j].0),
        decreases v.len() - i,
    {
        assert(s[i as int].0 == v@[i as int].0@);
        i = i + 1;
    }
    proof {
        if i < v.len() {
            assert(s[i as int].0 == v@[i as int].0@);
            lemma_lt_irreflexive(key@);
        }
        lemma_with_key_at(s, key@, value, i as int);
    }
    if i < v.len() && same(v[i].0.as_str(), key.as_str()) {
        v.set(i, (key, value));
        assert(keyed(v@) =~= s.update(i as int, (key@, value)));
    } else {
        v.insert(i, (key, value));
        assert(keyed(v@) =~= s.insert(i as int, (key@, value)));
    }
}

/// What is first under a key once a value was put under another, or under it.
pub proof fn lemma_with_key<T>(s: Seq<(Seq<char>, T)>, key: Seq<char>, v: T, i: int)
    ensures
        with_key(s, key, v).contains((key, v)),
        0 <= i < s.len() && s[i].0 != key ==> with_key(s, key, v).contains(s[i]),
        with_key(s, key, v).len() <= s.len() + 1,
    decreases s.len(),
{
    let r = with_key(s, key, v);
    if s.len() == 0 || lt(key, s[0].0) {
        assert(r[0] == (key, v));
        if 0 <= i < s.len() {
            assert(r[i + 1] == s[i]);
        }
    } else if s[0].0 == key {
        assert(r[0] == (key, v));
        if 0 < i < s.len() {
            assert(r[i] == s[i]);
        }
    } else {
        let t = s.drop_first();
        lemma_with_key(t, key, v, i - 1);
        let u = with_key(t, key, v);
        let k = choose|k: int| 0 <= k < u.len() && u[k] == (key, v);
        assert(r[k + 1] == u[k]);
        assert(r[0] == s[0]);
        if 0 < i < s.len() && s[i].0 != key {
            assert(t[i - 1] == s[i]);
            let m = choose|m: int| 0 <= m < u.len() && u[m] == s[i];
            assert(r[m + 1] == u[m]);
        }
    }
}

} // verus!
