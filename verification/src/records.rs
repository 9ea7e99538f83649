//! What every kind of stored record shares: a numeric id, and the ways a
//! list of records is searched and thinned by it.

use vstd::prelude::*;

verus! {

/// A stored record with a numeric id.
pub trait Record: View + Sized {
    /// The id of a record, read off its view.
    spec fn key_of(v: Self::V) -> u64;

    /// The record's id.
    fn id(&self) -> (r: u64)
        ensures
            r == Self::key_of(self@),
    ;

    /// A copy of the record.
    fn duplicate(&self) -> (r: Self)
        ensures
            r@ == self@,
    ;
}

/// The views of a list of records, in order.
pub open spec fn views<T: View>(s: Seq<T>) -> Seq<T::V> {
    s.map_values(|x: T| x@)
}

/// Whether some record in `s` has id `id`.
pub open spec fn has_id<T: Record>(s: Seq<T::V>, id: u64) -> bool {
    exists|i: int| 0 <= i < s.len() && T::key_of(#[trigger] s[i]) == id
}

/// Whether `i` is the position of the first record in `s` with id `id`.
pub open spec fn is_first_with_id<T: Record>(s: Seq<T::V>, id: u64, i: int) -> bool {
    &&& 0 <= i < s.len()
    &&& T::key_of(s[i]) == id
    &&& forall|j: int| 0 <= j < i ==> T::key_of(#[trigger] s[j]) != id
}

/// The position of the first record in `s` with id `id`, if any.
pub open spec fn position_of<T: Record>(s: Seq<T::V>, id: u64) -> Option<int> {
    if has_id::<T>(s, id) {
        Some(choose|i: int| is_first_with_id::<T>(s, id, i))
    } else {
        None
    }
}

/// `s` without the records whose id is `id`, the others in order.
pub open spec fn without_id<T: Record>(s: Seq<T::V>, id: u64) -> Seq<T::V> {
    s.filter(id_differs::<T>(id))
}

/// Whether a record's id is other than `id`.
pub open spec fn id_differs<T: Record>(id: u64) -> spec_fn(T::V) -> bool {
    |v: T::V| T::key_of(v) != id
}

/// The first position with a given id is unique, and exists when the id
/// does.
pub proof fn lemma_position_of<T: Record>(s: Seq<T::V>, id: u64)
    ensures
        position_of::<T>(s, id) is None <==> !has_id::<T>(s, id),
        position_of::<T>(s, id) matches Some(i) ==> is_first_with_id::<T>(s, id, i),
        forall|i: int| #[trigger] is_first_with_id::<T>(s, id, i) ==> position_of::<T>(s, id)
            == Some(i),
{
    if has_id::<T>(s, id) {
        let k = choose|k: int| 0 <= k < s.len() && T::key_of(#[trigger] s[k]) == id;
        lemma_first_exists::<T>(s, id, k);
        let i = choose|i: int| is_first_with_id::<T>(s, id, i);
        assert forall|j: int| #[trigger] is_first_with_id::<T>(s, id, j) implies j == i by {
            if j < i {
                assert(T::key_of(s[j]) != id);
            } else if i < j {
                assert(T::key_of(s[i]) != id);
            }
        }
    }
}

proof fn lemma_first_exists<T: Record>(s: Seq<T::V>, id: u64, k: int)
    requires
        0 <= k < s.len(),
        T::key_of(s[k]) == id,
    ensures
        exists|i: int| is_first_with_id::<T>(s, id, i),
    decreases k,
{
    if forall|j: int| 0 <= j < k ==> T::key_of(#[trigger] s[j]) != id {
        assert(is_first_with_id::<T>(s, id, k));
    } else {
        let j = choose|j: int| 0 <= j < k && T::key_of(#[trigger] s[j]) != id == false;
        lemma_first_exists::<T>(s, id, j);
    }
}

/// The position of the first record in `v` with id `id`.
pub fn find_index<T: Record>(v: &Vec<T>, id: u64) -> (r: Option<usize>)
    ensures
        r matches Some(i) ==> position_of::<T>(views(v@), id) == Some(i as int),
        r is None ==> position_of::<T>(views(v@), id) is None,
{
    let n = v.len();
    let mut i: usize = 0;
    while i < n
        invariant
            n == v@.len(),
            i <= n,
            forall|j: int| 0 <= j < i ==> T::key_of(#[trigger] views(v@)[j]) != id,
        decreases n - i,
    {
        let k = v[i].id();
        assert(views(v@)[i as int] == v@[i as int]@);
        if k == id {
            proof {
                assert(is_first_with_id::<T>(views(v@), id, i as int));
                lemma_position_of::<T>(views(v@), id);
            }
            return Some(i);
        }
        i += 1;
    }
    proof {
        lemma_position_of::<T>(views(v@), id);
        assert(!has_id::<T>(views(v@), id));
    }
    None
}

/// Removes from `v` every record whose id is `id`, keeping the order of
/// the others.
pub fn remove_with_id<T: Record>(v: &mut Vec<T>, id: u64)
    ensures
        views(final(v)@) == without_id::<T>(views(old(v)@), id),
{
    let ghost s = views(v@);
    let mut kept: Vec<T> = Vec::new();
    let n = v.len();
    let mut i: usize = 0;
    assert(s.take(0) =~= Seq::<T::V>::empty());
    assert(views(kept@) =~= without_id::<T>(s.take(0), id)) by {
        reveal(Seq::filter);
    }
    while i < n
        invariant
            n == v@.len(),
            s == views(v@),
            i <= n,
            views(kept@) == without_id::<T>(s.take(i as int), id),
        decreases n - i,
    {
        let item = &v[i];
        assert(s[i as int] == v@[i as int]@);
        assert(s.take(i + 1).drop_last() =~= s.take(i as int));
        assert(s.take(i + 1).last() == s[i as int]);
        proof {
            reveal(Seq::filter);
        }
        let k = item.id();
        assert(without_id::<T>(s.take(i + 1), id) == if T::key_of(s[i as int]) != id {
            without_id::<T>(s.take(i as int), id).push(s[i as int])
        } else {
            without_id::<T>(s.take(i as int), id)
        });
        if k != id {
            let copy = item.duplicate();
            let ghost before = kept@;
            kept.push(copy);
            assert(views(kept@) =~= views(before).push(copy@));
        }
        i += 1;
    }
    assert(s.take(n as int) =~= s);
    *v = kept;
}

/// Whether some record in `v` has id `id`.
pub fn contains_id<T: Record>(v: &Vec<T>, id: u64) -> (r: bool)
    ensures
        r == has_id::<T>(views(v@), id),
{
    let found = find_index(v, id);
    proof {
        lemma_position_of::<T>(views(v@), id);
    }
    found.is_some()
}

/// Removing the records with an id leaves none with it.
pub proof fn lemma_without_id_lacks<T: Record>(s: Seq<T::V>, id: u64)
    ensures
        !has_id::<T>(without_id::<T>(s, id), id),
{
    broadcast use vstd::seq_lib::group_filter_ensures;

    let f = without_id::<T>(s, id);
    if has_id::<T>(f, id) {
        let i = choose|i: int| 0 <= i < f.len() && T::key_of(#[trigger] f[i]) == id;
        assert(T::key_of(f[i]) != id);
    }
}

/// Removing the records with an id keeps exactly the records whose id
/// differs from it, in their order: a record is kept exactly when it was
/// there and its id is another, and the kept ones come in the order they
/// had.
pub proof fn law_without_id_keeps_the_others<T: Record>(s: Seq<T::V>, id: u64, x: T::V)
    ensures
        without_id::<T>(s, id).contains(x) <==> s.contains(x) && T::key_of(x) != id,
        !has_id::<T>(s, id) ==> without_id::<T>(s, id) == s,
{
    broadcast use vstd::seq_lib::group_filter_ensures;

    let f = without_id::<T>(s, id);
    if f.contains(x) {
        s.lemma_filter_contains_rev(id_differs::<T>(id), x);
        let i = choose|i: int| 0 <= i < f.len() && f[i] == x;
        assert(id_differs::<T>(id)(f[i]));
    }
    if s.contains(x) && T::key_of(x) != id {
        let i = choose|i: int| 0 <= i < s.len() && s[i] == x;
        assert(id_differs::<T>(id)(s[i]));
    }
    if !has_id::<T>(s, id) {
        lemma_without_absent_id::<T>(s, id);
    }
}

proof fn lemma_without_absent_id<T: Record>(s: Seq<T::V>, id: u64)
    requires
        !has_id::<T>(s, id),
    ensures
        without_id::<T>(s, id) == s,
    decreases s.len(),
{
    reveal(Seq::filter);
    if s.len() > 0 {
        assert(!has_id::<T>(s.drop_last(), id)) by {
            if has_id::<T>(s.drop_last(), id) {
                let i = choose|i: int|
                    0 <= i < s.drop_last().len() && T::key_of(#[trigger] s.drop_last()[i]) == id;
                assert(s[i] == s.drop_last()[i]);
            }
        }
        lemma_without_absent_id::<T>(s.drop_last(), id);
        assert(T::key_of(s[s.len() - 1]) != id);
        assert(s.drop_last().push(s.last()) =~= s);
    }
}

/// A copy of a list of ids.
pub fn copy_ids(v: &Vec<u64>) -> (r: Vec<u64>)
    ensures
        r@ == v@,
{
    let r = v.clone();
    assert(r@ =~= v@);
    r
}

/// Whether `id` is among `v`.
pub fn contains_u64(v: &Vec<u64>, id: u64) -> (r: bool)
    ensures
        r == v@.contains(id),
{
    let n = v.len();
    let mut i: usize = 0;
    while i < n
        invariant
            n == v@.len(),
            i <= n,
            forall|j: int| 0 <= j < i ==> v@[j] != id,
        decreases n - i,
    {
        if v[i] == id {
            return true;
        }
        i += 1;
    }
    false
}

/// Copies of all the records of `v`, in order.
pub fn copy_all<T: Record>(v: &Vec<T>) -> (r: Vec<T>)
    ensures
        views(r@) == views(v@),
{
    let mut r: Vec<T> = Vec::new();
    let n = v.len();
    let mut i: usize = 0;
    while i < n
        invariant
            n == v@.len(),
            i <= n,
            views(r@) == views(v@).take(i as int),
        decreases n - i,
    {
        let ghost before = r@;
        let x = v[i].duplicate();
        r.push(x);
        assert(views(r@) =~= views(before).push(v@[i as int]@));
        assert(views(v@).take(i + 1) =~= views(v@).take(i as int).push(v@[i as int]@));
        i += 1;
    }
    assert(views(v@).take(n as int) =~= views(v@));
    r
}

/// A copy of the first record of `v` with id `id`, if any.
pub fn copy_by_id<T: Record>(v: &Vec<T>, id: u64) -> (r: Option<T>)
    ensures
        match position_of::<T>(views(v@), id) {
            Some(i) => r matches Some(x) && x@ == views(v@)[i],
            None => r is None,
        },
{
    proof {
        lemma_position_of::<T>(views(v@), id);
    }
    match find_index(v, id) {
        Some(i) => Some(v[i].duplicate()),
        None => None,
    }
}


/// No two records in `s` share an id.
pub open spec fn ids_distinct<T: Record>(s: Seq<T::V>) -> bool {
    forall|i: int, j: int| 0 <= i < j < s.len() ==> T::key_of(#[trigger] s[i]) != T::key_of(#[trigger] s[j])
}

/// Every record in `s` has an id below `bound`.
pub open spec fn ids_below<T: Record>(s: Seq<T::V>, bound: u64) -> bool {
    forall|i: int| 0 <= i < s.len() ==> T::key_of(#[trigger] s[i]) < bound
}

/// Thinning a list keeps its ids distinct and below the bound.
pub proof fn lemma_filter_keeps_ids<T: Record>(s: Seq<T::V>, pred: spec_fn(T::V) -> bool, bound: u64)
    requires
        ids_distinct::<T>(s),
        ids_below::<T>(s, bound),
    ensures
        ids_distinct::<T>(s.filter(pred)),
        ids_below::<T>(s.filter(pred), bound),
    decreases s.len(),
{
    reveal(Seq::filter);
    if s.len() > 0 {
        let d = s.drop_last();
        assert forall|i: int, j: int| 0 <= i < j < d.len() implies T::key_of(#[trigger] d[i])
            != T::key_of(#[trigger] d[j]) by {
            assert(d[i] == s[i] && d[j] == s[j]);
        }
        assert forall|i: int| 0 <= i < d.len() implies T::key_of(#[trigger] d[i]) < bound by {
            assert(d[i] == s[i]);
        }
        lemma_filter_keeps_ids::<T>(d, pred, bound);
        let fd = d.filter(pred);
        assert forall|i: int| 0 <= i < fd.len() implies exists|j: int|
            0 <= j < d.len() && #[trigger] d[j] == #[trigger] fd[i] by {
            assert(fd.contains(fd[i]));
            d.lemma_filter_contains_rev(pred, fd[i]);
        }
        if pred(s.last()) {
            let f = s.filter(pred);
            assert(f == fd.push(s.last()));
            assert forall|i: int, j: int| 0 <= i < j < f.len() implies T::key_of(#[trigger] f[i])
                != T::key_of(#[trigger] f[j]) by {
                if j == f.len() - 1 {
                    let k = choose|k: int| 0 <= k < d.len() && #[trigger] d[k] == fd[i];
                    assert(s[k] == d[k]);
                    assert(f[i] == fd[i]);
                } else {
                    assert(f[i] == fd[i] && f[j] == fd[j]);
                }
            }
            assert forall|i: int| 0 <= i < f.len() implies T::key_of(#[trigger] f[i]) < bound by {
                if i < f.len() - 1 {
                    assert(f[i] == fd[i]);
                }
            }
        }
    }
}

/// Removing the records with an id keeps the ids distinct and below the
/// bound.
pub proof fn lemma_without_id_keeps_ids<T: Record>(s: Seq<T::V>, id: u64, bound: u64)
    requires
        ids_distinct::<T>(s),
        ids_below::<T>(s, bound),
    ensures
        ids_distinct::<T>(without_id::<T>(s, id)),
        ids_below::<T>(without_id::<T>(s, id), bound),
{
    lemma_filter_keeps_ids::<T>(s, id_differs::<T>(id), bound);
}

/// Appending a record with id `bound` to a list whose ids are distinct and
/// below `bound` keeps them distinct, and below `bound + 1`.
pub proof fn lemma_push_fresh<T: Record>(s: Seq<T::V>, v: T::V, bound: u64)
    requires
        ids_distinct::<T>(s),
        ids_below::<T>(s, bound),
        T::key_of(v) == bound,
        bound < u64::MAX,
    ensures
        ids_distinct::<T>(s.push(v)),
        ids_below::<T>(s.push(v), (bound + 1) as u64),
        position_of::<T>(s.push(v), bound) == Some(s.len() as int),
{
    let t = s.push(v);
    assert forall|i: int, j: int| 0 <= i < j < t.len() implies T::key_of(#[trigger] t[i])
        != T::key_of(#[trigger] t[j]) by {
        assert(t[i] == s[i]);
        if j < s.len() {
            assert(t[j] == s[j]);
        }
    }
    assert forall|i: int| 0 <= i < t.len() implies T::key_of(#[trigger] t[i]) < bound + 1 by {
        if i < s.len() {
            assert(t[i] == s[i]);
        }
    }
    assert forall|j: int| 0 <= j < s.len() implies T::key_of(#[trigger] t[j]) != bound by {
        assert(t[j] == s[j]);
    }
    assert(is_first_with_id::<T>(t, bound, s.len() as int));
    lemma_position_of::<T>(t, bound);
}

/// Replacing a record by one with the same id keeps the ids as they were,
/// and the id is found at the same place.
pub proof fn lemma_update_same_id<T: Record>(s: Seq<T::V>, i: int, v: T::V, bound: u64)
    requires
        0 <= i < s.len(),
        T::key_of(v) == T::key_of(s[i]),
    ensures
        ids_distinct::<T>(s) ==> ids_distinct::<T>(s.update(i, v)),
        ids_below::<T>(s, bound) ==> ids_below::<T>(s.update(i, v), bound),
        position_of::<T>(s, T::key_of(v)) == Some(i) ==> position_of::<T>(s.update(i, v), T::key_of(v))
            == Some(i),
{
    let t = s.update(i, v);
    assert forall|j: int| 0 <= j < s.len() implies T::key_of(#[trigger] t[j]) == T::key_of(s[j]) by {
    }
    lemma_position_of::<T>(s, T::key_of(v));
    if position_of::<T>(s, T::key_of(v)) == Some(i) {
        assert(is_first_with_id::<T>(t, T::key_of(v), i));
        lemma_position_of::<T>(t, T::key_of(v));
    }
}


/// Whether `i` is the first position in `s` whose element satisfies `p`.
pub open spec fn is_first_where<A>(s: Seq<A>, p: spec_fn(A) -> bool, i: int) -> bool {
    &&& 0 <= i < s.len()
    &&& p(s[i])
    &&& forall|j: int| 0 <= j < i ==> !p(#[trigger] s[j])
}

/// The first position in `s` whose element satisfies `p`, if any.
pub open spec fn first_where<A>(s: Seq<A>, p: spec_fn(A) -> bool) -> Option<int> {
    if exists|i: int| 0 <= i < s.len() && p(#[trigger] s[i]) {
        Some(choose|i: int| is_first_where(s, p, i))
    } else {
        None
    }
}

proof fn lemma_first_where_exists<A>(s: Seq<A>, p: spec_fn(A) -> bool, k: int)
    requires
        0 <= k < s.len(),
        p(s[k]),
    ensures
        exists|i: int| is_first_where(s, p, i),
    decreases k,
{
    if forall|j: int| 0 <= j < k ==> !p(#[trigger] s[j]) {
        assert(is_first_where(s, p, k));
    } else {
        let j = choose|j: int| 0 <= j < k && !p(#[trigger] s[j]) == false;
        lemma_first_where_exists(s, p, j);
    }
}

/// The first position that satisfies a predicate is unique, and exists
/// when some element satisfies it.
pub proof fn lemma_first_where<A>(s: Seq<A>, p: spec_fn(A) -> bool)
    ensures
        first_where(s, p) is None <==> forall|i: int| 0 <= i < s.len() ==> !p(#[trigger] s[i]),
        first_where(s, p) matches Some(i) ==> is_first_where(s, p, i),
        forall|i: int| #[trigger] is_first_where(s, p, i) ==> first_where(s, p) == Some(i),
{
    if exists|i: int| 0 <= i < s.len() && p(#[trigger] s[i]) {
        let k = choose|k: int| 0 <= k < s.len() && p(#[trigger] s[k]);
        lemma_first_where_exists(s, p, k);
        let i = choose|i: int| is_first_where(s, p, i);
        assert forall|j: int| #[trigger] is_first_where(s, p, j) implies j == i by {
            if j < i {
                assert(!p(s[j]));
            } else if i < j {
                assert(!p(s[i]));
            }
        }
    }
}

/// Appending an element that does not satisfy `p` leaves the first
/// position that does as it was.
pub proof fn lemma_first_where_push<A>(s: Seq<A>, p: spec_fn(A) -> bool, x: A)
    requires
        !p(x),
    ensures
        first_where(s.push(x), p) == first_where(s, p),
{
    let t = s.push(x);
    lemma_first_where(s, p);
    lemma_first_where(t, p);
    assert forall|j: int| 0 <= j < s.len() implies t[j] == s[j] by {}
    match first_where(s, p) {
        Some(i) => {
            assert(is_first_where(t, p, i));
        },
        None => {
            assert forall|i: int| 0 <= i < t.len() implies !p(#[trigger] t[i]) by {
                if i < s.len() {
                    assert(t[i] == s[i]);
                }
            }
        },
    }
}

} // verus!
