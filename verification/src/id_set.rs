//! Identifiers and the small set algebra the services are built on.
//!
//! Every identifier of the chat (user, device, chat) is a string; its
//! mathematical model is the sequence of its characters. A set of
//! identifiers is kept in a `Vec` in which no identifier occurs twice, and
//! it stands for the set of the identifiers it holds.
use vstd::prelude::*;

verus! {

/// An identifier whose model is the sequence of characters it is made of.
pub trait Ident: Sized + View<V = Seq<char>> {
    /// Compares two identifiers by their characters.
    fn same_as(&self, other: &Self) -> (r: bool)
        ensures
            r == (self@ == other@),
    ;

    /// A copy of the identifier.
    fn duplicate(&self) -> (r: Self)
        ensures
            r@ == self@,
    ;
}

/// The set of identifiers held by `s`.
pub open spec fn id_set<T: View<V = Seq<char>>>(s: Seq<T>) -> Set<Seq<char>> {
    Set::new(|k: Seq<char>| exists|i: int| 0 <= i < s.len() && #[trigger] s[i]@ == k)
}

/// No identifier occurs twice in `s`.
pub open spec fn distinct_ids<T: View<V = Seq<char>>>(s: Seq<T>) -> bool {
    forall|i: int, j: int|
        0 <= i < s.len() && 0 <= j < s.len() && i != j ==> #[trigger] s[i]@ != #[trigger] s[j]@
}

/// The position of `x` in `v`, if it is there.
pub fn find_id<T: Ident>(v: &Vec<T>, x: &T) -> (r: Option<usize>)
    ensures
        match r {
            Some(i) => i < v.len() && v@[i as int]@ == x@ && forall|j: int|
                0 <= j < i ==> #[trigger] v@[j]@ != x@,
            None => !id_set(v@).contains(x@),
        },
{
    let mut i: usize = 0;
    while i < v.len()
        invariant
            i <= v.len(),
            forall|j: int| 0 <= j < i ==> #[trigger] v@[j]@ != x@,
        decreases v.len() - i,
    {
        if v[i].same_as(x) {
            return Some(i);
        }
        i = i + 1;
    }
    assert(!id_set(v@).contains(x@));
    None
}

/// Whether `x` is in `v`.
pub fn contains_id<T: Ident>(v: &Vec<T>, x: &T) -> (r: bool)
    ensures
        r == id_set(v@).contains(x@),
{
    match find_id(v, x) {
        Some(_) => true,
        None => false,
    }
}

/// Adds `x` to the set held by `v`.
pub fn insert_id<T: Ident>(v: &mut Vec<T>, x: T)
    requires
        distinct_ids(old(v)@),
    ensures
        distinct_ids(final(v)@),
        id_set(final(v)@) == id_set(old(v)@).insert(x@),
        forall|i: int| 0 <= i < old(v)@.len() ==> #[trigger] final(v)@[i] == old(v)@[i],
        final(v)@.len() <= old(v)@.len() + 1,
{
    if !contains_id(v, &x) {
        let ghost xv = x@;
        v.push(x);
        assert(id_set(v@) =~= id_set(old(v)@).insert(xv)) by {
            assert(v@[old(v)@.len() as int]@ == xv);
            assert forall|k: Seq<char>| id_set(old(v)@).contains(k) implies id_set(v@).contains(
                k,
            ) by {
                let j = choose|j: int| 0 <= j < old(v)@.len() && #[trigger] old(v)@[j]@ == k;
                assert(v@[j]@ == k);
            }
            assert forall|k: Seq<char>| id_set(v@).contains(k) implies id_set(
                old(v)@,
            ).insert(xv).contains(k) by {
                let j = choose|j: int| 0 <= j < v@.len() && #[trigger] v@[j]@ == k;
                if j < old(v)@.len() {
                    assert(old(v)@[j]@ == k);
                }
            }
        }
    } else {
        assert(id_set(v@) =~= id_set(old(v)@).insert(x@));
    }
}

/// Removes `x` from the set held by `v`.
pub fn remove_id<T: Ident>(v: &mut Vec<T>, x: &T)
    requires
        distinct_ids(old(v)@),
    ensures
        distinct_ids(final(v)@),
        id_set(final(v)@) == id_set(old(v)@).remove(x@),
        final(v)@.len() <= old(v)@.len(),
{
    match find_id(v, x) {
        Some(i) => {
            let ghost old_v = v@;
            v.remove(i);
            proof {
                old_v.remove_ensures(i as int);
                assert forall|k: Seq<char>|
                    id_set(v@).contains(k) <==> id_set(old_v).remove(x@).contains(k) by {
                    if id_set(v@).contains(k) {
                        let j = choose|j: int| 0 <= j < v@.len() && #[trigger] v@[j]@ == k;
                        if j < i {
                            assert(old_v[j]@ == k);
                        } else {
                            assert(old_v[j + 1]@ == k);
                        }
                        assert(k != x@);
                    }
                    if id_set(old_v).remove(x@).contains(k) {
                        let j = choose|j: int| 0 <= j < old_v.len() && #[trigger] old_v[j]@ == k;
                        assert(j != i);
                        if j < i {
                            assert(v@[j]@ == k);
                        } else {
                            assert(v@[j - 1]@ == k);
                        }
                    }
                }
                assert(id_set(v@) =~= id_set(old_v).remove(x@));
                assert forall|a: int, b: int|
                    0 <= a < v@.len() && 0 <= b < v@.len() && a != b implies #[trigger] v@[a]@
                    != #[trigger] v@[b]@ by {
                    let oa = if a < i {
                        a
                    } else {
                        a + 1
                    };
                    let ob = if b < i {
                        b
                    } else {
                        b + 1
                    };
                    assert(v@[a] == old_v[oa]);
                    assert(v@[b] == old_v[ob]);
                }
            }
        },
        None => {
            assert(id_set(v@) =~= id_set(old(v)@).remove(x@));
        },
    }
}

/// A copy of every identifier of `v`, in the same order.
pub fn duplicate_ids<T: Ident>(v: &Vec<T>) -> (r: Vec<T>)
    ensures
        r@.len() == v@.len(),
        forall|i: int| 0 <= i < v@.len() ==> #[trigger] r@[i]@ == v@[i]@,
        id_set(r@) == id_set(v@),
        distinct_ids(v@) ==> distinct_ids(r@),
{
    let mut r: Vec<T> = Vec::new();
    let mut i: usize = 0;
    while i < v.len()
        invariant
            i <= v.len(),
            r@.len() == i,
            forall|j: int| 0 <= j < i ==> #[trigger] r@[j]@ == v@[j]@,
        decreases v.len() - i,
    {
        r.push(v[i].duplicate());
        i = i + 1;
    }
    assert(id_set(r@) =~= id_set(v@)) by {
        assert forall|k: Seq<char>| id_set(v@).contains(k) implies id_set(r@).contains(k) by {
            let j = choose|j: int| 0 <= j < v@.len() && #[trigger] v@[j]@ == k;
            assert(r@[j]@ == k);
        }
    }
    r
}

} // verus!
