//! Byte strings: hashes, routing bases and agent identities are plain bytes.

use vstd::prelude::*;

verus! {

/// The views of the elements of a sequence, in order.
pub open spec fn views<T: View>(s: Seq<T>) -> Seq<T::V> {
    s.map_values(|x: T| x@)
}

/// Viewing commutes with appending an element.
pub proof fn lemma_views_push<T: View>(s: Seq<T>, x: T)
    ensures
        views(s.push(x)) == views(s).push(x@),
{
    assert(views(s.push(x)) =~= views(s).push(x@));
}

/// Viewing commutes with taking a prefix, and a prefix grows by one element.
pub proof fn lemma_views_take<T: View>(s: Seq<T>, n: int)
    requires
        0 <= n < s.len(),
    ensures
        views(s.take(n)) == views(s).take(n),
        views(s.take(n + 1)) == views(s).take(n + 1),
        s.take(n + 1) == s.take(n).push(s[n]),
        views(s).take(n + 1) == views(s).take(n).push(s[n]@),
{
    assert(views(s.take(n)) =~= views(s).take(n));
    assert(views(s.take(n + 1)) =~= views(s).take(n + 1));
    assert(s.take(n + 1) =~= s.take(n).push(s[n]));
    assert(views(s).take(n + 1) =~= views(s).take(n).push(s[n]@));
}

/// Whether two byte strings hold the same bytes.
pub fn bytes_eq(a: &Vec<u8>, b: &Vec<u8>) -> (same: bool)
    ensures
        same == (a@ == b@),
{
    if a.len() != b.len() {
        return false;
    }
    let mut i: usize = 0;
    while i < a.len()
        invariant
            a.len() == b.len(),
            i <= a.len(),
            forall|j: int| 0 <= j < i ==> a@[j] == b@[j],
        decreases a.len() - i,
    {
        if a[i] != b[i] {
            return false;
        }
        i += 1;
    }
    assert(a@ =~= b@);
    true
}

/// A copy of a byte string.
pub fn copy_bytes(a: &Vec<u8>) -> (copy: Vec<u8>)
    ensures
        copy@ == a@,
{
    let copy = a.clone();
    assert(copy@ =~= a@);
    copy
}

/// A copy of a list of byte strings.
pub fn copy_byte_strings(list: &Vec<Vec<u8>>) -> (copy: Vec<Vec<u8>>)
    ensures
        views(copy@) == views(list@),
{
    let mut copy: Vec<Vec<u8>> = Vec::new();
    let mut i: usize = 0;
    while i < list.len()
        invariant
            i <= list.len(),
            views(copy@) == views(list@.take(i as int)),
        decreases list.len() - i,
    {
        let item = copy_bytes(&list[i]);
        proof {
            lemma_views_push(copy@, item);
            lemma_views_take(list@, i as int);
            lemma_views_push(list@.take(i as int), list@[i as int]);
        }
        copy.push(item);
        i += 1;
    }
    assert(list@.take(list.len() as int) =~= list@);
    copy
}

} // verus!
