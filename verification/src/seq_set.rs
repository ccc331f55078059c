//! Facts about sequences without duplicates that stand for finite sets.

use vstd::prelude::*;

verus! {

/// Appending an item that is not there yet keeps the sequence free of
/// duplicates and adds the item to its set.
pub proof fn lemma_push_fresh<T>(s: Seq<T>, x: T)
    requires
        s.no_duplicates(),
        !s.contains(x),
    ensures
        s.push(x).no_duplicates(),
        s.push(x).to_set() == s.to_set().insert(x),
{
    let t = s.push(x);
    assert forall|a: int, b: int| 0 <= a < b < t.len() implies t[a] != t[b] by {
        if b == s.len() {
            assert(s[a] == t[a]);
        }
    }
    assert forall|y: T| #[trigger] t.contains(y) <==> s.to_set().insert(x).contains(y) by {
        if s.contains(y) {
            let o = choose|o: int| 0 <= o < s.len() && s[o] == y;
            assert(t[o] == y);
        }
        if t.contains(y) && y != x {
            let o = choose|o: int| 0 <= o < t.len() && t[o] == y;
            assert(s[o] == y);
        }
        assert(t[s.len() as int] == x);
    }
    assert(t.to_set() =~= s.to_set().insert(x));
}

/// Removing the item at `i` keeps the sequence free of duplicates and takes
/// exactly that item out of its set.
pub proof fn lemma_remove_at<T>(s: Seq<T>, i: int)
    requires
        s.no_duplicates(),
        0 <= i < s.len(),
    ensures
        s.remove(i).no_duplicates(),
        s.remove(i).to_set() == s.to_set().remove(s[i]),
{
    let t = s.remove(i);
    assert forall|a: int, b: int| 0 <= a < b < t.len() implies t[a] != t[b] by {
        let oa = if a < i { a } else { a + 1 };
        let ob = if b < i { b } else { b + 1 };
        assert(t[a] == s[oa]);
        assert(t[b] == s[ob]);
    }
    assert forall|y: T| #[trigger] t.contains(y) <==> s.to_set().remove(s[i]).contains(y) by {
        if t.contains(y) {
            let a = choose|a: int| 0 <= a < t.len() && t[a] == y;
            let oa = if a < i { a } else { a + 1 };
            assert(s[oa] == y);
        }
        if s.to_set().remove(s[i]).contains(y) {
            let o = choose|o: int| 0 <= o < s.len() && s[o] == y;
            assert(o != i);
            if o < i {
                assert(t[o] == y);
            } else {
                assert(t[o - 1] == y);
            }
        }
    }
    assert(t.to_set() =~= s.to_set().remove(s[i]));
}

/// An item that is already there: adding it to the set changes nothing.
pub proof fn lemma_insert_present<T>(s: Seq<T>, i: int)
    requires
        0 <= i < s.len(),
    ensures
        s.to_set().insert(s[i]) == s.to_set(),
{
    assert(s.to_set().contains(s[i]));
    assert(s.to_set().insert(s[i]) =~= s.to_set());
}

/// An item that is not there: taking it out of the set changes nothing.
pub proof fn lemma_remove_absent<T>(s: Seq<T>, x: T)
    requires
        !s.contains(x),
    ensures
        s.to_set().remove(x) == s.to_set(),
{
    assert(s.to_set().remove(x) =~= s.to_set());
}

} // verus!
