//! Sets of strings kept as vectors: the allow-lists, block-lists and
//! pattern lists of the Guardian firewalls.

use vstd::prelude::*;
use crate::string::functions::views;
use crate::text::str_eq;

verus! {

broadcast use vstd::string::group_string_axioms;

/// The set of strings held by the list `v`.
pub open spec fn list_set(v: Seq<String>) -> Set<Seq<char>> {
    views(v).to_set()
}

/// Membership in a sequence extended by one element.
pub proof fn lemma_contains_push(a: Seq<Seq<char>>, e: Seq<char>, x: Seq<char>)
    ensures
        a.push(e).contains(x) <==> (a.contains(x) || x == e),
{
    if a.push(e).contains(x) {
        let k = choose|k: int| 0 <= k < a.push(e).len() && a.push(e)[k] == x;
        if k < a.len() {
            assert(a[k] == x);
        }
    }
    if a.contains(x) {
        let k = choose|k: int| 0 <= k < a.len() && a[k] == x;
        assert(a.push(e)[k] == x);
    }
    if x == e {
        assert(a.push(e)[a.len() as int] == x);
    }
}

/// A copy of a string slice as an owned string.
pub fn owned(s: &str) -> (r: String)
    ensures
        r@ == s@,
{
    s.to_string()
}

/// A copy of a list of strings.
pub fn copy_list(v: &Vec<String>) -> (r: Vec<String>)
    ensures
        r@ == v@,
{
    let mut r: Vec<String> = Vec::new();
    let mut i: usize = 0;
    while i < v.len()
        invariant
            i <= v.len(),
            r@ == v@.take(i as int),
        decreases v.len() - i,
    {
        r.push(v[i].clone());
        proof {
            assert(v@.take(i + 1) == v@.take(i as int).push(v@[i as int]));
        }
        i = i + 1;
    }
    proof {
        assert(v@.take(v@.len() as int) == v@);
    }
    r
}

/// Whether the list holds the string `s`.
pub fn list_contains(v: &Vec<String>, s: &str) -> (b: bool)
    ensures
        b == views(v@).contains(s@),
{
    let mut i: usize = 0;
    while i < v.len()
        invariant
            i <= v.len(),
            forall|k: int| 0 <= k < i ==> v@[k]@ != s@,
        decreases v.len() - i,
    {
        if str_eq(v[i].as_str(), s) {
            proof {
                assert(views(v@)[i as int] == s@);
            }
            return true;
        }
        i = i + 1;
    }
    proof {
        if views(v@).contains(s@) {
            let k = choose|k: int| 0 <= k < views(v@).len() && views(v@)[k] == s@;
            assert(v@[k]@ == s@);
        }
    }
    false
}

/// Adds `s` to the list unless it is already there.
pub fn list_insert(v: &mut Vec<String>, s: String)
    ensures
        final(v)@ == if views(old(v)@).contains(s@) {
            old(v)@
        } else {
            old(v)@.push(s)
        },
        list_set(final(v)@) == list_set(old(v)@).insert(s@),
{
    if !list_contains(v, s.as_str()) {
        let ghost before = v@;
        v.push(s);
        proof {
            assert(views(v@) == views(before).push(s@));
            assert forall|x: Seq<char>| list_set(v@).contains(x) == list_set(before).insert(
                s@,
            ).contains(x) by {
                lemma_contains_push(views(before), s@, x);
            }
            assert(list_set(v@) =~= list_set(before).insert(s@));
        }
    } else {
        proof {
            assert(list_set(v@) =~= list_set(v@).insert(s@));
        }
    }
}

/// Removes every copy of `s` from the list.
pub fn list_remove(v: &mut Vec<String>, s: &str)
    ensures
        forall|x: Seq<char>| #[trigger]
            views(final(v)@).contains(x) <==> (views(old(v)@).contains(x) && x != s@),
        list_set(final(v)@) == list_set(old(v)@).remove(s@),
{
    let mut kept: Vec<String> = Vec::new();
    let mut i: usize = 0;
    while i < v.len()
        invariant
            i <= v.len(),
            forall|x: Seq<char>| #[trigger]
                views(kept@).contains(x) <==> (views(v@.take(i as int)).contains(x) && x
                    != s@),
        decreases v.len() - i,
    {
        let ghost before = kept@;
        if !str_eq(v[i].as_str(), s) {
            kept.push(v[i].clone());
        }
        proof {
            let t = views(v@.take(i + 1));
            assert(v@.take(i + 1) == v@.take(i as int).push(v@[i as int]));
            assert(t == views(v@.take(i as int)).push(v@[i as int]@));
            if v@[i as int]@ != s@ {
                assert(views(kept@) == views(before).push(v@[i as int]@));
            } else {
                assert(views(kept@) == views(before));
            }
            assert forall|x: Seq<char>|
                #[trigger] views(kept@).contains(x) <==> (t.contains(x) && x != s@) by {
                lemma_contains_push(views(v@.take(i as int)), v@[i as int]@, x);
                lemma_contains_push(views(before), v@[i as int]@, x);
            }
        }
        i = i + 1;
    }
    proof {
        assert(v@.take(v@.len() as int) == v@);
    }
    let ghost old_v = v@;
    *v = kept;
    proof {
        assert(list_set(v@) =~= list_set(old_v).remove(s@));
    }
}

} // verus!
