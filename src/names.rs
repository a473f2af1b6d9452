use vstd::prelude::*;

verus! {

/// The set of names held by a list of strings.
pub open spec fn names(v: Seq<String>) -> Set<Seq<char>> {
    Set::new(|m: Seq<char>| exists|i: int| 0 <= i < v.len() && (#[trigger] v[i])@ == m)
}

/// No name occurs twice in the list.
pub open spec fn distinct_names(v: Seq<String>) -> bool {
    forall|i: int, j: int| 0 <= i < j < v.len() ==> (#[trigger] v[i])@ != (#[trigger] v[j])@
}

/// A list holds no name exactly when it is empty.
pub proof fn lemma_names_empty(v: Seq<String>)
    ensures
        (names(v) == Set::<Seq<char>>::empty()) == (v.len() == 0),
{
    if v.len() == 0 {
        assert(names(v) =~= Set::<Seq<char>>::empty());
    } else {
        assert(names(v).contains(v[0]@));
    }
}

/// Whether `name` occurs in `v`.
pub fn contains_name(v: &Vec<String>, name: &String) -> (r: bool)
    ensures
        r == names(v@).contains(name@),
{
    let mut i: usize = 0;
    while i < v.len()
        invariant
            0 <= i <= v.len(),
            forall|k: int| 0 <= k < i ==> (#[trigger] v@[k])@ != name@,
        decreases v.len() - i,
    {
        if v[i] == *name {
            assert(names(v@).contains(name@)) by {
                assert(v@[i as int]@ == name@);
            }
            return true;
        }
        i = i + 1;
    }
    false
}

/// Adds `name` to `v` unless it is already there.
pub fn insert_name(v: &mut Vec<String>, name: String)
    requires
        distinct_names(old(v)@),
    ensures
        distinct_names(final(v)@),
        names(final(v)@) == names(old(v)@).insert(name@),
{
    if !contains_name(v, &name) {
        let ghost n = name@;
        v.push(name);
        assert(names(v@) =~= names(old(v)@).insert(n)) by {
            assert forall|m: Seq<char>| names(v@).contains(m) implies names(old(v)@).insert(n).contains(m) by {
                let i = choose|i: int| 0 <= i < v@.len() && (#[trigger] v@[i])@ == m;
                if i < old(v)@.len() {
                    assert(old(v)@[i] == v@[i]);
                }
            }
            assert forall|m: Seq<char>| names(old(v)@).insert(n).contains(m) implies names(v@).contains(m) by {
                if m == n {
                    assert(v@[old(v)@.len() as int]@ == m);
                } else {
                    let i = choose|i: int| 0 <= i < old(v)@.len() && (#[trigger] old(v)@[i])@ == m;
                    assert(v@[i] == old(v)@[i]);
                }
            }
        }
    } else {
        assert(names(old(v)@).insert(name@) =~= names(old(v)@));
    }
}

} // verus!
