//! Lists of distinct names: the order in which the keys of a hash map or a
//! hash set came in. The hash structure answers whether a name is known;
//! the list beside it says which names there are.

use vstd::prelude::*;

verus! {

/// No name of the list stands twice.
pub open spec fn no_duplicates(names: Seq<String>) -> bool {
    forall|i: int, j: int|
        0 <= i < names.len() && 0 <= j < names.len() && (#[trigger] names[i])@ == (
        #[trigger] names[j])@ ==> i == j
}

/// The names of the list, as a set.
pub open spec fn names_set(names: Seq<String>) -> Set<Seq<char>> {
    Set::new(|n: Seq<char>| exists|i: int| 0 <= i < names.len() && (#[trigger] names[i])@ == n)
}

/// The place of the name in the list, if it stands there.
pub fn place_of_name(names: &Vec<String>, name: &str) -> (r: Option<usize>)
    ensures
        match r {
            Some(i) => i < names.len() && names@[i as int]@ == name@,
            None => !names_set(names@).contains(name@),
        },
{
    let wanted = name.to_owned();
    let mut i: usize = 0;
    while i < names.len()
        invariant
            i <= names.len(),
            wanted@ == name@,
            forall|j: int| 0 <= j < i ==> (#[trigger] names@[j])@ != name@,
        decreases names.len() - i,
    {
        if names[i] == wanted {
            return Some(i);
        }
        i += 1;
    }
    None
}

/// A new name at the end of a list of distinct names: the names stay
/// distinct and the set gains the name.
pub proof fn lemma_name_pushed(before: Seq<String>, name: String)
    requires
        no_duplicates(before),
        !names_set(before).contains(name@),
    ensures
        no_duplicates(before.push(name)),
        names_set(before.push(name)) == names_set(before).insert(name@),
{
    let after = before.push(name);
    assert forall|i: int, j: int|
        0 <= i < after.len() && 0 <= j < after.len() && (#[trigger] after[i])@ == (
        #[trigger] after[j])@ implies i == j by {
        if i < before.len() && j < before.len() {
            assert(before[i] == after[i] && before[j] == after[j]);
        } else if i < before.len() {
            assert(before[i]@ == name@);
        } else if j < before.len() {
            assert(before[j]@ == name@);
        }
    }
    assert forall|n: Seq<char>| names_set(after).contains(n) == names_set(before).insert(
        name@,
    ).contains(n) by {
        if names_set(before).contains(n) {
            let i = choose|i: int| 0 <= i < before.len() && (#[trigger] before[i])@ == n;
            assert(after[i]@ == n);
        }
        if n == name@ {
            assert(after[before.len() as int]@ == n);
        }
        if names_set(after).contains(n) {
            let i = choose|i: int| 0 <= i < after.len() && (#[trigger] after[i])@ == n;
            if i < before.len() {
                assert(before[i]@ == n);
            }
        }
    }
    assert(names_set(after) =~= names_set(before).insert(name@));
}

/// A name taken out of a list of distinct names: the names stay distinct
/// and the set loses the name.
pub proof fn lemma_name_removed(before: Seq<String>, place: int)
    requires
        no_duplicates(before),
        0 <= place < before.len(),
    ensures
        no_duplicates(before.remove(place)),
        names_set(before.remove(place)) == names_set(before).remove(before[place]@),
{
    let after = before.remove(place);
    assert forall|a: int, b: int|
        0 <= a < after.len() && 0 <= b < after.len() && (#[trigger] after[a])@ == (
        #[trigger] after[b])@ implies a == b by {
        let a0 = if a < place { a } else { a + 1 };
        let b0 = if b < place { b } else { b + 1 };
        assert(before[a0] == after[a]);
        assert(before[b0] == after[b]);
    }
    assert forall|n: Seq<char>| names_set(after).contains(n) == names_set(before).remove(
        before[place]@,
    ).contains(n) by {
        if names_set(after).contains(n) {
            let k = choose|k: int| 0 <= k < after.len() && (#[trigger] after[k])@ == n;
            let k0 = if k < place { k } else { k + 1 };
            assert(before[k0] == after[k]);
        }
        if names_set(before).contains(n) && n != before[place]@ {
            let k0 = choose|k: int| 0 <= k < before.len() && (#[trigger] before[k])@ == n;
            let k = if k0 < place { k0 } else { k0 - 1 };
            assert(before[k0] == after[k]);
        }
    }
    assert(names_set(after) =~= names_set(before).remove(before[place]@));
}

/// A list of distinct names has as many entries as its set has names.
pub proof fn lemma_names_count(names: Seq<String>)
    requires
        no_duplicates(names),
    ensures
        names_set(names).finite(),
        names_set(names).len() == names.len(),
    decreases names.len(),
{
    if names.len() == 0 {
        assert(names_set(names) =~= Set::<Seq<char>>::empty());
    } else {
        let init = names.drop_last();
        let last = names.last();
        assert(no_duplicates(init)) by {
            assert forall|i: int, j: int|
                0 <= i < init.len() && 0 <= j < init.len() && (#[trigger] init[i])@ == (
                #[trigger] init[j])@ implies i == j by {
                assert(names[i] == init[i] && names[j] == init[j]);
            }
        }
        lemma_names_count(init);
        assert(!names_set(init).contains(last@)) by {
            if names_set(init).contains(last@) {
                let k = choose|k: int| 0 <= k < init.len() && (#[trigger] init[k])@ == last@;
                assert(names[k] == init[k]);
                assert(names[names.len() - 1] == last);
            }
        }
        assert(init.push(last) =~= names);
        lemma_name_pushed(init, last);
    }
}

} // verus!
