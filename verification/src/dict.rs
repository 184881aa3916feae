//! Dictionaries keyed by text, kept as the list of their entries in the
//! order in which they are walked.

use vstd::prelude::*;
use crate::text::str_eq;

verus! {

/// The entries of a dictionary, each key with the view of its value.
pub open spec fn entries_view<T: View>(entries: Seq<(String, T)>) -> Seq<(Seq<char>, T::V)> {
    Seq::new(entries.len(), |i: int| (entries[i].0@, entries[i].1@))
}

/// The texts of a list of strings.
pub open spec fn strings_view(strings: Seq<String>) -> Seq<Seq<char>> {
    Seq::new(strings.len(), |i: int| strings[i]@)
}

/// The position of the first entry under `key`.
pub open spec fn position<V>(entries: Seq<(Seq<char>, V)>, key: Seq<char>) -> Option<int>
    decreases entries.len(),
{
    if entries.len() == 0 {
        None
    } else if entries[0].0 == key {
        Some(0)
    } else {
        match position(entries.skip(1), key) {
            Some(i) => Some(i + 1),
            None => None,
        }
    }
}

/// The value of the first entry under `key`.
pub open spec fn lookup<V>(entries: Seq<(Seq<char>, V)>, key: Seq<char>) -> Option<V> {
    match position(entries, key) {
        Some(i) => Some(entries[i].1),
        None => None,
    }
}

/// `position` finds an entry under the key, and none stands before it.
pub proof fn lemma_position<V>(entries: Seq<(Seq<char>, V)>, key: Seq<char>)
    ensures
        match position(entries, key) {
            Some(i) => 0 <= i < entries.len() && entries[i].0 == key && forall|j: int|
                0 <= j < i ==> entries[j].0 != key,
            None => forall|j: int| 0 <= j < entries.len() ==> entries[j].0 != key,
        },
    decreases entries.len(),
{
    if entries.len() > 0 && entries[0].0 != key {
        let rest = entries.skip(1);
        lemma_position(rest, key);
        match position(rest, key) {
            Some(i) => {
                assert forall|j: int| 0 <= j < i + 1 implies entries[j].0 != key by {
                    if j > 0 {
                        assert(rest[j - 1] == entries[j]);
                    }
                }
                assert(rest[i] == entries[i + 1]);
            },
            None => {
                assert forall|j: int| 0 <= j < entries.len() implies entries[j].0 != key by {
                    if j > 0 {
                        assert(rest[j - 1] == entries[j]);
                    }
                }
            },
        }
    }
}

/// An entry under the key with none before it is the one `position` finds.
pub proof fn lemma_position_is(entries: Seq<(Seq<char>, int)>, key: Seq<char>, i: int)
    requires
        0 <= i < entries.len(),
        entries[i].0 == key,
        forall|j: int| 0 <= j < i ==> entries[j].0 != key,
    ensures
        position(entries, key) == Some(i),
{
    lemma_position(entries, key);
}

/// The position of the first entry under `key`, if there is one.
pub fn find_position<T: View>(entries: &Vec<(String, T)>, key: &str) -> (r: Option<usize>)
    ensures
        match r {
            Some(i) => position(entries_view(entries@), key@) == Some(i as int),
            None => position(entries_view(entries@), key@) is None,
        },
{
    let ghost view = entries_view(entries@);
    let mut i: usize = 0;
    while i < entries.len()
        invariant
            i <= entries.len(),
            view == entries_view(entries@),
            forall|j: int| 0 <= j < i ==> view[j].0 != key@,
        decreases entries.len() - i,
    {
        if str_eq(entries[i].0.as_str(), key) {
            proof {
                assert(view[i as int].0 == key@);
                lemma_position(view, key@);
            }
            return Some(i);
        }
        i += 1;
    }
    proof {
        lemma_position(view, key@);
    }
    None
}

/// The value of the first entry under `key`, if there is one.
pub fn find<'a, T: View>(entries: &'a Vec<(String, T)>, key: &str) -> (r: Option<&'a T>)
    ensures
        match r {
            Some(v) => lookup(entries_view(entries@), key@) == Some(v@),
            None => lookup(entries_view(entries@), key@) is None,
        },
{
    match find_position(entries, key) {
        Some(i) => {
            proof {
                lemma_position(entries_view(entries@), key@);
            }
            Some(&entries[i].1)
        },
        None => None,
    }
}

} // verus!
