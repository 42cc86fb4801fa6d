//! Association lists: texts under distinct names, in order of arrival.
use vstd::prelude::*;

use crate::text::text_eq;

verus! {

/// The map that a list of pairs stands for.
pub open spec fn assoc_map(s: Seq<(String, String)>) -> Map<Seq<char>, Seq<char>>
    decreases s.len(),
{
    if s.len() == 0 {
        Map::empty()
    } else {
        assoc_map(s.drop_last()).insert(s.last().0@, s.last().1@)
    }
}

pub open spec fn distinct_names(s: Seq<(String, String)>) -> bool {
    forall|i: int, j: int| 0 <= i < j < s.len() ==> (#[trigger] s[i]).0@ != (#[trigger] s[j]).0@
}

pub proof fn lemma_assoc_keys(s: Seq<(String, String)>, k: Seq<char>)
    ensures
        assoc_map(s).contains_key(k) <==> exists|i: int|
            0 <= i < s.len() && (#[trigger] s[i]).0@ == k,
    decreases s.len(),
{
    if s.len() > 0 {
        let t = s.drop_last();
        lemma_assoc_keys(t, k);
        if s.last().0@ == k {
            assert(s[s.len() - 1].0@ == k);
        } else {
            if assoc_map(t).contains_key(k) {
                let i = choose|i: int| 0 <= i < t.len() && (#[trigger] t[i]).0@ == k;
                assert(s[i].0@ == k);
            }
            if exists|i: int| 0 <= i < s.len() && (#[trigger] s[i]).0@ == k {
                let i = choose|i: int| 0 <= i < s.len() && (#[trigger] s[i]).0@ == k;
                assert(t[i].0@ == k);
            }
        }
    }
}

pub proof fn lemma_assoc_value(s: Seq<(String, String)>, i: int)
    requires
        distinct_names(s),
        0 <= i < s.len(),
    ensures
        assoc_map(s).contains_key(s[i].0@),
        assoc_map(s)[s[i].0@] == s[i].1@,
    decreases s.len(),
{
    if i < s.len() - 1 {
        let t = s.drop_last();
        lemma_assoc_value(t, i);
        assert(t[i] == s[i]);
        assert(s[i].0@ != s[s.len() - 1].0@);
    }
}

proof fn lemma_assoc_update(s: Seq<(String, String)>, k: int, e: (String, String))
    requires
        distinct_names(s),
        0 <= k < s.len(),
        e.0@ == s[k].0@,
    ensures
        assoc_map(s.update(k, e)) == assoc_map(s).insert(e.0@, e.1@),
    decreases s.len(),
{
    let u = s.update(k, e);
    if k == s.len() - 1 {
        assert(u.drop_last() =~= s.drop_last());
        assert(assoc_map(u) =~= assoc_map(s).insert(e.0@, e.1@));
    } else {
        let t = s.drop_last();
        lemma_assoc_update(t, k, e);
        assert(u.drop_last() =~= t.update(k, e));
        assert(u.last() == s.last());
        assert(s[k].0@ != s[s.len() - 1].0@);
        assert(assoc_map(u) =~= assoc_map(s).insert(e.0@, e.1@));
    }
}

pub fn assoc_index(list: &Vec<(String, String)>, name: &str) -> (r: Option<usize>)
    ensures
        match r {
            Some(i) => i < list.len() && list@[i as int].0@ == name@,
            None => forall|i: int| 0 <= i < list.len() ==> (#[trigger] list@[i]).0@ != name@,
        },
{
    let mut i: usize = 0;
    while i < list.len()
        invariant
            i <= list.len(),
            forall|k: int| 0 <= k < i ==> (#[trigger] list@[k]).0@ != name@,
        decreases list.len() - i,
    {
        if text_eq(list[i].0.as_str(), name) {
            return Some(i);
        }
        i = i + 1;
    }
    None
}

/// Puts a text under a name, in place of the one that was there.
pub fn assoc_put(list: &mut Vec<(String, String)>, name: String, value: String)
    requires
        distinct_names(old(list)@),
    ensures
        distinct_names(final(list)@),
        assoc_map(final(list)@) == assoc_map(old(list)@).insert(name@, value@),
{
    let ghost before = list@;
    match assoc_index(list, name.as_str()) {
        Some(k) => {
            let ghost e = (name, value);
            list[k] = (name, value);
            proof {
                assert(list@ =~= before.update(k as int, e));
                lemma_assoc_update(before, k as int, e);
                assert forall|a: int, b: int| 0 <= a < b < list@.len() implies (
                #[trigger] list@[a]).0@ != (#[trigger] list@[b]).0@ by {
                    assert(before[a].0@ != before[b].0@);
                }
            }
        },
        None => {
            list.push((name, value));
            proof {
                assert(list@.drop_last() =~= before);
                assert forall|a: int, b: int| 0 <= a < b < list@.len() implies (
                #[trigger] list@[a]).0@ != (#[trigger] list@[b]).0@ by {
                    assert(list@[a] == before[a]);
                    if b < before.len() {
                        assert(list@[b] == before[b]);
                    }
                }
            }
        },
    }
}

/// The text under a name.
pub fn assoc_get<'a>(list: &'a Vec<(String, String)>, name: &str) -> (r: Option<&'a str>)
    requires
        distinct_names(list@),
    ensures
        match r {
            Some(v) => assoc_map(list@).contains_key(name@) && assoc_map(list@)[name@] == v@,
            None => !assoc_map(list@).contains_key(name@),
        },
{
    match assoc_index(list, name) {
        Some(i) => {
            proof {
                lemma_assoc_value(list@, i as int);
            }
            Some(list[i].1.as_str())
        },
        None => {
            proof {
                lemma_assoc_keys(list@, name@);
            }
            None
        },
    }
}

} // verus!
