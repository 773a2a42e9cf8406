//! Tables keyed by address: a vector of `(key, value)` entries whose keys are
//! pairwise distinct. The last entry with a key gives its value.
use vstd::prelude::*;

verus! {

/// The value stored under key `a`, if any.
pub open spec fn lookup<V>(s: Seq<(String, V)>, a: Seq<char>) -> Option<V>
    decreases s.len(),
{
    if s.len() == 0 {
        None
    } else if s.last().0@ == a {
        Some(s.last().1)
    } else {
        lookup(s.drop_last(), a)
    }
}

/// No two entries share a key.
pub open spec fn keys_unique<V>(s: Seq<(String, V)>) -> bool {
    forall|i: int, j: int| 0 <= i < j < s.len() ==> s[i].0@ != s[j].0@
}

/// Appending an entry makes it the value of its key and leaves the other keys.
pub proof fn lemma_lookup_push<V>(s: Seq<(String, V)>, e: (String, V), a: Seq<char>)
    ensures
        lookup(s.push(e), a) == if e.0@ == a { Some(e.1) } else { lookup(s, a) },
{
    assert(s.push(e).drop_last() =~= s);
}

/// With distinct keys the entry at `i` holds the value of its key.
pub proof fn lemma_lookup_at<V>(s: Seq<(String, V)>, i: int)
    requires
        keys_unique(s),
        0 <= i < s.len(),
    ensures
        lookup(s, s[i].0@) == Some(s[i].1),
    decreases s.len(),
{
    if i < s.len() - 1 {
        assert(s.last().0@ != s[i].0@);
        let t = s.drop_last();
        assert(t[i] == s[i]);
        lemma_lookup_at(t, i);
    }
}

/// A key that no entry holds has no value.
pub proof fn lemma_lookup_absent<V>(s: Seq<(String, V)>, a: Seq<char>)
    requires
        forall|i: int| 0 <= i < s.len() ==> s[i].0@ != a,
    ensures
        lookup(s, a) is None,
    decreases s.len(),
{
    if s.len() > 0 {
        lemma_lookup_absent(s.drop_last(), a);
    }
}

/// Replacing the value at `i` (keys distinct) changes the value of that key alone.
pub proof fn lemma_lookup_update<V>(s: Seq<(String, V)>, i: int, v: V, a: Seq<char>)
    requires
        keys_unique(s),
        0 <= i < s.len(),
    ensures
        lookup(s.update(i, (s[i].0, v)), a) == if s[i].0@ == a { Some(v) } else { lookup(s, a) },
        keys_unique(s.update(i, (s[i].0, v))),
    decreases s.len(),
{
    let u = s.update(i, (s[i].0, v));
    if i < s.len() - 1 {
        let t = s.drop_last();
        assert(u.drop_last() =~= t.update(i, (t[i].0, v)));
        lemma_lookup_update(t, i, v, a);
    } else {
        assert(u.drop_last() =~= s.drop_last());
    }
}

/// The index of the entry with key `a`.
pub fn find_key<V>(v: &Vec<(String, V)>, a: &String) -> (r: Option<usize>)
    requires
        keys_unique(v@),
    ensures
        match r {
            Some(i) => i < v@.len() && v@[i as int].0@ == a@ && lookup(v@, a@) == Some(
                v@[i as int].1,
            ),
            None => lookup(v@, a@) is None && forall|j: int| 0 <= j < v@.len() ==> v@[j].0@ != a@,
        },
{
    let mut i: usize = 0;
    while i < v.len()
        invariant
            i <= v@.len(),
            keys_unique(v@),
            forall|j: int| 0 <= j < i ==> v@[j].0@ != a@,
        decreases v@.len() - i,
    {
        if v[i].0 == *a {
            proof {
                lemma_lookup_at(v@, i as int);
            }
            return Some(i);
        }
        i += 1;
    }
    proof {
        lemma_lookup_absent(v@, a@);
    }
    None
}

/// Copies a table entry by entry.
pub fn copy_table<V: Copy>(v: &Vec<(String, V)>) -> (r: Vec<(String, V)>)
    ensures
        r@ == v@,
{
    let mut r: Vec<(String, V)> = Vec::new();
    let mut i: usize = 0;
    while i < v.len()
        invariant
            i <= v@.len(),
            r@ == v@.take(i as int),
        decreases v@.len() - i,
    {
        r.push((v[i].0.clone(), v[i].1));
        i += 1;
        assert(r@ =~= v@.take(i as int));
    }
    assert(v@.take(v@.len() as int) =~= v@);
    r
}

} // verus!

verus! {

/// Removing the entry at `i` (keys distinct) removes its key alone.
pub proof fn lemma_lookup_remove<V>(s: Seq<(String, V)>, i: int, a: Seq<char>)
    requires
        keys_unique(s),
        0 <= i < s.len(),
    ensures
        lookup(s.remove(i), a) == if s[i].0@ == a { None } else { lookup(s, a) },
        keys_unique(s.remove(i)),
    decreases s.len(),
{
    let r = s.remove(i);
    if i < s.len() - 1 {
        let t = s.drop_last();
        assert(r.drop_last() =~= t.remove(i));
        assert(r.last() == s.last());
        lemma_lookup_remove(t, i, a);
    } else {
        assert(r =~= s.drop_last());
        if s[i].0@ == a {
            lemma_lookup_absent(r, a);
        }
    }
}

} // verus!
