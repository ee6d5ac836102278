//! Keyed tables held in a `Vec`: at most one record per key, read as a map
//! from keys to records.
use vstd::prelude::*;

verus! {

/// A record that carries its own key.
pub trait Keyed: Sized {
    /// The executable form of the key.
    type Key: View;

    /// The key of the record, as a value of specifications.
    spec fn key(&self) -> <Self::Key as View>::V;

    /// Whether the record's key is `k`.
    fn has_key(&self, k: &Self::Key) -> (r: bool)
        ensures
            r == (self.key() == k@);
}

/// No two records of `s` share a key.
pub open spec fn unique_keys<T: Keyed>(s: Seq<T>) -> bool {
    forall|i: int, j: int| 0 <= i < s.len() && 0 <= j < s.len() && i != j ==> #[trigger] s[i].key() != #[trigger] s[j].key()
}

/// Whether some record of `s` has key `k`.
pub open spec fn has_key_in<T: Keyed>(s: Seq<T>, k: <T::Key as View>::V) -> bool {
    exists|i: int| 0 <= i < s.len() && #[trigger] s[i].key() == k
}

/// The table as a map from keys to records.
pub open spec fn table_map<T: Keyed>(s: Seq<T>) -> Map<<T::Key as View>::V, T> {
    Map::new(
        |k: <T::Key as View>::V| has_key_in(s, k),
        |k: <T::Key as View>::V| s[choose|i: int| 0 <= i < s.len() && #[trigger] s[i].key() == k],
    )
}

/// In a table with unique keys, the map holds each record under its key.
pub proof fn lemma_table_map_at<T: Keyed>(s: Seq<T>, j: int)
    requires
        unique_keys(s),
        0 <= j < s.len(),
    ensures
        table_map(s).contains_key(s[j].key()),
        table_map(s)[s[j].key()] == s[j],
{
    let k = s[j].key();
    assert(has_key_in(s, k));
    let i = choose|i: int| 0 <= i < s.len() && #[trigger] s[i].key() == k;
    assert(i == j);
}

/// Index of the record with key `k`, if any.
pub fn find_index<T: Keyed>(v: &Vec<T>, k: &T::Key) -> (r: Option<usize>)
    ensures
        match r {
            Some(i) => i < v@.len() && v@[i as int].key() == k@,
            None => !has_key_in(v@, k@),
        },
{
    let mut i: usize = 0;
    while i < v.len()
        invariant
            i <= v@.len(),
            forall|j: int| 0 <= j < i ==> #[trigger] v@[j].key() != k@,
        decreases v@.len() - i,
    {
        if v[i].has_key(k) {
            return Some(i);
        }
        i = i + 1;
    }
    None
}

/// Inserts `x`, replacing the record with the same key if there is one.
pub fn upsert<T: Keyed>(v: &mut Vec<T>, x: T, k: &T::Key)
    requires
        unique_keys(old(v)@),
        x.key() == k@,
    ensures
        unique_keys(final(v)@),
        table_map(final(v)@) == table_map(old(v)@).insert(k@, x),
        final(v)@.len() == old(v)@.len() || final(v)@ == old(v)@.push(x),
        forall|i: int| 0 <= i < final(v)@.len() ==> #[trigger] final(v)@[i] == x || old(v)@.contains(final(v)@[i]),
{
    let ghost xv = x;
    match find_index(v, k) {
        Some(i) => {
            v.set(i, x);
            proof {
                lemma_update_map(old(v)@, i as int, xv);
                assert forall|j: int| 0 <= j < v@.len() implies #[trigger] v@[j] == xv || old(v)@.contains(v@[j]) by {
                    if j != i {
                        assert(old(v)@[j] == v@[j]);
                    }
                }
            }
        },
        None => {
            v.push(x);
            proof {
                lemma_push_map(old(v)@, xv);
                assert forall|j: int| 0 <= j < v@.len() implies #[trigger] v@[j] == xv || old(v)@.contains(v@[j]) by {
                    if j < old(v)@.len() {
                        assert(old(v)@[j] == v@[j]);
                    }
                }
            }
        },
    }
}

/// Replacing the record at `i` by one with the same key updates the map at
/// that key.
pub proof fn lemma_update_map<T: Keyed>(s: Seq<T>, i: int, x: T)
    requires
        unique_keys(s),
        0 <= i < s.len(),
        x.key() == s[i].key(),
    ensures
        unique_keys(s.update(i, x)),
        table_map(s.update(i, x)) == table_map(s).insert(x.key(), x),
{
    let t = s.update(i, x);
    assert(unique_keys(t)) by {
        assert forall|a: int, b: int| 0 <= a < t.len() && 0 <= b < t.len() && a != b implies #[trigger] t[a].key()
            != #[trigger] t[b].key() by {
            assert(s[a].key() != s[b].key());
        }
    }
    assert forall|k| #![auto] table_map(t).contains_key(k) <==> table_map(s).insert(x.key(), x).contains_key(k) by {
        if has_key_in(t, k) {
            let j = choose|j: int| 0 <= j < t.len() && #[trigger] t[j].key() == k;
            assert(s[j].key() == k || j == i);
        }
        if has_key_in(s, k) {
            let j = choose|j: int| 0 <= j < s.len() && #[trigger] s[j].key() == k;
            if j == i {
                assert(t[i].key() == k);
            } else {
                assert(t[j].key() == k);
            }
        }
        if k == x.key() {
            assert(t[i].key() == k);
        }
    }
    assert forall|k| #![auto] table_map(t).contains_key(k) implies table_map(t)[k] == table_map(s).insert(
        x.key(),
        x,
    )[k] by {
        let j = choose|j: int| 0 <= j < t.len() && #[trigger] t[j].key() == k;
        lemma_table_map_at(t, j);
        if j != i {
            lemma_table_map_at(s, j);
        }
    }
    assert(table_map(t) =~= table_map(s).insert(x.key(), x));
}

/// Appending a record with a new key adds it to the map.
pub proof fn lemma_push_map<T: Keyed>(s: Seq<T>, x: T)
    requires
        unique_keys(s),
        !has_key_in(s, x.key()),
    ensures
        unique_keys(s.push(x)),
        table_map(s.push(x)) == table_map(s).insert(x.key(), x),
{
    let t = s.push(x);
    assert(unique_keys(t)) by {
        assert forall|a: int, b: int| 0 <= a < t.len() && 0 <= b < t.len() && a != b implies #[trigger] t[a].key()
            != #[trigger] t[b].key() by {
            if a < s.len() && b < s.len() {
                assert(s[a].key() != s[b].key());
            } else if a < s.len() {
                assert(t[a] == s[a]);
            } else {
                assert(t[b] == s[b]);
            }
        }
    }
    assert forall|k| #![auto] table_map(t).contains_key(k) <==> table_map(s).insert(x.key(), x).contains_key(k) by {
        if has_key_in(t, k) {
            let j = choose|j: int| 0 <= j < t.len() && #[trigger] t[j].key() == k;
            if j < s.len() {
                assert(s[j].key() == k);
            }
        }
        if has_key_in(s, k) {
            let j = choose|j: int| 0 <= j < s.len() && #[trigger] s[j].key() == k;
            assert(t[j].key() == k);
        }
        if k == x.key() {
            assert(t[s.len() as int].key() == k);
        }
    }
    assert forall|k| #![auto] table_map(t).contains_key(k) implies table_map(t)[k] == table_map(s).insert(
        x.key(),
        x,
    )[k] by {
        let j = choose|j: int| 0 <= j < t.len() && #[trigger] t[j].key() == k;
        lemma_table_map_at(t, j);
        if j < s.len() {
            lemma_table_map_at(s, j);
        }
    }
    assert(table_map(t) =~= table_map(s).insert(x.key(), x));
}

/// A subsequence that keeps the relative order keeps keys unique.
pub proof fn lemma_filter_unique<T: Keyed>(s: Seq<T>, p: spec_fn(T) -> bool)
    requires
        unique_keys(s),
    ensures
        unique_keys(s.filter(p)),
        forall|k| #[trigger] has_key_in(s.filter(p), k) ==> has_key_in(s, k),
    decreases s.len(),
{
    reveal(Seq::filter);
    if s.len() > 0 {
        let init = s.drop_last();
        assert(unique_keys(init)) by {
            assert forall|a: int, b: int| 0 <= a < init.len() && 0 <= b < init.len() && a != b implies #[trigger] init[a].key()
                != #[trigger] init[b].key() by {
                assert(s[a].key() != s[b].key());
            }
        }
        lemma_filter_unique(init, p);
        let f = init.filter(p);
        assert forall|k| #[trigger] has_key_in(f, k) implies has_key_in(s, k) by {
            let j = choose|j: int| 0 <= j < f.len() && #[trigger] f[j].key() == k;
            assert(has_key_in(init, k));
            let i = choose|i: int| 0 <= i < init.len() && #[trigger] init[i].key() == k;
            assert(s[i].key() == k);
        }
        if p(s.last()) {
            let t = f.push(s.last());
            assert(s.filter(p) == t);
            assert(!has_key_in(f, s.last().key())) by {
                if has_key_in(f, s.last().key()) {
                    let i = choose|i: int| 0 <= i < init.len() && #[trigger] init[i].key() == s.last().key();
                    assert(s[i].key() == s[s.len() - 1].key());
                }
            }
            lemma_push_map(f, s.last());
            assert forall|k| #[trigger] has_key_in(t, k) implies has_key_in(s, k) by {
                let j = choose|j: int| 0 <= j < t.len() && #[trigger] t[j].key() == k;
                if j < f.len() {
                    assert(has_key_in(f, k));
                } else {
                    assert(s[s.len() - 1].key() == k);
                }
            }
        } else {
            assert(s.filter(p) == f);
        }
    }
}

} // verus!
