//! The fragment store: an ordered map from fragment keys to values.
//!
//! Keys are unique and writes overwrite in place (last-writer-wins), which is
//! the merge rule across metadata seeding and successive script runs.
//! Insertion order is preserved so the store can be displayed in the order
//! the fragments were produced.

use vstd::prelude::*;

use crate::text::{chars_to_string, push_str_chars};

verus! {

/// One named value available for template substitution.
pub struct Fragment {
    pub key: String,
    pub value: String,
}

impl View for Fragment {
    type V = (Seq<char>, Seq<char>);

    open spec fn view(&self) -> (Seq<char>, Seq<char>) {
        (self.key@, self.value@)
    }
}

/// The key/value pairs of a fragment sequence, as character sequences.
pub open spec fn pairs_of(frs: Seq<Fragment>) -> Seq<(Seq<char>, Seq<char>)> {
    frs.map_values(|f: Fragment| f@)
}

/// The value an entry sequence associates with `k`: the first entry whose
/// key is `k`. In a well-formed store keys are unique, so the first match is
/// the only one.
pub open spec fn lookup(entries: Seq<(Seq<char>, Seq<char>)>, k: Seq<char>) -> Option<Seq<char>>
    decreases entries.len(),
{
    if entries.len() == 0 {
        None
    } else if entries[0].0 == k {
        Some(entries[0].1)
    } else {
        lookup(entries.drop_first(), k)
    }
}

/// Writing key `k` with value `v`: an existing entry for `k` is replaced in
/// place, keeping its position; a new key is appended at the end.
pub open spec fn store_write(
    entries: Seq<(Seq<char>, Seq<char>)>,
    k: Seq<char>,
    v: Seq<char>,
) -> Seq<(Seq<char>, Seq<char>)>
    decreases entries.len(),
{
    if entries.len() == 0 {
        seq![(k, v)]
    } else if entries[0].0 == k {
        seq![(k, v)] + entries.drop_first()
    } else {
        seq![entries[0]] + store_write(entries.drop_first(), k, v)
    }
}

/// After writing `k`, looking `k` up yields exactly the written value.
pub proof fn lemma_lookup_write_same(
    entries: Seq<(Seq<char>, Seq<char>)>,
    k: Seq<char>,
    v: Seq<char>,
)
    ensures
        lookup(store_write(entries, k, v), k) == Some(v),
    decreases entries.len(),
{
    if entries.len() == 0 {
    } else if entries[0].0 == k {
    } else {
        lemma_lookup_write_same(entries.drop_first(), k, v);
        assert((seq![entries[0]] + store_write(entries.drop_first(), k, v)).drop_first()
            =~= store_write(entries.drop_first(), k, v));
    }
}

/// Writing `k` leaves every other key's value untouched.
pub proof fn lemma_lookup_write_other(
    entries: Seq<(Seq<char>, Seq<char>)>,
    k: Seq<char>,
    v: Seq<char>,
    other: Seq<char>,
)
    requires
        other != k,
    ensures
        lookup(store_write(entries, k, v), other) == lookup(entries, other),
    decreases entries.len(),
{
    if entries.len() == 0 {
        let s = seq![(k, v)];
        assert(store_write(entries, k, v) == s);
        assert(s[0].0 == k);
        assert(s.drop_first() =~= Seq::<(Seq<char>, Seq<char>)>::empty());
        assert(lookup(s.drop_first(), other) is None);
        assert(lookup(s, other) is None);
    } else if entries[0].0 == k {
        let s = seq![(k, v)] + entries.drop_first();
        assert(store_write(entries, k, v) == s);
        assert(s[0].0 == k);
        assert(s.drop_first() =~= entries.drop_first());
        assert(lookup(s, other) == lookup(entries.drop_first(), other));
        assert(lookup(entries, other) == lookup(entries.drop_first(), other));
    } else {
        lemma_lookup_write_other(entries.drop_first(), k, v, other);
        let s = seq![entries[0]] + store_write(entries.drop_first(), k, v);
        assert(store_write(entries, k, v) == s);
        assert(s[0] == entries[0]);
        assert(s.drop_first() =~= store_write(entries.drop_first(), k, v));
        if entries[0].0 == other {
            assert(lookup(s, other) == Some(entries[0].1));
            assert(lookup(entries, other) == Some(entries[0].1));
        } else {
            assert(lookup(s, other) == lookup(store_write(entries.drop_first(), k, v), other));
            assert(lookup(entries, other) == lookup(entries.drop_first(), other));
        }
    }
}

/// Last write wins: writing key `k` with `v1` and then `v2` leaves the store
/// holding `v2` for `k`, whatever the writes' sources were.
pub proof fn lemma_last_write_wins(
    entries: Seq<(Seq<char>, Seq<char>)>,
    k: Seq<char>,
    v1: Seq<char>,
    v2: Seq<char>,
)
    ensures
        lookup(store_write(store_write(entries, k, v1), k, v2), k) == Some(v2),
{
    lemma_lookup_write_same(store_write(entries, k, v1), k, v2);
}

/// A write where the key already stands at position `i` (and nowhere
/// earlier) replaces that entry in place.
proof fn lemma_write_found(
    entries: Seq<(Seq<char>, Seq<char>)>,
    k: Seq<char>,
    v: Seq<char>,
    i: int,
)
    requires
        0 <= i < entries.len(),
        entries[i].0 == k,
        forall|j: int| 0 <= j < i ==> entries[j].0 != k,
    ensures
        store_write(entries, k, v) == entries.update(i, (k, v)),
    decreases entries.len(),
{
    if i == 0 {
        assert(seq![(k, v)] + entries.drop_first() =~= entries.update(0, (k, v)));
    } else {
        assert(entries[0].0 != k);
        lemma_write_found(entries.drop_first(), k, v, i - 1);
        assert(seq![entries[0]] + entries.drop_first().update(i - 1, (k, v)) =~= entries.update(
            i,
            (k, v),
        ));
    }
}

/// A write of a key that is absent appends the new entry at the end.
proof fn lemma_write_absent(entries: Seq<(Seq<char>, Seq<char>)>, k: Seq<char>, v: Seq<char>)
    requires
        forall|j: int| 0 <= j < entries.len() ==> entries[j].0 != k,
    ensures
        store_write(entries, k, v) == entries.push((k, v)),
    decreases entries.len(),
{
    if entries.len() == 0 {
        assert(seq![(k, v)] =~= entries.push((k, v)));
    } else {
        assert(entries[0].0 != k);
        assert(forall|j: int|
            0 <= j < entries.drop_first().len() ==> entries.drop_first()[j].0 != k);
        lemma_write_absent(entries.drop_first(), k, v);
        assert(seq![entries[0]] + entries.drop_first().push((k, v)) =~= entries.push((k, v)));
    }
}

/// If `k` first occurs at position `i`, the lookup yields that entry's value.
proof fn lemma_lookup_found(entries: Seq<(Seq<char>, Seq<char>)>, k: Seq<char>, i: int)
    requires
        0 <= i < entries.len(),
        entries[i].0 == k,
        forall|j: int| 0 <= j < i ==> entries[j].0 != k,
    ensures
        lookup(entries, k) == Some(entries[i].1),
    decreases entries.len(),
{
    if i == 0 {
    } else {
        assert(entries[0].0 != k);
        lemma_lookup_found(entries.drop_first(), k, i - 1);
    }
}

/// If no entry's key is `k`, the lookup yields nothing.
proof fn lemma_lookup_absent(entries: Seq<(Seq<char>, Seq<char>)>, k: Seq<char>)
    requires
        forall|j: int| 0 <= j < entries.len() ==> entries[j].0 != k,
    ensures
        lookup(entries, k) is None,
    decreases entries.len(),
{
    if entries.len() == 0 {
    } else {
        assert(entries[0].0 != k);
        lemma_lookup_absent(entries.drop_first(), k);
    }
}

/// The readable form of an entry sequence: one `key=value` line per entry,
/// in order.
pub open spec fn listing_of(entries: Seq<(Seq<char>, Seq<char>)>) -> Seq<char>
    decreases entries.len(),
{
    if entries.len() == 0 {
        Seq::empty()
    } else {
        entries[0].0 + seq!['='] + entries[0].1 + seq!['\n'] + listing_of(entries.drop_first())
    }
}

/// The per-file mapping of fragment keys to their current values.
pub struct FragmentStore {
    entries: Vec<Fragment>,
}

impl View for FragmentStore {
    type V = Seq<(Seq<char>, Seq<char>)>;

    closed spec fn view(&self) -> Seq<(Seq<char>, Seq<char>)> {
        pairs_of(self.entries@)
    }
}

impl FragmentStore {
    /// Keys are unique: a write to an existing key overwrites it in place.
    pub open spec fn wf(&self) -> bool {
        forall|i: int, j: int|
            #![trigger self@[i], self@[j]]
            0 <= i < j < self@.len() ==> self@[i].0 != self@[j].0
    }

    /// An empty store.
    pub fn new() -> (s: FragmentStore)
        ensures
            s@ == Seq::<(Seq<char>, Seq<char>)>::empty(),
            s.wf(),
    {
        let s = FragmentStore { entries: Vec::new() };
        proof {
            assert(s@ =~= Seq::<(Seq<char>, Seq<char>)>::empty());
        }
        s
    }

    /// The number of fragments held.
    pub fn len(&self) -> (n: usize)
        ensures
            n == self@.len(),
    {
        self.entries.len()
    }

    /// Writes `value` under `key`, overwriting any previous value for `key`.
    pub fn set(&mut self, key: String, value: String)
        requires
            old(self).wf(),
        ensures
            final(self).wf(),
            final(self)@ == store_write(old(self)@, key@, value@),
    {
        let n = self.entries.len();
        let mut i: usize = 0;
        while i < n
            invariant
                i <= n,
                n == self.entries@.len(),
                self.entries@ == old(self).entries@,
                old(self).wf(),
                forall|j: int| 0 <= j < i ==> old(self)@[j].0 != key@,
            decreases n - i,
        {
            if self.entries[i].key == key {
                proof {
                    assert(old(self)@[i as int].0 == key@);
                }
                self.entries[i] = Fragment { key, value };
                proof {
                    lemma_write_found(old(self)@, key@, value@, i as int);
                    assert(self@ =~= old(self)@.update(i as int, (key@, value@)));
                    assert forall|a: int, b: int|
                        0 <= a < b < self@.len() implies self@[a].0 != self@[b].0 by {
                        assert(self@[a].0 == old(self)@[a].0);
                        assert(self@[b].0 == old(self)@[b].0);
                        assert(old(self)@[a].0 != old(self)@[b].0);
                    }
                }
                return ;
            }
            i += 1;
        }
        proof {
            assert(forall|j: int| 0 <= j < old(self)@.len() ==> old(self)@[j].0 != key@);
        }
        self.entries.push(Fragment { key, value });
        proof {
            lemma_write_absent(old(self)@, key@, value@);
            assert(self@ =~= old(self)@.push((key@, value@)));
            assert forall|a: int, b: int|
                0 <= a < b < self@.len() implies self@[a].0 != self@[b].0 by {
                if b < old(self)@.len() {
                } else {
                    assert(self@[b] == (key@, value@));
                    assert(self@[a].0 == old(self)@[a].0);
                }
            }
        }
    }

    /// The current value for `key`, if any was ever written.
    pub fn get(&self, key: &String) -> (r: Option<&String>)
        ensures
            match r {
                Some(v) => lookup(self@, key@) == Some(v@),
                None => lookup(self@, key@) is None,
            },
    {
        let n = self.entries.len();
        let mut i: usize = 0;
        while i < n
            invariant
                i <= n,
                n == self.entries@.len(),
                forall|j: int| 0 <= j < i ==> self@[j].0 != key@,
            decreases n - i,
        {
            if self.entries[i].key == *key {
                proof {
                    lemma_lookup_found(self@, key@, i as int);
                }
                return Some(&self.entries[i].value);
            }
            i += 1;
        }
        proof {
            lemma_lookup_absent(self@, key@);
        }
        None
    }

    /// One `key=value` line per fragment, in insertion order: how the
    /// gathered fragments are shown to the user before rendering.
    pub fn listing(&self) -> (r: String)
        ensures
            r@ == listing_of(self@),
    {
        let n = self.entries.len();
        let mut out: Vec<char> = Vec::new();
        let mut i: usize = 0;
        proof {
            assert(self@.skip(0) =~= self@);
            assert(Seq::<char>::empty() + listing_of(self@) =~= listing_of(self@));
        }
        while i < n
            invariant
                i <= n,
                n == self.entries@.len(),
                n == self@.len(),
                listing_of(self@) == out@ + listing_of(self@.skip(i as int)),
            decreases n - i,
        {
            proof {
                assert(self@.skip(i as int)[0] == self@[i as int]);
                assert(self@.skip(i as int).drop_first() =~= self@.skip(i as int + 1));
            }
            let ghost before = out@;
            let entry = &self.entries[i];
            push_str_chars(&mut out, entry.key.as_str());
            out.push('=');
            push_str_chars(&mut out, entry.value.as_str());
            out.push('\n');
            proof {
                assert(out@ =~= before + (self@[i as int].0 + seq!['='] + self@[i as int].1
                    + seq!['\n']));
                assert(before + (self@[i as int].0 + seq!['='] + self@[i as int].1 + seq!['\n']
                    + listing_of(self@.skip(i as int + 1))) =~= out@ + listing_of(
                    self@.skip(i as int + 1),
                ));
            }
            i += 1;
        }
        proof {
            assert(self@.skip(n as int) =~= Seq::<(Seq<char>, Seq<char>)>::empty());
            assert(out@ + Seq::<char>::empty() =~= out@);
        }
        chars_to_string(&out)
    }

    /// Whether `key` was ever written.
    pub fn contains_key(&self, key: &String) -> (r: bool)
        ensures
            r == (lookup(self@, key@) is Some),
    {
        match self.get(key) {
            Some(_) => true,
            None => false,
        }
    }
}

} // verus!
