use vstd::prelude::*;
use vstd::utf8::{encode_utf8, encode_utf8_decode_utf8};

verus! {

/// Lexicographic order on byte strings: the order in which `String` values compare.
pub open spec fn bytes_lt(a: Seq<u8>, b: Seq<u8>) -> bool
    decreases a.len(),
{
    if a.len() == 0 {
        b.len() > 0
    } else if b.len() == 0 {
        false
    } else if a[0] != b[0] {
        a[0] < b[0]
    } else {
        bytes_lt(a.drop_first(), b.drop_first())
    }
}

/// Order on keys: by the UTF-8 encoding of their characters, as `String`'s `Ord` does.
pub open spec fn key_lt(a: Seq<char>, b: Seq<char>) -> bool {
    bytes_lt(encode_utf8(a), encode_utf8(b))
}

/// The entries are in strictly increasing key order (so no key occurs twice).
pub open spec fn sorted_entries<V>(s: Seq<(Seq<char>, V)>) -> bool {
    forall|i: int, j: int| 0 <= i < j < s.len() ==> key_lt(#[trigger] s[i].0, #[trigger] s[j].0)
}

/// Whether some entry has key `k`.
pub open spec fn has_key<V>(s: Seq<(Seq<char>, V)>, k: Seq<char>) -> bool {
    exists|i: int| 0 <= i < s.len() && #[trigger] s[i].0 == k
}

/// An index at which key `k` sits, where it has one.
pub open spec fn key_index<V>(s: Seq<(Seq<char>, V)>, k: Seq<char>) -> int {
    choose|i: int| 0 <= i < s.len() && #[trigger] s[i].0 == k
}

/// The mapping that a sequence of entries with distinct keys stands for.
pub open spec fn entries_map<V>(s: Seq<(Seq<char>, V)>) -> Map<Seq<char>, V> {
    Map::new(|k: Seq<char>| has_key(s, k), |k: Seq<char>| s[key_index(s, k)].1)
}

proof fn lemma_bytes_lt_irreflexive(a: Seq<u8>)
    ensures
        !bytes_lt(a, a),
    decreases a.len(),
{
    if a.len() > 0 {
        lemma_bytes_lt_irreflexive(a.drop_first());
    }
}

proof fn lemma_bytes_lt_transitive(a: Seq<u8>, b: Seq<u8>, c: Seq<u8>)
    requires
        bytes_lt(a, b),
        bytes_lt(b, c),
    ensures
        bytes_lt(a, c),
    decreases a.len(),
{
    if a.len() > 0 && b.len() > 0 && c.len() > 0 && a[0] == b[0] && b[0] == c[0] {
        lemma_bytes_lt_transitive(a.drop_first(), b.drop_first(), c.drop_first());
    }
}

proof fn lemma_bytes_lt_total(a: Seq<u8>, b: Seq<u8>)
    requires
        a != b,
    ensures
        bytes_lt(a, b) || bytes_lt(b, a),
    decreases a.len(),
{
    if a.len() > 0 && b.len() > 0 && a[0] == b[0] {
        if a.drop_first() == b.drop_first() {
            assert(a.drop_first().len() == a.len() - 1);
            assert(b.drop_first().len() == b.len() - 1);
            assert forall|i: int| 0 <= i < a.len() implies a[i] == b[i] by {
                if i > 0 {
                    assert(a[i] == a.drop_first()[i - 1]);
                    assert(b[i] == b.drop_first()[i - 1]);
                }
            }
            assert(a =~= b);
        } else {
            lemma_bytes_lt_total(a.drop_first(), b.drop_first());
        }
    } else if a.len() == 0 && b.len() == 0 {
        assert(a =~= b);
    }
}

proof fn lemma_key_lt_irreflexive(a: Seq<char>)
    ensures
        !key_lt(a, a),
{
    lemma_bytes_lt_irreflexive(encode_utf8(a));
}

proof fn lemma_key_lt_transitive(a: Seq<char>, b: Seq<char>, c: Seq<char>)
    requires
        key_lt(a, b),
        key_lt(b, c),
    ensures
        key_lt(a, c),
{
    lemma_bytes_lt_transitive(encode_utf8(a), encode_utf8(b), encode_utf8(c));
}

proof fn lemma_key_lt_total(a: Seq<char>, b: Seq<char>)
    requires
        a != b,
    ensures
        key_lt(a, b) || key_lt(b, a),
{
    encode_utf8_decode_utf8(a);
    encode_utf8_decode_utf8(b);
    lemma_bytes_lt_total(encode_utf8(a), encode_utf8(b));
}

/// In sorted entries a key sits at one index only.
proof fn lemma_sorted_unique<V>(s: Seq<(Seq<char>, V)>, i: int, j: int)
    requires
        sorted_entries(s),
        0 <= i < s.len(),
        0 <= j < s.len(),
        s[i].0 == s[j].0,
    ensures
        i == j,
{
    if i < j {
        lemma_key_lt_irreflexive(s[i].0);
    } else if j < i {
        lemma_key_lt_irreflexive(s[i].0);
    }
}

/// The mapping of sorted entries sends each entry's key to that entry's value.
pub proof fn lemma_entries_map_index<V>(s: Seq<(Seq<char>, V)>, i: int)
    requires
        sorted_entries(s),
        0 <= i < s.len(),
    ensures
        entries_map(s).contains_key(s[i].0),
        entries_map(s)[s[i].0] == s[i].1,
{
    let k = s[i].0;
    assert(has_key(s, k));
    let j = key_index(s, k);
    lemma_sorted_unique(s, i, j);
}

/// Entries with the first one dropped are still sorted and stand for the
/// mapping without the first key.
proof fn lemma_drop_first<V>(s: Seq<(Seq<char>, V)>)
    requires
        sorted_entries(s),
        s.len() > 0,
    ensures
        sorted_entries(s.drop_first()),
        entries_map(s.drop_first()) == entries_map(s).remove(s[0].0),
{
    let t = s.drop_first();
    let k = s[0].0;
    assert forall|a: int, b: int| 0 <= a < b < t.len() implies key_lt(
        #[trigger] t[a].0,
        #[trigger] t[b].0,
    ) by {
        assert(key_lt(s[a + 1].0, s[b + 1].0));
    }
    let m = entries_map(s).remove(k);
    assert forall|kx: Seq<char>| #[trigger] has_key(t, kx) == m.contains_key(kx) by {
        if has_key(t, kx) {
            let j = key_index(t, kx);
            assert(s[j + 1].0 == kx);
            lemma_key_lt_irreflexive(kx);
            assert(key_lt(s[0].0, s[j + 1].0));
        }
        if m.contains_key(kx) {
            let j = key_index(s, kx);
            assert(j != 0);
            assert(t[j - 1].0 == kx);
        }
    }
    assert forall|kx: Seq<char>| #[trigger] m.contains_key(kx) implies entries_map(t)[kx]
        == m[kx] by {
        assert(has_key(t, kx));
        let j = key_index(t, kx);
        lemma_entries_map_index(t, j);
        assert(s[j + 1].0 == kx);
        lemma_entries_map_index(s, j + 1);
    }
    assert(entries_map(t) =~= m);
}

/// Sorted entries are determined by the mapping they stand for.
proof fn lemma_sorted_canonical<V>(s: Seq<(Seq<char>, V)>, t: Seq<(Seq<char>, V)>)
    requires
        sorted_entries(s),
        sorted_entries(t),
        entries_map(s) == entries_map(t),
    ensures
        s == t,
    decreases s.len(),
{
    if s.len() == 0 {
        if t.len() > 0 {
            lemma_entries_map_index(t, 0);
        }
        assert(s =~= t);
    } else {
        lemma_entries_map_index(s, 0);
        assert(has_key(t, s[0].0));
        lemma_entries_map_index(t, 0);
        assert(has_key(s, t[0].0));
        let i = key_index(s, t[0].0);
        let j = key_index(t, s[0].0);
        if i > 0 && j > 0 {
            lemma_key_lt_transitive(s[0].0, t[0].0, s[0].0);
            lemma_key_lt_irreflexive(s[0].0);
        }
        assert(s[0].0 == t[0].0);
        lemma_drop_first(s);
        lemma_drop_first(t);
        lemma_sorted_canonical(s.drop_first(), t.drop_first());
        assert forall|x: int| 0 <= x < s.len() implies s[x] == t[x] by {
            if x > 0 {
                assert(s[x] == s.drop_first()[x - 1]);
                assert(t[x] == t.drop_first()[x - 1]);
            }
        }
        assert(s.len() == t.len());
        assert(s =~= t);
    }
}

/// Two well-formed maps that hold the same key-value mapping hold the same
/// entries in the same order, however each was built: the order in which
/// keys were inserted leaves no trace in the walk order, which is always
/// ascending by key.
pub proof fn lemma_entries_determined_by_mapping<V>(a: KeyedMap<V>, b: KeyedMap<V>)
    requires
        a.wf(),
        b.wf(),
        a@ == b@,
    ensures
        a.entry_seq() == b.entry_seq(),
{
    lemma_sorted_canonical(a.entry_seq(), b.entry_seq());
}

/// Inserting two different keys gives the same mapping in either order, and of
/// two insertions of one key the later one wins.
pub proof fn lemma_insertions_commute<V>(
    m: Map<Seq<char>, V>,
    k1: Seq<char>,
    v1: V,
    k2: Seq<char>,
    v2: V,
)
    ensures
        k1 != k2 ==> m.insert(k1, v1).insert(k2, v2) == m.insert(k2, v2).insert(k1, v1),
        m.insert(k1, v1).insert(k1, v2) == m.insert(k1, v2),
        m.insert(k1, v1).insert(k2, v2).dom() == m.dom().insert(k1).insert(k2),
{
    if k1 != k2 {
        assert(m.insert(k1, v1).insert(k2, v2) =~= m.insert(k2, v2).insert(k1, v1));
    }
    assert(m.insert(k1, v1).insert(k1, v2) =~= m.insert(k1, v2));
    assert(m.insert(k1, v1).insert(k2, v2).dom() =~= m.dom().insert(k1).insert(k2));
}

/// Compares two byte strings lexicographically.
fn bytes_less(a: &[u8], b: &[u8]) -> (r: bool)
    ensures
        r == bytes_lt(a@, b@),
{
    let mut i: usize = 0;
    assert(a@.subrange(0, a@.len() as int) =~= a@);
    assert(b@.subrange(0, b@.len() as int) =~= b@);
    while i < a.len() && i < b.len()
        invariant
            i <= a@.len(),
            i <= b@.len(),
            bytes_lt(a@, b@) == bytes_lt(
                a@.subrange(i as int, a@.len() as int),
                b@.subrange(i as int, b@.len() as int),
            ),
        decreases a@.len() - i,
    {
        if a[i] != b[i] {
            return a[i] < b[i];
        }
        assert(a@.subrange(i as int, a@.len() as int).drop_first() =~= a@.subrange(
            i + 1,
            a@.len() as int,
        ));
        assert(b@.subrange(i as int, b@.len() as int).drop_first() =~= b@.subrange(
            i + 1,
            b@.len() as int,
        ));
        i = i + 1;
    }
    i >= a.len() && i < b.len()
}

/// Compares two keys in the order of `key_lt`.
fn key_less(a: &String, b: &String) -> (r: bool)
    ensures
        r == key_lt(a@, b@),
{
    bytes_less(a.as_str().as_bytes(), b.as_str().as_bytes())
}

/// A map from string keys to values whose entries are kept in sorted key order.
///
/// Inserting a key that is present replaces its value; walking the entries
/// yields them in ascending key order.
pub struct KeyedMap<V> {
    entries: Vec<(String, V)>,
}

impl<V> KeyedMap<V> {
    /// The entries, each key by its characters, in stored order.
    pub closed spec fn entry_seq(&self) -> Seq<(Seq<char>, V)> {
        self.entries@.map_values(|e: (String, V)| (e.0@, e.1))
    }

    /// The map's invariant: keys strictly ascending.
    pub open spec fn wf(&self) -> bool {
        sorted_entries(self.entry_seq())
    }

    /// The key-value mapping held.
    pub open spec fn view(&self) -> Map<Seq<char>, V> {
        entries_map(self.entry_seq())
    }

    /// An empty map.
    pub fn new() -> (r: Self)
        ensures
            r.wf(),
            r.entry_seq() == Seq::<(Seq<char>, V)>::empty(),
            r@ == Map::<Seq<char>, V>::empty(),
    {
        let r = KeyedMap { entries: Vec::new() };
        assert(r.entry_seq() =~= Seq::<(Seq<char>, V)>::empty());
        assert(r@ =~= Map::<Seq<char>, V>::empty());
        r
    }

    /// Number of entries.
    pub fn len(&self) -> (r: usize)
        ensures
            r == self.entry_seq().len(),
    {
        self.entries.len()
    }

    /// The key of the `i`-th entry in ascending order.
    pub fn key_at(&self, i: usize) -> (r: &String)
        requires
            i < self.entry_seq().len(),
        ensures
            r@ == self.entry_seq()[i as int].0,
    {
        &self.entries[i].0
    }

    /// The value of the `i`-th entry in ascending order.
    pub fn value_at(&self, i: usize) -> (r: &V)
        requires
            i < self.entry_seq().len(),
        ensures
            *r == self.entry_seq()[i as int].1,
    {
        &self.entries[i].1
    }

    /// Looks a key up.
    pub fn get(&self, k: &str) -> (r: Option<&V>)
        requires
            self.wf(),
        ensures
            match r {
                Some(v) => self@.contains_key(k@) && *v == self@[k@],
                None => !self@.contains_key(k@),
            },
    {
        let ghost s = self.entry_seq();
        let key = k.to_owned();
        let mut i: usize = 0;
        while i < self.entries.len()
            invariant
                s == self.entry_seq(),
                s.len() == self.entries@.len(),
                sorted_entries(s),
                i <= s.len(),
                key@ == k@,
                forall|j: int| 0 <= j < i ==> s[j].0 != k@,
            decreases s.len() - i,
        {
            if self.entries[i].0 == key {
                proof {
                    lemma_entries_map_index(s, i as int);
                }
                return Some(&self.entries[i].1);
            }
            i = i + 1;
        }
        None
    }

    /// Sets the value of `k` to `v`, replacing any earlier value of `k`.
    pub fn insert(&mut self, k: String, v: V)
        requires
            old(self).wf(),
        ensures
            final(self).wf(),
            final(self)@ == old(self)@.insert(k@, v),
    {
        let ghost s = self.entry_seq();
        let mut i: usize = 0;
        while i < self.entries.len() && key_less(&self.entries[i].0, &k)
            invariant
                s == self.entry_seq(),
                s.len() == self.entries@.len(),
                sorted_entries(s),
                i <= s.len(),
                forall|j: int| 0 <= j < i ==> key_lt(#[trigger] s[j].0, k@),
            decreases s.len() - i,
        {
            i = i + 1;
        }
        let ghost kk = k@;
        let ghost vv = v;
        if i < self.entries.len() && self.entries[i].0 == k {
            self.entries.remove(i);
            self.entries.insert(i, (k, v));
            proof {
                let t = self.entry_seq();
                assert(t =~= s.update(i as int, (kk, vv)));
                assert forall|a: int, b: int| 0 <= a < b < t.len() implies key_lt(
                    #[trigger] t[a].0,
                    #[trigger] t[b].0,
                ) by {
                    assert(s[a].0 == t[a].0);
                    assert(s[b].0 == t[b].0);
                }
                self.lemma_view_after_update(s, i as int, kk, vv);
            }
        } else {
            self.entries.insert(i, (k, v));
            proof {
                let t = self.entry_seq();
                assert(t =~= s.insert(i as int, (kk, vv)));
                if i < s.len() {
                    lemma_key_lt_total(s[i as int].0, kk);
                }
                assert(!has_key(s, kk)) by {
                    if has_key(s, kk) {
                        let j = key_index(s, kk);
                        lemma_key_lt_irreflexive(kk);
                        if j > i {
                            lemma_key_lt_transitive(kk, s[i as int].0, s[j].0);
                        }
                    }
                }
                assert forall|a: int, b: int| 0 <= a < b < t.len() implies key_lt(
                    #[trigger] t[a].0,
                    #[trigger] t[b].0,
                ) by {
                    if b < i {
                    } else if b == i {
                    } else if a == i {
                        if b - 1 > i {
                            lemma_key_lt_transitive(kk, s[i as int].0, s[b - 1].0);
                        }
                    } else if a < i {
                        lemma_key_lt_transitive(s[a].0, kk, s[i as int].0);
                        if b - 1 > i {
                            lemma_key_lt_transitive(s[a].0, s[i as int].0, s[b - 1].0);
                        }
                    } else {
                        assert(key_lt(s[a - 1].0, s[b - 1].0));
                    }
                }
                self.lemma_view_after_insert(s, i as int, kk, vv);
            }
        }
    }

    proof fn lemma_view_after_update(&self, s: Seq<(Seq<char>, V)>, i: int, k: Seq<char>, v: V)
        requires
            sorted_entries(s),
            0 <= i < s.len(),
            s[i].0 == k,
            self.entry_seq() == s.update(i, (k, v)),
            sorted_entries(self.entry_seq()),
        ensures
            self@ == entries_map(s).insert(k, v),
    {
        let t = self.entry_seq();
        let m = entries_map(s).insert(k, v);
        assert(t.len() == s.len());
        assert forall|kx: Seq<char>| #[trigger] has_key(t, kx) == m.contains_key(kx) by {
            if has_key(s, kx) {
                let j = choose|j: int| 0 <= j < s.len() && #[trigger] s[j].0 == kx;
                assert(t[j].0 == kx);
            }
            if kx == k {
                assert(t[i].0 == kx);
            }
            if has_key(t, kx) {
                let j = choose|j: int| 0 <= j < t.len() && #[trigger] t[j].0 == kx;
                assert(s[j].0 == kx);
            }
        }
        assert forall|kx: Seq<char>| #[trigger] m.contains_key(kx) implies entries_map(t)[kx]
            == m[kx] by {
            assert(has_key(t, kx));
            let j = choose|j: int| 0 <= j < t.len() && #[trigger] t[j].0 == kx;
            assert(s[j].0 == kx);
            lemma_entries_map_index(t, j);
            if kx == k {
                lemma_sorted_unique(s, i, j);
            } else {
                lemma_entries_map_index(s, j);
            }
        }
        assert(entries_map(t) =~= m);
    }

    proof fn lemma_view_after_insert(&self, s: Seq<(Seq<char>, V)>, i: int, k: Seq<char>, v: V)
        requires
            sorted_entries(s),
            0 <= i <= s.len(),
            !has_key(s, k),
            self.entry_seq() == s.insert(i, (k, v)),
            sorted_entries(self.entry_seq()),
        ensures
            self@ == entries_map(s).insert(k, v),
    {
        let t = self.entry_seq();
        let m = entries_map(s).insert(k, v);
        assert(t.len() == s.len() + 1);
        assert forall|kx: Seq<char>| #[trigger] has_key(t, kx) == m.contains_key(kx) by {
            if has_key(s, kx) {
                let j = choose|j: int| 0 <= j < s.len() && #[trigger] s[j].0 == kx;
                if j < i {
                    assert(t[j].0 == kx);
                } else {
                    assert(t[j + 1].0 == kx);
                }
            }
            if kx == k {
                assert(t[i].0 == kx);
            }
            if has_key(t, kx) && kx != k {
                let j = choose|j: int| 0 <= j < t.len() && #[trigger] t[j].0 == kx;
                if j < i {
                    assert(s[j].0 == kx);
                } else {
                    assert(s[j - 1].0 == kx);
                }
            }
        }
        assert forall|kx: Seq<char>| #[trigger] m.contains_key(kx) implies entries_map(t)[kx]
            == m[kx] by {
            assert(has_key(t, kx));
            let j = choose|j: int| 0 <= j < t.len() && #[trigger] t[j].0 == kx;
            lemma_entries_map_index(t, j);
            if j < i {
                assert(s[j].0 == kx);
                lemma_entries_map_index(s, j);
            } else if j > i {
                assert(s[j - 1].0 == kx);
                lemma_entries_map_index(s, j - 1);
            }
        }
        assert(entries_map(t) =~= m);
    }
}

} // verus!
