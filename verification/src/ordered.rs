//! A map whose entries stand in the order of their keys, and the order of texts.
use crate::text;
use vstd::prelude::*;

verus! {

/// How one key stands to another.
#[derive(Debug, Clone, Copy, PartialEq, Eq, Structural)]
pub enum Relation {
    Before,
    Same,
    Behind,
}

/// A key of an [`OrderedMap`]: a type whose views are in a strict total order.
pub trait Key: View + Sized {
    /// `a` stands before `b`.
    spec fn before(a: Self::V, b: Self::V) -> bool;

    /// No key stands before itself.
    proof fn irreflexive(a: Self::V)
        ensures
            !Self::before(a, a),
    ;

    /// The order is transitive.
    proof fn transitive(a: Self::V, b: Self::V, c: Self::V)
        requires
            Self::before(a, b),
            Self::before(b, c),
        ensures
            Self::before(a, c),
    ;

    /// How this key stands to `other`.
    fn relation(&self, other: &Self) -> (r: Relation)
        ensures
            match r {
                Relation::Before => Self::before(self@, other@),
                Relation::Same => self@ == other@,
                Relation::Behind => Self::before(other@, self@),
            },
    ;
}

/// The lexicographic order of texts by the code points of their characters.
pub open spec fn text_before(a: Seq<char>, b: Seq<char>) -> bool
    decreases a.len(),
{
    if b.len() == 0 {
        false
    } else if a.len() == 0 {
        true
    } else if a[0] != b[0] {
        a[0] < b[0]
    } else {
        text_before(a.drop_first(), b.drop_first())
    }
}

/// No text stands before itself.
pub proof fn text_order_is_irreflexive(a: Seq<char>)
    ensures
        !text_before(a, a),
    decreases a.len(),
{
    if a.len() > 0 {
        text_order_is_irreflexive(a.drop_first());
    }
}

/// The order of texts is transitive.
pub proof fn text_order_is_transitive(a: Seq<char>, b: Seq<char>, c: Seq<char>)
    requires
        text_before(a, b),
        text_before(b, c),
    ensures
        text_before(a, c),
    decreases a.len(),
{
    if a.len() > 0 && a[0] == b[0] && b[0] == c[0] {
        text_order_is_transitive(a.drop_first(), b.drop_first(), c.drop_first());
    }
}

/// How the text `a` stands to the text `b`.
pub fn text_relation(a: &str, b: &str) -> (r: Relation)
    ensures
        match r {
            Relation::Before => text_before(a@, b@),
            Relation::Same => a@ == b@,
            Relation::Behind => text_before(b@, a@),
        },
{
    let x: Vec<char> = text::chars_of(a);
    let y: Vec<char> = text::chars_of(b);
    let mut i: usize = 0;
    assert(x@.skip(0) =~= a@);
    assert(y@.skip(0) =~= b@);
    while i < x.len() && i < y.len() && x[i] == y[i]
        invariant
            i <= x.len(),
            i <= y.len(),
            x@ == a@,
            y@ == b@,
            x@.take(i as int) == y@.take(i as int),
            text_before(a@, b@) == text_before(x@.skip(i as int), y@.skip(i as int)),
            text_before(b@, a@) == text_before(y@.skip(i as int), x@.skip(i as int)),
        decreases x.len() - i,
    {
        assert(x@.skip(i as int).drop_first() =~= x@.skip(i + 1));
        assert(y@.skip(i as int).drop_first() =~= y@.skip(i + 1));
        assert(x@.take(i + 1) =~= x@.take(i as int).push(x@[i as int]));
        assert(y@.take(i + 1) =~= y@.take(i as int).push(y@[i as int]));
        i += 1;
    }
    if i == x.len() && i == y.len() {
        assert(x@.take(i as int) =~= a@);
        assert(y@.take(i as int) =~= b@);
        Relation::Same
    } else if i == x.len() {
        Relation::Before
    } else if i == y.len() {
        Relation::Behind
    } else if x[i] < y[i] {
        Relation::Before
    } else {
        Relation::Behind
    }
}

impl Key for String {
    open spec fn before(a: Seq<char>, b: Seq<char>) -> bool {
        text_before(a, b)
    }

    proof fn irreflexive(a: Seq<char>) {
        text_order_is_irreflexive(a);
    }

    proof fn transitive(a: Seq<char>, b: Seq<char>, c: Seq<char>) {
        text_order_is_transitive(a, b, c);
    }

    fn relation(&self, other: &Self) -> (r: Relation) {
        text_relation(self.as_str(), other.as_str())
    }
}

/// A map from keys to values that walks its entries in the order of the keys.
#[derive(Debug, PartialEq, Eq)]
pub struct OrderedMap<K: Key, T: View> {
    entries: Vec<(K, T)>,
}

/// The keys of the entries, in order.
pub closed spec fn keys_of<K: Key, T: View>(entries: Seq<(K, T)>) -> Seq<K::V> {
    Seq::new(entries.len(), |i: int| entries[i].0@)
}

/// Each key stands before all later ones.
pub open spec fn ascending<K: Key>(keys: Seq<K::V>) -> bool {
    forall|i: int, j: int|
        0 <= i < j < keys.len() ==> K::before(#[trigger] keys[i], #[trigger] keys[j])
}

impl<K: Key, T: View> OrderedMap<K, T> {
    #[verifier::type_invariant]
    spec fn well_formed(&self) -> bool {
        ascending::<K>(keys_of(self.entries@))
    }

    /// The keys in order.
    pub closed spec fn keys(&self) -> Seq<K::V> {
        keys_of(self.entries@)
    }
}

/// The map that a sequence of entries spells out; a later entry wins over an earlier one.
pub closed spec fn map_of<K: Key, T: View>(entries: Seq<(K, T)>) -> Map<K::V, T::V>
    decreases entries.len(),
{
    if entries.len() == 0 {
        Map::empty()
    } else {
        map_of(entries.drop_last()).insert(entries.last().0@, entries.last().1@)
    }
}

impl<K: Key, T: View> View for OrderedMap<K, T> {
    type V = Map<K::V, T::V>;

    closed spec fn view(&self) -> Map<K::V, T::V> {
        map_of(self.entries@)
    }
}

/// The map of ascending entries has each entry's key with that entry's value, and no other key.
proof fn lemma_map_of<K: Key, T: View>(entries: Seq<(K, T)>)
    requires
        ascending::<K>(keys_of(entries)),
    ensures
        forall|i: int|
            0 <= i < entries.len() ==> {
                &&& map_of(entries).contains_key(#[trigger] entries[i].0@)
                &&& map_of(entries)[entries[i].0@] == entries[i].1@
            },
        forall|k: K::V|
            map_of(entries).contains_key(k) ==> exists|i: int|
                0 <= i < entries.len() && #[trigger] entries[i].0@ == k,
        map_of(entries).dom() =~= keys_of(entries).to_set(),
    decreases entries.len(),
{
    let keys = keys_of(entries);
    if entries.len() > 0 {
        let front = entries.drop_last();
        assert(keys_of(front) =~= keys.drop_last());
        assert(ascending::<K>(keys_of(front)));
        lemma_map_of(front);
        assert forall|i: int| 0 <= i < entries.len() implies {
            &&& map_of(entries).contains_key(#[trigger] entries[i].0@)
            &&& map_of(entries)[entries[i].0@] == entries[i].1@
        } by {
            if i < front.len() {
                assert(front[i] == entries[i]);
                assert(K::before(keys[i], keys[entries.len() - 1]));
                K::irreflexive(entries.last().0@);
            }
        }
        assert forall|k: K::V| map_of(entries).contains_key(k) implies exists|i: int|
            0 <= i < entries.len() && #[trigger] entries[i].0@ == k by {
            if k == entries.last().0@ {
                assert(entries[entries.len() - 1].0@ == k);
            } else {
                let i = choose|i: int| 0 <= i < front.len() && #[trigger] front[i].0@ == k;
                assert(entries[i].0@ == k);
            }
        }
    }
    assert forall|k: K::V| map_of(entries).contains_key(k) == keys.to_set().contains(k) by {
        if map_of(entries).contains_key(k) {
            let i = choose|i: int| 0 <= i < entries.len() && #[trigger] entries[i].0@ == k;
            assert(keys[i] == k);
            assert(keys.contains(k));
        }
        if keys.to_set().contains(k) {
            let i = choose|i: int| 0 <= i < keys.len() && keys[i] == k;
            assert(entries[i].0@ == k);
        }
    }
}

impl<K: Key, T: View> OrderedMap<K, T> {
    /// The map without entries.
    pub fn new() -> (r: Self)
        ensures
            r@ == Map::<K::V, T::V>::empty(),
    {
        let entries: Vec<(K, T)> = Vec::new();
        assert(keys_of(entries@) =~= Seq::empty());
        OrderedMap { entries }
    }

    /// The number of entries.
    pub fn len(&self) -> (r: usize)
        ensures
            r == self.keys().len(),
            ascending::<K>(self.keys()),
            self@.dom() == self.keys().to_set(),
    {
        proof {
            use_type_invariant(self);
            lemma_map_of(self.entries@);
        }
        self.entries.len()
    }

    /// The key and the value of the entry at a position.
    pub fn entry(&self, i: usize) -> (r: (&K, &T))
        requires
            i < self.keys().len(),
        ensures
            r.0@ == self.keys()[i as int],
            self@.contains_key(r.0@),
            r.1@ == self@[r.0@],
    {
        proof {
            use_type_invariant(self);
            lemma_map_of(self.entries@);
        }
        (&self.entries[i].0, &self.entries[i].1)
    }
}

impl<K: Key, T: View> OrderedMap<K, T> {
    /// The position of the first entry whose key does not stand before `key`, and whether that
    /// entry's key is `key`.
    fn position(&self, key: &K) -> (r: (usize, bool))
        ensures
            r.0 <= self.entries@.len(),
            forall|j: int| 0 <= j < r.0 ==> K::before(#[trigger] self.entries@[j].0@, key@),
            r.1 ==> r.0 < self.entries@.len() && self.entries@[r.0 as int].0@ == key@,
            !r.1 && r.0 < self.entries@.len() ==> K::before(key@, self.entries@[r.0 as int].0@),
    {
        let mut i: usize = 0;
        while i < self.entries.len()
            invariant
                i <= self.entries@.len(),
                forall|j: int| 0 <= j < i ==> K::before(#[trigger] self.entries@[j].0@, key@),
            decreases self.entries@.len() - i,
        {
            match self.entries[i].0.relation(key) {
                Relation::Before => {},
                Relation::Same => {
                    return (i, true);
                },
                Relation::Behind => {
                    return (i, false);
                },
            }
            i += 1;
        }
        (i, false)
    }

    /// Where the search for a key ends without a hit, the map has no such key.
    proof fn lemma_absent(entries: Seq<(K, T)>, key: K::V, at: int)
        requires
            ascending::<K>(keys_of(entries)),
            0 <= at <= entries.len(),
            forall|j: int| 0 <= j < at ==> K::before(#[trigger] entries[j].0@, key),
            at < entries.len() ==> K::before(key, entries[at].0@),
        ensures
            !map_of(entries).contains_key(key),
    {
        lemma_map_of(entries);
        K::irreflexive(key);
        if map_of(entries).contains_key(key) {
            let j = choose|j: int| 0 <= j < entries.len() && #[trigger] entries[j].0@ == key;
            if j > at {
                assert(K::before(keys_of(entries)[at], keys_of(entries)[j]));
                K::transitive(key, entries[at].0@, key);
            }
        }
    }

    /// The value of `key`, where there is one.
    pub fn get(&self, key: &K) -> (r: Option<&T>)
        ensures
            match r {
                Some(value) => self@.contains_key(key@) && value@ == self@[key@],
                None => !self@.contains_key(key@),
            },
    {
        proof {
            use_type_invariant(self);
            lemma_map_of(self.entries@);
        }
        let (at, found) = self.position(key);
        if found {
            Some(&self.entries[at].1)
        } else {
            proof {
                Self::lemma_absent(self.entries@, key@, at as int);
            }
            None
        }
    }

    /// Whether there is a value for `key`.
    pub fn contains_key(&self, key: &K) -> (r: bool)
        ensures
            r == self@.contains_key(key@),
    {
        self.get(key).is_some()
    }

    /// Gives `key` the value `value`; an earlier value of the key is dropped.
    pub fn insert(&mut self, key: K, value: T)
        ensures
            final(self)@ == old(self)@.insert(key@, value@),
    {
        proof {
            use_type_invariant(&*self);
        }
        let ghost before = self.entries@;
        let (at, found) = self.position(&key);
        let mut entries: Vec<(K, T)> = Vec::new();
        assert(keys_of(entries@) =~= Seq::empty());
        std::mem::swap(&mut self.entries, &mut entries);
        if found {
            entries[at] = (key, value);
            assert(keys_of(entries@) =~= keys_of(before));
        } else {
            proof {
                Self::lemma_absent(before, key@, at as int);
            }
            entries.insert(at, (key, value));
            assert forall|i: int, j: int| 0 <= i < j < entries@.len() implies K::before(
                #[trigger] keys_of(entries@)[i],
                #[trigger] keys_of(entries@)[j],
            ) by {
                let old_keys = keys_of(before);
                if i < at && j > at {
                    assert(K::before(old_keys[i], old_keys[j - 1]));
                } else if j < at {
                    assert(K::before(old_keys[i], old_keys[j]));
                } else if i > at {
                    assert(K::before(old_keys[i - 1], old_keys[j - 1]));
                } else if i == at {
                    assert(K::before(key@, before[at as int].0@));
                    if j - 1 > at {
                        assert(K::before(old_keys[at as int], old_keys[j - 1]));
                        K::transitive(key@, before[at as int].0@, before[j - 1].0@);
                    }
                } else {
                    assert(K::before(before[i].0@, key@));
                }
            }
        }
        proof {
            lemma_map_of(before);
            lemma_map_of(entries@);
            let now = map_of(entries@);
            let then = map_of(before).insert(key@, value@);
            assert(entries@[at as int].0@ == key@);
            assert forall|k: K::V| now.contains_key(k) == then.contains_key(k) by {
                if now.contains_key(k) && k != key@ {
                    let i = choose|i: int| 0 <= i < entries@.len() && #[trigger] entries@[i].0@ == k;
                    let j = if found || i < at { i } else { i - 1 };
                    assert(before[j].0@ == k);
                }
                if then.contains_key(k) && k != key@ {
                    let i = choose|i: int| 0 <= i < before.len() && #[trigger] before[i].0@ == k;
                    let j = if found || i < at { i } else { i + 1 };
                    assert(entries@[j].0@ == k);
                }
            }
            assert forall|k: K::V| now.contains_key(k) implies now[k] == then[k] by {
                let i = choose|i: int| 0 <= i < entries@.len() && #[trigger] entries@[i].0@ == k;
                if k != key@ {
                    let j = if found || i < at { i } else { i - 1 };
                    assert(before[j] == entries@[i]);
                    assert(map_of(before)[before[j].0@] == before[j].1@);
                }
            }
            assert(now =~= then);
        }
        self.entries = entries;
    }
}

impl OrderedMap<String, String> {
    /// A map with the same entries.
    pub fn duplicate(&self) -> (r: Self)
        ensures
            r@ == self@,
    {
        let mut r: OrderedMap<String, String> = OrderedMap::new();
        let n: usize = self.len();
        let mut i: usize = 0;
        while i < n
            invariant
                i <= n == self.keys().len(),
                self@.dom() == self.keys().to_set(),
                forall|k: Seq<char>| #[trigger] r@.contains_key(k) ==> self@.contains_key(k) && r@[k] == self@[k],
                forall|j: int| 0 <= j < i ==> r@.contains_key(#[trigger] self.keys()[j]),
            decreases n - i,
        {
            let (key, value) = self.entry(i);
            r.insert(key.clone(), value.clone());
            i += 1;
        }
        assert forall|k: Seq<char>| self@.contains_key(k) implies r@.contains_key(k) by {
            assert(self.keys().to_set().contains(k));
            let j = choose|j: int| 0 <= j < self.keys().len() && self.keys()[j] == k;
            assert(r@.contains_key(self.keys()[j]));
        }
        assert(r@ =~= self@);
        r
    }
}

impl Clone for OrderedMap<String, String> {
    fn clone(&self) -> (r: Self)
        ensures
            r@ == self@,
    {
        self.duplicate()
    }
}

/// One text stands before another where it is a proper beginning of it, or where its character is
/// the smaller one at the first place at which they differ.
pub proof fn texts_are_in_dictionary_order(a: Seq<char>, b: Seq<char>)
    ensures
        text_before(a, b) <==> exists|k: int|
            {
                &&& 0 <= k <= a.len() && k < b.len()
                &&& #[trigger] a.take(k) == b.take(k)
                &&& k == a.len() || a[k] < b[k]
            },
    decreases a.len(),
{
    if a.len() > 0 && b.len() > 0 && a[0] == b[0] {
        let x = a.drop_first();
        let y = b.drop_first();
        texts_are_in_dictionary_order(x, y);
        if text_before(x, y) {
            let k = choose|k: int|
                {
                    &&& 0 <= k <= x.len() && k < y.len()
                    &&& #[trigger] x.take(k) == y.take(k)
                    &&& k == x.len() || x[k] < y[k]
                };
            assert(a.take(k + 1) =~= seq![a[0]] + x.take(k));
            assert(b.take(k + 1) =~= seq![b[0]] + y.take(k));
            assert(a.take(k + 1) == b.take(k + 1));
        }
        if exists|k: int|
            {
                &&& 0 <= k <= a.len() && k < b.len()
                &&& #[trigger] a.take(k) == b.take(k)
                &&& k == a.len() || a[k] < b[k]
            } {
            let k = choose|k: int|
                {
                    &&& 0 <= k <= a.len() && k < b.len()
                    &&& #[trigger] a.take(k) == b.take(k)
                    &&& k == a.len() || a[k] < b[k]
                };
            assert(k > 0);
            assert(x.take(k - 1) =~= a.take(k).drop_first());
            assert(y.take(k - 1) =~= b.take(k).drop_first());
            assert(x.take(k - 1) == y.take(k - 1));
        }
    } else if a.len() == 0 && b.len() > 0 {
        assert(a.take(0) =~= b.take(0));
    } else if a.len() > 0 && b.len() > 0 {
        assert(a.take(0) =~= b.take(0));
        if exists|k: int|
            {
                &&& 0 <= k <= a.len() && k < b.len()
                &&& #[trigger] a.take(k) == b.take(k)
                &&& k == a.len() || a[k] < b[k]
            } {
            let k = choose|k: int|
                {
                    &&& 0 <= k <= a.len() && k < b.len()
                    &&& #[trigger] a.take(k) == b.take(k)
                    &&& k == a.len() || a[k] < b[k]
                };
            if k > 0 {
                assert(a.take(k)[0] == b.take(k)[0]);
            }
        }
    }
}

/// What is put into a map under a key is what is found under it, and what is found under any other
/// key is what was found before; an empty map has nothing under any key.
pub proof fn what_is_put_in_is_found<K: Key, T: View>(
    map: &mut OrderedMap<K, T>,
    key: K,
    value: T,
    wanted: &K,
    found: Option<&T>,
    earlier: Option<&T>,
    fresh: OrderedMap<K, T>,
    nothing: Option<&T>,
)
    requires
        call_ensures(OrderedMap::<K, T>::insert, (map, key, value), ()),
        call_ensures(OrderedMap::<K, T>::get, (&*final(map), wanted), found),
        call_ensures(OrderedMap::<K, T>::get, (&*old(map), wanted), earlier),
        call_ensures(OrderedMap::<K, T>::new, (), fresh),
        call_ensures(OrderedMap::<K, T>::get, (&fresh, wanted), nothing),
    ensures
        wanted@ == key@ ==> found is Some && found->0@ == value@,
        wanted@ != key@ ==> found is Some == earlier is Some && (found is Some ==> found->0@
            == earlier->0@),
        nothing is None,
{
}

/// The entries of a map stand in the order of their keys, and two texts are put in the order of a
/// dictionary.
pub proof fn entries_stand_in_order<K: Key, T: View>(
    map: &OrderedMap<K, T>,
    i: usize,
    j: usize,
    one: (&K, &T),
    other: (&K, &T),
    n: usize,
    a: &str,
    b: &str,
    relation: Relation,
)
    requires
        call_ensures(OrderedMap::<K, T>::len, (map,), n),
        i < j < n,
        call_ensures(OrderedMap::<K, T>::entry, (map, i), one),
        call_ensures(OrderedMap::<K, T>::entry, (map, j), other),
        call_ensures(text_relation, (a, b), relation),
    ensures
        K::before(one.0@, other.0@),
        map@.contains_key(one.0@) && map@[one.0@] == one.1@,
        relation == Relation::Before <==> text_before(a@, b@),
        relation == Relation::Same <==> a@ == b@,
        relation == Relation::Behind <==> text_before(b@, a@),
{
    text_order_is_irreflexive(a@);
    if text_before(a@, b@) && text_before(b@, a@) {
        text_order_is_transitive(a@, b@, a@);
    }
}

} // verus!
