//! Maps whose keys are strings, with their entries in the order of the keys.
use vstd::prelude::*;

use crate::text::{chars_of, text_eq};

verus! {

/// The lexicographic order of texts by their characters.
pub open spec fn text_less(a: Seq<char>, b: Seq<char>) -> bool
    decreases a.len(),
{
    if b.len() == 0 {
        false
    } else if a.len() == 0 {
        true
    } else if a[0] == b[0] {
        text_less(a.skip(1), b.skip(1))
    } else {
        a[0] < b[0]
    }
}

/// No text comes before itself.
pub proof fn lemma_text_less_irreflexive(a: Seq<char>)
    ensures
        !text_less(a, a),
    decreases a.len(),
{
    if a.len() > 0 {
        lemma_text_less_irreflexive(a.skip(1));
    }
}

/// The order of texts is transitive.
pub proof fn lemma_text_less_transitive(a: Seq<char>, b: Seq<char>, c: Seq<char>)
    requires
        text_less(a, b),
        text_less(b, c),
    ensures
        text_less(a, c),
    decreases a.len(),
{
    if a.len() > 0 && a[0] == b[0] && b[0] == c[0] {
        lemma_text_less_transitive(a.skip(1), b.skip(1), c.skip(1));
    }
}

/// Of two different texts one comes before the other.
pub proof fn lemma_text_less_total(a: Seq<char>, b: Seq<char>)
    ensures
        a == b || text_less(a, b) || text_less(b, a),
    decreases a.len(),
{
    if a.len() > 0 && b.len() > 0 && a[0] == b[0] {
        lemma_text_less_total(a.skip(1), b.skip(1));
        if a.skip(1) == b.skip(1) {
            assert(a =~= seq![a[0]] + a.skip(1));
            assert(b =~= seq![b[0]] + b.skip(1));
        }
    } else if a.len() == 0 && b.len() == 0 {
        assert(a =~= b);
    }
}

/// Whether the keys of a list of entries increase from each entry to the next.
pub open spec fn in_key_order<V>(list: Seq<(Seq<char>, V)>) -> bool {
    forall|i: int, j: int|
        0 <= i < j < list.len() ==> text_less((#[trigger] list[i]).0, (#[trigger] list[j]).0)
}

/// The map that a list of entries stands for.
pub open spec fn map_of<V>(list: Seq<(Seq<char>, V)>) -> Map<Seq<char>, V>
    decreases list.len(),
{
    if list.len() == 0 {
        Map::empty()
    } else {
        map_of(list.drop_last()).insert(list.last().0, list.last().1)
    }
}

/// The entries of a map in the order of their keys.
pub open spec fn listing<V>(m: Map<Seq<char>, V>) -> Seq<(Seq<char>, V)> {
    choose|list: Seq<(Seq<char>, V)>| in_key_order(list) && #[trigger] map_of(list) == m
}

/// What the map of a list in key order holds: the entries of the list.
pub proof fn lemma_map_of<V>(list: Seq<(Seq<char>, V)>)
    requires
        in_key_order(list),
    ensures
        forall|i: int|
            0 <= i < list.len() ==> map_of(list).contains_key((#[trigger] list[i]).0) && map_of(
                list,
            )[list[i].0] == list[i].1,
        forall|k: Seq<char>| #[trigger]
            map_of(list).contains_key(k) ==> exists|i: int|
                0 <= i < list.len() && (#[trigger] list[i]).0 == k,
        map_of(list).dom().finite(),
        map_of(list).len() == list.len(),
    decreases list.len(),
{
    if list.len() > 0 {
        let front = list.drop_last();
        lemma_map_of(front);
        let last = list.last();
        assert forall|i: int| 0 <= i < front.len() implies (#[trigger] front[i]).0 != last.0 by {
            assert(front[i] == list[i]);
            assert(list[list.len() - 1] == last);
            lemma_text_less_irreflexive(last.0);
        }
        assert(!map_of(front).contains_key(last.0));
        assert forall|i: int| 0 <= i < list.len() implies map_of(list).contains_key(
            (#[trigger] list[i]).0,
        ) && map_of(list)[list[i].0] == list[i].1 by {
            if i < front.len() {
                assert(front[i] == list[i]);
            }
        }
        assert forall|k: Seq<char>| #[trigger] map_of(list).contains_key(k) implies exists|i: int|
            0 <= i < list.len() && (#[trigger] list[i]).0 == k by {
            if k == last.0 {
                assert(list[list.len() - 1].0 == k);
            } else {
                assert(map_of(front).contains_key(k));
                let i = choose|i: int| 0 <= i < front.len() && (#[trigger] front[i]).0 == k;
                assert(list[i].0 == k);
            }
        }
    }
}

/// A list in key order is the listing of the map that it stands for.
pub proof fn lemma_listing_unique<V>(a: Seq<(Seq<char>, V)>, b: Seq<(Seq<char>, V)>)
    requires
        in_key_order(a),
        in_key_order(b),
        map_of(a) == map_of(b),
    ensures
        a == b,
    decreases a.len(),
{
    lemma_map_of(a);
    lemma_map_of(b);
    if a.len() > 0 {
        let m = map_of(a);
        assert(m.contains_key(a.last().0)) by {
            assert(a[a.len() - 1] == a.last());
        }
        assert(m.contains_key(b.last().0)) by {
            assert(b[b.len() - 1] == b.last());
        }
        let i = choose|i: int| 0 <= i < b.len() && (#[trigger] b[i]).0 == a.last().0;
        let j = choose|j: int| 0 <= j < a.len() && (#[trigger] a[j]).0 == b.last().0;
        assert(b[b.len() - 1] == b.last());
        assert(a[a.len() - 1] == a.last());
        if a.last().0 != b.last().0 {
            assert(text_less(b[i].0, b[b.len() - 1].0));
            assert(text_less(a[j].0, a[a.len() - 1].0));
            lemma_text_less_transitive(a.last().0, b.last().0, a.last().0);
            lemma_text_less_irreflexive(a.last().0);
        }
        let k = a.last().0;
        let fa = a.drop_last();
        let fb = b.drop_last();
        assert(in_key_order(fa)) by {
            assert forall|x: int, y: int| 0 <= x < y < fa.len() implies text_less(
                (#[trigger] fa[x]).0,
                (#[trigger] fa[y]).0,
            ) by {
                assert(fa[x] == a[x] && fa[y] == a[y]);
            }
        }
        assert(in_key_order(fb)) by {
            assert forall|x: int, y: int| 0 <= x < y < fb.len() implies text_less(
                (#[trigger] fb[x]).0,
                (#[trigger] fb[y]).0,
            ) by {
                assert(fb[x] == b[x] && fb[y] == b[y]);
            }
        }
        lemma_map_of(fa);
        lemma_map_of(fb);
        assert(!map_of(fa).contains_key(k)) by {
            if map_of(fa).contains_key(k) {
                let x = choose|x: int| 0 <= x < fa.len() && (#[trigger] fa[x]).0 == k;
                assert(fa[x] == a[x]);
                lemma_text_less_irreflexive(k);
            }
        }
        assert(!map_of(fb).contains_key(k)) by {
            if map_of(fb).contains_key(k) {
                let x = choose|x: int| 0 <= x < fb.len() && (#[trigger] fb[x]).0 == k;
                assert(fb[x] == b[x]);
                lemma_text_less_irreflexive(k);
            }
        }
        assert(map_of(fa) =~= m.remove(k));
        assert(map_of(fb) =~= m.remove(k));
        lemma_listing_unique(fa, fb);
        assert(a =~= fa.push(a.last()));
        assert(b =~= fb.push(b.last()));
        assert(a.last().1 == m[k] && b.last().1 == m[k]);
    } else {
        assert(a =~= b);
    }
}

/// The map of a list is listed in the order of its keys, whatever is made of its values.
pub proof fn lemma_listing_mapped<V, W>(list: Seq<(Seq<char>, V)>, f: spec_fn(V) -> W)
    requires
        in_key_order(list),
    ensures
        listing(map_of(list).map_values(f)) == Seq::new(
            list.len(),
            |i: int| (list[i].0, f(list[i].1)),
        ),
{
    let mapped = Seq::new(list.len(), |i: int| (list[i].0, f(list[i].1)));
    lemma_map_of_mapped(list, f);
    assert(in_key_order(mapped)) by {
        assert forall|i: int, j: int| 0 <= i < j < mapped.len() implies text_less(
            (#[trigger] mapped[i]).0,
            (#[trigger] mapped[j]).0,
        ) by {
            assert(text_less(list[i].0, list[j].0));
        }
    }
    assert(in_key_order(mapped) && map_of(mapped) == map_of(list).map_values(f));
    lemma_listing_unique(mapped, listing(map_of(list).map_values(f)));
}

proof fn lemma_map_of_mapped<V, W>(list: Seq<(Seq<char>, V)>, f: spec_fn(V) -> W)
    ensures
        map_of(Seq::new(list.len(), |i: int| (list[i].0, f(list[i].1)))) == map_of(
            list,
        ).map_values(f),
    decreases list.len(),
{
    let mapped = Seq::new(list.len(), |i: int| (list[i].0, f(list[i].1)));
    if list.len() > 0 {
        let front = list.drop_last();
        lemma_map_of_mapped(front, f);
        assert(mapped.drop_last() =~= Seq::new(front.len(), |i: int| (front[i].0, f(front[i].1))));
    }
    assert(map_of(mapped) =~= map_of(list).map_values(f));
}

proof fn lemma_remove<V>(list: Seq<(Seq<char>, V)>, at: int)
    requires
        in_key_order(list),
        0 <= at < list.len(),
    ensures
        in_key_order(list.remove(at)),
        map_of(list.remove(at)) == map_of(list).remove(list[at].0),
{
    let new = list.remove(at);
    let key = list[at].0;
    assert forall|i: int| 0 <= i < new.len() implies #[trigger] new[i] == list[if i < at {
        i
    } else {
        i + 1
    }] by {}
    assert(in_key_order(new));
    lemma_map_of(list);
    lemma_map_of(new);
    lemma_text_less_irreflexive(key);
    assert forall|k: Seq<char>| map_of(new).contains_key(k) == map_of(list).remove(
        key,
    ).contains_key(k) by {
        if map_of(new).contains_key(k) {
            let i = choose|i: int| 0 <= i < new.len() && (#[trigger] new[i]).0 == k;
            assert(new[i] == list[if i < at {
                i
            } else {
                i + 1
            }]);
        }
        if map_of(list).contains_key(k) && k != key {
            let i = choose|i: int| 0 <= i < list.len() && (#[trigger] list[i]).0 == k;
            if i < at {
                assert(new[i] == list[i]);
            } else {
                assert(new[i - 1] == list[i]);
            }
        }
    }
    assert forall|k: Seq<char>| #[trigger] map_of(new).contains_key(k) implies map_of(new)[k]
        == map_of(list).remove(key)[k] by {
        let i = choose|i: int| 0 <= i < new.len() && (#[trigger] new[i]).0 == k;
        assert(new[i] == list[if i < at {
            i
        } else {
            i + 1
        }]);
    }
    assert(map_of(new) =~= map_of(list).remove(key));
}

/// A new key at its place in a list keeps the list in order.
proof fn lemma_insert<V>(list: Seq<(Seq<char>, V)>, at: int, key: Seq<char>, value: V)
    requires
        in_key_order(list),
        0 <= at <= list.len(),
        !map_of(list).contains_key(key),
        forall|i: int| 0 <= i < at ==> text_less((#[trigger] list[i]).0, key),
        at < list.len() ==> !text_less(list[at].0, key),
    ensures
        in_key_order(list.insert(at, (key, value))),
        map_of(list.insert(at, (key, value))) == map_of(list).insert(key, value),
{
    let item = (key, value);
    let new = list.insert(at, item);
    let before = map_of(list);
    lemma_map_of(list);
    assert forall|i: int| at <= i < list.len() implies text_less(key, (#[trigger] list[i]).0) by {
        lemma_text_less_total(key, list[i].0);
        assert(before.contains_key(list[i].0));
        if i > at {
            lemma_text_less_total(key, list[at].0);
            assert(before.contains_key(list[at].0));
            lemma_text_less_transitive(key, list[at].0, list[i].0);
        }
    }
    assert(in_key_order(new));
    lemma_map_of(new);
    assert forall|k: Seq<char>| map_of(new).contains_key(k) == before.insert(
        key,
        value,
    ).contains_key(k) by {
        if map_of(new).contains_key(k) {
            let i = choose|i: int| 0 <= i < new.len() && (#[trigger] new[i]).0 == k;
            if i < at {
                assert(new[i] == list[i]);
            } else if i > at {
                assert(new[i] == list[i - 1]);
            }
        }
        if before.contains_key(k) {
            let i = choose|i: int| 0 <= i < list.len() && (#[trigger] list[i]).0 == k;
            if i < at {
                assert(new[i] == list[i]);
            } else {
                assert(new[i + 1] == list[i]);
            }
        }
        if k == key {
            assert(new[at] == item);
        }
    }
    assert forall|k: Seq<char>| #[trigger] map_of(new).contains_key(k) implies map_of(new)[k]
        == before.insert(key, value)[k] by {
        let i = choose|i: int| 0 <= i < new.len() && (#[trigger] new[i]).0 == k;
        if i < at {
            assert(new[i] == list[i]);
        } else if i > at {
            assert(new[i] == list[i - 1]);
        }
        if k == key {
            assert(new[at] == item);
        }
    }
    assert(map_of(new) =~= before.insert(key, value));
}

/// The place of a key in a list.
proof fn lemma_place<V>(list: Seq<(Seq<char>, V)>, key: Seq<char>) -> (at: int)
    requires
        in_key_order(list),
    ensures
        0 <= at <= list.len(),
        forall|i: int| 0 <= i < at ==> text_less((#[trigger] list[i]).0, key),
        at < list.len() ==> !text_less(list[at].0, key),
    decreases list.len(),
{
    if list.len() == 0 {
        0
    } else if text_less(list.last().0, key) {
        let n = list.len() as int;
        assert forall|i: int| 0 <= i < n implies text_less((#[trigger] list[i]).0, key) by {
            if i < n - 1 {
                assert(text_less(list[i].0, list[n - 1].0));
                lemma_text_less_transitive(list[i].0, list[n - 1].0, key);
            }
        }
        n
    } else {
        let front = list.drop_last();
        assert(in_key_order(front)) by {
            assert forall|x: int, y: int| 0 <= x < y < front.len() implies text_less(
                (#[trigger] front[x]).0,
                (#[trigger] front[y]).0,
            ) by {
                assert(front[x] == list[x] && front[y] == list[y]);
            }
        }
        let at = lemma_place(front, key);
        assert forall|i: int| 0 <= i < at implies text_less((#[trigger] list[i]).0, key) by {
            assert(front[i] == list[i]);
        }
        if at < front.len() {
            assert(front[at] == list[at]);
        }
        at
    }
}

/// Every finite map has a listing.
pub proof fn lemma_listing<V>(m: Map<Seq<char>, V>)
    requires
        m.dom().finite(),
    ensures
        in_key_order(listing(m)),
        map_of(listing(m)) == m,
    decreases m.dom().len(),
{
    if m.dom().len() == 0 {
        let none = Seq::<(Seq<char>, V)>::empty();
        assert(map_of(none) =~= m);
        assert(in_key_order(none));
    } else {
        let k = m.dom().choose();
        let rest = m.remove(k);
        lemma_listing(rest);
        let at = lemma_place(listing(rest), k);
        lemma_insert(listing(rest), at, k, m[k]);
        let list = listing(rest).insert(at, (k, m[k]));
        assert(rest.insert(k, m[k]) =~= m);
        assert(in_key_order(list) && map_of(list) == m);
    }
}

/// Whether the first text comes before the second.
pub(crate) fn comes_before(a: &str, b: &str) -> (r: bool)
    ensures
        r == text_less(a@, b@),
{
    let x = chars_of(a);
    let y = chars_of(b);
    let mut i: usize = 0;
    assert(x@.skip(0) =~= x@);
    assert(y@.skip(0) =~= y@);
    while i < x.len() && i < y.len() && x[i] == y[i]
        invariant
            i <= x@.len(),
            i <= y@.len(),
            text_less(x@, y@) == text_less(x@.skip(i as int), y@.skip(i as int)),
        decreases x@.len() - i,
    {
        assert(x@.skip(i as int).skip(1) =~= x@.skip(i + 1));
        assert(y@.skip(i as int).skip(1) =~= y@.skip(i + 1));
        i = i + 1;
    }
    if i >= y.len() {
        false
    } else if i >= x.len() {
        true
    } else {
        x[i] < y[i]
    }
}

/// A map from strings to values of one type.
#[derive(Debug)]
pub struct TextMap<V> {
    entries: Vec<(String, V)>,
}

/// Entries with their keys as texts.
pub open spec fn entry_texts<V>(entries: Seq<(String, V)>) -> Seq<(Seq<char>, V)> {
    Seq::new(entries.len(), |i: int| (entries[i].0@, entries[i].1))
}

impl<V> View for TextMap<V> {
    type V = Map<Seq<char>, V>;

    closed spec fn view(&self) -> Map<Seq<char>, V> {
        map_of(self.list())
    }
}

impl<V> TextMap<V> {
    /// The entries in the order of their keys.
    pub closed spec fn list(&self) -> Seq<(Seq<char>, V)> {
        entry_texts(self.entries@)
    }

    #[verifier::type_invariant]
    closed spec fn well_formed(&self) -> bool {
        in_key_order(self.list())
    }

    /// The map without entries.
    pub fn new() -> (r: Self)
        ensures
            r@ == Map::<Seq<char>, V>::empty(),
    {
        TextMap { entries: Vec::new() }
    }

    /// The number of entries.
    pub fn len(&self) -> (r: usize)
        ensures
            r == self@.len(),
            r == self.list().len(),
            self@.dom().finite(),
            self.list() == listing(self@),
            in_key_order(self.list()),
            map_of(self.list()) == self@,
    {
        proof {
            use_type_invariant(self);
            lemma_map_of(self.list());
            assert(in_key_order(self.list()) && map_of(self.list()) == self@);
            lemma_listing_unique(self.list(), listing(self@));
        }
        self.entries.len()
    }

    /// Whether there is no entry.
    pub fn is_empty(&self) -> (r: bool)
        ensures
            r == (self@ == Map::<Seq<char>, V>::empty()),
    {
        let n: usize = self.len();
        proof {
            if n == 0 {
                assert(self@ =~= Map::<Seq<char>, V>::empty());
            }
        }
        n == 0
    }

    /// The entry at a position in the order of the keys.
    pub fn entry(&self, i: usize) -> (r: (&String, &V))
        requires
            i < self.list().len(),
        ensures
            (r.0@, *r.1) == self.list()[i as int],
    {
        let e = &self.entries[i];
        (&e.0, &e.1)
    }

    fn position(&self, key: &str) -> (r: Option<usize>)
        ensures
            match r {
                Some(i) => i < self.list().len() && self.list()[i as int].0 == key@
                    && self@.contains_key(key@) && self@[key@] == self.list()[i as int].1,
                None => !self@.contains_key(key@),
            },
    {
        let mut i: usize = 0;
        while i < self.entries.len()
            invariant
                i <= self.entries.len(),
                forall|j: int| 0 <= j < i ==> (#[trigger] self.list()[j]).0 != key@,
            decreases self.entries.len() - i,
        {
            if text_eq(self.entries[i].0.as_str(), key) {
                proof {
                    use_type_invariant(self);
                    lemma_map_of(self.list());
                    assert(self.list()[i as int].0 == key@);
                }
                return Some(i);
            }
            i = i + 1;
        }
        proof {
            use_type_invariant(self);
            lemma_map_of(self.list());
        }
        None
    }

    /// The value of a key.
    pub fn get(&self, key: &str) -> (r: Option<&V>)
        ensures
            match r {
                Some(v) => self@.contains_key(key@) && *v == self@[key@],
                None => !self@.contains_key(key@),
            },
    {
        match self.position(key) {
            Some(i) => Some(&self.entries[i].1),
            None => None,
        }
    }

    /// Whether a key has a value.
    pub fn contains_key(&self, key: &str) -> (r: bool)
        ensures
            r == self@.contains_key(key@),
    {
        self.position(key).is_some()
    }

    /// Takes the entry of a key out of the map.
    pub fn remove(&mut self, key: &str)
        ensures
            final(self)@ == old(self)@.remove(key@),
    {
        proof {
            use_type_invariant(&*self);
        }
        let ghost list = self.list();
        if let Some(i) = self.position(key) {
            let mut entries: Vec<(String, V)> = Vec::new();
            std::mem::swap(&mut entries, &mut self.entries);
            let _removed = entries.remove(i);
            proof {
                lemma_remove(list, i as int);
                assert(entry_texts(entries@) =~= list.remove(i as int));
            }
            self.entries = entries;
        } else {
            assert(self@.remove(key@) =~= self@);
        }
    }

    /// Gives a key a value, in place of the one that it had.
    pub fn insert(&mut self, key: String, value: V)
        ensures
            final(self)@ == old(self)@.insert(key@, value),
    {
        self.remove(key.as_str());
        proof {
            use_type_invariant(&*self);
        }
        let ghost removed = self@;
        let ghost list = self.list();
        let mut entries: Vec<(String, V)> = Vec::new();
        std::mem::swap(&mut entries, &mut self.entries);
        let mut at: usize = 0;
        while at < entries.len() && comes_before(entries[at].0.as_str(), key.as_str())
            invariant
                at <= entries.len(),
                list == entry_texts(entries@),
                forall|i: int| 0 <= i < at ==> text_less((#[trigger] list[i]).0, key@),
            decreases entries.len() - at,
        {
            assert(list[at as int].0 == entries@[at as int].0@);
            at = at + 1;
        }
        let ghost item = (key@, value);
        entries.insert(at, (key, value));
        proof {
            let new = list.insert(at as int, item);
            assert(entry_texts(entries@) =~= new);
            lemma_insert(list, at as int, item.0, item.1);
            assert(old(self)@.remove(item.0).insert(item.0, item.1) =~= old(self)@.insert(
                item.0,
                item.1,
            ));
        }
        self.entries = entries;
    }
}

impl<V> Default for TextMap<V> {
    fn default() -> (r: Self)
        ensures
            r@ == Map::<Seq<char>, V>::empty(),
    {
        TextMap::new()
    }
}

/// The order of texts: where two differ, the character decides, and a text comes before those that go on
/// behind it.
pub proof fn law_order_of_texts(common: Seq<char>, a: Seq<char>, b: Seq<char>)
    requires
        a.len() > 0 && b.len() > 0 ==> a[0] != b[0],
    ensures
        text_less(common + a, common + b) <==> b.len() > 0 && (a.len() == 0 || a[0] < b[0]),
    decreases common.len(),
{
    if common.len() == 0 {
        assert(common + a =~= a);
        assert(common + b =~= b);
    } else {
        assert((common + a)[0] == common[0] && (common + b)[0] == common[0]);
        assert((common + a).skip(1) =~= common.skip(1) + a);
        assert((common + b).skip(1) =~= common.skip(1) + b);
        law_order_of_texts(common.skip(1), a, b);
    }
}

/// A list of pairs as a map: of the pairs with one key the last one counts.
pub proof fn law_last_pair_counts<V>(list: Seq<(Seq<char>, V)>, key: Seq<char>, value: V)
    ensures
        map_of(Seq::<(Seq<char>, V)>::empty()) == Map::<Seq<char>, V>::empty(),
        map_of(list + seq![(key, value)]) == map_of(list).insert(key, value),
{
    assert((list + seq![(key, value)]).drop_last() =~= list);
    assert((list + seq![(key, value)]).last() == (key, value));
}

} // verus!
